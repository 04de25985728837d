//! Vector-store client surface: collection names, the store's endpoint,
//! scope-filter expressions, and the parser for simple equality filters.

use vstd::prelude::*;
use crate::strutil::{contains_seq, find_first, spec_trim, trim_bounds};

verus! {

/// Dimension of the stored embedding vectors.
pub const VECTOR_DIM: u64 = 768;

/// The store's HTTP endpoint.
pub fn qdrant_url() -> (r: &'static str)
    ensures
        r@ == "http://127.0.0.1:6333"@,
{
    "http://127.0.0.1:6333"
}

/// Collection holding ingested document chunks.
pub fn documents_collection() -> (r: &'static str)
    ensures
        r@ == "chat"@,
{
    "chat"
}

/// Collection holding vectorized conversation turns.
pub fn conversations_collection() -> (r: &'static str)
    ensures
        r@ == "conversations"@,
{
    "conversations"
}

/// A value with surrounding matching quotes removed: one layer of single
/// or double quotes, only when the value has both and room for both.
pub open spec fn spec_unquote(v: Seq<char>) -> Seq<char> {
    if v.len() >= 2 && ((v.first() == '\'' && v.last() == '\'') || (v.first() == '"' && v.last()
        == '"')) {
        v.subrange(1, v.len() - 1)
    } else {
        v
    }
}

/// Parse a simple `field = value` filter: the field is what stands before
/// the first ` = `, trimmed; the value is what stands after it, trimmed
/// and unquoted. An expression without ` = ` is no filter.
pub fn parse_simple_filter(filter_expr: &str) -> (r: Option<(String, String)>)
    ensures
        match r {
            Some(fv) => exists|i: int|
                0 <= i && i + 3 <= filter_expr@.len() && #[trigger] filter_expr@.subrange(i, i + 3)
                    == " = "@ && (forall|k: int|
                    0 <= k < i ==> #[trigger] filter_expr@.subrange(k, k + 3) != " = "@) && fv.0@
                    == spec_trim(filter_expr@.subrange(0, i)) && fv.1@ == spec_unquote(spec_trim(
                    filter_expr@.subrange(i + 3, filter_expr@.len() as int),
                )),
            None => !contains_seq(filter_expr@, " = "@),
        },
{
    let n = filter_expr.unicode_len();
    match find_first(filter_expr, " = ") {
        Some(eq_pos) => {
            proof {
                reveal_strlit(" = ");
            }
            let fb = trim_bounds(filter_expr, 0, eq_pos);
            let field = filter_expr.substring_char(fb.0, fb.1).to_owned();
            let vb = trim_bounds(filter_expr, eq_pos + 3, n);
            let vlen = vb.1 - vb.0;
            let stripped: (usize, usize) = if vlen >= 2 {
                let first = filter_expr.get_char(vb.0);
                let last = filter_expr.get_char(vb.1 - 1);
                if (first == '\'' && last == '\'') || (first == '"' && last == '"') {
                    (vb.0 + 1, vb.1 - 1)
                } else {
                    (vb.0, vb.1)
                }
            } else {
                (vb.0, vb.1)
            };
            let value = filter_expr.substring_char(stripped.0, stripped.1).to_owned();
            proof {
                let t = spec_trim(filter_expr@.subrange(eq_pos + 3, filter_expr@.len() as int));
                assert(t == filter_expr@.subrange(vb.0 as int, vb.1 as int));
                if stripped.0 != vb.0 {
                    assert(t.first() == filter_expr@.index(vb.0 as int));
                    assert(t.last() == filter_expr@.index(vb.1 - 1));
                    assert(filter_expr@.subrange(stripped.0 as int, stripped.1 as int)
                        =~= t.subrange(1, t.len() - 1));
                } else {
                    assert(value@ == spec_unquote(t));
                }
            }
            Some((field, value))
        },
        None => None,
    }
}

/// The filter that scopes a conversation search to one project while
/// excluding the current thread.
pub fn project_scope_filter(project_id: &str, current_thread_id: &str) -> (r: String)
    ensures
        r@ == "project_id = '"@ + project_id@ + "' AND thread_id != '"@ + current_thread_id@
            + "'"@,
{
    let mut out = String::from_str("project_id = '");
    out.append(project_id);
    out.append("' AND thread_id != '");
    out.append(current_thread_id);
    out.append("'");
    out
}

/// The filter for a cross-project search: excludes the current thread, and
/// the given project when one is named.
pub fn global_scope_filter(exclude_project_id: Option<&str>, current_thread_id: &str) -> (r:
    String)
    ensures
        r@ == match exclude_project_id {
            Some(pid) => "project_id != '"@ + pid@ + "' AND thread_id != '"@ + current_thread_id@
                + "'"@,
            None => "thread_id != '"@ + current_thread_id@ + "'"@,
        },
{
    match exclude_project_id {
        Some(pid) => {
            let mut out = String::from_str("project_id != '");
            out.append(pid);
            out.append("' AND thread_id != '");
            out.append(current_thread_id);
            out.append("'");
            out
        },
        None => {
            let mut out = String::from_str("thread_id != '");
            out.append(current_thread_id);
            out.append("'");
            out
        },
    }
}

/// Per-thread retrieval settings: result count and context-token budget.
pub const DEFAULT_TOP_K: u8 = 4;
/// Default context-token budget for retrieval.
pub const DEFAULT_CTX_TOKENS: u16 = 1024;

/// The settings for a thread: the stored row when there is one, the
/// defaults otherwise.
pub fn settings_or_default(row: Option<(u8, u16)>) -> (r: (u8, u16))
    ensures
        r == (match row {
            Some(s) => s,
            None => (DEFAULT_TOP_K, DEFAULT_CTX_TOKENS),
        }),
{
    match row {
        Some(s) => s,
        None => (DEFAULT_TOP_K, DEFAULT_CTX_TOKENS),
    }
}

} // verus!
