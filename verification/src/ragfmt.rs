//! Formatting of retrieval results and conversation references, the query
//! text for related-conversation search, and the vectorization gate.

use vstd::prelude::*;
use crate::strutil::{contains_seq, spec_digits, spec_trim, str_contains, str_eq, trim_bounds, u64_to_string};
use crate::types::Message;

verus! {

/// How many of the latest messages seed the related-conversation query.
pub const RELATED_QUERY_MESSAGES: usize = 3;
/// Shortest trimmed text (in characters) worth vectorizing.
pub const MIN_VECTORIZE_CHARS: usize = 10;

/// A document hit labeled for the context block.
pub fn label_document(text: &str) -> (r: String)
    ensures
        r@ == "[Document] "@ + text@,
{
    let mut out = String::from_str("[Document] ");
    out.append(text);
    out
}

/// A conversation hit from the same project, labeled with the start of
/// its thread id.
pub fn format_previous_hit(thread_id: &str, role: &str, content: &str) -> (r: String)
    requires
        thread_id@.len() >= 8,
    ensures
        r@ == "[Previous conversation "@ + thread_id@.take(8) + "] "@ + role@ + ": "@ + content@,
{
    let mut out = String::from_str("[Previous conversation ");
    let prefix = thread_id.substring_char(0, 8);
    out.append(prefix);
    out.append("] ");
    out.append(role);
    out.append(": ");
    out.append(content);
    proof {
        assert(thread_id@.subrange(0, 8) =~= thread_id@.take(8));
    }
    out
}

/// A conversation hit labeled with its thread for project-scoped search.
pub fn format_thread_hit(thread_id: &str, role: &str, content: &str) -> (r: String)
    requires
        thread_id@.len() >= 8,
    ensures
        r@ == "[Previous conversation in thread "@ + thread_id@.take(8) + "] "@ + role@ + ": "@
            + content@,
{
    let mut out = String::from_str("[Previous conversation in thread ");
    let prefix = thread_id.substring_char(0, 8);
    out.append(prefix);
    out.append("] ");
    out.append(role);
    out.append(": ");
    out.append(content);
    proof {
        assert(thread_id@.subrange(0, 8) =~= thread_id@.take(8));
    }
    out
}

/// A cross-project conversation hit, labeled with its project when it has
/// one.
pub fn format_related_hit(content: &str, role: &str, project_id: Option<&str>) -> (r: String)
    requires
        match project_id {
            Some(p) => p@.len() >= 8,
            None => true,
        },
    ensures
        r@ == match project_id {
            Some(p) => "[Related conversation in project "@ + p@.take(8) + "] "@ + role@ + ": "@
                + content@,
            None => "[Related conversation] "@ + role@ + ": "@ + content@,
        },
{
    let mut out: String;
    match project_id {
        Some(p) => {
            out = String::from_str("[Related conversation in project ");
            let prefix = p.substring_char(0, 8);
            out.append(prefix);
            out.append("] ");
            proof {
                assert(p@.subrange(0, 8) =~= p@.take(8));
            }
        },
        None => {
            out = String::from_str("[Related conversation] ");
        },
    }
    out.append(role);
    out.append(": ");
    out.append(content);
    out
}

/// The retrieval context for a turn: the document hits labeled, then the
/// conversation entries when that search answered; a failed conversation
/// search contributes nothing.
pub fn compose_context(doc_results: &Vec<String>, conversation_results: Option<&Vec<String>>) -> (r:
    Vec<String>)
    ensures
        r@.len() == doc_results@.len() + (match conversation_results {
            Some(c) => c@.len() as int,
            None => 0int,
        }),
        forall|k: int|
            0 <= k < doc_results@.len() ==> (#[trigger] r@.index(k))@ == "[Document] "@
                + doc_results@.index(k)@,
        (match conversation_results {
            Some(c) => forall|k: int|
                0 <= k < c@.len() ==> (#[trigger] r@.index(doc_results@.len() + k))@ == c@.index(
                    k,
                )@,
            None => true,
        }),
{
    let mut out: Vec<String> = Vec::new();
    let mut i: usize = 0;
    while i < doc_results.len()
        invariant
            i <= doc_results@.len(),
            out@.len() == i,
            forall|k: int|
                0 <= k < i ==> (#[trigger] out@.index(k))@ == "[Document] "@
                    + doc_results@.index(k)@,
        decreases doc_results@.len() - i,
    {
        out.push(label_document(doc_results[i].as_str()));
        i = i + 1;
    }
    match conversation_results {
        Some(conv) => {
            let mut j: usize = 0;
            while j < conv.len()
                invariant
                    j <= conv@.len(),
                    out@.len() == doc_results@.len() + j,
                    forall|k: int|
                        0 <= k < doc_results@.len() ==> (#[trigger] out@.index(k))@
                            == "[Document] "@ + doc_results@.index(k)@,
                    forall|k: int|
                        0 <= k < j ==> (#[trigger] out@.index(doc_results@.len() + k))@
                            == conv@.index(k)@,
                decreases conv@.len() - j,
            {
                out.push(conv[j].clone());
                j = j + 1;
            }
        },
        None => {},
    }
    out
}

/// One conversation hit reduced to the plain values its payload carried;
/// a missing payload member is `None`.
pub struct ConversationHit {
    pub content: Option<String>,
    pub role: Option<String>,
    pub thread_id: Option<String>,
    pub project_id: Option<String>,
}

/// What one hit contributes to a project-scoped search: its labeled line,
/// but only when it carries content, role and a thread id of at least
/// eight characters, belongs to the project, and is not from the current
/// thread — hits from the current thread never appear.
pub open spec fn spec_project_entry(h: ConversationHit, pid: Seq<char>, tid: Seq<char>) -> Seq<
    Seq<char>,
> {
    match (h.content, h.role, h.thread_id, h.project_id) {
        (Some(c), Some(r), Some(t), Some(p)) => if p@ == pid && t@ != tid && t@.len() >= 8 {
            seq!["[Previous conversation "@ + t@.take(8) + "] "@ + r@ + ": "@ + c@]
        } else {
            Seq::empty()
        },
        _ => Seq::empty(),
    }
}

/// The entries of a project-scoped conversation search, in hit order.
pub open spec fn spec_project_entries(
    hits: Seq<ConversationHit>,
    pid: Seq<char>,
    tid: Seq<char>,
) -> Seq<Seq<char>>
    decreases hits.len(),
{
    if hits.len() == 0 {
        Seq::empty()
    } else {
        spec_project_entry(hits.first(), pid, tid) + spec_project_entries(
            hits.drop_first(),
            pid,
            tid,
        )
    }
}

/// Label and scope the hits of a project-scoped conversation search: only
/// hits of the given project survive, and never one from the current
/// thread.
pub fn project_conversation_entries(
    hits: &Vec<ConversationHit>,
    project_id: &str,
    current_thread_id: &str,
) -> (r: Vec<String>)
    ensures
        r.deep_view() == spec_project_entries(hits@, project_id@, current_thread_id@),
{
    let mut out: Vec<String> = Vec::new();
    let mut i: usize = 0;
    proof {
        assert(hits@.skip(0) =~= hits@);
        assert(out.deep_view() =~~= Seq::<Seq<char>>::empty());
    }
    while i < hits.len()
        invariant
            i <= hits@.len(),
            spec_project_entries(hits@, project_id@, current_thread_id@) == out.deep_view()
                + spec_project_entries(hits@.skip(i as int), project_id@, current_thread_id@),
        decreases hits@.len() - i,
    {
        let ghost rest = hits@.skip(i as int);
        proof {
            assert(rest.first() == hits@.index(i as int));
            assert(rest.drop_first() =~= hits@.skip(i + 1));
        }
        let h = &hits[i];
        match (&h.content, &h.role, &h.thread_id, &h.project_id) {
            (Some(c), Some(r), Some(t), Some(p)) => {
                if str_eq(p.as_str(), project_id) && !str_eq(t.as_str(), current_thread_id)
                    && t.as_str().unicode_len() >= 8 {
                    let ghost old_out = out.deep_view();
                    let entry = format_previous_hit(t.as_str(), r.as_str(), c.as_str());
                    out.push(entry);
                    proof {
                        assert(out.deep_view() =~~= old_out.push(
                            spec_project_entry(
                                hits@.index(i as int),
                                project_id@,
                                current_thread_id@,
                            ).first(),
                        ));
                        assert(out.deep_view() + spec_project_entries(
                            hits@.skip(i + 1),
                            project_id@,
                            current_thread_id@,
                        ) =~~= old_out + (spec_project_entry(
                            hits@.index(i as int),
                            project_id@,
                            current_thread_id@,
                        ) + spec_project_entries(
                            hits@.skip(i + 1),
                            project_id@,
                            current_thread_id@,
                        )));
                    }
                }
            },
            _ => {},
        }
        i = i + 1;
    }
    proof {
        assert(hits@.skip(hits@.len() as int) =~= Seq::<ConversationHit>::empty());
        assert(out.deep_view() + spec_project_entries(
            hits@.skip(hits@.len() as int),
            project_id@,
            current_thread_id@,
        ) =~~= out.deep_view());
    }
    out
}

/// What one hit contributes to a cross-project search: its labeled line,
/// but only when it carries content, role and a thread id, is not from the
/// current thread, and does not belong to the excluded project; the
/// project label appears when the hit names a project of at least eight
/// characters.
pub open spec fn spec_global_entry(
    h: ConversationHit,
    exclude: Option<Seq<char>>,
    tid: Seq<char>,
) -> Seq<Seq<char>> {
    match (h.content, h.role, h.thread_id) {
        (Some(c), Some(r), Some(t)) => if t@ != tid && (match (exclude, h.project_id) {
            (Some(x), Some(p)) => p@ != x,
            _ => true,
        }) {
            seq![
                match h.project_id {
                    Some(p) => if p@.len() >= 8 {
                        "[Related conversation in project "@ + p@.take(8) + "] "@ + r@ + ": "@
                            + c@
                    } else {
                        "[Related conversation] "@ + r@ + ": "@ + c@
                    },
                    None => "[Related conversation] "@ + r@ + ": "@ + c@,
                },
            ]
        } else {
            Seq::empty()
        },
        _ => Seq::empty(),
    }
}

/// The entries of a cross-project conversation search, in hit order.
pub open spec fn spec_global_entries(
    hits: Seq<ConversationHit>,
    exclude: Option<Seq<char>>,
    tid: Seq<char>,
) -> Seq<Seq<char>>
    decreases hits.len(),
{
    if hits.len() == 0 {
        Seq::empty()
    } else {
        spec_global_entry(hits.first(), exclude, tid) + spec_global_entries(
            hits.drop_first(),
            exclude,
            tid,
        )
    }
}

/// Label and scope the hits of a cross-project conversation search: the
/// current thread is always excluded, the named project when one is given.
pub fn global_conversation_entries(
    hits: &Vec<ConversationHit>,
    exclude_project_id: Option<&str>,
    current_thread_id: &str,
) -> (r: Vec<String>)
    ensures
        r.deep_view() == spec_global_entries(
            hits@,
            match exclude_project_id {
                Some(x) => Some(x@),
                None => None,
            },
            current_thread_id@,
        ),
{
    let ghost exclude = match exclude_project_id {
        Some(x) => Some(x@),
        None => None,
    };
    let mut out: Vec<String> = Vec::new();
    let mut i: usize = 0;
    proof {
        assert(hits@.skip(0) =~= hits@);
        assert(out.deep_view() =~~= Seq::<Seq<char>>::empty());
    }
    while i < hits.len()
        invariant
            i <= hits@.len(),
            exclude == (match exclude_project_id {
                Some(x) => Some(x@),
                None => None,
            }),
            spec_global_entries(hits@, exclude, current_thread_id@) == out.deep_view()
                + spec_global_entries(hits@.skip(i as int), exclude, current_thread_id@),
        decreases hits@.len() - i,
    {
        let ghost rest = hits@.skip(i as int);
        proof {
            assert(rest.first() == hits@.index(i as int));
            assert(rest.drop_first() =~= hits@.skip(i + 1));
        }
        let h = &hits[i];
        match (&h.content, &h.role, &h.thread_id) {
            (Some(c), Some(r), Some(t)) => {
                let excluded_project = match (exclude_project_id, &h.project_id) {
                    (Some(x), Some(p)) => str_eq(p.as_str(), x),
                    _ => false,
                };
                if !str_eq(t.as_str(), current_thread_id) && !excluded_project {
                    let entry = match &h.project_id {
                        Some(p) => {
                            if p.as_str().unicode_len() >= 8 {
                                format_related_hit(c.as_str(), r.as_str(), Some(p.as_str()))
                            } else {
                                format_related_hit(c.as_str(), r.as_str(), None)
                            }
                        },
                        None => format_related_hit(c.as_str(), r.as_str(), None),
                    };
                    let ghost old_out = out.deep_view();
                    out.push(entry);
                    proof {
                        assert(out.deep_view() =~~= old_out.push(
                            spec_global_entry(
                                hits@.index(i as int),
                                exclude,
                                current_thread_id@,
                            ).first(),
                        ));
                        assert(out.deep_view() + spec_global_entries(
                            hits@.skip(i + 1),
                            exclude,
                            current_thread_id@,
                        ) =~~= old_out + (spec_global_entry(
                            hits@.index(i as int),
                            exclude,
                            current_thread_id@,
                        ) + spec_global_entries(hits@.skip(i + 1), exclude, current_thread_id@)));
                    }
                }
            },
            _ => {},
        }
        i = i + 1;
    }
    proof {
        assert(hits@.skip(hits@.len() as int) =~= Seq::<ConversationHit>::empty());
        assert(out.deep_view() + spec_global_entries(
            hits@.skip(hits@.len() as int),
            exclude,
            current_thread_id@,
        ) =~~= out.deep_view());
    }
    out
}

/// A pointer at a related conversation; the relevance is held in
/// thousandths and falls by one hundred per rank.
#[derive(Debug, Clone)]
pub struct ConversationRef {
    pub id: String,
    pub title: String,
    pub snippet: String,
    pub relevance_milli: i128,
    pub project_id: Option<String>,
}

/// Turn labeled search hits into conversation references: entry `k` gets
/// id `related_k`, a numbered title, the entry as its snippet, and a
/// relevance of `1000 − 100·k` thousandths.
pub fn conversation_refs_from(entries: &Vec<String>) -> (r: Vec<ConversationRef>)
    ensures
        r@.len() == entries@.len(),
        forall|k: int|
            0 <= k < r@.len() ==> {
                let c = #[trigger] r@.index(k);
                c.id@ == "related_"@ + spec_digits(k as nat) && c.title@
                    == "Related conversation #"@ + spec_digits((k + 1) as nat) && c.snippet@
                    == entries@.index(k)@ && c.relevance_milli == 1000 - 100 * k
                    && c.project_id is None
            },
{
    let mut out: Vec<ConversationRef> = Vec::new();
    let mut k: usize = 0;
    while k < entries.len()
        invariant
            k <= entries@.len(),
            out@.len() == k,
            forall|j: int|
                0 <= j < k ==> {
                    let c = #[trigger] out@.index(j);
                    c.id@ == "related_"@ + spec_digits(j as nat) && c.title@
                        == "Related conversation #"@ + spec_digits((j + 1) as nat) && c.snippet@
                        == entries@.index(j)@ && c.relevance_milli == 1000 - 100 * j
                        && c.project_id is None
                },
        decreases entries@.len() - k,
    {
        let mut id = String::from_str("related_");
        let kd = u64_to_string(k as u64);
        id.append(kd.as_str());
        let mut title = String::from_str("Related conversation #");
        let kd1 = u64_to_string((k + 1) as u64);
        title.append(kd1.as_str());
        let relevance: i128 = 1000 - 100 * (k as i128);
        out.push(
            ConversationRef {
                id,
                title,
                snippet: entries[k].clone(),
                relevance_milli: relevance,
                project_id: None,
            },
        );
        k = k + 1;
    }
    out
}

/// The texts of the latest messages, newest first, tool messages dropped;
/// the window is cut before the role filter.
pub open spec fn spec_recent_texts(messages: Seq<Message>) -> Seq<Seq<char>> {
    spec_rev_texts(
        if messages.len() <= RELATED_QUERY_MESSAGES {
            messages
        } else {
            messages.subrange(messages.len() - RELATED_QUERY_MESSAGES, messages.len() as int)
        },
    )
}

/// The texts of non-tool messages, newest first.
pub open spec fn spec_rev_texts(messages: Seq<Message>) -> Seq<Seq<char>>
    decreases messages.len(),
{
    if messages.len() == 0 {
        Seq::empty()
    } else {
        let rest = spec_rev_texts(messages.drop_first());
        if messages.first().role@ == "tool"@ {
            rest
        } else {
            rest.push(messages.first().text@)
        }
    }
}

/// Texts joined by single spaces.
pub open spec fn spec_join_spaces(texts: Seq<Seq<char>>) -> Seq<char>
    decreases texts.len(),
{
    if texts.len() == 0 {
        Seq::empty()
    } else if texts.len() == 1 {
        texts.first()
    } else {
        texts.first() + " "@ + spec_join_spaces(texts.drop_first())
    }
}

/// The query text for related-conversation search: the texts of the
/// latest messages, newest first, joined by spaces.
pub fn related_query_text(messages: &Vec<Message>) -> (r: String)
    ensures
        r@ == spec_join_spaces(spec_recent_texts(messages@)),
{
    let len = messages.len();
    let start = if len <= RELATED_QUERY_MESSAGES {
        0
    } else {
        len - RELATED_QUERY_MESSAGES
    };
    let ghost window = if messages@.len() <= RELATED_QUERY_MESSAGES {
        messages@
    } else {
        messages@.subrange(messages@.len() - RELATED_QUERY_MESSAGES, messages@.len() as int)
    };
    // Collect the texts newest first.
    let mut texts: Vec<String> = Vec::new();
    let mut i: usize = len;
    proof {
        assert(window =~= messages@.subrange(start as int, len as int));
        assert(messages@.subrange(len as int, len as int) =~= Seq::<Message>::empty());
        assert(texts.deep_view() =~~= spec_rev_texts(messages@.subrange(len as int, len as int)));
    }
    while i > start
        invariant
            start <= i <= len,
            len == messages@.len(),
            start == if len <= RELATED_QUERY_MESSAGES {
                0int
            } else {
                len - RELATED_QUERY_MESSAGES
            },
            texts.deep_view() == spec_rev_texts(messages@.subrange(i as int, len as int)),
        decreases i,
    {
        let ghost pre = messages@.subrange(i - 1, len as int);
        proof {
            assert(pre.drop_first() =~= messages@.subrange(i as int, len as int));
            assert(pre.first() == messages@.index(i - 1));
        }
        let m = &messages[i - 1];
        if !crate::strutil::str_eq(m.role.as_str(), "tool") {
            let ghost old_texts = texts.deep_view();
            texts.push(m.text.clone());
            proof {
                assert(texts.deep_view() =~~= old_texts.push(messages@.index(i - 1).text@));
            }
        }
        i = i - 1;
    }
    // Join them with spaces.
    let n = texts.len();
    let mut joined = String::new();
    let mut j: usize = n;
    proof {
        assert(texts.deep_view().skip(n as int) =~~= Seq::<Seq<char>>::empty());
    }
    while j > 0
        invariant
            j <= n,
            n == texts@.len(),
            texts.deep_view().len() == n,
            joined@ == spec_join_spaces(texts.deep_view().skip(j as int)),
        decreases j,
    {
        let ghost rest = texts.deep_view().skip(j - 1);
        proof {
            assert(rest.first() == texts.deep_view().index(j - 1));
            assert(rest.drop_first() =~~= texts.deep_view().skip(j as int));
        }
        let piece = if j < n {
            String::from_str(" ")
        } else {
            String::new()
        };
        let mut chunk = texts[j - 1].clone();
        chunk.append(piece.as_str());
        chunk.append(joined.as_str());
        joined = chunk;
        proof {
            assert(joined@ =~= spec_join_spaces(texts.deep_view().skip(j - 1)));
        }
        j = j - 1;
    }
    proof {
        assert(texts.deep_view().skip(0) =~~= texts.deep_view());
    }
    joined
}

/// Whether a message is worth vectorizing: not a tool message, and at
/// least the minimum of non-whitespace-trimmed text.
pub fn should_vectorize(role: &str, text: &str) -> (r: bool)
    ensures
        r == (role@ != "tool"@ && spec_trim(text@).len() >= MIN_VECTORIZE_CHARS),
{
    if crate::strutil::str_eq(role, "tool") {
        return false;
    }
    let n = text.unicode_len();
    proof {
        assert(text@.subrange(0, n as int) =~= text@);
    }
    let b = trim_bounds(text, 0, n);
    b.1 - b.0 >= MIN_VECTORIZE_CHARS
}

/// The point id a vectorized message is stored under.
pub fn vector_point_id(thread_id: &str, message_id: &str) -> (r: String)
    ensures
        r@ == thread_id@ + "_"@ + message_id@,
{
    let mut out = thread_id.to_owned();
    out.append("_");
    out.append(message_id);
    out
}

/// The error code an ingest failure is reported under.
pub fn ingest_error_code(message: &str) -> (r: &'static str)
    ensures
        contains_seq(message@, "Unsupported mime"@) ==> r@ == "unsupported_mime"@,
        !contains_seq(message@, "Unsupported mime"@) ==> r@ == "ingest_error"@,
{
    if str_contains(message, "Unsupported mime") {
        "unsupported_mime"
    } else {
        "ingest_error"
    }
}

/// The batch-vectorization report.
pub fn vectorization_report(processed: u64, errors: u64) -> (r: String)
    ensures
        r@ == "Vectorization complete: "@ + spec_digits(processed as nat)
            + " chats processed, "@ + spec_digits(errors as nat) + " errors"@,
{
    let mut out = String::from_str("Vectorization complete: ");
    let p = u64_to_string(processed);
    out.append(p.as_str());
    out.append(" chats processed, ");
    let e = u64_to_string(errors);
    out.append(e.as_str());
    out.append(" errors");
    out
}

} // verus!
