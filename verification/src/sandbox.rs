//! Filesystem jail for the file tools: paths are resolved against the
//! workspace root by purely lexical normalization, and any resolved path
//! that escapes the root is rejected.

use vstd::prelude::*;
use crate::strutil::str_eq;

verus! {

/// The `/`-separated segments of a path, empty segments dropped; `cur` is
/// the partial segment read so far.
pub open spec fn spec_split_acc(s: Seq<char>, cur: Seq<char>) -> Seq<Seq<char>>
    decreases s.len(),
{
    if s.len() == 0 {
        if cur.len() == 0 {
            Seq::empty()
        } else {
            seq![cur]
        }
    } else if s.first() == '/' {
        if cur.len() == 0 {
            spec_split_acc(s.drop_first(), Seq::empty())
        } else {
            seq![cur] + spec_split_acc(s.drop_first(), Seq::empty())
        }
    } else {
        spec_split_acc(s.drop_first(), cur.push(s.first()))
    }
}

/// The segments of a path.
pub open spec fn spec_segments(s: Seq<char>) -> Seq<Seq<char>> {
    spec_split_acc(s, Seq::empty())
}

/// Lexical normalization over segments: `.` is dropped, `..` removes the
/// segment before it, and `..` at the root fails.
pub open spec fn spec_norm_acc(segs: Seq<Seq<char>>, stack: Seq<Seq<char>>) -> Option<
    Seq<Seq<char>>,
>
    decreases segs.len(),
{
    if segs.len() == 0 {
        Some(stack)
    } else if segs.first() == "."@ {
        spec_norm_acc(segs.drop_first(), stack)
    } else if segs.first() == ".."@ {
        if stack.len() == 0 {
            None
        } else {
            spec_norm_acc(segs.drop_first(), stack.drop_last())
        }
    } else {
        spec_norm_acc(segs.drop_first(), stack.push(segs.first()))
    }
}

/// Normalized segments of a segment list, or `None` when it climbs above
/// the root.
pub open spec fn spec_normalize(segs: Seq<Seq<char>>) -> Option<Seq<Seq<char>>> {
    spec_norm_acc(segs, Seq::empty())
}

/// The absolute path string for normalized segments.
pub open spec fn spec_abs_path(segs: Seq<Seq<char>>) -> Seq<char>
    decreases segs.len(),
{
    if segs.len() == 0 {
        "/"@
    } else if segs.len() == 1 {
        "/"@ + segs.first()
    } else {
        spec_abs_path(segs.drop_last()) + "/"@ + segs.last()
    }
}

/// Whether a path is absolute.
pub open spec fn spec_is_absolute(s: Seq<char>) -> bool {
    s.len() > 0 && s.first() == '/'
}

/// The candidate segments for a request: an absolute request stands alone,
/// a relative one is resolved against the root.
pub open spec fn spec_candidate(root: Seq<char>, rel: Seq<char>) -> Seq<Seq<char>> {
    if spec_is_absolute(rel) {
        spec_segments(rel)
    } else {
        spec_segments(root) + spec_segments(rel)
    }
}

/// Whether the resolved path stays inside the root: both must normalize,
/// and the root's segments must be a prefix of the resolved ones.
pub open spec fn spec_inside_root(root: Seq<char>, rel: Seq<char>) -> bool {
    match (spec_normalize(spec_segments(root)), spec_normalize(spec_candidate(root, rel))) {
        (Some(rootn), Some(candn)) => rootn.len() <= candn.len() && candn.take(rootn.len() as int)
            == rootn,
        _ => false,
    }
}

/// Split a path into its segments.
pub fn split_segments(s: &str) -> (r: Vec<String>)
    ensures
        r.deep_view() == spec_segments(s@),
{
    let n = s.unicode_len();
    let mut out: Vec<String> = Vec::new();
    let mut seg_start: usize = 0;
    let mut i: usize = 0;
    proof {
        assert(s@.skip(0) =~= s@);
        assert(s@.subrange(0, 0) =~= Seq::<char>::empty());
        assert(out.deep_view() + spec_split_acc(s@.skip(0), s@.subrange(0, 0)) =~= spec_split_acc(
            s@,
            Seq::empty(),
        ));
    }
    while i < n
        invariant
            seg_start <= i <= n,
            n == s@.len(),
            spec_segments(s@) == out.deep_view() + spec_split_acc(
                s@.skip(i as int),
                s@.subrange(seg_start as int, i as int),
            ),
        decreases n - i,
    {
        let ghost rest = s@.skip(i as int);
        let ghost cur = s@.subrange(seg_start as int, i as int);
        proof {
            assert(rest.first() == s@.index(i as int));
            assert(rest.drop_first() =~= s@.skip(i + 1));
        }
        let c = s.get_char(i);
        if c == '/' {
            if seg_start < i {
                let piece = s.substring_char(seg_start, i);
                let ghost old_out = out.deep_view();
                out.push(piece.to_owned());
                proof {
                    assert(out.deep_view() =~~= old_out.push(cur));
                    assert(s@.subrange(i + 1, i + 1) =~= Seq::<char>::empty());
                    assert(out.deep_view() + spec_split_acc(
                        s@.skip(i + 1),
                        s@.subrange(i + 1, i + 1),
                    ) =~~= old_out + (seq![cur] + spec_split_acc(s@.skip(i + 1), Seq::empty())));
                }
            } else {
                proof {
                    assert(s@.subrange(i + 1, i + 1) =~= Seq::<char>::empty());
                }
            }
            seg_start = i + 1;
        } else {
            proof {
                assert(s@.subrange(seg_start as int, i + 1) =~= cur.push(s@.index(i as int)));
            }
        }
        i = i + 1;
    }
    proof {
        assert(s@.skip(n as int) =~= Seq::<char>::empty());
    }
    if seg_start < n {
        let piece = s.substring_char(seg_start, n);
        let ghost old_out = out.deep_view();
        out.push(piece.to_owned());
        proof {
            assert(out.deep_view() =~~= old_out.push(s@.subrange(seg_start as int, n as int)));
        }
    } else {
        proof {
            assert(s@.subrange(seg_start as int, n as int) =~= Seq::<char>::empty());
        }
    }
    out
}

/// Normalize segments against an empty stack; `None` when the path climbs
/// above the root.
pub fn normalize_segments(segs: &Vec<String>) -> (r: Option<Vec<String>>)
    ensures
        match r {
            Some(v) => spec_normalize(segs.deep_view()) == Some(v.deep_view()),
            None => spec_normalize(segs.deep_view()) is None,
        },
{
    let mut stack: Vec<String> = Vec::new();
    let mut i: usize = 0;
    proof {
        assert(segs.deep_view().skip(0) =~~= segs.deep_view());
        assert(stack.deep_view() =~~= Seq::<Seq<char>>::empty());
    }
    while i < segs.len()
        invariant
            i <= segs@.len(),
            segs.deep_view().len() == segs@.len(),
            spec_normalize(segs.deep_view()) == spec_norm_acc(
                segs.deep_view().skip(i as int),
                stack.deep_view(),
            ),
        decreases segs@.len() - i,
    {
        let ghost rest = segs.deep_view().skip(i as int);
        proof {
            assert(rest.first() == segs.deep_view().index(i as int));
            assert(rest.drop_first() =~~= segs.deep_view().skip(i + 1));
        }
        let seg = &segs[i];
        if str_eq(seg.as_str(), ".") {
        } else if str_eq(seg.as_str(), "..") {
            if stack.len() == 0 {
                return None;
            }
            let ghost old_stack = stack.deep_view();
            stack.pop();
            proof {
                assert(stack.deep_view() =~~= old_stack.drop_last());
            }
        } else {
            let ghost old_stack = stack.deep_view();
            stack.push(seg.clone());
            proof {
                assert(stack.deep_view() =~~= old_stack.push(segs.deep_view().index(i as int)));
            }
        }
        i = i + 1;
    }
    proof {
        assert(segs.deep_view().skip(segs@.len() as int) =~~= Seq::<Seq<char>>::empty());
    }
    Some(stack)
}

/// The absolute path string for normalized segments.
pub fn abs_path_of(segs: &Vec<String>) -> (r: String)
    ensures
        r@ == spec_abs_path(segs.deep_view()),
{
    if segs.len() == 0 {
        return String::from_str("/");
    }
    let mut out = String::new();
    let mut i: usize = 0;
    while i < segs.len()
        invariant
            i <= segs@.len(),
            segs.deep_view().len() == segs@.len(),
            segs@.len() > 0,
            i > 0 ==> out@ == spec_abs_path(segs.deep_view().take(i as int)),
            i == 0 ==> out@ == Seq::<char>::empty(),
        decreases segs@.len() - i,
    {
        proof {
            assert(segs.deep_view().take(i + 1).drop_last() =~~= segs.deep_view().take(i as int));
            assert(segs.deep_view().take(i + 1).last() == segs.deep_view().index(i as int));
            if i == 0 {
                assert(segs.deep_view().take(1).first() == segs.deep_view().index(0));
            }
        }
        out.append("/");
        out.append(segs[i].as_str());
        i = i + 1;
    }
    proof {
        assert(segs.deep_view().take(segs@.len() as int) =~~= segs.deep_view());
    }
    out
}

/// Whether `prefix` is a segmentwise prefix of `v`.
fn is_seg_prefix(prefix: &Vec<String>, v: &Vec<String>) -> (r: bool)
    ensures
        r == (prefix.deep_view().len() <= v.deep_view().len() && v.deep_view().take(
            prefix.deep_view().len() as int,
        ) == prefix.deep_view()),
{
    if prefix.len() > v.len() {
        return false;
    }
    let mut i: usize = 0;
    while i < prefix.len()
        invariant
            i <= prefix@.len() <= v@.len(),
            prefix.deep_view().len() == prefix@.len(),
            v.deep_view().len() == v@.len(),
            forall|k: int|
                0 <= k < i ==> #[trigger] v.deep_view().index(k) == prefix.deep_view().index(k),
        decreases prefix@.len() - i,
    {
        if !str_eq(v[i].as_str(), prefix[i].as_str()) {
            proof {
                assert(v.deep_view().take(prefix.deep_view().len() as int).index(i as int)
                    == v.deep_view().index(i as int));
            }
            return false;
        }
        i = i + 1;
    }
    proof {
        assert(v.deep_view().take(prefix.deep_view().len() as int) =~~= prefix.deep_view());
    }
    true
}

/// Resolve a requested path against the workspace root: a relative request
/// is joined to the root, the result is normalized lexically, and any path
/// that does not stay under the root is rejected.
pub fn safe_path(rel: &str, workspace_root: &str) -> (r: Option<String>)
    ensures
        match r {
            Some(p) => spec_inside_root(workspace_root@, rel@) && (match spec_normalize(
                spec_candidate(workspace_root@, rel@),
            ) {
                Some(candn) => p@ == spec_abs_path(candn),
                None => false,
            }),
            None => !spec_inside_root(workspace_root@, rel@),
        },
{
    let root_segs = split_segments(workspace_root);
    let rootn = match normalize_segments(&root_segs) {
        Some(v) => v,
        None => {
            return None;
        },
    };
    let mut cand_segs: Vec<String>;
    let absolute = rel.unicode_len() > 0 && rel.get_char(0) == '/';
    if absolute {
        cand_segs = split_segments(rel);
    } else {
        cand_segs = split_segments(workspace_root);
        let mut rel_segs = split_segments(rel);
        let ghost a = cand_segs.deep_view();
        let ghost b = rel_segs.deep_view();
        cand_segs.append(&mut rel_segs);
        proof {
            assert(cand_segs.deep_view() =~~= a + b);
        }
    }
    let candn = match normalize_segments(&cand_segs) {
        Some(v) => v,
        None => {
            return None;
        },
    };
    if is_seg_prefix(&rootn, &candn) {
        Some(abs_path_of(&candn))
    } else {
        None
    }
}

} // verus!
