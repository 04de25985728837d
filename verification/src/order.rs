//! Character-wise lexicographic order on strings, and the newest-first
//! orderings of stored chats and projects by their timestamp fields.

use vstd::prelude::*;
use vstd::seq_lib::lemma_multiset_commutative;
use crate::types::{Chat, Project};

verus! {

/// `a` is at or after `b` in character-wise lexicographic order: a longer
/// string follows its own prefix.
pub open spec fn spec_lex_ge(a: Seq<char>, b: Seq<char>) -> bool
    decreases b.len(),
{
    if b.len() == 0 {
        true
    } else if a.len() == 0 {
        false
    } else if a.first() != b.first() {
        a.first() > b.first()
    } else {
        spec_lex_ge(a.drop_first(), b.drop_first())
    }
}

/// The order is total.
pub proof fn lemma_lex_total(a: Seq<char>, b: Seq<char>)
    ensures
        spec_lex_ge(a, b) || spec_lex_ge(b, a),
    decreases a.len() + b.len(),
{
    if b.len() == 0 || a.len() == 0 {
    } else if a.first() != b.first() {
    } else {
        lemma_lex_total(a.drop_first(), b.drop_first());
    }
}

/// The order is transitive.
pub proof fn lemma_lex_trans(a: Seq<char>, b: Seq<char>, c: Seq<char>)
    requires
        spec_lex_ge(a, b),
        spec_lex_ge(b, c),
    ensures
        spec_lex_ge(a, c),
    decreases a.len() + b.len() + c.len(),
{
    if c.len() == 0 {
    } else if b.len() == 0 {
    } else if a.len() == 0 {
    } else {
        if a.first() == b.first() && b.first() == c.first() {
            lemma_lex_trans(a.drop_first(), b.drop_first(), c.drop_first());
        }
    }
}

/// Compare two strings in character-wise lexicographic order.
pub fn lex_ge(a: &str, b: &str) -> (r: bool)
    ensures
        r == spec_lex_ge(a@, b@),
    decreases a@.len(),
{
    let na = a.unicode_len();
    let nb = b.unicode_len();
    let mut i: usize = 0;
    proof {
        assert(a@.skip(0) =~= a@);
        assert(b@.skip(0) =~= b@);
    }
    loop
        invariant
            i <= na,
            i <= nb,
            na == a@.len(),
            nb == b@.len(),
            spec_lex_ge(a@, b@) == spec_lex_ge(a@.skip(i as int), b@.skip(i as int)),
        decreases na - i,
    {
        proof {
            if i < nb {
                assert(b@.skip(i as int).first() == b@.index(i as int));
                assert(b@.skip(i as int).drop_first() =~= b@.skip(i + 1));
            }
            if i < na {
                assert(a@.skip(i as int).first() == a@.index(i as int));
                assert(a@.skip(i as int).drop_first() =~= a@.skip(i + 1));
            }
        }
        if i == nb {
            return true;
        }
        if i == na {
            return false;
        }
        let ca = a.get_char(i);
        let cb = b.get_char(i);
        if ca != cb {
            return ca > cb;
        }
        i = i + 1;
    }
}

/// Inserting an element anywhere adds exactly that element to the
/// sequence's multiset.
pub proof fn lemma_insert_adds_to_multiset<A>(s: Seq<A>, pos: int, v: A)
    requires
        0 <= pos <= s.len(),
    ensures
        s.insert(pos, v).to_multiset() =~= s.to_multiset().insert(v),
{
    broadcast use vstd::seq_lib::group_to_multiset_ensures;
    broadcast use vstd::multiset::group_multiset_axioms;

    let a = s.take(pos);
    let b = s.skip(pos);
    assert(s.insert(pos, v) =~= a + (seq![v] + b));
    assert(seq![v] =~= Seq::<A>::empty().push(v));
    lemma_multiset_commutative(seq![v], b);
    lemma_multiset_commutative(a, seq![v] + b);
    assert(s =~= a + b);
    lemma_multiset_commutative(a, b);
}

/// Chats ordered newest first by their update timestamp.
pub open spec fn spec_chats_sorted(s: Seq<Chat>) -> bool {
    forall|i: int, j: int|
        #![trigger s.index(i).updated_at, s.index(j).updated_at]
        0 <= i < j < s.len() ==> spec_lex_ge(s.index(i).updated_at@, s.index(j).updated_at@)
}

/// Sort chats newest first by their update timestamp. The result holds
/// exactly the input chats.
pub fn sort_chats_recent_first(chats: Vec<Chat>) -> (r: Vec<Chat>)
    ensures
        spec_chats_sorted(r@),
        r@.to_multiset() == chats@.to_multiset(),
        r@.len() == chats@.len(),
{
    broadcast use vstd::seq_lib::group_to_multiset_ensures;
    broadcast use vstd::multiset::group_multiset_axioms;

    let ghost input = chats@;
    let mut src = chats;
    let mut out: Vec<Chat> = Vec::new();
    proof {
        assert(out@.to_multiset().add(src@.to_multiset()) =~= input.to_multiset());
    }
    while src.len() > 0
        invariant
            spec_chats_sorted(out@),
            out@.to_multiset().add(src@.to_multiset()) == input.to_multiset(),
            out@.len() + src@.len() == input.len(),
        decreases src@.len(),
    {
        broadcast use vstd::seq_lib::group_to_multiset_ensures;
        broadcast use vstd::multiset::group_multiset_axioms;

        let ghost pre_src = src@;
        let x = src.remove(0);
        proof {
            assert(pre_src.index(0) == x);
            assert(pre_src.contains(x));
            assert(pre_src.to_multiset().count(x) > 0);
            assert(pre_src.remove(0).to_multiset() =~= pre_src.to_multiset().remove(x));
        }
        let mut pos: usize = 0;
        while pos < out.len() && lex_ge(out[pos].updated_at.as_str(), x.updated_at.as_str())
            invariant
                pos <= out@.len(),
                forall|k: int|
                    0 <= k < pos ==> spec_lex_ge(
                        (#[trigger] out@.index(k)).updated_at@,
                        x.updated_at@,
                    ),
            decreases out@.len() - pos,
        {
            pos = pos + 1;
        }
        let ghost old_out = out@;
        proof {
            lemma_insert_adds_to_multiset(out@, pos as int, x);
            if pos < old_out.len() {
                lemma_lex_total(old_out.index(pos as int).updated_at@, x.updated_at@);
            }
        }
        out.insert(pos, x);
        proof {
            assert forall|i: int, j: int|
                0 <= i < j < out@.len() implies spec_lex_ge(
                (#[trigger] out@.index(i)).updated_at@,
                (#[trigger] out@.index(j)).updated_at@,
            ) by {
                assert(out@ == old_out.insert(pos as int, x));
                if i < pos && j < pos {
                    assert(out@.index(i) == old_out.index(i));
                    assert(out@.index(j) == old_out.index(j));
                } else if i < pos && j == pos {
                    assert(out@.index(i) == old_out.index(i));
                    assert(out@.index(j) == x);
                } else if i < pos && j > pos {
                    assert(out@.index(i) == old_out.index(i));
                    assert(out@.index(j) == old_out.index(j - 1));
                } else if i == pos {
                    assert(out@.index(i) == x);
                    assert(out@.index(j) == old_out.index(j - 1));
                    if j - 1 > pos {
                        assert(spec_lex_ge(
                            old_out.index(pos as int).updated_at@,
                            old_out.index(j - 1).updated_at@,
                        ));
                        lemma_lex_trans(
                            x.updated_at@,
                            old_out.index(pos as int).updated_at@,
                            old_out.index(j - 1).updated_at@,
                        );
                    }
                } else {
                    assert(out@.index(i) == old_out.index(i - 1));
                    assert(out@.index(j) == old_out.index(j - 1));
                }
            }
            assert(out@.to_multiset().add(src@.to_multiset()) =~= input.to_multiset());
        }
    }
    proof {
        assert(src@.to_multiset().len() == 0);
        assert(out@.to_multiset() =~= input.to_multiset());
        assert(out@.len() == out@.to_multiset().len());
        assert(input.len() == input.to_multiset().len());
    }
    out
}

/// Projects ordered newest first by their creation timestamp.
pub open spec fn spec_projects_sorted(s: Seq<Project>) -> bool {
    forall|i: int, j: int|
        #![trigger s.index(i).created_at, s.index(j).created_at]
        0 <= i < j < s.len() ==> spec_lex_ge(s.index(i).created_at@, s.index(j).created_at@)
}

/// Sort projects newest first by their creation timestamp. The result
/// holds exactly the input projects.
pub fn sort_projects_recent_first(projects: Vec<Project>) -> (r: Vec<Project>)
    ensures
        spec_projects_sorted(r@),
        r@.to_multiset() == projects@.to_multiset(),
        r@.len() == projects@.len(),
{
    broadcast use vstd::seq_lib::group_to_multiset_ensures;
    broadcast use vstd::multiset::group_multiset_axioms;

    let ghost input = projects@;
    let mut src = projects;
    let mut out: Vec<Project> = Vec::new();
    proof {
        assert(out@.to_multiset().add(src@.to_multiset()) =~= input.to_multiset());
    }
    while src.len() > 0
        invariant
            spec_projects_sorted(out@),
            out@.to_multiset().add(src@.to_multiset()) == input.to_multiset(),
            out@.len() + src@.len() == input.len(),
        decreases src@.len(),
    {
        broadcast use vstd::seq_lib::group_to_multiset_ensures;
        broadcast use vstd::multiset::group_multiset_axioms;

        let ghost pre_src = src@;
        let x = src.remove(0);
        proof {
            assert(pre_src.index(0) == x);
            assert(pre_src.contains(x));
            assert(pre_src.to_multiset().count(x) > 0);
            assert(pre_src.remove(0).to_multiset() =~= pre_src.to_multiset().remove(x));
        }
        let mut pos: usize = 0;
        while pos < out.len() && lex_ge(out[pos].created_at.as_str(), x.created_at.as_str())
            invariant
                pos <= out@.len(),
                forall|k: int|
                    0 <= k < pos ==> spec_lex_ge(
                        (#[trigger] out@.index(k)).created_at@,
                        x.created_at@,
                    ),
            decreases out@.len() - pos,
        {
            pos = pos + 1;
        }
        let ghost old_out = out@;
        proof {
            lemma_insert_adds_to_multiset(out@, pos as int, x);
            if pos < old_out.len() {
                lemma_lex_total(old_out.index(pos as int).created_at@, x.created_at@);
            }
        }
        out.insert(pos, x);
        proof {
            assert forall|i: int, j: int|
                0 <= i < j < out@.len() implies spec_lex_ge(
                (#[trigger] out@.index(i)).created_at@,
                (#[trigger] out@.index(j)).created_at@,
            ) by {
                assert(out@ == old_out.insert(pos as int, x));
                if i < pos && j < pos {
                    assert(out@.index(i) == old_out.index(i));
                    assert(out@.index(j) == old_out.index(j));
                } else if i < pos && j == pos {
                    assert(out@.index(i) == old_out.index(i));
                    assert(out@.index(j) == x);
                } else if i < pos && j > pos {
                    assert(out@.index(i) == old_out.index(i));
                    assert(out@.index(j) == old_out.index(j - 1));
                } else if i == pos {
                    assert(out@.index(i) == x);
                    assert(out@.index(j) == old_out.index(j - 1));
                    if j - 1 > pos {
                        assert(spec_lex_ge(
                            old_out.index(pos as int).created_at@,
                            old_out.index(j - 1).created_at@,
                        ));
                        lemma_lex_trans(
                            x.created_at@,
                            old_out.index(pos as int).created_at@,
                            old_out.index(j - 1).created_at@,
                        );
                    }
                } else {
                    assert(out@.index(i) == old_out.index(i - 1));
                    assert(out@.index(j) == old_out.index(j - 1));
                }
            }
            assert(out@.to_multiset().add(src@.to_multiset()) =~= input.to_multiset());
        }
    }
    proof {
        assert(src@.to_multiset().len() == 0);
        assert(out@.to_multiset() =~= input.to_multiset());
        assert(out@.len() == out@.to_multiset().len());
        assert(input.len() == input.to_multiset().len());
    }
    out
}

} // verus!
