//! Retrieval engine: weighted re-ranking of search hits and assembly of a
//! bounded context block. Similarity scores and per-item weights are held
//! in thousandths, so an effective score (their product) is an exact
//! integer in millionths.

use vstd::prelude::*;
use crate::context::spec_estimate_tokens;
use crate::order::lemma_insert_adds_to_multiset;
use crate::strutil::spec_digits;
use crate::strutil::u64_to_string;

verus! {

/// One retrieval hit. `score_milli` is the similarity score in
/// thousandths; `weight_milli` is the curation weight in thousandths and
/// defaults to one thousand (a weight of one).
#[derive(Debug, Clone)]
pub struct RetrievedChunk {
    pub text: String,
    pub score_milli: u32,
    pub weight_milli: u32,
    pub source_id: String,
}

/// Weight value a chunk gets when none is stored.
pub const DEFAULT_WEIGHT_MILLI: u32 = 1000;

/// The effective score of a chunk, in millionths: similarity times weight.
pub open spec fn spec_effective(c: RetrievedChunk) -> nat {
    (c.score_milli * c.weight_milli) as nat
}

/// The effective score, in millionths.
pub fn effective_score(c: &RetrievedChunk) -> (r: u64)
    ensures
        r as nat == spec_effective(*c),
{
    proof {
        assert((c.score_milli as u64) * (c.weight_milli as u64) <= 0xFFFF_FFFFu64
            * 0xFFFF_FFFFu64) by (nonlinear_arith)
            requires
                c.score_milli <= u32::MAX,
                c.weight_milli <= u32::MAX,
        ;
    }
    (c.score_milli as u64) * (c.weight_milli as u64)
}

/// Non-increasing effective scores.
pub open spec fn sorted_desc(s: Seq<RetrievedChunk>) -> bool {
    forall|i: int, j: int|
        #![trigger spec_effective(s.index(i)), spec_effective(s.index(j))]
        0 <= i < j < s.len() ==> spec_effective(s.index(i)) >= spec_effective(s.index(j))
}

/// Re-rank hits by effective score, highest first. The result holds
/// exactly the input chunks; among equal scores the input order is kept.
pub fn rerank(chunks: Vec<RetrievedChunk>) -> (r: Vec<RetrievedChunk>)
    ensures
        sorted_desc(r@),
        r@.to_multiset() == chunks@.to_multiset(),
        r@.len() == chunks@.len(),
{
    broadcast use vstd::seq_lib::group_to_multiset_ensures;

    let mut sorted: Vec<RetrievedChunk> = Vec::new();
    let mut k: usize = 0;
    proof {
        assert(chunks@.subrange(0, 0) =~= Seq::<RetrievedChunk>::empty());
        assert(chunks@.subrange(0, 0).to_multiset() =~= sorted@.to_multiset());
    }
    while k < chunks.len()
        invariant
            k <= chunks@.len(),
            sorted_desc(sorted@),
            sorted@.to_multiset() == chunks@.subrange(0, k as int).to_multiset(),
            sorted@.len() == k,
        decreases chunks@.len() - k,
    {
        broadcast use vstd::seq_lib::group_to_multiset_ensures;

        let c = chunks[k].clone_chunk();
        let score = effective_score(&c);
        let mut pos: usize = 0;
        while pos < sorted.len() && effective_score(&sorted[pos]) >= score
            invariant
                pos <= sorted@.len(),
                forall|j: int|
                    0 <= j < pos ==> spec_effective(#[trigger] sorted@.index(j)) >= score as nat,
            decreases sorted@.len() - pos,
        {
            pos = pos + 1;
        }
        let ghost old_sorted = sorted@;
        proof {
            lemma_insert_adds_to_multiset(sorted@, pos as int, c);
            assert(chunks@.subrange(0, k + 1).drop_last() =~= chunks@.subrange(0, k as int));
            assert(chunks@.subrange(0, k + 1).last() == chunks@.index(k as int));
            assert(chunks@.subrange(0, k + 1) =~= chunks@.subrange(0, k as int).push(
                chunks@.index(k as int),
            ));
        }
        sorted.insert(pos, c);
        proof {
            assert forall|i: int, j: int|
                0 <= i < j < sorted@.len() implies spec_effective(#[trigger] sorted@.index(i))
                >= spec_effective(#[trigger] sorted@.index(j)) by {
                assert(sorted@ == old_sorted.insert(pos as int, c));
                if i < pos && j < pos {
                    assert(sorted@.index(i) == old_sorted.index(i));
                    assert(sorted@.index(j) == old_sorted.index(j));
                } else if i < pos && j == pos {
                    assert(sorted@.index(i) == old_sorted.index(i));
                    assert(sorted@.index(j) == c);
                } else if i < pos && j > pos {
                    assert(sorted@.index(i) == old_sorted.index(i));
                    assert(sorted@.index(j) == old_sorted.index(j - 1));
                    if pos < old_sorted.len() {
                        assert(spec_effective(old_sorted.index(pos as int)) < score as nat);
                    }
                } else if i == pos {
                    assert(sorted@.index(i) == c);
                    assert(sorted@.index(j) == old_sorted.index(j - 1));
                    assert(spec_effective(old_sorted.index(pos as int)) < score as nat);
                } else {
                    assert(sorted@.index(i) == old_sorted.index(i - 1));
                    assert(sorted@.index(j) == old_sorted.index(j - 1));
                }
            }
        }
        k = k + 1;
    }
    proof {
        assert(chunks@.subrange(0, chunks@.len() as int) =~= chunks@);
    }
    sorted
}

impl RetrievedChunk {
    /// A field-for-field copy.
    pub fn clone_chunk(&self) -> (r: RetrievedChunk)
        ensures
            r == *self,
    {
        RetrievedChunk {
            text: self.text.clone(),
            score_milli: self.score_milli,
            weight_milli: self.weight_milli,
            source_id: self.source_id.clone(),
        }
    }
}

/// The weight-annotated block one chunk contributes to the context.
pub open spec fn spec_block(c: RetrievedChunk) -> Seq<char> {
    "[w:"@ + spec_digits(c.weight_milli as nat) + "] "@ + c.text@ + "\n"@
}

/// The assembled context: blocks are appended in order while the running
/// sum of their token estimates stays within the budget; the first block
/// that would push the running sum past the budget stops the walk.
pub open spec fn spec_assemble(chunks: Seq<RetrievedChunk>, used: nat, budget: nat) -> Seq<char>
    decreases chunks.len(),
{
    if chunks.len() == 0 {
        Seq::empty()
    } else {
        let b = spec_block(chunks.first());
        let t = spec_estimate_tokens(b.len());
        if used + t > budget {
            Seq::empty()
        } else {
            b + spec_assemble(chunks.drop_first(), used + t, budget)
        }
    }
}

/// Token estimates are subadditive over concatenation.
proof fn lemma_estimate_subadditive(a: nat, b: nat)
    ensures
        spec_estimate_tokens(a + b) <= spec_estimate_tokens(a) + spec_estimate_tokens(b),
{
}

/// The assembled context never exceeds the remaining budget.
pub proof fn lemma_assemble_within_budget(chunks: Seq<RetrievedChunk>, used: nat, budget: nat)
    requires
        used <= budget,
    ensures
        spec_estimate_tokens(spec_assemble(chunks, used, budget).len()) <= budget - used,
    decreases chunks.len(),
{
    if chunks.len() == 0 {
    } else {
        let b = spec_block(chunks.first());
        let t = spec_estimate_tokens(b.len());
        if used + t > budget {
        } else {
            lemma_assemble_within_budget(chunks.drop_first(), used + t, budget);
            let rest = spec_assemble(chunks.drop_first(), used + t, budget);
            lemma_estimate_subadditive(b.len(), rest.len());
        }
    }
}

/// Format one chunk as its weight-annotated block.
pub fn format_block(c: &RetrievedChunk) -> (r: String)
    ensures
        r@ == spec_block(*c),
{
    let mut out = String::from_str("[w:");
    let digits = u64_to_string(c.weight_milli as u64);
    out.append(digits.as_str());
    out.append("] ");
    out.append(c.text.as_str());
    out.append("\n");
    out
}

/// Assemble the context block from ranked chunks under a token budget:
/// blocks are appended in rank order, and appending stops at the first
/// block whose token estimate does not fit the remaining budget.
pub fn assemble_context(ranked: &Vec<RetrievedChunk>, budget: usize) -> (r: String)
    ensures
        r@ == spec_assemble(ranked@, 0, budget as nat),
        spec_estimate_tokens(r@.len()) <= budget,
{
    let mut out = String::new();
    let mut used: usize = 0;
    let mut i: usize = 0;
    let mut stopped: bool = false;
    proof {
        assert(ranked@.skip(0) =~= ranked@);
    }
    while i < ranked.len() && !stopped
        invariant
            i <= ranked@.len(),
            used <= budget,
            !stopped ==> spec_assemble(ranked@, 0, budget as nat) == out@ + spec_assemble(
                ranked@.skip(i as int),
                used as nat,
                budget as nat,
            ),
            stopped ==> spec_assemble(ranked@, 0, budget as nat) == out@,
        decreases ranked@.len() - i, (if stopped { 0int } else { 1int }),
    {
        let ghost rest = ranked@.skip(i as int);
        proof {
            assert(rest.first() == ranked@.index(i as int));
            assert(rest.drop_first() =~= ranked@.skip(i + 1));
        }
        let block = format_block(&ranked[i]);
        let t = crate::context::text_tokens(block.as_str());
        if t > budget - used {
            stopped = true;
            proof {
                assert(out@ + spec_assemble(rest, used as nat, budget as nat) =~= out@);
            }
        } else {
            proof {
                assert(out@ + spec_assemble(rest, used as nat, budget as nat) =~= (out@
                    + spec_block(ranked@.index(i as int))) + spec_assemble(
                    ranked@.skip(i + 1),
                    used as nat + t as nat,
                    budget as nat,
                ));
            }
            out.append(block.as_str());
            used = used + t;
            i = i + 1;
        }
    }
    proof {
        if !stopped {
            assert(ranked@.skip(ranked@.len() as int) =~= Seq::<RetrievedChunk>::empty());
            assert(out@ + spec_assemble(
                Seq::<RetrievedChunk>::empty(),
                used as nat,
                budget as nat,
            ) =~= out@);
        }
        lemma_assemble_within_budget(ranked@, 0, budget as nat);
    }
    out
}

/// Rank the hits and keep the best `top_k`.
pub fn rank_top(chunks: Vec<RetrievedChunk>, top_k: usize) -> (r: Vec<RetrievedChunk>)
    ensures
        sorted_desc(r@),
        r@.len() == if top_k <= chunks@.len() {
            top_k as int
        } else {
            chunks@.len() as int
        },
        exists|full: Seq<RetrievedChunk>|
            #![auto]
            full.to_multiset() == chunks@.to_multiset() && sorted_desc(full) && r@ == full.take(
                r@.len() as int,
            ),
{
    let ghost input = chunks@;
    let mut ranked = rerank(chunks);
    let ghost full = ranked@;
    if ranked.len() > top_k {
        ranked.truncate(top_k);
    }
    proof {
        assert(ranked@ =~= full.take(ranked@.len() as int));
        assert(sorted_desc(ranked@));
    }
    ranked
}

/// Rank, truncate and assemble in one step: the retrieval surface of the
/// engine once the store's hits are in hand.
pub fn retrieve_context(chunks: Vec<RetrievedChunk>, top_k: usize, budget: usize) -> (r: String)
    ensures
        spec_estimate_tokens(r@.len()) <= budget,
        exists|ranked: Seq<RetrievedChunk>|
            #![auto]
            sorted_desc(ranked) && r@ == spec_assemble(ranked, 0, budget as nat),
{
    let ranked = rank_top(chunks, top_k);
    assemble_context(&ranked, budget)
}

} // verus!
