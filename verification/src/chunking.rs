//! Chunking of ingested text: lines are accumulated into chunks while the
//! tokenizer's count stays within the limit. The byte-pair tokenizer is an
//! outside library; its count is named, not restated.

use vstd::prelude::*;
use crate::strutil::spec_trim;
use crate::strutil::trim_bounds;

verus! {

/// The token count the byte-pair tokenizer of the fixed chat model
/// assigns to a text. A function of the text alone.
pub uninterp spec fn bpe_token_count(s: Seq<char>) -> nat;

/// Relies on tiktoken_rs::get_bpe_from_model("gpt-3.5-turbo"),
/// CoreBPE::special_tokens and the fallible CoreBPE::encode: for this
/// fixed model the token count depends on the text alone; any tokenizer
/// error comes back as `None` instead of a panic.
#[verifier::external_body]
fn chat_token_count(text: &str) -> (r: Option<usize>)
    ensures
        match r {
            Some(c) => c as nat == bpe_token_count(text@),
            None => true,
        },
{
    match tiktoken_rs::get_bpe_from_model("gpt-3.5-turbo") {
        Ok(bpe) => match bpe.encode(text, &bpe.special_tokens()) {
            Ok((ranks, _)) => Some(ranks.len()),
            Err(_) => None,
        },
        Err(_) => None,
    }
}

/// A line with one trailing carriage return removed.
pub open spec fn spec_strip_cr(l: Seq<char>) -> Seq<char> {
    if l.len() > 0 && l.last() == '\r' {
        l.drop_last()
    } else {
        l
    }
}

/// The lines of a text: split at newlines, carriage returns stripped, no
/// line for a trailing newline. `cur` is the partial line read so far.
pub open spec fn spec_lines_acc(s: Seq<char>, cur: Seq<char>) -> Seq<Seq<char>>
    decreases s.len(),
{
    if s.len() == 0 {
        if cur.len() == 0 {
            Seq::empty()
        } else {
            seq![spec_strip_cr(cur)]
        }
    } else if s.first() == '\n' {
        seq![spec_strip_cr(cur)] + spec_lines_acc(s.drop_first(), Seq::empty())
    } else {
        spec_lines_acc(s.drop_first(), cur.push(s.first()))
    }
}

/// The lines of a text.
pub open spec fn spec_lines(s: Seq<char>) -> Seq<Seq<char>> {
    spec_lines_acc(s, Seq::empty())
}

/// The chunks produced from the remaining lines, with `current` the text
/// accumulated so far: a line that would push the tokenizer's count of
/// `current + line` past the limit closes the current chunk (trimmed)
/// first; the line then always joins the accumulator, followed by a
/// newline; a non-blank remainder becomes the final chunk.
pub open spec fn spec_chunks(lines: Seq<Seq<char>>, current: Seq<char>, max_tokens: nat) -> Seq<
    Seq<char>,
>
    decreases lines.len(),
{
    if lines.len() == 0 {
        if spec_trim(current).len() == 0 {
            Seq::empty()
        } else {
            seq![spec_trim(current)]
        }
    } else {
        let line = lines.first();
        if bpe_token_count(current + line) > max_tokens {
            seq![spec_trim(current)] + spec_chunks(lines.drop_first(), line + "\n"@, max_tokens)
        } else {
            spec_chunks(lines.drop_first(), current + line + "\n"@, max_tokens)
        }
    }
}

/// Split a text into lines.
fn split_lines(text: &str) -> (r: Vec<String>)
    ensures
        r.deep_view() == spec_lines(text@),
{
    let n = text.unicode_len();
    let mut out: Vec<String> = Vec::new();
    let mut seg_start: usize = 0;
    let mut i: usize = 0;
    proof {
        assert(text@.skip(0) =~= text@);
        assert(text@.subrange(0, 0) =~= Seq::<char>::empty());
        assert(out.deep_view() + spec_lines_acc(text@.skip(0), text@.subrange(0, 0))
            =~~= spec_lines(text@));
    }
    while i < n
        invariant
            seg_start <= i <= n,
            n == text@.len(),
            spec_lines(text@) == out.deep_view() + spec_lines_acc(
                text@.skip(i as int),
                text@.subrange(seg_start as int, i as int),
            ),
        decreases n - i,
    {
        let ghost rest = text@.skip(i as int);
        let ghost cur = text@.subrange(seg_start as int, i as int);
        proof {
            assert(rest.first() == text@.index(i as int));
            assert(rest.drop_first() =~= text@.skip(i + 1));
        }
        let c = text.get_char(i);
        if c == '\n' {
            let line_end = if i > seg_start && text.get_char(i - 1) == '\r' {
                i - 1
            } else {
                i
            };
            let piece = text.substring_char(seg_start, line_end);
            let ghost old_out = out.deep_view();
            out.push(piece.to_owned());
            proof {
                assert(text@.subrange(seg_start as int, line_end as int) =~= spec_strip_cr(cur));
                assert(out.deep_view() =~~= old_out.push(spec_strip_cr(cur)));
                assert(text@.subrange(i + 1, i + 1) =~= Seq::<char>::empty());
                assert(out.deep_view() + spec_lines_acc(text@.skip(i + 1), text@.subrange(
                    i + 1,
                    i + 1,
                )) =~~= old_out + (seq![spec_strip_cr(cur)] + spec_lines_acc(
                    text@.skip(i + 1),
                    Seq::empty(),
                )));
            }
            seg_start = i + 1;
        } else {
            proof {
                assert(text@.subrange(seg_start as int, i + 1) =~= cur.push(text@.index(i as int)));
            }
        }
        i = i + 1;
    }
    proof {
        assert(text@.skip(n as int) =~= Seq::<char>::empty());
    }
    if seg_start < n {
        let line_end = if text.get_char(n - 1) == '\r' {
            n - 1
        } else {
            n
        };
        let piece = text.substring_char(seg_start, line_end);
        let ghost old_out = out.deep_view();
        let ghost cur = text@.subrange(seg_start as int, n as int);
        out.push(piece.to_owned());
        proof {
            assert(text@.subrange(seg_start as int, line_end as int) =~= spec_strip_cr(cur));
            assert(out.deep_view() =~~= old_out.push(spec_strip_cr(cur)));
        }
    } else {
        proof {
            assert(text@.subrange(seg_start as int, n as int) =~= Seq::<char>::empty());
        }
    }
    out
}

/// The trimmed copy of a string.
fn trimmed(s: &str) -> (r: String)
    ensures
        r@ == spec_trim(s@),
{
    let n = s.unicode_len();
    proof {
        assert(s@.subrange(0, n as int) =~= s@);
    }
    let b = trim_bounds(s, 0, n);
    s.substring_char(b.0, b.1).to_owned()
}

/// Split a text into chunks of at most `max_tokens` tokenizer tokens per
/// accumulated block (a single oversized line still becomes its own
/// chunk). Fails only when the tokenizer itself cannot be had.
pub fn chunk_text(text: &str, max_tokens: usize) -> (r: Result<Vec<String>, String>)
    ensures
        match r {
            Ok(chunks) => chunks.deep_view() == spec_chunks(
                spec_lines(text@),
                Seq::empty(),
                max_tokens as nat,
            ),
            Err(e) => e@ == "tokenizer unavailable"@,
        },
{
    let lines = split_lines(text);
    let ghost all_lines = lines.deep_view();
    let mut out: Vec<String> = Vec::new();
    let mut current = String::new();
    let mut i: usize = 0;
    proof {
        assert(all_lines.skip(0) =~~= all_lines);
        assert(out.deep_view() =~~= Seq::<Seq<char>>::empty());
        assert(out.deep_view() + spec_chunks(all_lines.skip(0), current@, max_tokens as nat)
            =~~= spec_chunks(spec_lines(text@), Seq::empty(), max_tokens as nat));
    }
    while i < lines.len()
        invariant
            i <= lines@.len(),
            all_lines == lines.deep_view(),
            all_lines.len() == lines@.len(),
            spec_chunks(spec_lines(text@), Seq::empty(), max_tokens as nat) == out.deep_view()
                + spec_chunks(all_lines.skip(i as int), current@, max_tokens as nat),
        decreases lines@.len() - i,
    {
        let ghost rest = all_lines.skip(i as int);
        proof {
            assert(rest.first() == all_lines.index(i as int));
            assert(rest.drop_first() =~~= all_lines.skip(i + 1));
        }
        let line = &lines[i];
        let ghost cur0 = current@;
        let mut joined = current.clone();
        joined.append(line.as_str());
        let count = match chat_token_count(joined.as_str()) {
            Some(c) => c,
            None => {
                return Err(String::from_str("tokenizer unavailable"));
            },
        };
        proof {
            assert(joined@ == cur0 + all_lines.index(i as int));
        }
        if count > max_tokens {
            let t = trimmed(current.as_str());
            let ghost old_out = out.deep_view();
            out.push(t);
            current = String::new();
            current.append(line.as_str());
            current.append("\n");
            proof {
                assert(current@ =~= all_lines.index(i as int) + "\n"@);
                assert(out.deep_view() =~~= old_out.push(spec_trim(cur0)));
                assert(out.deep_view() + spec_chunks(
                    all_lines.skip(i + 1),
                    current@,
                    max_tokens as nat,
                ) =~~= old_out + spec_chunks(rest, cur0, max_tokens as nat));
            }
        } else {
            current.append(line.as_str());
            current.append("\n");
            proof {
                assert(current@ =~= cur0 + all_lines.index(i as int) + "\n"@);
            }
        }
        i = i + 1;
    }
    proof {
        assert(all_lines.skip(all_lines.len() as int) =~~= Seq::<Seq<char>>::empty());
    }
    let t = trimmed(current.as_str());
    if t.unicode_len() > 0 {
        out.push(t);
    }
    Ok(out)
}

} // verus!
