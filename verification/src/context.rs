//! Context/token-budget manager: estimates the token cost of messages,
//! decides whether a conversation fits the model's context window, and
//! selects or summarizes history when it does not.

use vstd::prelude::*;
use crate::strutil::{contains_seq, is_ws_char, spec_trim, str_contains, str_eq, trim_bounds, ws_char};
use crate::types::Message;

verus! {

/// Conservative default context window, in tokens.
pub const DEFAULT_CONTEXT_LIMIT: usize = 4096;
/// Context window for models that advertise a large context.
pub const LARGE_MODEL_CONTEXT_LIMIT: usize = 8192;
/// Tokens held back for the system prompt.
pub const SYSTEM_PROMPT_RESERVE: usize = 500;
/// Tokens held back for the model's response.
pub const RESPONSE_RESERVE: usize = 1000;
/// Fixed per-message formatting overhead, in tokens.
pub const MESSAGE_OVERHEAD_TOKENS: usize = 10;

/// Token estimate for a text of `n` characters: four characters per token,
/// rounded up.
pub open spec fn spec_estimate_tokens(n: nat) -> nat {
    ((n + 3) / 4) as nat
}

/// Token estimate for one message: content plus role plus fixed overhead.
pub open spec fn spec_estimate_message_tokens(m: Message) -> nat {
    spec_estimate_tokens(m.text@.len()) + spec_estimate_tokens(m.role@.len())
        + MESSAGE_OVERHEAD_TOKENS as nat
}

/// The context window selected from a model name by its size hints.
pub open spec fn spec_context_limit(model_name: Option<Seq<char>>) -> nat {
    match model_name {
        Some(name) => if contains_seq(name, "32k"@) {
            32768
        } else if contains_seq(name, "16k"@) {
            16384
        } else if contains_seq(name, "8k"@) || contains_seq(name, "large"@) {
            LARGE_MODEL_CONTEXT_LIMIT as nat
        } else {
            DEFAULT_CONTEXT_LIMIT as nat
        },
        None => DEFAULT_CONTEXT_LIMIT as nat,
    }
}

/// Tokens left for conversation history once the system prompt and the
/// reserves are paid for, floored at zero.
pub open spec fn spec_available_tokens(max_context: nat, system_prompt: Seq<char>) -> nat {
    let used = spec_estimate_tokens(system_prompt.len()) + SYSTEM_PROMPT_RESERVE
        + RESPONSE_RESERVE;
    if used >= max_context {
        0
    } else {
        (max_context - used) as nat
    }
}

/// Sum of per-message estimates over all non-tool messages.
pub open spec fn spec_history_tokens(messages: Seq<Message>) -> nat
    decreases messages.len(),
{
    if messages.len() == 0 {
        0
    } else {
        spec_history_tokens(messages.drop_last()) + if messages.last().role@ == "tool"@ {
            0
        } else {
            spec_estimate_message_tokens(messages.last())
        }
    }
}

/// Estimate the token count of a text: four characters per token, rounded
/// up.
pub fn text_tokens(text: &str) -> (r: usize)
    ensures
        r == spec_estimate_tokens(text@.len()),
        text@.len() <= usize::MAX,
{
    let n = text.unicode_len();
    n / 4 + if n % 4 == 0 { 0 } else { 1 }
}

pub struct ContextManager {
    max_context_tokens: usize,
}

impl ContextManager {
    /// The context window this manager was built with, as a mathematical
    /// value.
    pub closed spec fn spec_max_context_tokens(&self) -> nat {
        self.max_context_tokens as nat
    }

    /// Selects the context window from the model name using substring rules.
    pub fn new(model_name: Option<&str>) -> (r: Self)
        ensures
            r.spec_max_context_tokens() == spec_context_limit(
                match model_name {
                    Some(n) => Some(n@),
                    None => None,
                },
            ),
    {
        let max_context_tokens: usize = match model_name {
            Some(name) => {
                if str_contains(name, "32k") {
                    32768
                } else if str_contains(name, "16k") {
                    16384
                } else if str_contains(name, "8k") || str_contains(name, "large") {
                    LARGE_MODEL_CONTEXT_LIMIT
                } else {
                    DEFAULT_CONTEXT_LIMIT
                }
            },
            None => DEFAULT_CONTEXT_LIMIT,
        };
        ContextManager { max_context_tokens }
    }

    /// The context window this manager was built with.
    pub fn max_context_tokens(&self) -> (r: usize)
        ensures
            r == self.spec_max_context_tokens(),
    {
        self.max_context_tokens
    }

    /// Estimate the token count of a text: four characters per token,
    /// rounded up.
    pub fn estimate_tokens(&self, text: &str) -> (r: usize)
        ensures
            r == spec_estimate_tokens(text@.len()),
            text@.len() <= usize::MAX,
    {
        text_tokens(text)
    }

    /// Estimate the token cost of one message, including the role text and
    /// a fixed formatting overhead.
    pub fn estimate_message_tokens(&self, message: &Message) -> (r: usize)
        ensures
            r == spec_estimate_message_tokens(*message),
    {
        let content_tokens = self.estimate_tokens(message.text.as_str());
        let role_tokens = self.estimate_tokens(message.role.as_str());
        content_tokens + role_tokens + MESSAGE_OVERHEAD_TOKENS
    }

    /// Tokens available for conversation history under this window after
    /// the given system prompt and both reserves; never negative.
    pub fn available_context_tokens(&self, system_prompt: &str) -> (r: usize)
        ensures
            r == spec_available_tokens(self.spec_max_context_tokens(), system_prompt@),
    {
        let system_tokens = self.estimate_tokens(system_prompt);
        if system_tokens >= self.max_context_tokens {
            return 0;
        }
        let rest = self.max_context_tokens - system_tokens;
        if rest <= SYSTEM_PROMPT_RESERVE + RESPONSE_RESERVE {
            0
        } else {
            rest - (SYSTEM_PROMPT_RESERVE + RESPONSE_RESERVE)
        }
    }

    /// True exactly when the summed estimate over all non-tool messages
    /// exceeds the available history budget.
    pub fn needs_optimization(&self, messages: &Vec<Message>, system_prompt: &str) -> (r: bool)
        ensures
            r == (spec_history_tokens(messages@) > spec_available_tokens(
                self.spec_max_context_tokens(),
                system_prompt@,
            )),
    {
        let available_tokens = self.available_context_tokens(system_prompt);
        let mut current_tokens: usize = 0;
        let mut i: usize = 0;
        while i < messages.len()
            invariant
                i <= messages@.len(),
                current_tokens == spec_history_tokens(messages@.subrange(0, i as int)),
                current_tokens <= available_tokens,
                available_tokens == spec_available_tokens(
                    self.spec_max_context_tokens(),
                    system_prompt@,
                ),
            decreases messages@.len() - i,
        {
            let m = &messages[i];
            proof {
                assert(messages@.subrange(0, i + 1).drop_last() =~= messages@.subrange(
                    0,
                    i as int,
                ));
                assert(messages@.subrange(0, i + 1).last() == messages@.index(i as int));
            }
            if !str_eq(m.role.as_str(), "tool") {
                let t = self.estimate_message_tokens(m);
                if t > available_tokens - current_tokens {
                    proof {
                        history_tokens_monotonic(messages@, i + 1);
                    }
                    return true;
                }
                current_tokens = current_tokens + t;
            }
            i = i + 1;
        }
        proof {
            assert(messages@.subrange(0, messages@.len() as int) =~= messages@);
        }
        false
    }
}

/// A longer prefix of the history never has a smaller summed estimate.
proof fn history_tokens_monotonic(messages: Seq<Message>, i: int)
    requires
        0 <= i <= messages.len(),
    ensures
        spec_history_tokens(messages.subrange(0, i)) <= spec_history_tokens(messages),
    decreases messages.len() - i,
{
    if i == messages.len() {
        assert(messages.subrange(0, i) =~= messages);
    } else {
        history_tokens_monotonic(messages, i + 1);
        assert(messages.subrange(0, i + 1).drop_last() =~= messages.subrange(0, i));
    }
}

/// One role/content pair handed to the model service.
#[derive(Debug, Clone)]
pub struct ChatEntry {
    pub role: String,
    pub content: String,
}

/// The entry a history message contributes to a model request.
pub open spec fn spec_entry_of(m: Message) -> ChatEntry {
    ChatEntry { role: m.role, content: m.text }
}

/// The messages kept when walking history newest-first under a token
/// budget: tool messages are skipped, each other message is kept while it
/// fits the remaining budget, and the walk stops at the first message that
/// does not fit. The result is in chronological order.
pub open spec fn spec_fit_suffix(messages: Seq<Message>, budget: nat) -> Seq<ChatEntry>
    decreases messages.len(),
{
    if messages.len() == 0 {
        Seq::empty()
    } else {
        let m = messages.last();
        if m.role@ == "tool"@ {
            spec_fit_suffix(messages.drop_last(), budget)
        } else if spec_estimate_message_tokens(m) <= budget {
            spec_fit_suffix(
                messages.drop_last(),
                (budget - spec_estimate_message_tokens(m)) as nat,
            ).push(spec_entry_of(m))
        } else {
            Seq::empty()
        }
    }
}

impl ContextManager {
    /// Walk history newest-first, keeping what fits the budget; result is
    /// chronological.
    fn select_recent(&self, messages: &Vec<Message>, available: usize) -> (r: Vec<ChatEntry>)
        ensures
            r@ == spec_fit_suffix(messages@, available as nat),
    {
        let mut collected: Vec<ChatEntry> = Vec::new();
        let mut rem: usize = available;
        let mut i: usize = messages.len();
        let mut broke: bool = false;
        proof {
            assert(messages@.subrange(0, i as int) =~= messages@);
            assert(spec_fit_suffix(messages@, available as nat) =~= spec_fit_suffix(
                messages@,
                available as nat,
            ) + collected@);
        }
        while i > 0 && !broke
            invariant
                i <= messages@.len(),
                !broke ==> spec_fit_suffix(messages@, available as nat) == spec_fit_suffix(
                    messages@.subrange(0, i as int),
                    rem as nat,
                ) + collected@,
                broke ==> spec_fit_suffix(messages@, available as nat) == collected@,
            decreases i, (if broke { 0int } else { 1int }),
        {
            let ghost pre = messages@.subrange(0, i as int);
            proof {
                assert(pre.drop_last() =~= messages@.subrange(0, i - 1));
                assert(pre.last() == messages@.index(i - 1));
            }
            let m = &messages[i - 1];
            if !str_eq(m.role.as_str(), "tool") {
                let t = self.estimate_message_tokens(m);
                if t <= rem {
                    proof {
                        let older = spec_fit_suffix(
                            messages@.subrange(0, i - 1),
                            (rem - t) as nat,
                        );
                        assert(spec_fit_suffix(pre, rem as nat) + collected@ =~= older + (
                        collected@.insert(0, spec_entry_of(messages@.index(i - 1)))));
                    }
                    rem = rem - t;
                    collected.insert(0, ChatEntry { role: m.role.clone(), content: m.text.clone() });
                    i = i - 1;
                } else {
                    broke = true;
                    proof {
                        assert(spec_fit_suffix(pre, rem as nat) + collected@ =~= collected@);
                    }
                }
            } else {
                i = i - 1;
            }
        }
        proof {
            if !broke {
                assert(messages@.subrange(0, 0) =~= Seq::<Message>::empty());
                assert(spec_fit_suffix(messages@.subrange(0, 0), rem as nat) + collected@
                    =~= collected@);
            }
        }
        collected
    }
}

/// Sentence-ending punctuation for the extractive summarizer.
pub open spec fn is_sentence_end(c: char) -> bool {
    c == '.' || c == '!' || c == '?'
}

fn is_end_char(c: char) -> (r: bool)
    ensures
        r == is_sentence_end(c),
{
    c == '.' || c == '!' || c == '?'
}

/// Shortest sentence (in characters) the summarizer will keep.
pub const MIN_SENTENCE_CHARS: usize = 20;

/// Length of a sentence that counts fully toward its score.
pub const FULL_LENGTH_CHARS: usize = 100;

/// A split segment becomes a sentence when its trimmed form is longer
/// than the minimum; anything shorter is dropped.
pub open spec fn spec_close_segment(cur: Seq<char>) -> Seq<Seq<char>> {
    if spec_trim(cur).len() > MIN_SENTENCE_CHARS {
        seq![spec_trim(cur)]
    } else {
        Seq::empty()
    }
}

/// The qualifying sentences of a text: split on sentence punctuation,
/// trimmed, the long enough kept in order; `cur` is the partial segment
/// read so far.
pub open spec fn spec_sentences_acc(s: Seq<char>, cur: Seq<char>) -> Seq<Seq<char>>
    decreases s.len(),
{
    if s.len() == 0 {
        spec_close_segment(cur)
    } else if is_sentence_end(s.first()) {
        spec_close_segment(cur) + spec_sentences_acc(s.drop_first(), Seq::empty())
    } else {
        spec_sentences_acc(s.drop_first(), cur.push(s.first()))
    }
}

/// The qualifying sentences of a text.
pub open spec fn spec_sentences(text: Seq<char>) -> Seq<Seq<char>> {
    spec_sentences_acc(text, Seq::empty())
}

/// The score of sentence `k` out of `total` with trimmed length `len`:
/// position plus capped length, scaled by `200·total` so that it is the
/// exact integer form of `(1 − k/(2·total)) + min(len/100, 1)`.
pub open spec fn spec_sentence_score(total: nat, k: nat, len: nat) -> nat {
    ((200 * total + 2 * total * (if len > FULL_LENGTH_CHARS as nat {
        FULL_LENGTH_CHARS as nat
    } else {
        len
    })) - 100 * k) as nat
}

/// The sentences paired with their scores, in position order.
pub open spec fn spec_scored(sentences: Seq<Seq<char>>) -> Seq<(nat, Seq<char>)> {
    Seq::new(
        sentences.len(),
        |k: int|
            (
                spec_sentence_score(sentences.len(), k as nat, sentences.index(k).len()),
                sentences.index(k),
            ),
    )
}

/// Stable descending insertion: the new item goes after every item whose
/// score is at least its own.
pub open spec fn spec_insert_scored(
    sorted: Seq<(nat, Seq<char>)>,
    item: (nat, Seq<char>),
) -> Seq<(nat, Seq<char>)>
    decreases sorted.len(),
{
    if sorted.len() == 0 {
        seq![item]
    } else if sorted.first().0 >= item.0 {
        seq![sorted.first()] + spec_insert_scored(sorted.drop_first(), item)
    } else {
        seq![item] + sorted
    }
}

/// The scored sentences sorted by descending score, one stable insertion
/// at a time; equal scores keep position order.
pub open spec fn spec_sort_scored(
    items: Seq<(nat, Seq<char>)>,
    acc: Seq<(nat, Seq<char>)>,
) -> Seq<(nat, Seq<char>)>
    decreases items.len(),
{
    if items.len() == 0 {
        acc
    } else {
        spec_sort_scored(items.drop_first(), spec_insert_scored(acc, items.first()))
    }
}

/// Greedy selection: sentences are taken in sorted order and joined by
/// ". " while one still fits the budget with the two-character separator
/// allowance; the first that does not fit stops the walk.
pub open spec fn spec_greedy(sorted: Seq<(nat, Seq<char>)>, max_chars: nat, acc: Seq<char>) -> Seq<
    char,
>
    decreases sorted.len(),
{
    if sorted.len() == 0 {
        acc
    } else {
        let sentence = sorted.first().1;
        if acc.len() + sentence.len() + 2 <= max_chars {
            spec_greedy(
                sorted.drop_first(),
                max_chars,
                if acc.len() == 0 {
                    sentence
                } else {
                    acc + ". "@ + sentence
                },
            )
        } else {
            acc
        }
    }
}

/// The extractive summary of a text under a character budget: the greedy
/// concatenation of the best-scoring sentences, or the raw text truncated
/// to the budget when nothing was selected.
pub open spec fn spec_extractive_summary(text: Seq<char>, max_chars: nat) -> Seq<char> {
    let picked = spec_greedy(
        spec_sort_scored(spec_scored(spec_sentences(text)), Seq::empty()),
        max_chars,
        Seq::empty(),
    );
    if picked.len() == 0 {
        if max_chars < text.len() {
            text.take(max_chars as int)
        } else {
            text
        }
    } else {
        picked
    }
}

/// The texts the recorded ranges stand for.
pub open spec fn seq_of_ranges(rs: Seq<(usize, usize)>, t: Seq<char>) -> Seq<Seq<char>> {
    Seq::new(rs.len(), |j: int| t.subrange(rs.index(j).0 as int, rs.index(j).1 as int))
}

/// The scored pairs the scored ranges stand for.
pub open spec fn pairs_of(ss: Seq<(u128, usize, usize)>, t: Seq<char>) -> Seq<(nat, Seq<char>)> {
    Seq::new(
        ss.len(),
        |j: int|
            (
                ss.index(j).0 as nat,
                t.subrange(ss.index(j).1 as int, ss.index(j).2 as int),
            ),
    )
}

/// Inserting where every earlier score is at least the item's and the next
/// is below it is exactly the stable descending insertion.
proof fn lemma_insert_scored_at(s: Seq<(nat, Seq<char>)>, item: (nat, Seq<char>), pos: int)
    requires
        0 <= pos <= s.len(),
        forall|j: int| 0 <= j < pos ==> (#[trigger] s.index(j)).0 >= item.0,
        pos < s.len() ==> s.index(pos).0 < item.0,
    ensures
        spec_insert_scored(s, item) == s.insert(pos, item),
    decreases s.len(),
{
    if s.len() == 0 {
        assert(s.insert(0, item) =~= seq![item]);
    } else if pos == 0 {
        assert(s.insert(0, item) =~= seq![item] + s);
    } else {
        assert(s.index(0).0 >= item.0);
        lemma_insert_scored_at(s.drop_first(), item, pos - 1);
        assert(s.insert(pos, item) =~= seq![s.first()] + s.drop_first().insert(pos - 1, item));
    }
}

impl ContextManager {
    /// Extractive summarization: split on sentence punctuation, drop short
    /// sentences, score the rest by position (earlier is better) and by
    /// length (up to one hundred characters), and concatenate the best
    /// sentences, joined by ". ", until the character budget is reached.
    /// When nothing qualifies or nothing fits, the raw text is truncated
    /// to the budget.
    pub fn extractive_summary(&self, text: &str, max_chars: usize) -> (r: String)
        ensures
            r@ == spec_extractive_summary(text@, max_chars as nat),
            r@.len() <= max_chars,
            text@.len() == 0 ==> r@.len() == 0,
            text@.len() > 0 && max_chars > 0 ==> r@.len() > 0,
    {
        let n = text.unicode_len();

        // Split into trimmed sentence ranges, keeping only those longer
        // than the minimum.
        let mut ranges: Vec<(usize, usize)> = Vec::new();
        let mut seg_start: usize = 0;
        let mut i: usize = 0;
        proof {
            assert(text@.skip(0) =~= text@);
            assert(text@.subrange(0, 0) =~= Seq::<char>::empty());
            assert(seq_of_ranges(ranges@, text@) =~~= Seq::<Seq<char>>::empty());
            assert(seq_of_ranges(ranges@, text@) + spec_sentences_acc(
                text@.skip(0),
                text@.subrange(0, 0),
            ) =~~= spec_sentences(text@));
        }
        while i < n
            invariant
                seg_start <= i <= n,
                n == text@.len(),
                n <= usize::MAX,
                valid_ranges(ranges@, n as nat),
                spec_sentences(text@) == seq_of_ranges(ranges@, text@) + spec_sentences_acc(
                    text@.skip(i as int),
                    text@.subrange(seg_start as int, i as int),
                ),
            decreases n - i,
        {
            let ghost rest = text@.skip(i as int);
            let ghost cur = text@.subrange(seg_start as int, i as int);
            proof {
                assert(rest.first() == text@.index(i as int));
                assert(rest.drop_first() =~= text@.skip(i + 1));
            }
            if is_end_char(text.get_char(i)) {
                let ghost pre = seq_of_ranges(ranges@, text@);
                push_trimmed_range(text, seg_start, i, &mut ranges);
                proof {
                    assert(text@.subrange(i + 1, i + 1) =~= Seq::<char>::empty());
                    assert(seq_of_ranges(ranges@, text@) + spec_sentences_acc(
                        text@.skip(i + 1),
                        text@.subrange(i + 1, i + 1),
                    ) =~~= pre + (spec_close_segment(cur) + spec_sentences_acc(
                        text@.skip(i + 1),
                        Seq::empty(),
                    )));
                }
                seg_start = i + 1;
            } else {
                proof {
                    assert(text@.subrange(seg_start as int, i + 1) =~= cur.push(
                        text@.index(i as int),
                    ));
                }
            }
            i = i + 1;
        }
        proof {
            assert(text@.skip(n as int) =~= Seq::<char>::empty());
        }
        let ghost final_cur = text@.subrange(seg_start as int, n as int);
        if seg_start < n {
            push_trimmed_range(text, seg_start, n, &mut ranges);
        } else {
            proof {
                assert(final_cur =~= Seq::<char>::empty());
                assert(seq_of_ranges(ranges@, text@) + spec_close_segment(final_cur)
                    =~~= seq_of_ranges(ranges@, text@));
            }
        }
        let ghost sents = spec_sentences(text@);
        proof {
            assert(sents =~~= seq_of_ranges(ranges@, text@));
        }

        // Score each range and insert it into a list sorted by descending
        // score; insertion after equal scores keeps the position order.
        let total = ranges.len();
        let ghost scored = spec_scored(sents);
        let mut sorted: Vec<(u128, usize, usize)> = Vec::new();
        let mut k: usize = 0;
        proof {
            assert(scored.skip(0) =~~= scored);
            assert(pairs_of(sorted@, text@) =~~= Seq::<(nat, Seq<char>)>::empty());
        }
        while k < total
            invariant
                k <= total,
                total == ranges@.len(),
                n == text@.len(),
                sents == seq_of_ranges(ranges@, text@),
                sents.len() == total,
                scored == spec_scored(sents),
                valid_ranges(ranges@, n as nat),
                valid_scored(sorted@, n as nat),
                spec_sort_scored(scored, Seq::empty()) == spec_sort_scored(
                    scored.skip(k as int),
                    pairs_of(sorted@, text@),
                ),
            decreases total - k,
        {
            let ghost srest = scored.skip(k as int);
            proof {
                assert(srest.first() == scored.index(k as int));
                assert(srest.drop_first() =~~= scored.skip(k + 1));
            }
            let pair = ranges[k];
            let len = pair.1 - pair.0;
            let capped: usize = if len > FULL_LENGTH_CHARS {
                FULL_LENGTH_CHARS
            } else {
                len
            };
            proof {
                assert(2u128 * (total as u128) * (capped as u128) <= 200u128 * (total as u128))
                    by (nonlinear_arith)
                    requires
                        capped <= 100,
                        total >= 0,
                ;
            }
            let score: u128 = 200u128 * (total as u128) - 100u128 * (k as u128) + 2u128 * (
            total as u128) * (capped as u128);
            let ghost item = scored.index(k as int);
            proof {
                assert(sents.index(k as int) == text@.subrange(pair.0 as int, pair.1 as int));
                assert(item == (
                    spec_sentence_score(total as nat, k as nat, (pair.1 - pair.0) as nat),
                    sents.index(k as int),
                ));
                assert(score as nat == item.0);
            }
            let mut pos: usize = 0;
            while pos < sorted.len() && sorted[pos].0 >= score
                invariant
                    pos <= sorted@.len(),
                    forall|j: int| 0 <= j < pos ==> (#[trigger] sorted@.index(j)).0 >= score,
                decreases sorted@.len() - pos,
            {
                pos = pos + 1;
            }
            let ghost old_pairs = pairs_of(sorted@, text@);
            proof {
                assert(forall|j: int|
                    0 <= j < pos ==> (#[trigger] old_pairs.index(j)).0 >= item.0);
                if pos < sorted@.len() {
                    assert(old_pairs.index(pos as int).0 < item.0);
                }
                lemma_insert_scored_at(old_pairs, item, pos as int);
            }
            sorted.insert(pos, (score, pair.0, pair.1));
            proof {
                assert(pairs_of(sorted@, text@) =~~= old_pairs.insert(pos as int, item));
            }
            k = k + 1;
        }
        proof {
            assert(scored.skip(total as int) =~~= Seq::<(nat, Seq<char>)>::empty());
        }
        let ghost sorted_pairs = pairs_of(sorted@, text@);

        // Greedily take the best-scoring sentences while they fit.
        let mut out = String::new();
        let mut out_len: usize = 0;
        let mut q: usize = 0;
        let mut stop: bool = false;
        proof {
            assert(sorted_pairs.skip(0) =~~= sorted_pairs);
        }
        while q < sorted.len() && !stop
            invariant
                q <= sorted@.len(),
                n == text@.len(),
                out_len == out@.len(),
                out_len <= max_chars,
                out_len > 0 ==> n > 0,
                valid_scored(sorted@, n as nat),
                sorted_pairs == pairs_of(sorted@, text@),
                !stop ==> spec_greedy(sorted_pairs, max_chars as nat, Seq::empty()) == spec_greedy(
                    sorted_pairs.skip(q as int),
                    max_chars as nat,
                    out@,
                ),
                stop ==> spec_greedy(sorted_pairs, max_chars as nat, Seq::empty()) == out@,
            decreases sorted@.len() - q, (if stop { 0int } else { 1int }),
        {
            let ghost grest = sorted_pairs.skip(q as int);
            proof {
                assert(grest.first() == sorted_pairs.index(q as int));
                assert(grest.drop_first() =~~= sorted_pairs.skip(q + 1));
            }
            let item = sorted[q];
            let sl = item.2 - item.1;
            let fits = match out_len.checked_add(sl) {
                Some(x) => match x.checked_add(2) {
                    Some(y) => y <= max_chars,
                    None => false,
                },
                None => false,
            };
            proof {
                assert(fits == (out@.len() + grest.first().1.len() + 2 <= max_chars as nat));
            }
            if fits {
                let ghost acc0 = out@;
                if out_len > 0 {
                    proof {
                        reveal_strlit(". ");
                    }
                    out.append(". ");
                    out_len = out_len + 2;
                }
                let piece = text.substring_char(item.1, item.2);
                out.append(piece);
                out_len = out_len + sl;
                proof {
                    if acc0.len() == 0 {
                        assert(out@ =~= grest.first().1);
                    } else {
                        assert(out@ =~= acc0 + ". "@ + grest.first().1);
                    }
                }
            } else {
                stop = true;
            }
            q = q + 1;
        }
        proof {
            if !stop {
                assert(sorted_pairs.skip(sorted@.len() as int) =~~= Seq::<(nat, Seq<char>)>::empty());
            }
        }

        if out_len == 0 {
            // Nothing qualified or nothing fit: truncate the raw text.
            let take = if max_chars < n {
                max_chars
            } else {
                n
            };
            let piece = text.substring_char(0, take);
            proof {
                if max_chars < n {
                    assert(text@.subrange(0, take as int) =~= text@.take(max_chars as int));
                } else {
                    assert(text@.subrange(0, take as int) =~= text@);
                }
            }
            piece.to_owned()
        } else {
            out
        }
    }
}

/// All recorded ranges lie inside a text of `n` characters and are longer
/// than the minimum sentence length.
pub open spec fn valid_ranges(rs: Seq<(usize, usize)>, n: nat) -> bool {
    forall|j: int|
        0 <= j < rs.len() ==> #[trigger] rs.index(j).0 <= rs.index(j).1 <= n && rs.index(j).1
            - rs.index(j).0 > MIN_SENTENCE_CHARS
}

/// All scored ranges lie inside a text of `n` characters and are longer
/// than the minimum sentence length.
pub open spec fn valid_scored(ss: Seq<(u128, usize, usize)>, n: nat) -> bool {
    forall|j: int|
        0 <= j < ss.len() ==> #[trigger] ss.index(j).1 <= ss.index(j).2 <= n && ss.index(j).2
            - ss.index(j).1 > MIN_SENTENCE_CHARS
}

/// Trim ASCII whitespace from both ends of `text[lo..hi)` and record the
/// range exactly when the trimmed segment is longer than the minimum
/// sentence length.
fn push_trimmed_range(text: &str, lo: usize, hi: usize, ranges: &mut Vec<(usize, usize)>)
    requires
        lo <= hi <= text@.len(),
        text@.len() <= usize::MAX,
        valid_ranges(old(ranges)@, text@.len()),
    ensures
        valid_ranges(final(ranges)@, text@.len()),
        seq_of_ranges(final(ranges)@, text@) == seq_of_ranges(old(ranges)@, text@)
            + spec_close_segment(text@.subrange(lo as int, hi as int)),
{
    let b = trim_bounds(text, lo, hi);
    if b.1 - b.0 > MIN_SENTENCE_CHARS {
        ranges.push((b.0, b.1));
        proof {
            assert(seq_of_ranges(ranges@, text@) =~~= seq_of_ranges(old(ranges)@, text@)
                + spec_close_segment(text@.subrange(lo as int, hi as int)));
        }
    } else {
        proof {
            assert(seq_of_ranges(ranges@, text@) =~~= seq_of_ranges(old(ranges)@, text@)
                + spec_close_segment(text@.subrange(lo as int, hi as int)));
        }
    }
}

/// No character other than ASCII whitespace.
pub open spec fn spec_is_blank(s: Seq<char>) -> bool {
    forall|i: int| 0 <= i < s.len() ==> is_ws_char(#[trigger] s.index(i))
}

/// Whether a string is empty or all whitespace.
pub fn is_blank(s: &str) -> (r: bool)
    ensures
        r == spec_is_blank(s@),
{
    let n = s.unicode_len();
    let mut i: usize = 0;
    while i < n
        invariant
            n == s@.len(),
            i <= n,
            forall|k: int| 0 <= k < i ==> is_ws_char(#[trigger] s@.index(k)),
        decreases n - i,
    {
        if !ws_char(s.get_char(i)) {
            return false;
        }
        i = i + 1;
    }
    true
}

/// The line a chat entry contributes to a summarization transcript.
pub open spec fn spec_line_of(e: ChatEntry) -> Seq<char> {
    e.role@ + ": "@ + e.content@
}

/// Lines joined by single newlines.
pub open spec fn spec_join_lines(s: Seq<ChatEntry>) -> Seq<char>
    decreases s.len(),
{
    if s.len() == 0 {
        Seq::empty()
    } else if s.len() == 1 {
        spec_line_of(s.index(0))
    } else {
        spec_join_lines(s.drop_last()) + "\n"@ + spec_line_of(s.last())
    }
}

/// The non-tool messages of a history as chat entries, newest first.
pub open spec fn spec_rev_non_tool(messages: Seq<Message>) -> Seq<ChatEntry>
    decreases messages.len(),
{
    if messages.len() == 0 {
        Seq::empty()
    } else {
        let rest = spec_rev_non_tool(messages.drop_first());
        if messages.first().role@ == "tool"@ {
            rest
        } else {
            rest.push(spec_entry_of(messages.first()))
        }
    }
}

/// The non-tool messages of a history as chat entries, in order.
pub open spec fn spec_non_tool_entries(messages: Seq<Message>) -> Seq<ChatEntry>
    decreases messages.len(),
{
    if messages.len() == 0 {
        Seq::empty()
    } else {
        let rest = spec_non_tool_entries(messages.drop_last());
        if messages.last().role@ == "tool"@ {
            rest
        } else {
            rest.push(spec_entry_of(messages.last()))
        }
    }
}

/// How many of the most recent messages the summarize path keeps verbatim.
pub const KEEP_RECENT_MESSAGES: usize = 4;

/// The last messages of the history, at most `KEEP_RECENT_MESSAGES` many.
pub open spec fn spec_recent_tail(messages: Seq<Message>) -> Seq<Message> {
    if messages.len() <= KEEP_RECENT_MESSAGES {
        messages
    } else {
        messages.subrange(
            messages.len() - KEEP_RECENT_MESSAGES,
            messages.len() as int,
        )
    }
}

/// The entries kept verbatim on the summarize path.
pub open spec fn spec_kept_recent(messages: Seq<Message>) -> Seq<ChatEntry> {
    spec_non_tool_entries(spec_recent_tail(messages))
}

/// The transcript of everything older than the kept tail, newest first,
/// one `role: text` line per non-tool message.
pub open spec fn spec_older_text(messages: Seq<Message>) -> Seq<char> {
    spec_join_lines(
        spec_rev_non_tool(messages.subrange(0, messages.len() - KEEP_RECENT_MESSAGES)),
    )
}

/// Character cap on the text handed to the model-assisted summarizer.
pub const SUMMARY_INPUT_CAP: usize = 2000;

/// Token space the summarize path must have left before it asks for a
/// summary at all.
pub const SUMMARY_MIN_SPACE: usize = 200;

/// The instruction line of the summarization prompt.
pub open spec fn spec_summary_instruction() -> Seq<char> {
    "Summarize the following conversation in 2-3 concise sentences, focusing on key topics and decisions:\n\n"@
}

/// The prompt handed to the model-assisted summarizer: the instruction
/// followed by at most `SUMMARY_INPUT_CAP` characters of the transcript.
pub open spec fn spec_summarization_prompt(t: Seq<char>) -> Seq<char> {
    spec_summary_instruction() + if t.len() <= SUMMARY_INPUT_CAP {
        t
    } else {
        t.take(SUMMARY_INPUT_CAP as int)
    }
}

/// Prefix put before a summary when it is folded into the history.
pub open spec fn spec_summary_prefix() -> Seq<char> {
    "Previous conversation summary: "@
}

impl ContextManager {
    /// Whether the optimizer takes the summarize-then-recent path: too few
    /// recent messages fit while the history is long.
    pub open spec fn spec_summarize_path(
        &self,
        messages: Seq<Message>,
        system_prompt: Seq<char>,
    ) -> bool {
        let avail = spec_available_tokens(self.spec_max_context_tokens(), system_prompt);
        spec_fit_suffix(messages, avail).len() < 6 && messages.len() > 10
    }

    /// Token space left for a summary once the kept tail is paid for.
    pub open spec fn spec_summary_space(
        &self,
        messages: Seq<Message>,
        system_prompt: Seq<char>,
    ) -> nat {
        let avail = spec_available_tokens(self.spec_max_context_tokens(), system_prompt);
        let kept = spec_history_tokens(spec_recent_tail(messages));
        if kept >= avail {
            0
        } else {
            (avail - kept) as nat
        }
    }

    /// When history must be optimized and there is room for a summary,
    /// returns the transcript of the older messages, the input for a
    /// summarizer; otherwise `None`.
    pub fn summarization_request(
        &self,
        messages: &Vec<Message>,
        system_prompt: &str,
    ) -> (r: Option<String>)
        ensures
            match r {
                Some(t) => self.spec_summarize_path(messages@, system_prompt@)
                    && self.spec_summary_space(messages@, system_prompt@) > SUMMARY_MIN_SPACE
                    && t@ == spec_older_text(messages@),
                None => !(self.spec_summarize_path(messages@, system_prompt@)
                    && self.spec_summary_space(messages@, system_prompt@) > SUMMARY_MIN_SPACE),
            },
    {
        let available = self.available_context_tokens(system_prompt);
        let recent = self.select_recent(messages, available);
        if !(recent.len() < 6 && messages.len() > 10) {
            return None;
        }
        let space = self.summary_space(messages, available);
        if space > SUMMARY_MIN_SPACE {
            Some(self.older_text(messages))
        } else {
            None
        }
    }

    /// The prompt for the model-assisted summarizer over a transcript.
    pub fn summarization_prompt(&self, text: &str) -> (r: String)
        ensures
            r@ == spec_summarization_prompt(text@),
    {
        let n = text.unicode_len();
        let take = if n <= SUMMARY_INPUT_CAP {
            n
        } else {
            SUMMARY_INPUT_CAP
        };
        let mut out = String::from_str(
            "Summarize the following conversation in 2-3 concise sentences, focusing on key topics and decisions:\n\n",
        );
        let piece = text.substring_char(0, take);
        out.append(piece);
        proof {
            if n <= SUMMARY_INPUT_CAP {
                assert(text@.subrange(0, take as int) =~= text@);
            } else {
                assert(text@.subrange(0, take as int) =~= text@.take(SUMMARY_INPUT_CAP as int));
            }
        }
        out
    }

    /// Token space left for a summary, given the available budget.
    fn summary_space(&self, messages: &Vec<Message>, available: usize) -> (r: usize)
        ensures
            r as nat == ({
                let kept = spec_history_tokens(spec_recent_tail(messages@));
                if kept >= available as nat {
                    0nat
                } else {
                    (available - kept) as nat
                }
            }),
    {
        let len = messages.len();
        let start = if len <= KEEP_RECENT_MESSAGES {
            0
        } else {
            len - KEEP_RECENT_MESSAGES
        };
        let ghost tail = spec_recent_tail(messages@);
        // The sum is kept saturated at `usize::MAX`; the comparison against
        // `available` is unchanged by the saturation.
        let mut tokens: usize = 0;
        let mut j: usize = start;
        proof {
            assert(messages@.subrange(start as int, start as int) =~= tail.subrange(0, 0));
        }
        while j < len
            invariant
                start <= j <= len,
                len == messages@.len(),
                start == if len <= KEEP_RECENT_MESSAGES {
                    0int
                } else {
                    len - KEEP_RECENT_MESSAGES
                },
                tail == spec_recent_tail(messages@),
                spec_history_tokens(messages@.subrange(start as int, j as int))
                    <= usize::MAX ==> tokens == spec_history_tokens(
                    messages@.subrange(start as int, j as int),
                ),
                spec_history_tokens(messages@.subrange(start as int, j as int)) > usize::MAX
                    ==> tokens == usize::MAX,
            decreases len - j,
        {
            let m = &messages[j];
            proof {
                assert(messages@.subrange(start as int, j + 1).drop_last() =~= messages@.subrange(
                    start as int,
                    j as int,
                ));
                assert(messages@.subrange(start as int, j + 1).last() == messages@.index(j as int));
            }
            if !str_eq(m.role.as_str(), "tool") {
                let t = self.estimate_message_tokens(m);
                tokens = match tokens.checked_add(t) {
                    Some(x) => x,
                    None => usize::MAX,
                };
            }
            j = j + 1;
        }
        proof {
            assert(messages@.subrange(start as int, len as int) =~= tail);
        }
        if tokens >= available {
            0
        } else {
            available - tokens
        }
    }

    /// The transcript of everything older than the kept tail: non-tool
    /// messages newest first, one `role: text` line each, joined by
    /// newlines.
    fn older_text(&self, messages: &Vec<Message>) -> (r: String)
        requires
            messages@.len() > KEEP_RECENT_MESSAGES,
        ensures
            r@ == spec_older_text(messages@),
    {
        let hi = messages.len() - KEEP_RECENT_MESSAGES;
        let mut lines: Vec<ChatEntry> = Vec::new();
        let mut i: usize = hi;
        proof {
            assert(messages@.subrange(hi as int, hi as int) =~= Seq::<Message>::empty());
        }
        while i > 0
            invariant
                i <= hi <= messages@.len(),
                lines@ == spec_rev_non_tool(messages@.subrange(i as int, hi as int)),
            decreases i,
        {
            let ghost pre = messages@.subrange(i - 1, hi as int);
            proof {
                assert(pre.drop_first() =~= messages@.subrange(i as int, hi as int));
                assert(pre.first() == messages@.index(i - 1));
            }
            let m = &messages[i - 1];
            if !str_eq(m.role.as_str(), "tool") {
                lines.push(ChatEntry { role: m.role.clone(), content: m.text.clone() });
            }
            i = i - 1;
        }
        proof {
            assert(messages@.subrange(0, hi as int) =~= messages@.subrange(
                0,
                messages@.len() - KEEP_RECENT_MESSAGES,
            ));
        }
        join_lines(&lines)
    }
}

/// Join `role: content` lines with newlines.
fn join_lines(v: &Vec<ChatEntry>) -> (r: String)
    ensures
        r@ == spec_join_lines(v@),
{
    let mut out = String::new();
    let mut i: usize = 0;
    proof {
        assert(v@.subrange(0, 0) =~= Seq::<ChatEntry>::empty());
    }
    while i < v.len()
        invariant
            i <= v@.len(),
            out@ == spec_join_lines(v@.subrange(0, i as int)),
        decreases v@.len() - i,
    {
        proof {
            assert(v@.subrange(0, i + 1).drop_last() =~= v@.subrange(0, i as int));
            assert(v@.subrange(0, i + 1).last() == v@.index(i as int));
            if i == 0 {
                assert(v@.subrange(0, 1).index(0) == v@.index(0));
            }
        }
        if i > 0 {
            out.append("\n");
        }
        let e = &v[i];
        out.append(e.role.as_str());
        out.append(": ");
        out.append(e.content.as_str());
        proof {
            assert(out@ =~= spec_join_lines(v@.subrange(0, i + 1)));
        }
        i = i + 1;
    }
    proof {
        assert(v@.subrange(0, v@.len() as int) =~= v@);
    }
    out
}

impl ContextManager {
    /// The summary the optimizer folds in: the model's answer when one
    /// non-blank came back, the extractive summary of the older transcript
    /// otherwise.
    pub open spec fn spec_chosen_summary(
        messages: Seq<Message>,
        ai_summary: Option<Seq<char>>,
    ) -> Seq<char> {
        match ai_summary {
            Some(a) => if !spec_is_blank(a) {
                a
            } else {
                spec_extractive_summary(spec_older_text(messages), 200)
            },
            None => spec_extractive_summary(spec_older_text(messages), 200),
        }
    }

    /// Keep the history inside the context window. When enough recent
    /// messages fit, they are returned unchanged (chronological, tool
    /// messages dropped). When too few fit and the history is long, the
    /// most recent messages are kept verbatim and everything older is
    /// compressed into one synthetic system entry: `ai_summary` is used
    /// when it is non-blank (the caller obtains it for the text of
    /// `summarization_request`), the extractive summarizer otherwise; a
    /// summary that does not fit the remaining space is dropped silently,
    /// never truncated.
    pub fn optimize_conversation_context(
        &self,
        messages: &Vec<Message>,
        system_prompt: &str,
        ai_summary: Option<&str>,
    ) -> (r: Vec<ChatEntry>)
        ensures
            messages@.len() == 0 ==> r@.len() == 0,
            !self.spec_summarize_path(messages@, system_prompt@) ==> r@ == spec_fit_suffix(
                messages@,
                spec_available_tokens(self.spec_max_context_tokens(), system_prompt@),
            ),
            self.spec_summarize_path(messages@, system_prompt@) ==> ({
                let kept = spec_kept_recent(messages@);
                let space = self.spec_summary_space(messages@, system_prompt@);
                let chosen = Self::spec_chosen_summary(
                    messages@,
                    match ai_summary {
                        Some(a) => Some(a@),
                        None => None,
                    },
                );
                if space <= SUMMARY_MIN_SPACE {
                    r@ == kept
                } else if spec_estimate_tokens(chosen.len()) <= space {
                    r@.len() == kept.len() + 1 && r@.index(0).role@ == "system"@ && r@.index(
                        0,
                    ).content@ == spec_summary_prefix() + chosen && r@.subrange(
                        1,
                        r@.len() as int,
                    ) == kept
                } else {
                    r@ == kept
                }
            }),
    {
        let available = self.available_context_tokens(system_prompt);
        if messages.len() == 0 {
            return Vec::new();
        }
        let recent = self.select_recent(messages, available);
        if recent.len() < 6 && messages.len() > 10 {
            let kept = self.kept_recent(messages);
            let space = self.summary_space(messages, available);
            let mut out: Vec<ChatEntry> = Vec::new();
            if space > SUMMARY_MIN_SPACE {
                let summary: String = match ai_summary {
                    Some(a) => {
                        if !is_blank(a) {
                            a.to_owned()
                        } else {
                            let older = self.older_text(messages);
                            self.extractive_summary(older.as_str(), 200)
                        }
                    },
                    None => {
                        let older = self.older_text(messages);
                        self.extractive_summary(older.as_str(), 200)
                    },
                };
                let summary_tokens = self.estimate_tokens(summary.as_str());
                if summary_tokens <= space {
                    let mut content = String::from_str("Previous conversation summary: ");
                    content.append(summary.as_str());
                    out.push(ChatEntry { role: String::from_str("system"), content });
                }
            }
            let ghost with_summary = out@;
            let mut kept_mut = kept;
            out.append(&mut kept_mut);
            proof {
                if with_summary.len() == 1 {
                    assert(out@.subrange(1, out@.len() as int) =~= spec_kept_recent(messages@));
                } else {
                    assert(out@ =~= spec_kept_recent(messages@));
                }
            }
            out
        } else {
            recent
        }
    }

    /// The non-tool entries among the most recent messages, in order.
    fn kept_recent(&self, messages: &Vec<Message>) -> (r: Vec<ChatEntry>)
        ensures
            r@ == spec_kept_recent(messages@),
    {
        let len = messages.len();
        let start = if len <= KEEP_RECENT_MESSAGES {
            0
        } else {
            len - KEEP_RECENT_MESSAGES
        };
        let ghost tail = spec_recent_tail(messages@);
        let mut out: Vec<ChatEntry> = Vec::new();
        let mut j: usize = start;
        proof {
            assert(messages@.subrange(start as int, start as int) =~= tail.subrange(0, 0));
            assert(spec_non_tool_entries(messages@.subrange(start as int, start as int)) =~= out@);
        }
        while j < len
            invariant
                start <= j <= len,
                len == messages@.len(),
                out@ == spec_non_tool_entries(messages@.subrange(start as int, j as int)),
            decreases len - j,
        {
            let m = &messages[j];
            proof {
                assert(messages@.subrange(start as int, j + 1).drop_last() =~= messages@.subrange(
                    start as int,
                    j as int,
                ));
                assert(messages@.subrange(start as int, j + 1).last() == messages@.index(j as int));
            }
            if !str_eq(m.role.as_str(), "tool") {
                out.push(ChatEntry { role: m.role.clone(), content: m.text.clone() });
            }
            j = j + 1;
        }
        proof {
            assert(messages@.subrange(start as int, len as int) =~= spec_recent_tail(messages@));
        }
        out
    }
}

/// Estimates never shrink as the text grows.
pub proof fn lemma_estimate_monotonic(n1: nat, n2: nat)
    requires
        n1 <= n2,
    ensures
        spec_estimate_tokens(n1) <= spec_estimate_tokens(n2),
{
}

/// The history budget never grows as the system prompt grows, and is never
/// negative.
pub proof fn lemma_available_tokens_antitone(max_context: nat, p1: Seq<char>, p2: Seq<char>)
    requires
        p1.len() <= p2.len(),
    ensures
        spec_available_tokens(max_context, p2) <= spec_available_tokens(max_context, p1),
        spec_available_tokens(max_context, p1) >= 0,
{
    lemma_estimate_monotonic(p1.len(), p2.len());
}

} // verus!
