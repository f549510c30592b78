//! The token estimator: how many model tokens a list of history messages
//! takes, by a subword tokenizer where one can be had and by a character
//! count where none can.

use vstd::prelude::*;
use vstd::string::StrSliceExecFns;
use crate::history::SimplifiedMessage;
use crate::text::push_chars;

verus! {

/// The tokenizer of the `tiktoken_rs` crate. Nothing inside it is visible
/// here.
#[verifier::external_type_specification]
#[verifier::external_body]
pub struct ExCoreBPE(tiktoken_rs::CoreBPE);

/// `tiktoken_rs::cl100k_base`: builds the tokenizer from the vocabulary that
/// the crate carries. It may fail; nothing is claimed of the outcome.
#[verifier::external_body]
fn load_tokenizer() -> Option<tiktoken_rs::CoreBPE> {
    tiktoken_rs::cl100k_base().ok()
}

/// The number of tokens that the `cl100k_base` tokenizer of the `tiktoken_rs`
/// crate makes of a text, every special token allowed, or nothing where it
/// reports an error on that text. The vocabulary is part of that crate and
/// the encoding looks at the text alone.
pub uninterp spec fn cl100k_token_count(text: Seq<char>) -> Option<nat>;

/// `CoreBPE::encode` with every special token allowed, which is what
/// `encode_with_special_tokens` hands it: the number of tokens, or nothing
/// where the tokenizer reports an error. The tokenizer is the one that
/// `load_tokenizer` gives; this library makes no other.
#[verifier::external_body]
fn count_tokens(tokenizer: &tiktoken_rs::CoreBPE, text: &str) -> (count: Option<usize>)
    ensures
        match count {
            Some(n) => cl100k_token_count(text@) == Some(n as nat),
            None => cl100k_token_count(text@) is None,
        },
{
    let allowed = tokenizer.special_tokens();
    match tokenizer.encode(text, &allowed) {
        Ok((tokens, _)) => Some(tokens.len()),
        Err(_) => None,
    }
}

/// The separator between sender and content in a rendered message.
pub open spec fn separator() -> Seq<char> {
    ": "@
}

/// A message as the tokenizer sees it: sender, separator, content.
pub open spec fn rendered(message: SimplifiedMessage) -> Seq<char> {
    message.sender@ + separator() + message.content@
}

/// The number of characters of a rendered message.
pub open spec fn rendered_len(message: SimplifiedMessage) -> nat {
    rendered(message).len()
}

/// The characters of all rendered messages together.
pub open spec fn total_chars(messages: Seq<SimplifiedMessage>) -> nat
    decreases messages.len(),
{
    if messages.len() == 0 {
        0
    } else {
        total_chars(messages.drop_last()) + rendered_len(messages.last())
    }
}

/// The sum of a list of token counts.
pub open spec fn total_tokens(counts: Seq<usize>) -> nat
    decreases counts.len(),
{
    if counts.len() == 0 {
        0
    } else {
        total_tokens(counts.drop_last()) + counts.last() as nat
    }
}

/// `n` as a `u32`, or the largest `u32` where `n` is beyond it.
pub open spec fn saturated(n: nat) -> u32 {
    if n > u32::MAX {
        u32::MAX
    } else {
        n as u32
    }
}

/// The estimate without a tokenizer: one token for every three characters.
pub open spec fn fallback_estimate(messages: Seq<SimplifiedMessage>) -> u32 {
    saturated(total_chars(messages) / 3)
}

/// The estimate for `messages`: the sum of the tokenizer's counts where it
/// gave them, the fallback where it did not.
pub open spec fn token_estimate(messages: Seq<SimplifiedMessage>, counts: Option<Seq<usize>>) -> u32 {
    match counts {
        Some(c) => saturated(total_tokens(c)),
        None => fallback_estimate(messages),
    }
}

/// The tokenizer gives a count for every rendered message.
pub open spec fn all_counted(messages: Seq<SimplifiedMessage>) -> bool {
    forall|i: int|
        0 <= i < messages.len() ==> (#[trigger] cl100k_token_count(rendered(messages[i]))) is Some
}

/// The tokenizer's counts for the rendered messages, added up.
pub open spec fn tokenizer_total(messages: Seq<SimplifiedMessage>) -> nat
    decreases messages.len(),
{
    if messages.len() == 0 {
        0
    } else {
        tokenizer_total(messages.drop_last()) + match cl100k_token_count(
            rendered(messages.last()),
        ) {
            Some(n) => n,
            None => 0,
        }
    }
}

/// `estimate` is an estimate for `messages`: the tokenizer's total, where
/// the tokenizer counts every message, or else the fallback. Which of the
/// two it is depends on whether the tokenizer can be had.
pub open spec fn is_token_estimate(estimate: u32, messages: Seq<SimplifiedMessage>) -> bool {
    ||| estimate == fallback_estimate(messages)
    ||| all_counted(messages) && estimate == saturated(tokenizer_total(messages))
}

/// `counts` are the tokenizer's counts for `messages`, one for each.
pub open spec fn are_tokenizer_counts(counts: Seq<usize>, messages: Seq<SimplifiedMessage>) -> bool {
    &&& counts.len() == messages.len()
    &&& forall|i: int|
        0 <= i < messages.len() ==> #[trigger] cl100k_token_count(rendered(messages[i])) == Some(
            counts[i] as nat,
        )
}

/// The counts that the tokenizer gave, as a sequence.
pub open spec fn counts_seen(counts: Option<Vec<usize>>) -> Option<Seq<usize>> {
    match counts {
        Some(c) => Some(c@),
        None => None,
    }
}

/// Counts that are the tokenizer's add up to the tokenizer's total.
pub proof fn lemma_tokenizer_counts_total(counts: Seq<usize>, messages: Seq<SimplifiedMessage>)
    requires
        are_tokenizer_counts(counts, messages),
    ensures
        all_counted(messages),
        total_tokens(counts) == tokenizer_total(messages),
    decreases messages.len(),
{
    if messages.len() > 0 {
        let last = messages.len() - 1;
        assert(cl100k_token_count(rendered(messages[last])) == Some(counts[last] as nat));
        assert forall|i: int| 0 <= i < messages.drop_last().len() implies #[trigger] cl100k_token_count(
            rendered(messages.drop_last()[i]),
        ) == Some(counts.drop_last()[i] as nat) by {
            assert(cl100k_token_count(rendered(messages[i])) == Some(counts[i] as nat));
        }
        lemma_tokenizer_counts_total(counts.drop_last(), messages.drop_last());
    }
}

/// An estimate of no messages is zero.
pub proof fn lemma_token_estimate_of_nothing(estimate: u32)
    requires
        is_token_estimate(estimate, Seq::empty()),
    ensures
        estimate == 0,
{
}

/// The separator has two characters.
pub proof fn lemma_separator_len()
    ensures
        separator().len() == 2,
{
    reveal_strlit(": ");
}

/// A rendered message has the characters of its sender and of its content
/// and the two of the separator.
pub proof fn lemma_rendered_len(message: SimplifiedMessage)
    ensures
        rendered_len(message) == message.sender@.len() + message.content@.len() + 2,
{
    lemma_separator_len();
}

/// Longer messages never lower the character total.
pub proof fn lemma_total_chars_monotone(a: Seq<SimplifiedMessage>, b: Seq<SimplifiedMessage>)
    requires
        a.len() == b.len(),
        forall|i: int| 0 <= i < a.len() ==> rendered_len(#[trigger] a[i]) <= rendered_len(b[i]),
    ensures
        total_chars(a) <= total_chars(b),
    decreases a.len(),
{
    if a.len() > 0 {
        assert(rendered_len(a[a.len() - 1]) <= rendered_len(b[a.len() - 1]));
        lemma_total_chars_monotone(a.drop_last(), b.drop_last());
    }
}

/// The fallback estimate of no messages is zero.
pub proof fn lemma_fallback_estimate_of_nothing()
    ensures
        fallback_estimate(Seq::empty()) == 0,
        token_estimate(Seq::empty(), None) == 0,
        token_estimate(Seq::empty(), Some(Seq::empty())) == 0,
{
}

/// The fallback estimate does not fall when senders or contents grow: for two
/// lists of equal length in which no message of the second is shorter than
/// its counterpart in the first, the second estimate is at least the first.
pub proof fn lemma_fallback_estimate_monotone(a: Seq<SimplifiedMessage>, b: Seq<SimplifiedMessage>)
    requires
        a.len() == b.len(),
        forall|i: int|
            0 <= i < a.len() ==> (#[trigger] a[i]).sender@.len() <= b[i].sender@.len()
                && a[i].content@.len() <= b[i].content@.len(),
    ensures
        fallback_estimate(a) <= fallback_estimate(b),
{
    assert forall|i: int| 0 <= i < a.len() implies rendered_len(#[trigger] a[i]) <= rendered_len(
        b[i],
    ) by {
        lemma_rendered_len(a[i]);
        lemma_rendered_len(b[i]);
    }
    lemma_total_chars_monotone(a, b);
}

/// The largest total that is worth counting: every total from here on gives
/// the largest estimate.
pub const CHAR_CAP: u64 = 12_884_901_888;

/// The text `"{sender}: {content}"` that is handed to the tokenizer.
pub fn render_message(message: &SimplifiedMessage) -> (text: String)
    ensures
        text@ == rendered(*message),
{
    let mut text = String::new();
    push_chars(&mut text, message.sender.as_str());
    push_chars(&mut text, ": ");
    push_chars(&mut text, message.content.as_str());
    assert(text@ =~= rendered(*message));
    text
}

/// Estimates the tokens of `messages` from their length alone: the characters
/// of every sender and content, two more for each separator, divided by
/// three and rounded down.
pub fn estimate_token_count_fallback(messages: &[SimplifiedMessage]) -> (estimate: u32)
    ensures
        estimate == fallback_estimate(messages@),
{
    let mut capped: u64 = 0;
    let mut i: usize = 0;
    assert(messages@.take(0) =~= Seq::empty());
    while i < messages.len()
        invariant
            i <= messages.len(),
            capped <= CHAR_CAP,
            capped as nat == if total_chars(messages@.take(i as int)) > CHAR_CAP {
                CHAR_CAP as nat
            } else {
                total_chars(messages@.take(i as int))
            },
        decreases messages.len() - i,
    {
        let sender_len: usize = messages[i].sender.as_str().unicode_len();
        let content_len: usize = messages[i].content.as_str().unicode_len();
        let sum: u128 = capped as u128 + sender_len as u128 + content_len as u128 + 2;
        proof {
            let next = messages@.take(i + 1);
            assert(next.drop_last() =~= messages@.take(i as int));
            assert(next.last() == messages@[i as int]);
            lemma_rendered_len(messages@[i as int]);
        }
        if sum > CHAR_CAP as u128 {
            capped = CHAR_CAP;
        } else {
            capped = sum as u64;
        }
        i += 1;
    }
    assert(messages@.take(messages@.len() as int) =~= messages@);
    let thirds: u64 = capped / 3;
    if thirds > u32::MAX as u64 {
        u32::MAX
    } else {
        thirds as u32
    }
}

/// The sum of `counts`, held at the largest `u32` where it would go beyond.
pub fn sum_token_counts(counts: &Vec<usize>) -> (total: u32)
    ensures
        total == saturated(total_tokens(counts@)),
{
    let mut capped: u32 = 0;
    let mut i: usize = 0;
    assert(counts@.take(0) =~= Seq::empty());
    while i < counts.len()
        invariant
            i <= counts.len(),
            capped == saturated(total_tokens(counts@.take(i as int))),
        decreases counts.len() - i,
    {
        proof {
            let next = counts@.take(i + 1);
            assert(next.drop_last() =~= counts@.take(i as int));
            assert(next.last() == counts@[i as int]);
        }
        let sum: u128 = capped as u128 + counts[i] as u128;
        if sum > u32::MAX as u128 {
            capped = u32::MAX;
        } else {
            capped = sum as u32;
        }
        i += 1;
    }
    assert(counts@.take(counts@.len() as int) =~= counts@);
    capped
}

/// The estimate once the tokenizer has answered: the sum of its counts, one
/// for each message, or the fallback where it gave none.
pub fn estimate_from_token_counts(messages: &[SimplifiedMessage], counts: Option<Vec<usize>>) -> (estimate: u32)
    ensures
        estimate == token_estimate(messages@, counts_seen(counts)),
{
    match counts {
        Some(c) => sum_token_counts(&c),
        None => estimate_token_count_fallback(messages),
    }
}

/// Asks the tokenizer for the tokens of every rendered message: its count
/// for each, or nothing where the tokenizer cannot be had or fails on a
/// message.
pub fn token_counts(messages: &[SimplifiedMessage]) -> (counts: Option<Vec<usize>>)
    ensures
        counts matches Some(c) ==> are_tokenizer_counts(c@, messages@),
{
    let tokenizer = match load_tokenizer() {
        Some(t) => t,
        None => {
            return None;
        },
    };
    let mut counts: Vec<usize> = Vec::new();
    let mut i: usize = 0;
    while i < messages.len()
        invariant
            i <= messages.len(),
            counts@.len() == i,
            forall|k: int|
                0 <= k < i ==> #[trigger] cl100k_token_count(rendered(messages@[k])) == Some(
                    counts@[k] as nat,
                ),
        decreases messages.len() - i,
    {
        let text = render_message(&messages[i]);
        match count_tokens(&tokenizer, text.as_str()) {
            Some(n) => counts.push(n),
            None => {
                return None;
            },
        }
        i += 1;
    }
    Some(counts)
}

/// Estimates the tokens of `messages`: the sum of the tokenizer's counts of
/// the rendered messages, or, where the tokenizer cannot be had or fails on
/// a message, a third of their characters. No messages take no tokens.
pub fn estimate_token_count(messages: &[SimplifiedMessage]) -> (estimate: u32)
    ensures
        is_token_estimate(estimate, messages@),
        messages@.len() == 0 ==> estimate == 0,
{
    let counts = token_counts(messages);
    proof {
        if counts is Some {
            lemma_tokenizer_counts_total(counts->0@, messages@);
        }
        if messages@.len() == 0 {
            assert(messages@ =~= Seq::empty());
        }
    }
    estimate_from_token_counts(messages, counts)
}

} // verus!
