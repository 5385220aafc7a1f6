//! Token counting with the cl100k_base encoding.
//!
//! cl100k_base is a reasonable approximation across providers (the major
//! hosted models tokenize similarly enough for budget purposes); the budget
//! calculator leaves a safety margin for the difference.

use vstd::prelude::*;

use crate::models::ChatMessage;
use vstd::string::StringSliceAdditionalSpecFns;

verus! {

/// Tokens of framing around every message (role name, delimiters).
pub const MESSAGE_OVERHEAD: usize = 4;

/// Tokens that prime the assistant's reply after the last message.
pub const REPLY_PRIMING: usize = 3;

/// The number of tokens that `tiktoken_rs`'s cl100k_base encoder produces
/// for a text (the byte-pair encoding itself is not restated here).
pub uninterp spec fn cl100k_token_count(text: Seq<char>) -> nat;

/// Calls `tiktoken_rs::cl100k_base_singleton().encode_ordinary(text)` and
/// returns the length of the token vector. The contract names that length;
/// beyond the name it claims only what the crate's source shows: an empty
/// text yields no tokens (the splitting regex finds no piece), every token
/// covers at least one byte of the text, and a vector's length never
/// exceeds `isize::MAX`.
#[verifier::external_body]
fn cl100k_encode_len(text: &str) -> (n: usize)
    ensures
        n == cl100k_token_count(text@),
        text@.len() == 0 ==> n == 0,
        n <= text.spec_bytes().len(),
        n <= isize::MAX,
{
    tiktoken_rs::cl100k_base_singleton().encode_ordinary(text).len()
}

/// Tokens counted for one message: its content plus the framing overhead.
pub open spec fn message_tokens(m: ChatMessage) -> nat {
    cl100k_token_count(m.content@) + MESSAGE_OVERHEAD as nat
}

/// Sum of `message_tokens` over a sequence of messages.
pub open spec fn sum_message_tokens(ms: Seq<ChatMessage>) -> nat
    decreases ms.len(),
{
    if ms.len() == 0 {
        0
    } else {
        sum_message_tokens(ms.drop_last()) + message_tokens(ms.last())
    }
}

/// Tokens counted for a whole prompt: every message plus the reply priming.
pub open spec fn messages_tokens(ms: Seq<ChatMessage>) -> nat {
    sum_message_tokens(ms) + REPLY_PRIMING as nat
}

/// Count tokens in a single string.
pub fn count_tokens(text: &str) -> (n: usize)
    ensures
        n == cl100k_token_count(text@),
        text@.len() == 0 ==> n == 0,
        n <= text.spec_bytes().len(),
        n <= isize::MAX,
{
    cl100k_encode_len(text)
}

/// Count tokens for a single message, including ~4 tokens of overhead for
/// the `<|im_start|>role\n...content...<|im_end|>` framing.
pub fn count_message_tokens(message: &ChatMessage) -> (n: usize)
    ensures
        n == message_tokens(*message),
        n <= vstd::utf8::encode_utf8(message.content@).len() + MESSAGE_OVERHEAD,
        n <= isize::MAX + MESSAGE_OVERHEAD,
{
    count_tokens(message.content.as_str()) + MESSAGE_OVERHEAD
}

/// Count tokens for a slice of messages: every message's count plus 3
/// tokens of `<|im_start|>assistant` priming.
pub fn count_messages_tokens(messages: &[ChatMessage]) -> (n: usize)
    requires
        messages_tokens(messages@) <= usize::MAX,
    ensures
        n == messages_tokens(messages@),
{
    let mut total: usize = 0;
    let mut i: usize = 0;
    while i < messages.len()
        invariant
            i <= messages.len(),
            total == sum_message_tokens(messages@.take(i as int)),
            messages_tokens(messages@) <= usize::MAX,
        decreases messages.len() - i,
    {
        proof {
            lemma_sum_message_tokens_prefix_monotone(messages@, i as int + 1, messages.len() as int);
            assert(messages@.take(i as int + 1).drop_last() =~= messages@.take(i as int));
            assert(messages@.take(messages.len() as int) =~= messages@);
        }
        total = total + count_message_tokens(&messages[i]);
        i = i + 1;
    }
    proof {
        assert(messages@.take(messages.len() as int) =~= messages@);
    }
    total + REPLY_PRIMING
}

/// `count_messages_tokens`, or `None` where the count does not fit in a `usize`.
pub fn try_count_messages_tokens(messages: &[ChatMessage]) -> (r: Option<usize>)
    ensures
        messages_tokens(messages@) <= usize::MAX ==> r == Some(messages_tokens(messages@) as usize),
        messages_tokens(messages@) > usize::MAX ==> r is None,
{
    let mut total: usize = 0;
    let mut i: usize = 0;
    while i < messages.len()
        invariant
            i <= messages.len(),
            total == sum_message_tokens(messages@.take(i as int)),
        decreases messages.len() - i,
    {
        proof {
            assert(messages@.take(i as int + 1).drop_last() =~= messages@.take(i as int));
        }
        let t = count_message_tokens(&messages[i]);
        match total.checked_add(t) {
            Some(s) => {
                total = s;
            },
            None => {
                proof {
                    lemma_sum_message_tokens_prefix_monotone(messages@, i as int + 1, messages.len() as int);
                    assert(messages@.take(messages.len() as int) =~= messages@);
                }
                return None;
            },
        }
        i = i + 1;
    }
    proof {
        assert(messages@.take(messages.len() as int) =~= messages@);
    }
    match total.checked_add(REPLY_PRIMING) {
        Some(s) => {
            let r = count_messages_tokens(messages);
            Some(r)
        },
        None => None,
    }
}

/// Sums over prefixes grow with the prefix length.
pub proof fn lemma_sum_message_tokens_prefix_monotone(ms: Seq<ChatMessage>, i: int, j: int)
    requires
        0 <= i <= j <= ms.len(),
    ensures
        sum_message_tokens(ms.take(i)) <= sum_message_tokens(ms.take(j)),
    decreases j - i,
{
    if i < j {
        lemma_sum_message_tokens_prefix_monotone(ms, i, j - 1);
        assert(ms.take(j).drop_last() =~= ms.take(j - 1));
    }
}

} // verus!
