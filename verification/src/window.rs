//! Token-budgeted sliding window over the conversation history.

use vstd::prelude::*;

use crate::models::ChatMessage;
use crate::tokenizer::{count_message_tokens, message_tokens};

verus! {

/// Result of applying the sliding window to a conversation history.
#[derive(Debug)]
pub struct WindowResult {
    /// Messages that fit within the token budget (in chronological order).
    pub included: Vec<ChatMessage>,
    /// Number of messages that were evicted (didn't fit in the window).
    pub evicted_count: usize,
    /// Total tokens consumed by the included messages.
    pub included_tokens: usize,
}

/// Tokens of the last `k` messages of `chain`.
pub open spec fn suffix_tokens(chain: Seq<ChatMessage>, k: nat) -> nat
    decreases k,
{
    if k == 0 || k > chain.len() {
        0
    } else {
        message_tokens(chain[chain.len() - k]) + suffix_tokens(chain, (k - 1) as nat)
    }
}

/// Starting from the last `k` messages, how many trailing messages fit in
/// `budget` when messages are added newest-first until one does not fit.
pub open spec fn fitting_suffix_from(chain: Seq<ChatMessage>, budget: nat, k: nat) -> nat
    decreases chain.len() - k,
{
    if k < chain.len() && suffix_tokens(chain, k + 1) <= budget {
        fitting_suffix_from(chain, budget, k + 1)
    } else {
        k
    }
}

/// The number of trailing messages the window keeps: every message that
/// fits walking back from the newest, and at least the newest one.
pub open spec fn window_kept(chain: Seq<ChatMessage>, budget: nat) -> nat {
    if chain.len() == 0 || budget == 0 {
        0
    } else {
        let k = fitting_suffix_from(chain, budget, 0);
        if k == 0 { 1 } else { k }
    }
}

proof fn lemma_fitting_suffix_from(chain: Seq<ChatMessage>, budget: nat, k: nat)
    requires
        k <= chain.len(),
        suffix_tokens(chain, k) <= budget,
    ensures
        k <= fitting_suffix_from(chain, budget, k) <= chain.len(),
        suffix_tokens(chain, fitting_suffix_from(chain, budget, k)) <= budget,
        fitting_suffix_from(chain, budget, k) < chain.len() ==> suffix_tokens(
            chain,
            fitting_suffix_from(chain, budget, k) + 1,
        ) > budget,
    decreases chain.len() - k,
{
    if k < chain.len() && suffix_tokens(chain, k + 1) <= budget {
        lemma_fitting_suffix_from(chain, budget, k + 1);
    }
}

/// The window never keeps more messages than the chain has.
pub proof fn lemma_window_kept_bound(chain: Seq<ChatMessage>, budget: nat)
    ensures
        window_kept(chain, budget) <= chain.len(),
{
    if chain.len() > 0 && budget > 0 {
        assert(suffix_tokens(chain, 0) == 0);
        lemma_fitting_suffix_from(chain, budget, 0);
    }
}

/// Applies a token-budgeted sliding window to the conversation history.
///
/// Walks backwards from the most recent message, including messages until
/// the token budget is exhausted, and always keeps the most recent message
/// (the user's current input) even when it alone exceeds the budget. The
/// kept messages come back in chronological order.
pub fn apply_sliding_window(chain: &[ChatMessage], token_budget: usize) -> (r: WindowResult)
    ensures
        r.evicted_count + r.included@.len() == chain@.len(),
        r.included@.len() == window_kept(chain@, token_budget as nat),
        r.included@ == chain@.subrange(r.evicted_count as int, chain@.len() as int),
        r.included_tokens == suffix_tokens(chain@, r.included@.len()),
        chain@.len() == 0 || token_budget == 0 ==> r.included@.len() == 0 && r.included_tokens == 0,
        chain@.len() > 0 && token_budget > 0 ==> r.included@.len() >= 1,
        r.included@.len() > 1 ==> r.included_tokens <= token_budget,
        r.included@.len() == 1 && r.included_tokens > token_budget ==> r.evicted_count + 1 == chain@.len(),
        r.evicted_count > 0 && r.included@.len() > 0 && r.included_tokens <= token_budget
            ==> suffix_tokens(chain@, r.included@.len() + 1) > token_budget,
{
    let n = chain.len();
    if n == 0 || token_budget == 0 {
        return WindowResult { included: Vec::new(), evicted_count: n, included_tokens: 0 };
    }
    let mut included_tokens: usize = 0;
    let mut include_from: usize = n;
    let mut done = false;
    while include_from > 0 && !done
        invariant
            n == chain@.len(),
            n > 0,
            token_budget > 0,
            include_from <= n,
            done ==> include_from < n,
            included_tokens == suffix_tokens(chain@, (n - include_from) as nat),
            !done ==> included_tokens <= token_budget,
            !done ==> fitting_suffix_from(chain@, token_budget as nat, (n - include_from) as nat)
                == fitting_suffix_from(chain@, token_budget as nat, 0),
            done ==> (n - include_from) as nat == window_kept(chain@, token_budget as nat),
            !done ==> suffix_tokens(chain@, (n - include_from) as nat) <= token_budget,
        decreases 2 * include_from + (if done { 0int } else { 1int }),
    {
        let i = include_from - 1;
        let msg_tokens = count_message_tokens(&chain[i]);
        proof {
            assert(suffix_tokens(chain@, (n - i) as nat) == message_tokens(chain@[i as int])
                + suffix_tokens(chain@, (n - include_from) as nat));
        }
        if msg_tokens > token_budget - included_tokens {
            if include_from == n {
                include_from = n - 1;
                included_tokens = msg_tokens;
                proof {
                    assert(suffix_tokens(chain@, 0) == 0);
                    assert(fitting_suffix_from(chain@, token_budget as nat, 0) == 0);
                }
            } else {
                proof {
                    assert(fitting_suffix_from(chain@, token_budget as nat, (n - include_from) as nat)
                        == (n - include_from) as nat);
                }
            }
            done = true;
        } else {
            included_tokens = included_tokens + msg_tokens;
            include_from = i;
        }
    }
    proof {
        if !done {
            assert(include_from == 0);
            assert(fitting_suffix_from(chain@, token_budget as nat, n as nat) == n);
        }
        lemma_fitting_suffix_from(chain@, token_budget as nat, 0);
    }
    let mut included: Vec<ChatMessage> = Vec::new();
    let mut j = include_from;
    while j < n
        invariant
            include_from <= j <= n,
            n == chain@.len(),
            included@ == chain@.subrange(include_from as int, j as int),
        decreases n - j,
    {
        included.push(chain[j].duplicate());
        proof {
            assert(chain@.subrange(include_from as int, j as int + 1) =~= chain@.subrange(
                include_from as int,
                j as int,
            ).push(chain@[j as int]));
        }
        j = j + 1;
    }
    WindowResult { included, evicted_count: include_from, included_tokens }
}

/// Statistics about the context window, returned alongside the prompt so
/// callers can log or surface token usage.
#[derive(Debug, Clone)]
pub struct ContextStats {
    /// Total token budget for the context window.
    pub total_budget: usize,
    /// Tokens used by the fixed layers.
    pub fixed_tokens: usize,
    /// Tokens used by the conversation history after the sliding window.
    pub history_tokens: usize,
    /// Tokens used by the rolling summary (0 if there is none).
    pub summary_tokens: usize,
    /// Total messages in the full conversation branch.
    pub total_messages: usize,
    /// Messages included in the sliding window.
    pub included_messages: usize,
    /// Messages evicted (not sent to the model).
    pub evicted_messages: usize,
    /// Tokens used by retrieved past context (0 if none).
    pub rag_tokens: usize,
}

/// The statistics of a prompt built over a branch of `total_messages`
/// messages whose history went through the sliding window as `window`.
pub fn context_stats(
    total_budget: usize,
    fixed_tokens: usize,
    summary_tokens: usize,
    total_messages: usize,
    window: &WindowResult,
    rag_tokens: usize,
) -> (s: ContextStats)
    ensures
        s.total_budget == total_budget,
        s.fixed_tokens == fixed_tokens,
        s.history_tokens == window.included_tokens,
        s.summary_tokens == summary_tokens,
        s.total_messages == total_messages,
        s.included_messages == window.included@.len(),
        s.evicted_messages == window.evicted_count,
        s.rag_tokens == rag_tokens,
{
    ContextStats {
        total_budget,
        fixed_tokens,
        history_tokens: window.included_tokens,
        summary_tokens,
        total_messages,
        included_messages: window.included.len(),
        evicted_messages: window.evicted_count,
        rag_tokens,
    }
}

} // verus!
