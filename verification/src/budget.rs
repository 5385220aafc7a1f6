//! Token budget for the context window.
//!
//! The caller turns the model's context length into `total_usable` tokens
//! (context length minus the reserved response tokens, scaled by a safety
//! margin for tokenizer differences across providers); this module splits
//! what is left after the fixed prompt layers between the rolling summary,
//! RAG retrieval and verbatim recent messages.

use vstd::prelude::*;

use crate::models::ChatMessage;
use crate::tokenizer::{count_messages_tokens, messages_tokens, try_count_messages_tokens};
use crate::window::{apply_sliding_window, suffix_tokens, window_kept, WindowResult};

verus! {

/// Token limits of the context window.
#[derive(Debug, Clone, Copy)]
pub struct ContextBudget {
    /// Total context window size in tokens (e.g., 8192, 32768, 131072).
    pub max_context_tokens: usize,
    /// Tokens reserved for the model's response (max_tokens generation param).
    pub reserved_for_response: usize,
    /// Hard cap on tokens for the memories layer.
    pub max_memory_tokens: usize,
    /// Hard cap on tokens for the lorebook layer.
    pub max_lorebook_tokens: usize,
}

impl ContextBudget {
    /// The default limits: a 16384-token window with 2048 tokens reserved
    /// for the response, 800 tokens for memories and 1500 for the lorebook.
    pub fn default_limits() -> (b: ContextBudget)
        ensures
            b.max_context_tokens == 16384,
            b.reserved_for_response == 2048,
            b.max_memory_tokens == 800,
            b.max_lorebook_tokens == 1500,
    {
        ContextBudget {
            max_context_tokens: 16384,
            reserved_for_response: 2048,
            max_memory_tokens: 800,
            max_lorebook_tokens: 1500,
        }
    }

    /// Tokens left for the prompt once the response is reserved — the
    /// quantity the safety margin is applied to.
    pub fn prompt_headroom(&self) -> (t: usize)
        requires
            self.reserved_for_response <= self.max_context_tokens,
        ensures
            t == self.max_context_tokens - self.reserved_for_response,
    {
        self.max_context_tokens - self.reserved_for_response
    }
}

impl Default for ContextBudget {
    fn default() -> (b: ContextBudget)
        ensures
            b.max_context_tokens == 16384,
            b.reserved_for_response == 2048,
            b.max_memory_tokens == 800,
            b.max_lorebook_tokens == 1500,
    {
        ContextBudget::default_limits()
    }
}

/// Result of a budget calculation — tells the window manager how many
/// tokens are available for conversation history and summary.
#[derive(Debug, Clone, Copy)]
pub struct BudgetAllocation {
    /// Total usable tokens after safety margin and response reservation.
    pub total_usable: usize,
    /// Tokens consumed by fixed layers (system prompt, character, lorebook, memories, emotion, PHI).
    pub fixed_layers_tokens: usize,
    /// Tokens available for conversation history (the sliding window).
    pub history_budget: usize,
    /// Tokens for the rolling summary: a fifth of the history budget.
    pub summary_budget: usize,
    /// Tokens for RAG retrieval: a tenth of the history budget.
    pub rag_budget: usize,
    /// Tokens available for verbatim recent messages.
    pub messages_budget: usize,
}

/// History budget: what the fixed layers leave of the usable tokens (never negative).
pub open spec fn history_budget_of(total_usable: nat, fixed: nat) -> nat {
    if fixed <= total_usable { (total_usable - fixed) as nat } else { 0 }
}

/// The allocation for given usable tokens and fixed-layer tokens.
pub open spec fn allocation_of(total_usable: nat, fixed: nat) -> BudgetAllocation {
    let history = history_budget_of(total_usable, fixed);
    BudgetAllocation {
        total_usable: total_usable as usize,
        fixed_layers_tokens: fixed as usize,
        history_budget: history as usize,
        summary_budget: (history / 5) as usize,
        rag_budget: (history / 10) as usize,
        messages_budget: (history - history / 5 - history / 10) as usize,
    }
}

/// Splits `total_usable` tokens, given the fixed prompt layers that have
/// already been assembled (all system messages except conversation
/// history: system prompt, character card, lorebook, memories, emotional
/// state, post-history instructions).
pub fn allocate(total_usable: usize, fixed_layers: &[ChatMessage]) -> (a: BudgetAllocation)
    requires
        messages_tokens(fixed_layers@) <= usize::MAX,
    ensures
        a == allocation_of(total_usable as nat, messages_tokens(fixed_layers@)),
        a.summary_budget + a.rag_budget + a.messages_budget == a.history_budget,
        a.history_budget <= a.total_usable,
{
    let fixed_layers_tokens = count_messages_tokens(fixed_layers);
    allocation_from_tokens(total_usable, fixed_layers_tokens)
}

/// `allocate`, or `None` where the fixed layers' token count does not fit in a `usize`.
pub fn try_allocate(total_usable: usize, fixed_layers: &[ChatMessage]) -> (r: Option<BudgetAllocation>)
    ensures
        messages_tokens(fixed_layers@) <= usize::MAX ==> r == Some(
            allocation_of(total_usable as nat, messages_tokens(fixed_layers@)),
        ),
        messages_tokens(fixed_layers@) > usize::MAX ==> r is None,
{
    match try_count_messages_tokens(fixed_layers) {
        Some(_) => Some(allocate(total_usable, fixed_layers)),
        None => None,
    }
}

/// The split for an already-counted number of fixed-layer tokens.
pub fn allocation_from_tokens(total_usable: usize, fixed_layers_tokens: usize) -> (a: BudgetAllocation)
    ensures
        a == allocation_of(total_usable as nat, fixed_layers_tokens as nat),
        a.summary_budget + a.rag_budget + a.messages_budget == a.history_budget,
        a.history_budget <= a.total_usable,
{
    let history_budget = total_usable.saturating_sub(fixed_layers_tokens);
    // Summary gets up to 20% of the history budget, RAG up to 10%.
    let summary_budget = history_budget / 5;
    let rag_budget = history_budget / 10;
    let messages_budget = history_budget.saturating_sub(summary_budget).saturating_sub(rag_budget);
    BudgetAllocation {
        total_usable,
        fixed_layers_tokens,
        history_budget,
        summary_budget,
        rag_budget,
        messages_budget,
    }
}

/// The history budget is what the fixed layers leave of the usable
/// tokens (never below zero); a fifth of it goes to the summary, a tenth
/// to retrieved context, and the rest to verbatim messages.
pub proof fn law_allocation_splits_history(total_usable: usize, fixed: usize)
    ensures
        ({
            let a = allocation_of(total_usable as nat, fixed as nat);
            &&& a.total_usable == total_usable
            &&& a.fixed_layers_tokens == fixed
            &&& a.history_budget == (if fixed <= total_usable { total_usable - fixed } else { 0 })
            &&& a.summary_budget == a.history_budget / 5
            &&& a.rag_budget == a.history_budget / 10
            &&& a.messages_budget == a.history_budget - a.summary_budget - a.rag_budget
            &&& a.summary_budget + a.rag_budget + a.messages_budget == a.history_budget
        }),
{
}

/// More fixed-layer tokens never leave more history budget, and the three
/// history shares never grow either.
pub proof fn law_history_budget_shrinks_as_fixed_layers_grow(total_usable: nat, fixed1: nat, fixed2: nat)
    requires
        fixed1 <= fixed2,
    ensures
        history_budget_of(total_usable, fixed2) <= history_budget_of(total_usable, fixed1),
        history_budget_of(total_usable, fixed2) / 5 <= history_budget_of(total_usable, fixed1) / 5,
        history_budget_of(total_usable, fixed2) / 10 <= history_budget_of(total_usable, fixed1) / 10,
{
    let h1 = history_budget_of(total_usable, fixed1);
    let h2 = history_budget_of(total_usable, fixed2);
    assert(h2 / 5 <= h1 / 5) by (nonlinear_arith)
        requires h2 <= h1;
    assert(h2 / 10 <= h1 / 10) by (nonlinear_arith)
        requires h2 <= h1;
}

/// Fixed layers at least as large as the usable tokens leave nothing for
/// history, summary, RAG or messages.
pub proof fn law_oversized_fixed_layers_saturate_to_zero(total_usable: nat, fixed: nat)
    requires
        total_usable <= fixed,
        fixed <= usize::MAX,
        total_usable <= usize::MAX,
    ensures
        allocation_of(total_usable, fixed).history_budget == 0,
        allocation_of(total_usable, fixed).summary_budget == 0,
        allocation_of(total_usable, fixed).rag_budget == 0,
        allocation_of(total_usable, fixed).messages_budget == 0,
{
}

/// The layers the history budget is computed against: the prompt
/// assembled so far, plus the post-history instructions that will close it.
pub open spec fn fixed_for_budget(prompt: Seq<ChatMessage>, phi: Option<ChatMessage>) -> Seq<ChatMessage> {
    match phi {
        Some(m) => prompt.push(m),
        None => prompt,
    }
}

/// Plans the history part of a prompt: splits `total_usable` tokens
/// given the prompt so far and the post-history instructions, then runs
/// the sliding window over `chain` with the verbatim-messages share.
/// `None` only where the fixed layers' token count does not fit a `usize`.
pub fn plan_history(
    prompt: &Vec<ChatMessage>,
    phi: &Option<ChatMessage>,
    chain: &[ChatMessage],
    total_usable: usize,
) -> (r: Option<(BudgetAllocation, WindowResult)>)
    ensures
        messages_tokens(fixed_for_budget(prompt@, *phi)) > usize::MAX ==> r is None,
        messages_tokens(fixed_for_budget(prompt@, *phi)) <= usize::MAX ==> (r matches Some((a, w)) && {
            &&& a == allocation_of(total_usable as nat, messages_tokens(fixed_for_budget(prompt@, *phi)))
            &&& w.evicted_count + w.included@.len() == chain@.len()
            &&& w.included@.len() == window_kept(chain@, a.messages_budget as nat)
            &&& w.included@ == chain@.subrange(w.evicted_count as int, chain@.len() as int)
            &&& w.included_tokens == suffix_tokens(chain@, w.included@.len())
        }),
{
    let mut fixed: Vec<ChatMessage> = Vec::new();
    let mut i: usize = 0;
    while i < prompt.len()
        invariant
            i <= prompt@.len(),
            fixed@ == prompt@.take(i as int),
        decreases prompt.len() - i,
    {
        fixed.push(prompt[i].duplicate());
        proof {
            assert(fixed@ =~= prompt@.take(i as int + 1));
        }
        i = i + 1;
    }
    proof {
        assert(prompt@.take(prompt@.len() as int) =~= prompt@);
    }
    match phi {
        Some(m) => fixed.push(m.duplicate()),
        None => {},
    }
    assert(fixed@ == fixed_for_budget(prompt@, *phi));
    match try_count_messages_tokens(fixed.as_slice()) {
        None => None,
        Some(fixed_tokens) => {
            let a = allocation_from_tokens(total_usable, fixed_tokens);
            let w = apply_sliding_window(chain, a.messages_budget);
            Some((a, w))
        },
    }
}

} // verus!
