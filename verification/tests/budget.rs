use janus::budget::{allocate, allocation_from_tokens, try_allocate, ContextBudget};
use janus::models::{ChatMessage, MessageRole};
use janus::tokenizer::count_messages_tokens;

fn msg(content: &str) -> ChatMessage {
    ChatMessage {
        role: MessageRole::System,
        content: content.to_string(),
    }
}

/// The usable tokens of a budget under a safety margin, as the
/// application computes them before allocating.
fn usable(budget: &ContextBudget, safety_margin: f64) -> usize {
    (budget.prompt_headroom() as f64 * safety_margin) as usize
}

#[test]
fn default_budget_matches_documented_constants() {
    let budget = ContextBudget::default();
    assert_eq!(budget.max_context_tokens, 16384);
    assert_eq!(budget.reserved_for_response, 2048);
    assert_eq!(budget.max_memory_tokens, 800);
    assert_eq!(budget.max_lorebook_tokens, 1500);
}

#[test]
fn total_usable_applies_response_reservation_and_safety_margin() {
    let budget = ContextBudget::default();
    let allocation = allocate(usable(&budget, 0.90), &[]);
    // (16384 - 2048) * 0.90 = 12902.4 -> truncated to 12902
    assert_eq!(allocation.total_usable, 12902);
}

#[test]
fn history_budget_shrinks_as_fixed_layers_grow() {
    let budget = ContextBudget::default();
    let total = usable(&budget, 0.90);
    let empty_allocation = allocate(total, &[]);

    let fixed_layers = vec![msg(&"system prompt content ".repeat(20))];
    let with_fixed_layers = allocate(total, &fixed_layers);

    assert!(with_fixed_layers.fixed_layers_tokens > 0);
    assert!(with_fixed_layers.history_budget < empty_allocation.history_budget);
}

#[test]
fn fixed_layers_exceeding_total_usable_saturate_history_budget_to_zero() {
    let budget = ContextBudget {
        max_context_tokens: 100,
        reserved_for_response: 10,
        ..ContextBudget::default()
    };
    let fixed_layers = vec![msg(&"word ".repeat(500))];
    let allocation = allocate(usable(&budget, 1.0), &fixed_layers);

    assert_eq!(allocation.history_budget, 0);
    assert_eq!(allocation.summary_budget, 0);
    assert_eq!(allocation.rag_budget, 0);
    assert_eq!(allocation.messages_budget, 0);
}

#[test]
fn summary_and_rag_budgets_are_fixed_fractions_of_history_budget() {
    let budget = ContextBudget::default();
    let allocation = allocate(usable(&budget, 0.90), &[]);

    assert_eq!(allocation.summary_budget, allocation.history_budget / 5);
    assert_eq!(allocation.rag_budget, allocation.history_budget / 10);
    assert_eq!(
        allocation.messages_budget,
        allocation.history_budget - allocation.summary_budget - allocation.rag_budget
    );
}

#[test]
fn allocation_of_empty_fixed_layers_counts_reply_priming() {
    let allocation = allocate(12902, &[]);
    assert_eq!(allocation.fixed_layers_tokens, 3);
    assert_eq!(allocation.history_budget, 12899);
    assert_eq!(allocation.summary_budget, 2579);
    assert_eq!(allocation.rag_budget, 1289);
    assert_eq!(allocation.messages_budget, 12899 - 2579 - 1289);
}

#[test]
fn allocation_from_tokens_splits_exactly() {
    let a = allocation_from_tokens(1000, 100);
    assert_eq!(a.history_budget, 900);
    assert_eq!(a.summary_budget, 180);
    assert_eq!(a.rag_budget, 90);
    assert_eq!(a.messages_budget, 630);
    let b = allocation_from_tokens(100, 1000);
    assert_eq!(b.history_budget, 0);
    assert_eq!(b.messages_budget, 0);
}

#[test]
fn try_allocate_agrees_with_allocate() {
    let fixed = vec![msg("be brief"), msg("stay in character")];
    let a = allocate(5000, &fixed);
    let b = try_allocate(5000, &fixed).unwrap();
    assert_eq!(a.fixed_layers_tokens, count_messages_tokens(&fixed));
    assert_eq!(a.history_budget, b.history_budget);
    assert_eq!(a.messages_budget, b.messages_budget);
}
