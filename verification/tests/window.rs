use janus::models::{ChatMessage, MessageRole};
use janus::tokenizer::count_message_tokens;
use janus::window::{apply_sliding_window, context_stats};

fn msg(content: &str) -> ChatMessage {
    ChatMessage {
        role: MessageRole::User,
        content: content.to_string(),
    }
}

#[test]
fn empty_chain_returns_empty_result() {
    let result = apply_sliding_window(&[], 1000);
    assert!(result.included.is_empty());
    assert_eq!(result.evicted_count, 0);
    assert_eq!(result.included_tokens, 0);
}

#[test]
fn zero_budget_evicts_everything() {
    let chain = vec![msg("hello"), msg("world")];
    let result = apply_sliding_window(&chain, 0);
    assert!(result.included.is_empty());
    assert_eq!(result.evicted_count, 2);
}

#[test]
fn everything_fits_when_budget_is_generous() {
    let chain = vec![msg("hello"), msg("world"), msg("how are you")];
    let result = apply_sliding_window(&chain, 10_000);
    assert_eq!(result.included.len(), 3);
    assert_eq!(result.evicted_count, 0);
    assert_eq!(result.included[0].content, "hello");
    assert_eq!(result.included[2].content, "how are you");
}

#[test]
fn oldest_messages_are_evicted_first_when_budget_is_tight() {
    let chain = vec![msg("one"), msg("two"), msg("three"), msg("four")];
    let per_message = count_message_tokens(&msg("four"));
    let result = apply_sliding_window(&chain, per_message * 2);

    assert!(result.included.len() < chain.len());
    assert_eq!(result.evicted_count, chain.len() - result.included.len());
    assert_eq!(
        result.included.last().unwrap().content,
        chain.last().unwrap().content
    );
}

#[test]
fn always_force_includes_the_last_message_even_if_it_alone_exceeds_budget() {
    let chain = vec![msg("short"), msg(&"a very long message ".repeat(50))];
    let result = apply_sliding_window(&chain, 1);
    assert_eq!(result.included.len(), 1);
    assert_eq!(result.included[0].content, chain[1].content);
    assert_eq!(result.evicted_count, 1);
}

#[test]
fn window_keeps_exactly_the_fitting_suffix() {
    let chain = vec![msg("alpha"), msg("beta"), msg("gamma"), msg("delta")];
    let last_two = count_message_tokens(&chain[2]) + count_message_tokens(&chain[3]);
    let result = apply_sliding_window(&chain, last_two);
    assert_eq!(result.included.len(), 2);
    assert_eq!(result.evicted_count, 2);
    assert_eq!(result.included_tokens, last_two);
    assert_eq!(result.included[0].content, "gamma");
    assert_eq!(result.included[1].content, "delta");
}

#[test]
fn window_stops_at_the_first_message_that_does_not_fit() {
    // The middle message is far too large: the walk stops there even though
    // the oldest one alone would still fit.
    let chain = vec![msg("a"), msg(&"long text ".repeat(100)), msg("b")];
    let budget = count_message_tokens(&chain[2]) + count_message_tokens(&chain[0]);
    let result = apply_sliding_window(&chain, budget);
    assert_eq!(result.included.len(), 1);
    assert_eq!(result.included[0].content, "b");
    assert_eq!(result.evicted_count, 2);
}

#[test]
fn context_stats_reports_the_window() {
    let chain = vec![msg("one"), msg("two"), msg("three")];
    let per = count_message_tokens(&chain[2]);
    let window = apply_sliding_window(&chain, per);
    let stats = context_stats(16384, 120, 40, chain.len(), &window, 7);
    assert_eq!(stats.total_budget, 16384);
    assert_eq!(stats.fixed_tokens, 120);
    assert_eq!(stats.summary_tokens, 40);
    assert_eq!(stats.total_messages, 3);
    assert_eq!(stats.included_messages, 1);
    assert_eq!(stats.evicted_messages, 2);
    assert_eq!(stats.history_tokens, per);
    assert_eq!(stats.rag_tokens, 7);
}
