use janus::models::{ChatMessage, MessageRole};
use janus::tokenizer::{count_message_tokens, count_messages_tokens, count_tokens};

fn msg(content: &str) -> ChatMessage {
    ChatMessage {
        role: MessageRole::User,
        content: content.to_string(),
    }
}

#[test]
fn empty_string_has_zero_tokens() {
    assert_eq!(count_tokens(""), 0);
}

#[test]
fn longer_text_produces_more_tokens_than_shorter_text() {
    let short = count_tokens("hello");
    let long = count_tokens("hello there, this is a much longer sentence than the first one");
    assert!(long > short);
}

#[test]
fn token_count_is_deterministic_across_calls() {
    let text = "The quick brown fox jumps over the lazy dog.";
    assert_eq!(count_tokens(text), count_tokens(text));
}

#[test]
fn message_tokens_include_fixed_overhead() {
    let m = msg("hi");
    let content_only = count_tokens("hi");
    assert_eq!(count_message_tokens(&m), content_only + 4);
}

#[test]
fn messages_tokens_sum_includes_reply_priming_overhead() {
    let msgs = vec![msg("hello"), msg("world")];
    let expected: usize = msgs.iter().map(count_message_tokens).sum::<usize>() + 3;
    assert_eq!(count_messages_tokens(&msgs), expected);
}

#[test]
fn empty_message_slice_only_has_reply_priming_overhead() {
    assert_eq!(count_messages_tokens(&[]), 3);
}

#[test]
fn known_sentence_has_its_cl100k_token_count() {
    // "hello world" is two tokens in cl100k_base.
    assert_eq!(count_tokens("hello world"), 2);
    assert_eq!(count_message_tokens(&msg("hello world")), 6);
}

#[test]
fn token_count_never_exceeds_byte_length() {
    let text = "naïve café — déjà vu";
    assert!(count_tokens(text) <= text.len());
    assert!(count_tokens(text) > 0);
}
