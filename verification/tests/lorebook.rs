use janus::lorebook::{
    build_keyword_corpus, merge_unique_entries, select_lorebook_messages, sort_entries,
    take_within_budget, LorebookEntry,
};
use janus::models::{ChatMessage, MessageRole};
use janus::tokenizer::count_message_tokens;

fn entry(id: &str, keys: &[&str], content: &str, always: bool, priority: i32, order: i32) -> LorebookEntry {
    LorebookEntry {
        id: id.to_string(),
        character_id: None,
        keys: keys.iter().map(|k| k.to_string()).collect(),
        content: content.to_string(),
        enabled: true,
        always_active: always,
        priority,
        insertion_order: order,
        name: None,
    }
}

fn user(content: &str) -> ChatMessage {
    ChatMessage { role: MessageRole::User, content: content.to_string() }
}

fn ids(v: &[LorebookEntry]) -> Vec<String> {
    v.iter().map(|e| e.id.clone()).collect()
}

#[test]
fn entries_sort_by_priority_then_insertion_order_stably() {
    let entries = vec![
        entry("low", &[], "", false, 1, 0),
        entry("high_late", &[], "", false, 9, 5),
        entry("high_early", &[], "", false, 9, 1),
        entry("tie_a", &[], "", false, 5, 3),
        entry("tie_b", &[], "", false, 5, 3),
    ];
    let sorted = sort_entries(&entries);
    assert_eq!(ids(&sorted), vec!["high_early", "high_late", "tie_a", "tie_b", "low"]);
}

#[test]
fn merged_lists_keep_the_first_entry_of_each_id() {
    let a = vec![entry("global", &[], "g", true, 1, 0), entry("aria1", &[], "a", false, 1, 1)];
    let b = vec![entry("global", &[], "g2", true, 1, 0), entry("finn1", &[], "f", false, 1, 1)];
    let merged = merge_unique_entries(&vec![a, b]);
    assert_eq!(ids(&merged), vec!["global", "aria1", "finn1"]);
    assert_eq!(merged[0].content, "g");
}

#[test]
fn corpus_covers_the_last_twenty_messages_lowercased() {
    let chain: Vec<ChatMessage> = (0..25).map(|i| user(&format!("Msg{}", i))).collect();
    let corpus = build_keyword_corpus(&chain);
    assert!(corpus.starts_with("msg5 msg6"));
    assert!(corpus.ends_with("msg24"));
    assert!(!corpus.contains("msg4 "));
    assert_eq!(build_keyword_corpus(&[]), "");
}

#[test]
fn always_active_entries_come_first_then_triggered_ones() {
    let mut disabled = entry("off", &["dragon"], "disabled", false, 9, 0);
    disabled.enabled = false;
    let entries = vec![
        entry("kw", &["Dragon"], "Dragons sleep under the mountain.", false, 9, 0),
        entry("core", &[], "Aria is an elf.", true, 5, 0),
        entry("miss", &["castle"], "Never shown.", false, 9, 0),
        entry("partial", &["drag"], "Not a whole word.", false, 9, 0),
        disabled,
    ];
    let chain = vec![user("A DRAGON appears!")];
    let msgs = select_lorebook_messages(&entries, &chain);
    let contents: Vec<&str> = msgs.iter().map(|m| m.content.as_str()).collect();
    assert_eq!(contents, vec!["Aria is an elf.", "Dragons sleep under the mountain."]);
    assert!(msgs.iter().all(|m| m.role == MessageRole::System));
}

#[test]
fn lorebook_layer_stops_at_the_first_message_over_budget() {
    let m1 = ChatMessage { role: MessageRole::System, content: "short".to_string() };
    let m2 = ChatMessage { role: MessageRole::System, content: "a much longer lorebook entry text".to_string() };
    let m3 = ChatMessage { role: MessageRole::System, content: "tiny".to_string() };
    let cap = count_message_tokens(&m1) + count_message_tokens(&m3);
    let kept = take_within_budget(vec![m1.clone(), m2, m3], cap);
    assert_eq!(kept.len(), 1);
    assert_eq!(kept[0].content, "short");
    assert!(take_within_budget(vec![m1], 0).is_empty());
}
