use janus::assembly::{assemble_prompt, PromptInputs};
use janus::budget::ContextBudget;
use janus::cards::CardFields;
use janus::models::{ChatMessage, MessageRole};
use janus::tokenizer::{count_message_tokens, count_messages_tokens};

fn inputs(system: Option<&str>, phi: Option<&str>) -> PromptInputs {
    PromptInputs {
        user_system_prompt: system.map(|s| s.to_string()),
        post_history_instructions: phi.map(|s| s.to_string()),
        character_id: None,
        character: None,
        cast: Vec::new(),
        persona: None,
        lorebook_entries: Vec::new(),
        memory_scope: "none".to_string(),
        semantic_memories: Vec::new(),
        recent_memories: Vec::new(),
        cast_memories: Vec::new(),
        emotional_state: None,
        cast_states: Vec::new(),
        scene: None,
        summary: None,
    }
}

fn msg(role: MessageRole, content: &str) -> ChatMessage {
    ChatMessage { role, content: content.to_string() }
}

fn same(a: &[ChatMessage], b: &[ChatMessage]) -> bool {
    a.len() == b.len() && a.iter().zip(b.iter()).all(|(x, y)| x.role == y.role && x.content == y.content)
}

fn chain(n: usize) -> Vec<ChatMessage> {
    (0..n)
        .map(|i| {
            let role = if i % 2 == 0 { MessageRole::User } else { MessageRole::Assistant };
            msg(role, &format!("message number {} with a few more words to count", i))
        })
        .collect()
}

#[test]
fn system_prompt_first_history_then_instructions_last() {
    let inp = inputs(Some("  Be kind.  "), Some("\nStay brief.\n"));
    let history = chain(3);
    let limits = ContextBudget::default_limits();
    let (prompt, stats) = assemble_prompt(&inp, &history, &[], 10_000, &limits).unwrap();
    assert_eq!(prompt.len(), 5);
    assert_eq!(prompt[0].role, MessageRole::System);
    assert_eq!(prompt[0].content, "Be kind.");
    assert!(same(&prompt[1..4], &history));
    assert_eq!(prompt[4].role, MessageRole::System);
    assert_eq!(prompt[4].content, "Stay brief.");
    assert_eq!(stats.total_budget, 16384);
    assert_eq!(stats.total_messages, 3);
    assert_eq!(stats.included_messages, 3);
    assert_eq!(stats.evicted_messages, 0);
    assert_eq!(stats.rag_tokens, 0);
    assert_eq!(stats.summary_tokens, 0);
    assert_eq!(stats.fixed_tokens, count_messages_tokens(&[prompt[0].clone(), prompt[4].clone()]));
    let history_tokens: usize = history.iter().map(count_message_tokens).sum();
    assert_eq!(stats.history_tokens, history_tokens);
}

#[test]
fn blank_instructions_add_no_layer() {
    let inp = inputs(Some("   "), None);
    let history = chain(2);
    let (prompt, stats) = assemble_prompt(&inp, &history, &[], 10_000, &ContextBudget::default_limits()).unwrap();
    assert!(same(&prompt, &history));
    assert_eq!(stats.fixed_tokens, count_messages_tokens(&[]));
}

#[test]
fn a_small_budget_keeps_the_newest_messages_in_order() {
    let inp = inputs(Some("Be kind."), Some("Stay brief."));
    let history = chain(40);
    let limits = ContextBudget::default_limits();
    let (prompt, stats) = assemble_prompt(&inp, &history, &[], 300, &limits).unwrap();
    assert_eq!(stats.total_messages, 40);
    assert!(stats.evicted_messages > 0);
    assert_eq!(stats.included_messages + stats.evicted_messages, 40);
    let kept = stats.included_messages;
    assert!(kept > 0);
    assert_eq!(prompt.len(), kept + 2);
    assert!(same(&prompt[1..1 + kept], &history[40 - kept..]));
    assert_eq!(prompt[0].content, "Be kind.");
    assert_eq!(prompt.last().unwrap().content, "Stay brief.");
    assert_eq!(stats.rag_tokens, 0);
}

#[test]
fn retrieved_context_follows_the_kept_history() {
    let inp = inputs(None, Some("Stay brief."));
    let history = chain(40);
    let lines = vec!["[90% relevance] user: the map".to_string()];
    let (prompt, stats) = assemble_prompt(&inp, &history, &lines, 500, &ContextBudget::default_limits()).unwrap();
    let kept = stats.included_messages;
    assert!(stats.evicted_messages > 0);
    assert_eq!(prompt.len(), kept + 2);
    let rag = &prompt[kept];
    assert_eq!(rag.role, MessageRole::System);
    assert_eq!(
        rag.content,
        "[Relevant Past Context — retrieved from earlier conversation history]\n[90% relevance] user: the map"
    );
    assert_eq!(stats.rag_tokens, count_message_tokens(rag));
    assert_eq!(prompt[kept + 1].content, "Stay brief.");
}

#[test]
fn the_character_card_follows_the_system_prompt() {
    let mut inp = inputs(Some("Be kind."), None);
    inp.character_id = Some("aria".to_string());
    inp.character = Some((
        "Aria".to_string(),
        CardFields {
            system_prompt: None,
            description: Some("An elf.".to_string()),
            personality: None,
            scenario: None,
        },
    ));
    let history = chain(2);
    let (prompt, stats) = assemble_prompt(&inp, &history, &[], 10_000, &ContextBudget::default_limits()).unwrap();
    assert_eq!(prompt[0].content, "Be kind.");
    assert!(prompt[1].content.contains("An elf."));
    assert!(same(&prompt[prompt.len() - 2..], &history));
    assert_eq!(stats.included_messages, 2);
}
