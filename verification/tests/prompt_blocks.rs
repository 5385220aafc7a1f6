use janus::cards::{
    about_user_block, group_layers, MemberCard, emotional_line, emotional_state_block, emotional_states_block,
    group_scene_directive, instruction_message, npc_card, primary_card, secondary_card,
    solo_card, summary_message, CardFields, EmotionalState,
};
use janus::models::{ChatMessage, MessageRole};
use janus::budget::{allocate, plan_history};
use janus::prompt::{
    add_rag_layer, character_memory_block, fit_memory_block, format_memory_block, is_genuine_multi_character,
    keyword_matches_at_word_boundary, known_other_names, last_user_content, lorebook_character_ids,
    recent_facts_oldest_first, substitute_user_macro, CastMember,
};
use janus::scene::{format_scene_block, initial_scene, merge_scene, SceneSnapshot, SceneStateUpdate};
use janus::tokenizer::{count_message_tokens, count_messages_tokens};
use janus::window::apply_sliding_window;

fn strings(v: &[&str]) -> Vec<String> {
    v.iter().map(|s| s.to_string()).collect()
}

fn card(sys: Option<&str>, desc: Option<&str>, pers: Option<&str>, scen: Option<&str>) -> CardFields {
    CardFields {
        system_prompt: sys.map(|s| s.to_string()),
        description: desc.map(|s| s.to_string()),
        personality: pers.map(|s| s.to_string()),
        scenario: scen.map(|s| s.to_string()),
    }
}

fn member(id: &str, role: &str, active: bool) -> CastMember {
    CastMember {
        character_id: id.to_string(),
        character_name: id.to_uppercase(),
        role: role.to_string(),
        talkativeness: 50,
        is_active: active,
    }
}

fn no_update() -> SceneStateUpdate {
    SceneStateUpdate {
        location_name: None,
        location_description: None,
        time_period: None,
        weather: None,
        characters_present: None,
        ambient_details: None,
        scene_mood: None,
        scene_changed: false,
    }
}

#[test]
fn memory_block_bullets_each_fact() {
    assert_eq!(
        format_memory_block("[Remembered Facts]", &strings(&["Likes tea", "Fears storms"])),
        "[Remembered Facts]\n• Likes tea\n• Fears storms"
    );
    assert_eq!(format_memory_block("[H]", &[]), "[H]\n");
}

#[test]
fn keywords_match_only_on_word_boundaries() {
    assert!(keyword_matches_at_word_boundary("the cat sat", "cat"));
    assert!(!keyword_matches_at_word_boundary("a catastrophe", "cat"));
    assert!(keyword_matches_at_word_boundary("catastrophe, then cat.", "cat"));
    assert!(keyword_matches_at_word_boundary("xa-a-a", "a-a"));
    assert!(keyword_matches_at_word_boundary("off to new york today", "new york"));
    assert!(!keyword_matches_at_word_boundary("anything", ""));
    assert!(!keyword_matches_at_word_boundary("bobcat", "cat"));
}

#[test]
fn user_macro_is_replaced_case_insensitively() {
    assert_eq!(
        substitute_user_macro("Hello {{user}}, and {{USER}} again.", Some("Sam")),
        "Hello Sam, and Sam again."
    );
    assert_eq!(substitute_user_macro("{{User}} waves.", None), "User waves.");
    assert_eq!(substitute_user_macro("No macro here.", Some("Sam")), "No macro here.");
    assert_eq!(
        substitute_user_macro("é {{user}} é", Some("Sam")),
        "é Sam é"
    );
    assert_eq!(substitute_user_macro("İ{{user}}", Some("Kai")), "İKai");
    assert_eq!(substitute_user_macro("{{user}}{{uSeR}}", Some("A")), "AA");
}

#[test]
fn memory_block_drops_facts_from_the_end_until_it_fits() {
    let facts = strings(&["first fact", "second fact", "third fact"]);
    let all = ChatMessage {
        role: MessageRole::System,
        content: format_memory_block("[M]", &facts),
    };
    let two = ChatMessage {
        role: MessageRole::System,
        content: format_memory_block("[M]", &facts[..2]),
    };
    let whole = fit_memory_block("[M]", &facts, count_message_tokens(&all)).unwrap();
    assert_eq!(whole.content, all.content);
    let cut = fit_memory_block("[M]", &facts, count_message_tokens(&two)).unwrap();
    assert_eq!(cut.content, two.content);
    assert!(fit_memory_block("[M]", &facts, 1).is_none());
    assert!(fit_memory_block("[M]", &[], 1000).is_none());
}

#[test]
fn group_mode_needs_another_added_or_promoted_member() {
    let cast = vec![member("aria", "primary", true), member("lena", "transient", true)];
    assert!(!is_genuine_multi_character(Some("aria"), &cast, &[false, false]));
    assert!(is_genuine_multi_character(Some("aria"), &cast, &[false, true]));
    let with_secondary = vec![member("aria", "primary", true), member("finn", "secondary", true)];
    assert!(is_genuine_multi_character(Some("aria"), &with_secondary, &[false, false]));
    let inactive = vec![member("finn", "secondary", false)];
    assert!(!is_genuine_multi_character(Some("aria"), &inactive, &[false]));
}

#[test]
fn last_user_message_is_found_from_the_end() {
    let chain = vec![
        ChatMessage { role: MessageRole::User, content: "first".to_string() },
        ChatMessage { role: MessageRole::Assistant, content: "reply".to_string() },
        ChatMessage { role: MessageRole::User, content: "second".to_string() },
        ChatMessage { role: MessageRole::Assistant, content: "reply 2".to_string() },
    ];
    assert_eq!(last_user_content(&chain), "second");
    assert_eq!(last_user_content(&chain[1..2]), "");
}

#[test]
fn recency_facts_read_oldest_first() {
    let rows = strings(&["newest", "newer", "old", "oldest"]);
    assert_eq!(recent_facts_oldest_first(&rows, 3), strings(&["old", "newer", "newest"]));
    assert_eq!(recent_facts_oldest_first(&rows, 15), strings(&["oldest", "old", "newer", "newest"]));
}

#[test]
fn a_cast_members_memory_block_shows_ten_facts() {
    let facts: Vec<String> = (1..=12).map(|i| format!("fact {}", i)).collect();
    let block = character_memory_block("Lena", &facts).unwrap();
    assert!(block.starts_with("[Lena's Memories]\n• fact 1\n"));
    assert!(block.ends_with("• fact 10"));
    assert!(character_memory_block("Lena", &[]).is_none());
}

#[test]
fn lorebook_owners_are_listed_once() {
    let ids = lorebook_character_ids("aria", &strings(&["finn", "aria", "lena", "finn"]));
    assert_eq!(ids, strings(&["aria", "finn", "lena"]));
}

#[test]
fn character_cards_list_present_fields() {
    let c = card(Some("Stay in character."), Some("An elf."), Some(""), None);
    assert_eq!(
        primary_card("Aria", &c),
        "[Primary Character — Aria]\nStay in character.\nDescription: An elf."
    );
    assert_eq!(
        secondary_card("Finn", &card(None, Some("A rogue."), Some("Sly."), None), 70),
        "[Character — Finn]\nDescription: A rogue.\nPersonality: Sly.\n(Talkativeness: 70/100)"
    );
    assert_eq!(
        npc_card("Bram", &card(None, Some("A guard."), None, None)),
        "[NPC — Bram]\nA guard.\n(Minor character — respond briefly when directly involved)"
    );
}

#[test]
fn solo_card_starts_with_the_roleplay_directive() {
    let s = solo_card("Aria", &strings(&["Finn"]), &card(None, Some("An elf."), None, Some("A forest.")));
    assert!(s.starts_with("[Roleplay Directive]\nYou are Aria. "));
    assert!(s.contains(" Already part of this story's cast: Finn."));
    assert!(s.ends_with("\n\nCharacter Description:\nAn elf.\n\nScenario:\nA forest."));
    let alone = solo_card("Aria", &Vec::new(), &card(None, None, None, None));
    assert!(alone.contains("is not the only person in this scene. RULE:"));
}

#[test]
fn group_directive_names_everyone_present() {
    let d = group_scene_directive(&strings(&["Aria", "Finn"]));
    assert!(d.starts_with(
        "[Group Scene Directive]\nYou are narrating a group roleplay scene. Multiple characters are present: Aria, Finn.\n"
    ));
    assert!(d.ends_with("- Never generate {{user}}'s dialogue or actions"));
}

#[test]
fn about_user_block_adds_only_non_empty_details() {
    assert_eq!(
        about_user_block("Sam", "A bard.", ""),
        "[About the User]\nYou are speaking with Sam. A bard."
    );
    assert_eq!(about_user_block("Sam", "", ""), "[About the User]\nYou are speaking with Sam.");
}

#[test]
fn emotional_blocks_render_the_numbers() {
    let s = EmotionalState {
        mood: 60,
        trust: -5,
        arousal: 30,
        dominant_emotion: "wary".to_string(),
        state_summary: "Keeps her distance.".to_string(),
    };
    assert_eq!(
        emotional_state_block(&s),
        "[Current Emotional State]\nDominant emotion: wary\nMood: 60/100  Trust: -5/100  Intensity: 30/100\nInternal state: Keeps her distance.\n(Let this emotional state colour your response naturally — do not announce or describe it explicitly.)"
    );
    let line = emotional_line("Lena", &s);
    assert_eq!(line, "  Lena — wary (mood:60/100 trust:-5/100 intensity:30/100) — Keeps her distance.");
    assert_eq!(
        emotional_states_block(&vec![line]),
        "[Current Emotional States]\n  Lena — wary (mood:60/100 trust:-5/100 intensity:30/100) — Keeps her distance.\n(Let these emotional states colour each character's response naturally.)"
    );
}

#[test]
fn summary_and_instruction_messages() {
    let m = summary_message("They met at the inn.");
    assert_eq!(m.role, MessageRole::System);
    assert_eq!(m.content, "[Story So Far — summary of earlier conversation]\nThey met at the inn.");
    assert_eq!(instruction_message("  Be vivid.  ").unwrap().content, "Be vivid.");
    assert!(instruction_message(" \n ").is_none());
}

#[test]
fn scene_updates_replace_only_given_fields() {
    let start = initial_scene();
    assert_eq!(start.location_name, "Unknown");
    assert_eq!(start.time_period, "unspecified");
    assert_eq!(start.weather, "clear");
    assert_eq!(start.scene_mood, "neutral");
    let mut u = no_update();
    u.location_name = Some("Harbor".to_string());
    u.characters_present = Some(strings(&["{{user}}", "Aria"]));
    let s = merge_scene(None, &u);
    assert_eq!(s.location_name, "Harbor");
    assert_eq!(s.weather, "clear");
    assert_eq!(s.characters_present, strings(&["{{user}}", "Aria"]));
    let again = merge_scene(Some(&s), &u);
    assert_eq!(again.location_name, s.location_name);
    assert_eq!(again.characters_present, s.characters_present);
    let kept = merge_scene(Some(&s), &no_update());
    assert_eq!(kept.location_name, "Harbor");
    assert_eq!(kept.characters_present, s.characters_present);
}

#[test]
fn scene_block_lists_who_is_present() {
    let s = SceneSnapshot {
        location_name: "Harbor".to_string(),
        location_description: "Salt and gulls".to_string(),
        time_period: "dusk".to_string(),
        weather: "fog".to_string(),
        characters_present: Vec::new(),
        ambient_details: "Bells ring.".to_string(),
        scene_mood: "tense".to_string(),
    };
    assert_eq!(
        format_scene_block(&s, &strings(&["Sam", "Aria"])),
        "[Current Scene]\nLocation: Harbor — Salt and gulls\nTime: dusk | Weather: fog\nPresent: Sam, Aria\nAtmosphere: Bells ring.\n(Maintain scene consistency. Describe transitions naturally when the story moves to a new location or time.)"
    );
    assert!(format_scene_block(&s, &Vec::new()).contains("\nPresent: unspecified\n"));
}

fn system(content: &str) -> ChatMessage {
    ChatMessage { role: MessageRole::System, content: content.to_string() }
}

#[test]
fn retrieved_context_is_added_whole_when_it_fits() {
    let lines = strings(&["[90% relevance] user: the map", "[70% relevance] assistant: the key"]);
    let mut prompt = vec![system("card")];
    let used = add_rag_layer(&mut prompt, &lines, 10_000);
    assert_eq!(prompt.len(), 2);
    assert_eq!(
        prompt[1].content,
        "[Relevant Past Context — retrieved from earlier conversation history]\n[90% relevance] user: the map\n\n[70% relevance] assistant: the key"
    );
    assert_eq!(used, count_message_tokens(&prompt[1]));
}

#[test]
fn retrieved_context_drops_lines_from_the_end_to_fit() {
    let lines = strings(&["first line of context", "second line of context with more words in it"]);
    let one = system("[Relevant Past Context — retrieved from earlier conversation history]\nfirst line of context");
    let cap = count_message_tokens(&one);
    let mut prompt = vec![system("card")];
    let used = add_rag_layer(&mut prompt, &lines, cap);
    assert_eq!(prompt.len(), 2);
    assert_eq!(prompt[1].content, one.content);
    assert_eq!(used, cap);
}

#[test]
fn when_no_context_fits_nothing_is_added_or_charged() {
    let lines = strings(&["some retrieved line"]);
    let mut prompt = vec![system("card"), system("the last layer")];
    let used = add_rag_layer(&mut prompt, &lines, 1);
    assert_eq!(prompt.len(), 2);
    assert_eq!(used, 0);
    let mut empty = Vec::new();
    assert_eq!(add_rag_layer(&mut empty, &lines, 1), 0);
    assert_eq!(add_rag_layer(&mut prompt, &[], 1000), 0);
    assert_eq!(prompt.len(), 2);
}

#[test]
fn history_plan_counts_the_post_history_instructions() {
    let prompt = vec![system("You are Aria.")];
    let phi = Some(system("Stay concise."));
    let chain = vec![
        ChatMessage { role: MessageRole::User, content: "hello".to_string() },
        ChatMessage { role: MessageRole::Assistant, content: "hi there".to_string() },
    ];
    let (a, w) = plan_history(&prompt, &phi, &chain, 12_902).unwrap();
    let fixed = vec![prompt[0].clone(), phi.clone().unwrap()];
    assert_eq!(a.fixed_layers_tokens, count_messages_tokens(&fixed));
    let direct = allocate(12_902, &fixed);
    assert_eq!(a.messages_budget, direct.messages_budget);
    let expected = apply_sliding_window(&chain, direct.messages_budget);
    assert_eq!(w.included.len(), expected.included.len());
    assert_eq!(w.evicted_count, 0);
    let (b, _) = plan_history(&prompt, &None, &chain, 12_902).unwrap();
    assert_eq!(b.fixed_layers_tokens, count_messages_tokens(&prompt));
}

fn member_card(id: &str, name: &str, role: &str, active: bool, card: Option<CardFields>) -> MemberCard {
    MemberCard {
        member: CastMember {
            character_id: id.to_string(),
            character_name: name.to_string(),
            role: role.to_string(),
            talkativeness: 40,
            is_active: active,
        },
        card,
        promoted: false,
    }
}

#[test]
fn group_layers_add_the_primary_when_it_has_no_cast_row() {
    let primary = ("Aria".to_string(), card(None, Some("An elf."), None, None));
    let members = vec![
        member_card("finn", "Finn", "secondary", true, Some(card(None, Some("A rogue."), None, None))),
        member_card("lena", "Lena", "npc", true, Some(card(None, Some("A guard."), None, None))),
        member_card("bram", "Bram", "npc", false, Some(card(None, None, None, None))),
        member_card("mira", "Mira", "transient", true, None),
    ];
    let layers = group_layers(Some("aria"), Some(&primary), &members);
    let contents: Vec<&str> = layers.iter().map(|m| m.content.as_str()).collect();
    assert_eq!(contents.len(), 4);
    assert_eq!(contents[0], "[Primary Character — Aria]\nDescription: An elf.");
    assert_eq!(contents[1], "[Character — Finn]\nDescription: A rogue.\n(Talkativeness: 40/100)");
    assert_eq!(contents[2], "[NPC — Lena]\nA guard.\n(Minor character — respond briefly when directly involved)");
    assert!(contents[3].contains("Multiple characters are present: Aria, Finn, Lena, Mira.\n"));
    assert!(layers.iter().all(|m| m.role == MessageRole::System));
}

#[test]
fn group_layers_use_the_primary_row_when_present() {
    let primary = ("Aria".to_string(), card(None, Some("An elf."), None, None));
    let members = vec![
        member_card("aria", "Aria Silverleaf", "primary", true, Some(card(Some("Sys."), None, None, None))),
        member_card("finn", "Finn", "secondary", true, Some(card(None, None, None, None))),
    ];
    let layers = group_layers(Some("aria"), Some(&primary), &members);
    assert_eq!(layers.len(), 3);
    assert_eq!(layers[0].content, "[Primary Character — Aria Silverleaf]\nSys.");
    assert!(layers[2].content.contains("present: Aria Silverleaf, Finn.\n"));
}

#[test]
fn solo_mode_lists_the_other_active_cast_members() {
    let cast = vec![member("aria", "primary", true), member("finn", "npc", true), member("bram", "npc", false)];
    assert_eq!(known_other_names("aria", &cast), strings(&["FINN"]));
}
