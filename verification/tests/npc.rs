use janus::llm_prompts::{
    default_lorebook_priority, detector_user_prompt, eq_ignore_ascii_case, exclude_candidate,
    field_or_none, format_cast_list, format_dashed_list, lorebook_user_prompt, profile_user_prompt,
    refine_user_prompt, scene_user_prompt, select_system_prompt, summary_user_prompt,
};
use janus::models::{ChatMessage, MessageRole};
use janus::npc::{
    bump_and_check_due, candidate_is_debounced, candidate_key, classify_candidate,
    extract_json_payload, is_placeholder_description, next_pass_count, strip_code_fences,
    CandidateAction, CastRow, DetectionState, NPC_DETECTION_CADENCE,
};

fn pairs(v: &[(&str, &str)]) -> Vec<(String, String)> {
    v.iter().map(|(a, b)| (a.to_string(), b.to_string())).collect()
}

fn strings(v: &[&str]) -> Vec<String> {
    v.iter().map(|s| s.to_string()).collect()
}

fn state(count: i32, last: Option<&str>) -> DetectionState {
    DetectionState { messages_since_scan: count, last_scanned_message_id: last.map(|s| s.to_string()) }
}

#[test]
fn detection_runs_every_fifth_message() {
    let mut s = state(0, None);
    let mut dues = Vec::new();
    for i in 0..10 {
        let id = format!("m{}", i);
        let tick = bump_and_check_due(&s, &id, false, NPC_DETECTION_CADENCE);
        dues.push(tick.due);
        s = tick.next_state.unwrap();
    }
    assert_eq!(dues, vec![false, false, false, false, true, false, false, false, false, true]);
    assert_eq!(s.messages_since_scan, 0);
    assert_eq!(s.last_scanned_message_id.as_deref(), Some("m9"));
}

#[test]
fn forced_detection_runs_at_once_and_resets_the_counter() {
    let tick = bump_and_check_due(&state(1, Some("a")), "b", true, 5);
    assert!(tick.due);
    assert_eq!(tick.next_state.unwrap().messages_since_scan, 0);
}

#[test]
fn an_already_scanned_message_never_triggers_again() {
    let tick = bump_and_check_due(&state(4, Some("m4")), "m4", true, 5);
    assert!(!tick.due);
    assert!(tick.next_state.is_none());
}

#[test]
fn pass_counts_grow_only_on_sightings() {
    assert_eq!(next_pass_count(None, "recurring"), 1);
    assert_eq!(next_pass_count(Some(1), "pivotal"), 2);
    assert_eq!(next_pass_count(Some(3), "background"), 3);
    assert_eq!(next_pass_count(None, "other"), 0);
}

#[test]
fn two_sightings_cross_the_debounce() {
    let first = next_pass_count(None, "recurring");
    assert!(!candidate_is_debounced(first, "pending"));
    let second = next_pass_count(Some(first), "recurring");
    assert!(candidate_is_debounced(second, "pending"));
    assert!(!candidate_is_debounced(second, "created"));
}

#[test]
fn candidate_keys_are_trimmed_and_lowercased() {
    assert_eq!(candidate_key("  Lena Varel \n"), "lena varel");
}

#[test]
fn classification_distinguishes_new_pending_and_established_names() {
    let known = pairs(&[("Aria Silverleaf", "char_aria"), ("Lena", "char_lena"), ("Bram", "char_bram")]);
    let cast = vec![
        CastRow { character_id: "char_lena".to_string(), role: "transient".to_string() },
        CastRow { character_id: "char_bram".to_string(), role: "npc".to_string() },
    ];
    assert_eq!(classify_candidate("Mira", &known, Some("char_aria"), &cast), CandidateAction::Track);
    assert_eq!(
        classify_candidate("lena", &known, Some("char_aria"), &cast),
        CandidateAction::PendingPlaceholder("char_lena".to_string())
    );
    assert_eq!(
        classify_candidate("Bram", &known, Some("char_aria"), &cast),
        CandidateAction::Established("char_bram".to_string())
    );
    assert_eq!(
        classify_candidate("Aria", &known, Some("char_aria"), &cast),
        CandidateAction::Established("char_aria".to_string())
    );
}

#[test]
fn placeholder_descriptions_are_recognised() {
    assert!(is_placeholder_description(
        "  Just spoke for the first time — their role in the story isn't clear yet.\n"
    ));
    assert!(is_placeholder_description("Just arrived in the story — their role isn't clear yet."));
    assert!(!is_placeholder_description("A retired sellsword with a limp."));
}

#[test]
fn code_fences_are_stripped() {
    assert_eq!(strip_code_fences("  ```json\n{\"a\": 1}\n```  "), "{\"a\": 1}");
    assert_eq!(strip_code_fences("```\n[1]\n```"), "[1]");
    assert_eq!(strip_code_fences("plain"), "plain");
}

#[test]
fn json_payload_is_cut_from_first_open_to_last_close() {
    assert_eq!(
        extract_json_payload("<think>hmm</think>\nSure! {\"description\": \"x\"} done", '{', '}'),
        "{\"description\": \"x\"}"
    );
    assert_eq!(extract_json_payload("```json\n[{\"k\":1}]\n```", '[', ']'), "[{\"k\":1}]");
    assert_eq!(extract_json_payload("no json here", '{', '}'), "no json here");
    assert_eq!(extract_json_payload("} backwards {", '{', '}'), "} backwards {");
}

#[test]
fn detector_prompt_lists_known_names_or_none() {
    assert_eq!(
        detector_user_prompt("The stranger nods.", &strings(&["Aria", "Finn"])),
        "KNOWN CAST (never re-report these):\nAria, Finn\n\nRECENT NARRATIVE:\nThe stranger nods."
    );
    assert_eq!(
        detector_user_prompt("x", &[]),
        "KNOWN CAST (never re-report these):\n(none yet)\n\nRECENT NARRATIVE:\nx"
    );
}

#[test]
fn detector_prompt_keeps_the_first_3000_bytes_of_narrative() {
    let narrative = "é".repeat(2000); // 4000 bytes
    let p = detector_user_prompt(&narrative, &[]);
    let head = "KNOWN CAST (never re-report these):\n(none yet)\n\nRECENT NARRATIVE:\n";
    assert_eq!(p, format!("{}{}", head, "é".repeat(1500)));
}

#[test]
fn profile_prompt_lists_the_cast_and_scene() {
    let cast = pairs(&[("Aria", "An elf ranger."), ("Finn", "A rogue.")]);
    assert_eq!(
        profile_user_prompt("Lena", "Lena draws her blade.", Some("{\"location_name\":\"Inn\"}"), &cast),
        "CHARACTER TO PROFILE: Lena\n\nEXISTING CAST (stay consistent — don't contradict or duplicate):\n- Aria: An elf ranger.\n- Finn: A rogue.\n\nCURRENT SCENE:\n{\"location_name\":\"Inn\"}\n\nRECENT NARRATIVE:\nLena draws her blade."
    );
    assert_eq!(
        profile_user_prompt("Lena", "n", None, &[]),
        "CHARACTER TO PROFILE: Lena\n\nEXISTING CAST (stay consistent — don't contradict or duplicate):\n(no other characters yet)\n\nCURRENT SCENE:\n(unknown)\n\nRECENT NARRATIVE:\nn"
    );
}

#[test]
fn refine_prompt_marks_blank_fields_and_lists_facts() {
    let p = refine_user_prompt(
        "Lena",
        "   ",
        "Stoic.",
        "",
        &strings(&["Owes Finn a debt", "Hates the cold"]),
        "Lena: Fine.",
        &pairs(&[("Finn", "A rogue.")]),
    );
    assert_eq!(
        p,
        "CHARACTER: Lena\n\nCURRENT DESCRIPTION:\n(none)\n\nCURRENT PERSONALITY:\nStoic.\n\nCURRENT SCENARIO:\n(none)\n\nKNOWN STORY FACTS (confirmed — don't contradict):\n- Owes Finn a debt\n- Hates the cold\n\nEXISTING CAST (stay consistent):\n- Finn: A rogue.\n\nRECENT STORY DIALOGUE (voice/tone anchor):\nLena: Fine."
    );
    let q = refine_user_prompt("L", "d", "p", "s", &[], "x", &[]);
    assert!(q.contains("(none confirmed yet)"));
    assert!(q.contains("(no other characters)"));
}

#[test]
fn refine_prompt_keeps_the_last_6000_bytes_of_dialogue() {
    let dialogue = format!("{}{}", "a".repeat(10), "b".repeat(6000));
    let p = refine_user_prompt("L", "d", "p", "s", &[], &dialogue, &[]);
    assert!(p.ends_with(&"b".repeat(6000)));
    assert!(!p.contains("ab"));
}

#[test]
fn lorebook_prompt_lists_existing_entries() {
    let p = lorebook_user_prompt("Lena", "A sworn guard.", "", "Watching the road.", &[], "hi", &strings(&["Old Wounds"]));
    assert_eq!(
        p,
        "CHARACTER: Lena\n\nDESCRIPTION:\nA sworn guard.\n\nPERSONALITY:\n(none)\n\nSCENARIO:\nWatching the road.\n\nKNOWN STORY FACTS:\n(none confirmed yet)\n\nEXISTING LOREBOOK ENTRIES (don't duplicate):\n- Old Wounds\n\nRECENT STORY DIALOGUE:\nhi"
    );
    let q = lorebook_user_prompt("L", "d", "p", "s", &[], "x", &[]);
    assert!(q.contains("EXISTING LOREBOOK ENTRIES (don't duplicate):\n(none yet)"));
}

#[test]
fn scene_prompt_uses_the_default_state_when_none_is_stored() {
    assert_eq!(
        scene_user_prompt("They enter the inn.", None),
        "Current scene state:\n{\"location_name\":\"Unknown\",\"location_description\":\"\",\"time_period\":\"unspecified\",\"weather\":\"clear\",\"characters_present\":[],\"ambient_details\":\"\",\"scene_mood\":\"neutral\"}\n\nLatest narrative response:\nThey enter the inn."
    );
    assert_eq!(
        scene_user_prompt("x", Some("{}")),
        "Current scene state:\n{}\n\nLatest narrative response:\nx"
    );
}

#[test]
fn summary_prompt_skips_system_messages() {
    let msgs = vec![
        ChatMessage { role: MessageRole::User, content: "Hi".to_string() },
        ChatMessage { role: MessageRole::System, content: "hidden".to_string() },
        ChatMessage { role: MessageRole::Assistant, content: "Hello".to_string() },
    ];
    assert_eq!(
        summary_user_prompt(&msgs, Some("Earlier they met.")).unwrap(),
        "## Previous Summary\n\nEarlier they met.\n\n---\n\n## New Messages to Incorporate\n\n**User:** Hi\n\n**Character:** Hello\n\n\n---\n\nWrite the updated summary incorporating both the previous summary and the new messages:"
    );
    assert!(summary_user_prompt(&[], None).is_none());
}

#[test]
fn custom_system_prompt_wins_unless_blank() {
    assert_eq!(select_system_prompt(Some("Be terse."), "default"), "Be terse.");
    assert_eq!(select_system_prompt(Some("  \n"), "default"), "default");
    assert_eq!(select_system_prompt(None, "default"), "default");
}

#[test]
fn the_candidate_is_left_out_of_its_own_cast_context() {
    let cast = pairs(&[("Aria", "An elf."), ("LENA", "Placeholder."), ("Finn", "A rogue.")]);
    let r = exclude_candidate(&cast, "lena");
    assert_eq!(r, pairs(&[("Aria", "An elf."), ("Finn", "A rogue.")]));
    assert!(eq_ignore_ascii_case("Ärger", "Ärger"));
    assert!(!eq_ignore_ascii_case("Ärger", "ärger"));
    assert!(eq_ignore_ascii_case("MiXeD", "mixed"));
}

#[test]
fn small_list_helpers() {
    assert_eq!(format_cast_list(&[], "(nobody)"), "(nobody)");
    assert_eq!(format_dashed_list(&strings(&["a", "b"]), "-"), "- a\n- b");
    assert_eq!(field_or_none(" \t"), "(none)");
    assert_eq!(field_or_none("kept"), "kept");
    assert_eq!(default_lorebook_priority(), 10);
}
