use janus::resolve::resolve_character_id;
use janus::response_parser::parse_multi_character_response;

fn names(v: &[&str]) -> Vec<String> {
    v.iter().map(|s| s.to_string()).collect()
}

fn pairs(v: &[(&str, &str)]) -> Vec<(String, String)> {
    v.iter().map(|(a, b)| (a.to_string(), b.to_string())).collect()
}

#[test]
fn bracket_markers_split_the_response_by_speaker() {
    let r = parse_multi_character_response(
        "[Aria]: Hello there.\n\n[Finn]: Hi!",
        &names(&["Aria", "Finn"]),
        "Aria",
    );
    assert_eq!(r.len(), 2);
    assert_eq!(r[0].character_name, "Aria");
    assert_eq!(r[0].content, "Hello there.");
    assert_eq!(r[0].index, 0);
    assert_eq!(r[1].character_name, "Finn");
    assert_eq!(r[1].content, "Hi!");
    assert_eq!(r[1].index, 1);
}

#[test]
fn blank_response_has_no_segments() {
    let r = parse_multi_character_response("  \n\t ", &names(&["Aria"]), "Aria");
    assert!(r.is_empty());
}

#[test]
fn unmarked_response_goes_to_the_fallback() {
    let r = parse_multi_character_response("  The wind howls.  ", &names(&["Aria"]), "Narrator");
    assert_eq!(r.len(), 1);
    assert_eq!(r[0].character_name, "Narrator");
    assert_eq!(r[0].content, "The wind howls.");
    assert_eq!(r[0].index, 0);
}

#[test]
fn unmarked_response_starting_with_a_known_first_name_goes_to_that_character() {
    let r = parse_multi_character_response(
        "*Finn holds Aria's gaze for a moment.*",
        &names(&["Aria Silverleaf", "Finn Shadowcloak"]),
        "Aria Silverleaf",
    );
    assert_eq!(r.len(), 1);
    assert_eq!(r[0].character_name, "Finn Shadowcloak");
    assert_eq!(r[0].content, "*Finn holds Aria's gaze for a moment.*");
}

#[test]
fn preamble_before_the_first_marker_goes_to_the_fallback() {
    let r = parse_multi_character_response(
        "The tavern falls silent.\n[Finn]: Who goes there?",
        &names(&["Aria", "Finn"]),
        "Aria",
    );
    assert_eq!(r.len(), 2);
    assert_eq!(r[0].character_name, "Aria");
    assert_eq!(r[0].content, "The tavern falls silent.");
    assert_eq!(r[1].character_name, "Finn");
    assert_eq!(r[1].content, "Who goes there?");
}

#[test]
fn repeated_markers_of_one_speaker_are_merged() {
    let r = parse_multi_character_response(
        "[Aria]: First part.\n[Aria]: Second part.\n[Finn]: Reply.",
        &names(&["Aria", "Finn"]),
        "Aria",
    );
    assert_eq!(r.len(), 2);
    assert_eq!(r[0].character_name, "Aria");
    assert_eq!(r[0].content, "First part.\n\nSecond part.");
    assert_eq!(r[1].character_name, "Finn");
    assert_eq!(r[1].index, 1);
}

#[test]
fn first_name_markers_are_recognised_for_full_names() {
    let r = parse_multi_character_response(
        "[Roran]: Stand fast!\n[aria]: lowercase is not a marker",
        &names(&["Roran Ironfist"]),
        "Roran Ironfist",
    );
    assert_eq!(r.len(), 1);
    assert_eq!(r[0].character_name, "Roran");
    assert_eq!(r[0].content, "Stand fast!\n[aria]: lowercase is not a marker");
}

#[test]
fn unknown_capitalised_speakers_are_recognised() {
    let r = parse_multi_character_response(
        "[Aria]: Who are you?\n[Mira the Bold]: A friend.",
        &names(&["Aria"]),
        "Aria",
    );
    assert_eq!(r.len(), 2);
    assert_eq!(r[1].character_name, "Mira the Bold");
    assert_eq!(r[1].content, "A friend.");
}

#[test]
fn loose_name_colon_markers_are_used_when_no_brackets_appear() {
    let r = parse_multi_character_response(
        "Aria: Look out!\nFinn: I see it.",
        &names(&["Aria", "Finn"]),
        "Aria",
    );
    assert_eq!(r.len(), 2);
    assert_eq!(r[0].character_name, "Aria");
    assert_eq!(r[0].content, "Look out!");
    assert_eq!(r[1].character_name, "Finn");
    assert_eq!(r[1].content, "I see it.");
}

#[test]
fn resolve_prefers_exact_match() {
    let known = pairs(&[("Aria", "c1"), ("aria", "c2")]);
    assert_eq!(resolve_character_id("aria", &known), Some("c2".to_string()));
    assert_eq!(resolve_character_id("Aria", &known), Some("c1".to_string()));
}

#[test]
fn resolve_falls_back_to_case_insensitive_match() {
    let known = pairs(&[("Finn Shadowcloak", "c7")]);
    assert_eq!(resolve_character_id("FINN SHADOWCLOAK", &known), Some("c7".to_string()));
}

#[test]
fn resolve_matches_a_first_name() {
    let known = pairs(&[("Aria Silverleaf", "c1"), ("Roran Ironfist", "c2")]);
    assert_eq!(resolve_character_id("Roran", &known), Some("c2".to_string()));
}

#[test]
fn resolve_matches_a_shared_whole_word() {
    let known = pairs(&[("Aria Silverleaf", "c1"), ("Finn Shadowcloak", "c2")]);
    assert_eq!(resolve_character_id("Shadowcloak", &known), Some("c2".to_string()));
    assert_eq!(resolve_character_id("Lena Silverleaf", &known), Some("c1".to_string()));
}

#[test]
fn resolve_never_matches_a_mere_substring() {
    let known = pairs(&[("Aria Silverleaf", "c1")]);
    assert_eq!(resolve_character_id("Ari", &known), None);
    assert_eq!(resolve_character_id("Nobody", &[]), None);
}
