use janus::llm_prompts::detector_user_prompt;
use janus::npc::{CastRow, DetectionState};
use janus::npc_flow::{detection_step, start_detection, DetectionAction, DetectionEvent, DetectionPhase};

fn pairs(v: &[(&str, &str)]) -> Vec<(String, String)> {
    v.iter().map(|(a, b)| (a.to_string(), b.to_string())).collect()
}

fn counter(since: i32, last: Option<&str>) -> DetectionEvent {
    DetectionEvent::Counter(DetectionState {
        messages_since_scan: since,
        last_scanned_message_id: last.map(|s| s.to_string()),
    })
}

#[test]
fn a_tick_that_is_not_due_saves_the_counter_and_stops() {
    let run = start_detection("m5".to_string(), "Bram waved.".to_string(), false);
    let (run, act) = detection_step(run, counter(1, Some("m4")));
    assert_eq!(run.phase, DetectionPhase::Finished);
    match act {
        DetectionAction::SaveCounter { state, continue_pass } => {
            assert!(!continue_pass);
            assert_eq!(state.messages_since_scan, 2);
            assert_eq!(state.last_scanned_message_id.as_deref(), Some("m5"));
        }
        other => panic!("unexpected action {:?}", other),
    }
    let (run, act) = detection_step(run, DetectionEvent::Candidates(pairs(&[("Bram", "recurring")])));
    assert!(matches!(act, DetectionAction::Ignore));
    assert_eq!(run.phase, DetectionPhase::Finished);
}

#[test]
fn a_message_already_scanned_stops_without_saving() {
    let run = start_detection("m5".to_string(), "text".to_string(), true);
    let (run, act) = detection_step(run, counter(3, Some("m5")));
    assert!(matches!(act, DetectionAction::Stop));
    assert_eq!(run.phase, DetectionPhase::Finished);
}

#[test]
fn a_due_pass_detects_counts_and_debounces() {
    let narrative = "Bram the smith greeted Aria.";
    let run = start_detection("m9".to_string(), narrative.to_string(), false);
    let (run, act) = detection_step(run, counter(4, None));
    assert_eq!(run.phase, DetectionPhase::LoadingCast);
    match act {
        DetectionAction::SaveCounter { state, continue_pass } => {
            assert!(continue_pass);
            assert_eq!(state.messages_since_scan, 0);
        }
        other => panic!("unexpected action {:?}", other),
    }
    let known_names = vec!["ARIA".to_string()];
    let (run, act) = detection_step(
        run,
        DetectionEvent::Cast {
            known_names: known_names.clone(),
            known: pairs(&[("Aria", "aria")]),
            primary_id: Some("aria".to_string()),
            cast: vec![CastRow { character_id: "aria".to_string(), role: "primary".to_string() }],
        },
    );
    assert_eq!(run.phase, DetectionPhase::Detecting);
    match act {
        DetectionAction::Detect { prompt } => assert_eq!(prompt, detector_user_prompt(narrative, &known_names)),
        other => panic!("unexpected action {:?}", other),
    }
    let (run, act) =
        detection_step(run, DetectionEvent::Candidates(pairs(&[("Aria", "minor"), (" Bram ", "recurring")])));
    match act {
        DetectionAction::RefreshPlaceholder { character_id } => assert_eq!(character_id, "aria"),
        other => panic!("unexpected action {:?}", other),
    }
    let (run, act) = detection_step(run, DetectionEvent::Continue);
    assert_eq!(run.phase, DetectionPhase::LookingUp);
    match act {
        DetectionAction::LookUp { key } => assert_eq!(key, "bram"),
        other => panic!("unexpected action {:?}", other),
    }
    let (run, act) = detection_step(run, DetectionEvent::Record { pass_count: Some(1), has_character: false });
    match act {
        DetectionAction::StoreSighting { key, name, tag, pass_count, register_placeholder } => {
            assert_eq!(key, "bram");
            assert_eq!(name, " Bram ");
            assert_eq!(tag, "recurring");
            assert_eq!(pass_count, 2);
            assert!(register_placeholder);
        }
        other => panic!("unexpected action {:?}", other),
    }
    let (run, act) = detection_step(run, DetectionEvent::Continue);
    assert!(matches!(act, DetectionAction::LoadCandidates));
    assert_eq!(run.phase, DetectionPhase::CollectingDebounced);
    let rows = vec![
        ("Bram".to_string(), 2, "pending".to_string()),
        ("Lena".to_string(), 1, "pending".to_string()),
        ("Finn".to_string(), 3, "promoted".to_string()),
    ];
    let (run, act) = detection_step(run, DetectionEvent::Debounced(rows));
    assert_eq!(run.phase, DetectionPhase::Finished);
    match act {
        DetectionAction::GenerateProfiles { names } => assert_eq!(names, vec!["Bram".to_string()]),
        other => panic!("unexpected action {:?}", other),
    }
}

#[test]
fn no_debounced_candidate_ends_the_pass() {
    let run = start_detection("m1".to_string(), "x".to_string(), true);
    let (run, _) = detection_step(run, counter(0, None));
    let (run, _) = detection_step(
        run,
        DetectionEvent::Cast { known_names: Vec::new(), known: Vec::new(), primary_id: None, cast: Vec::new() },
    );
    let (run, act) = detection_step(run, DetectionEvent::Candidates(Vec::new()));
    assert!(matches!(act, DetectionAction::LoadCandidates));
    let (run, act) = detection_step(run, DetectionEvent::Debounced(vec![("Lena".to_string(), 1, "pending".to_string())]));
    assert!(matches!(act, DetectionAction::Stop));
    assert_eq!(run.phase, DetectionPhase::Finished);
}
