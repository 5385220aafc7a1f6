use janus::backup::{backups_to_prune, is_manual_backup, BackupFile, MAX_MANUAL_BACKUPS};
use janus::entities::{
    conversation_nodes, ConversationRow, default_fps, default_image_height, default_image_width, default_importance,
    default_insertion_order, default_max_tokens, default_memory_scope, default_priority,
    default_steps, default_true, default_video_height, default_video_width, AppInfo,
};
use janus::error::{
    next_conflict_step, truncate_at_char_boundary, ConflictStep, truncate_tail_at_char_boundary, validate_required_string,
    validate_string_length, MythicError,
};
use janus::history::{branch_path, branch_title, memory_copy, MessageLink};
use janus::paths::{check_containment, check_relative_path, AUTO_BACKUP_FILENAME, BACKUP_DIR_NAME};
use janus::records::{parse_record_id, sanitize_id, unescape_record_key};

fn link(id: &str, parent: Option<&str>) -> MessageLink {
    MessageLink { id: id.to_string(), parent_id: parent.map(|p| p.to_string()) }
}

fn backup(name: &str, modified: Option<u128>) -> BackupFile {
    BackupFile { name: name.to_string(), modified }
}

#[test]
fn truncation_backs_off_to_a_character_boundary() {
    assert_eq!(truncate_at_char_boundary("hello", 10), "hello");
    assert_eq!(truncate_at_char_boundary("hello", 3), "hel");
    // "é" is two bytes: cutting at 2 would split the second one.
    assert_eq!(truncate_at_char_boundary("aéb", 2), "a");
    assert_eq!(truncate_at_char_boundary("日本語", 4), "日");
    assert_eq!(truncate_at_char_boundary("abc", 0), "");
}

#[test]
fn tail_truncation_moves_forward_to_a_character_boundary() {
    assert_eq!(truncate_tail_at_char_boundary("hello", 10), "hello");
    assert_eq!(truncate_tail_at_char_boundary("hello", 2), "lo");
    assert_eq!(truncate_tail_at_char_boundary("aéb", 2), "b");
    assert_eq!(truncate_tail_at_char_boundary("日本語", 4), "語");
}

#[test]
fn length_validation_reports_bytes_and_limit() {
    assert_eq!(validate_string_length("Name", "abc", 3), Ok(()));
    assert_eq!(
        validate_string_length("Name", "abcd", 3),
        Err(MythicError::Validation("Name is too long (4 chars, max 3)".to_string()))
    );
}

#[test]
fn required_strings_must_not_be_blank() {
    assert_eq!(
        validate_required_string("Title", "   ", 10),
        Err(MythicError::Validation("Title cannot be empty".to_string()))
    );
    assert_eq!(validate_required_string("Title", "  ok  ", 2), Ok(()));
    assert_eq!(
        validate_required_string("Title", " long ", 3),
        Err(MythicError::Validation("Title is too long (4 chars, max 3)".to_string()))
    );
}

#[test]
fn error_codes_and_messages() {
    let e = MythicError::NotFound("character x".to_string());
    assert_eq!(e.code(), "not_found");
    assert_eq!(e.message(), "Not found: character x");
    assert_eq!(MythicError::Cancelled.code(), "cancelled");
    assert_eq!(MythicError::Cancelled.message(), "Cancelled");
    assert_eq!(MythicError::Validation("bad".to_string()).message(), "Validation error: bad");
    assert_eq!(MythicError::Database("down".to_string()).code(), "database");
    assert_eq!(MythicError::DatabaseOp("x".to_string()).message(), "Database operation failed: x");
    assert_eq!(MythicError::Http("x".to_string()).code(), "http");
    assert_eq!(MythicError::Serialization("x".to_string()).message(), "Serialization error: x");
    assert_eq!(MythicError::Io("x".to_string()).message(), "IO error: x");
    assert_eq!(MythicError::Image("x".to_string()).code(), "image");
    assert_eq!(MythicError::Provider("x".to_string()).message(), "Provider error: x");
    assert_eq!(MythicError::Config("x".to_string()).message(), "Configuration error: x");
}

#[test]
fn record_keys_are_unescaped() {
    assert_eq!(unescape_record_key("`abc\\-def`"), "abc-def");
    assert_eq!(unescape_record_key("plain"), "plain");
    assert_eq!(unescape_record_key("`a\\\\b`"), "a\\b");
    assert_eq!(unescape_record_key("`"), "`");
}

#[test]
fn record_ids_split_at_the_first_colon() {
    assert_eq!(
        parse_record_id("characters:`aria\\-1`"),
        Some(("characters".to_string(), "aria-1".to_string()))
    );
    assert_eq!(parse_record_id("a:b:c"), Some(("a".to_string(), "b:c".to_string())));
    assert_eq!(parse_record_id("no-colon"), None);
}

#[test]
fn model_names_become_safe_ids() {
    assert_eq!(sanitize_id("AlbedoBase XL (SDXL)"), "albedobase_xl__sdxl_");
    assert_eq!(sanitize_id("Ünïcode-1"), "Ünïcode_1");
}

#[test]
fn branch_path_walks_up_to_the_root() {
    let msgs = vec![
        link("m1", None),
        link("m2", Some("m1")),
        link("m3", Some("m2")),
        link("m4", Some("m2")),
    ];
    assert_eq!(branch_path(&msgs, "m4"), vec![0, 1, 3]);
    assert_eq!(branch_path(&msgs, "m1"), vec![0]);
    assert_eq!(branch_path(&msgs, "missing"), Vec::<usize>::new());
}

#[test]
fn branch_path_stops_at_a_cycle_or_unknown_parent() {
    let cyclic = vec![link("a", Some("b")), link("b", Some("a"))];
    assert_eq!(branch_path(&cyclic, "a"), vec![1, 0]);
    let dangling = vec![link("x", Some("gone"))];
    assert_eq!(branch_path(&dangling, "x"), vec![0]);
}

#[test]
fn relative_paths_must_stay_inside_the_base() {
    assert_eq!(check_relative_path("avatars/aria.png"), Ok(()));
    assert_eq!(check_relative_path("./avatars/aria.png"), Ok(()));
    assert_eq!(
        check_relative_path("   "),
        Err(MythicError::Validation("Path cannot be empty".to_string()))
    );
    assert_eq!(
        check_relative_path("../secrets"),
        Err(MythicError::Validation("Invalid path: '../secrets'".to_string()))
    );
    assert_eq!(
        check_relative_path("/etc/passwd"),
        Err(MythicError::Validation("Invalid path: '/etc/passwd'".to_string()))
    );
    assert_eq!(
        check_relative_path("a/../../b"),
        Err(MythicError::Validation("Invalid path: 'a/../../b'".to_string()))
    );
}

#[test]
fn containment_refuses_only_a_known_escape() {
    assert_eq!(check_containment("x", None), Ok(()));
    assert_eq!(check_containment("x", Some(true)), Ok(()));
    assert_eq!(
        check_containment("link", Some(false)),
        Err(MythicError::Validation("Invalid path: 'link'".to_string()))
    );
    assert_eq!(BACKUP_DIR_NAME, "backups");
    assert_eq!(AUTO_BACKUP_FILENAME, "janus_auto_backup.surql");
}

#[test]
fn manual_backup_names_follow_the_export_pattern() {
    assert!(is_manual_backup("janus_backup_2026-08-18_143022.surql"));
    assert!(!is_manual_backup("janus_auto_backup.surql"));
    assert!(!is_manual_backup("janus_backup_2026.txt"));
    assert!(!is_manual_backup("notes.surql"));
}

#[test]
fn pruning_removes_the_oldest_manual_backups_beyond_the_limit() {
    let mut files = Vec::new();
    for i in 0..12u128 {
        files.push(backup(&format!("janus_backup_{}.surql", i), Some(1000 - i)));
    }
    files.push(backup("janus_auto_backup.surql", Some(1)));
    files.push(backup("janus_backup_nometa.surql", None));
    let mut pruned = backups_to_prune(&files);
    pruned.sort();
    // Files 10 and 11 have the smallest modification times.
    assert_eq!(pruned, vec![10, 11]);
    assert_eq!(MAX_MANUAL_BACKUPS, 10);
}

#[test]
fn pruning_breaks_ties_by_listing_order_and_keeps_small_sets() {
    let mut files = Vec::new();
    for i in 0..11 {
        files.push(backup(&format!("janus_backup_{}.surql", i), Some(5)));
    }
    assert_eq!(backups_to_prune(&files), vec![0]);
    assert!(backups_to_prune(&files[..10]).is_empty());
}

#[test]
fn stored_defaults() {
    assert!(default_true());
    assert_eq!(default_insertion_order(), 100);
    assert_eq!(default_priority(), 10);
    assert_eq!(default_memory_scope(), "character");
    assert_eq!(default_max_tokens(), 1024);
    assert_eq!(default_importance(), 5);
    assert_eq!(default_video_width(), 1280);
    assert_eq!(default_video_height(), 720);
    assert_eq!(default_fps(), 24);
    assert_eq!(default_image_width(), 1024);
    assert_eq!(default_image_height(), 1024);
    assert_eq!(default_steps(), 20);
    let info = AppInfo::janus("0.3.1", "A roleplay app");
    assert_eq!(info.name, "Janus");
    assert_eq!(info.version, "0.3.1");
}

#[test]
fn conflicts_are_retried_twice_with_growing_pauses() {
    let conflict = "Failed to commit transaction due to a read or write conflict. This transaction can be retried";
    assert_eq!(next_conflict_step(conflict, 0), ConflictStep::RetryAfterMillis(120));
    assert_eq!(next_conflict_step(conflict, 1), ConflictStep::RetryAfterMillis(240));
    assert_eq!(next_conflict_step(conflict, 2), ConflictStep::GiveUp);
    assert_eq!(next_conflict_step("record not found", 0), ConflictStep::GiveUp);
}

#[test]
fn graph_nodes_count_the_memories_of_each_conversation() {
    let rows = vec![
        ConversationRow { id: "c1".to_string(), title: "Main".to_string(), parent_conversation_id: None },
        ConversationRow { id: "c2".to_string(), title: "Branch".to_string(), parent_conversation_id: Some("c1".to_string()) },
        ConversationRow { id: "c3".to_string(), title: "Empty".to_string(), parent_conversation_id: None },
    ];
    let memories = vec![Some("c1".to_string()), None, Some("c2".to_string()), Some("c1".to_string())];
    let nodes = conversation_nodes("aria", &rows, &memories);
    assert_eq!(nodes.len(), 3);
    assert_eq!(nodes[0].memory_count, 2);
    assert_eq!(nodes[1].memory_count, 1);
    assert_eq!(nodes[2].memory_count, 0);
    assert_eq!(nodes[1].parent_conversation_id.as_deref(), Some("c1"));
    assert_eq!(nodes[0].character_id, "aria");
    assert_eq!(nodes[1].title, "Branch");
}

#[test]
fn a_branch_keeps_the_parent_title_unless_given_one() {
    assert_eq!(branch_title(None, "Tavern night"), "Tavern night");
    assert_eq!(branch_title(Some("What if"), "Tavern night"), "What if");
}

#[test]
fn a_copied_memory_starts_a_new_history() {
    let c = memory_copy("memories:abc", &Some("aria".to_string()), "Aria fears fire.");
    assert_eq!(c.character_id.as_deref(), Some("aria"));
    assert_eq!(c.content, "Aria fears fire.");
    assert_eq!(c.source, "auto");
    assert_eq!(c.parent_memory_id, "memories:abc");
    assert_eq!(c.version, 1);
    assert!(!c.is_canon);
}
