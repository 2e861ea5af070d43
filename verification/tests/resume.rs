use goose_core::resume::{
    find_resume_session, format_resume_session_label, format_resume_session_list,
    list_resume_sessions, parse_resume_target, resume_lookup, selectable_resume_sessions,
    ResumeSessionListEntry, StoredSession,
};

fn stored(id: &str, name: &str, message_count: usize) -> StoredSession {
    StoredSession { id: id.to_string(), name: name.to_string(), message_count }
}

#[test]
fn parse_resume_target_bare_and_named() {
    assert_eq!(parse_resume_target(""), None);
    assert_eq!(parse_resume_target("   "), None);
    assert_eq!(parse_resume_target("my-session"), Some("my-session"));
    assert_eq!(parse_resume_target("  20251108_3  "), Some("20251108_3"));
    assert_eq!(parse_resume_target("name extra"), Some("name"));
}

#[test]
fn format_empty_list_is_helpful() {
    let text = format_resume_session_list(&[], None);
    assert!(
        text.to_lowercase().contains("no other saved sessions")
            || text.to_lowercase().contains("no saved sessions")
    );
}

#[test]
fn list_resume_sessions_skips_empty_marks_current_and_formats_labels() {
    let sessions = vec![
        stored("20250101_3", "current-work", 2),
        stored("20250101_2", "older-work", 1),
        stored("20250101_1", "empty-session", 0),
    ];
    let older = "20250101_2";
    let current = "20250101_3";

    let entries = list_resume_sessions(&sessions, Some(current));
    assert!(entries.iter().all(|e| e.message_count > 0), "empty sessions must be filtered out");
    assert!(entries.iter().any(|e| e.session_id == older));
    assert!(entries.iter().any(|e| e.session_id == current && e.is_current));
    assert!(!entries.iter().any(|e| e.name == "empty-session"));

    let selectable = selectable_resume_sessions(&entries);
    assert!(selectable.iter().all(|e| !e.is_current));
    assert!(selectable.iter().any(|e| e.session_id == older));

    let list = format_resume_session_list(&entries, Some(current));
    assert!(list.contains("Saved sessions") || list.contains("with messages"));
    assert!(list.contains(older));
    assert!(list.contains("older-work"));
    assert!(!list.contains(current) || list.contains("tip menu"));
    assert!(list.contains("/resume <name-or-id>"));

    let label = format_resume_session_label(entries.iter().find(|e| e.session_id == older).unwrap());
    assert!(label.contains("older-work"));
    assert!(label.contains(older));
}

#[test]
fn labels_count_messages_and_mark_current() {
    let e = ResumeSessionListEntry {
        session_id: "id-1".to_string(),
        name: String::new(),
        message_count: 1,
        is_current: true,
    };
    assert_eq!(format_resume_session_label(&e), "(unnamed)  (1 msg)  [id-1] · current");
    let e = ResumeSessionListEntry {
        session_id: "id-2".to_string(),
        name: "work".to_string(),
        message_count: 12,
        is_current: false,
    };
    assert_eq!(format_resume_session_label(&e), "work  (12 msgs)  [id-2]");
}

#[test]
fn session_list_text_exactly() {
    let entries = vec![
        ResumeSessionListEntry {
            session_id: "a".to_string(),
            name: "alpha".to_string(),
            message_count: 3,
            is_current: false,
        },
        ResumeSessionListEntry {
            session_id: "c".to_string(),
            name: "cur".to_string(),
            message_count: 1,
            is_current: true,
        },
    ];
    assert_eq!(
        format_resume_session_list(&entries, Some("c")),
        "Saved sessions with messages (most recent first):\n\n  alpha  (3 msgs)  [a]\n\nIn the interactive CLI, `/resume` opens a tip menu to pick one.\nOr resume directly: `/resume <name-or-id>`"
    );
    assert_eq!(
        format_resume_session_list(&entries[1..], Some("c")),
        "No other saved sessions with messages found.\n\nChat in a session first, then use `/resume` to pick one."
    );
}

fn sessions() -> Vec<StoredSession> {
    vec![stored("s1", "alpha", 1), stored("s2", "beta-project", 1), stored("s3", "current", 1)]
}

#[test]
fn resume_by_name_loads_that_session() {
    assert_eq!(find_resume_session(&sessions(), "beta-project"), Ok("s2".to_string()));
}

#[test]
fn resume_by_id_loads_that_session() {
    assert_eq!(resume_lookup(" s1 "), Ok("s1".to_string()));
    assert_eq!(find_resume_session(&sessions(), "s1"), Ok("s1".to_string()));
}

#[test]
fn resume_missing_target_errors_without_side_effects() {
    let before = sessions();
    let err = find_resume_session(&before, "does-not-exist").unwrap_err();
    assert!(err.contains("does-not-exist") || err.to_lowercase().contains("no session"));
    assert_eq!(err, "No session found with name or id 'does-not-exist'");
    assert_eq!(before.len(), 3);
}

#[test]
fn resume_lookup_trims_and_rejects_blank() {
    assert_eq!(resume_lookup("  s1 "), Ok("s1".to_string()));
    assert_eq!(
        resume_lookup("   "),
        Err("Specify a session name or id. Use `/resume` to list saved sessions.".to_string())
    );
}
