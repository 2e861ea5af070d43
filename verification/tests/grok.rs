use goose_core::grok::{
    build_run_args, build_sessions_args, format_run_output, format_run_report, grok_home, grok_outcome, resolve_cwd,
    status_session_id, GrokRunParams, GrokSessionsParams, GrokStatusParams,
};
use goose_core::json::{json_or_null, Json};
use goose_core::grok::{choose_grok_command, grok_fallback_paths};
use goose_core::grok::{missing_session_message, run_prompt_check};
use goose_core::brand_meta::{brand_meta_members, get_brand_meta, insert_brand_meta};

fn run_params(prompt: &str) -> GrokRunParams {
    GrokRunParams {
        prompt: prompt.to_string(),
        cwd: None,
        session_id: None,
        continue_last: false,
        model: None,
        max_turns: None,
    }
}

fn object(members: &[(&str, &str)]) -> Json {
    Json::Object(
        members
            .iter()
            .map(|(k, v)| (k.to_string(), Json::Str(v.to_string())))
            .collect(),
    )
}

#[test]
fn run_args_include_headless_json_and_always_approve() {
    assert_eq!(
        build_run_args(&run_params("review this crate")),
        vec!["-p", "review this crate", "--output-format", "json", "--always-approve"]
    );
}

#[test]
fn run_args_resume_and_model_and_max_turns() {
    let mut params = run_params("continue");
    params.session_id = Some("abc-123".to_string());
    params.continue_last = true;
    params.model = Some("grok-4.6".to_string());
    params.max_turns = Some(8);
    assert_eq!(
        build_run_args(&params),
        vec![
            "-p",
            "continue",
            "--output-format",
            "json",
            "--always-approve",
            "--resume",
            "abc-123",
            "-m",
            "grok-4.6",
            "--max-turns",
            "8"
        ]
    );
}

#[test]
fn format_run_output_extracts_session_and_text() {
    let formatted =
        format_run_output(r#"{"text":"done","stopReason":"end_turn","sessionId":"sess-1"}"#);
    assert!(formatted.contains("session_id: sess-1"));
    assert!(formatted.contains("stop_reason: end_turn"));
    assert!(formatted.contains("done"));
}

#[test]
fn run_args_continue_last_and_blank_values() {
    let mut params = run_params("go on");
    params.continue_last = true;
    params.session_id = Some("   ".to_string());
    params.model = Some(" ".to_string());
    assert_eq!(
        build_run_args(&params),
        vec!["-p", "go on", "--output-format", "json", "--always-approve", "--continue"]
    );
}

#[test]
fn format_run_output_defaults_and_plain_text() {
    assert_eq!(format_run_output("plain words"), "plain words");
    let stdout = r#"{"other":1}"#;
    assert_eq!(
        format_run_output(stdout),
        format!("session_id: (unknown)\nstop_reason: unknown\n\n{stdout}")
    );
    // Not an object: the members read as missing.
    assert_eq!(format_run_output("[1]"), "session_id: (unknown)\nstop_reason: unknown\n\n[1]");
}

#[test]
fn format_run_report_reads_given_document() {
    let parsed = object(&[("text", "done"), ("stopReason", "end_turn"), ("sessionId", "sess-1")]);
    assert_eq!(
        format_run_report("raw", Some(&parsed)),
        "session_id: sess-1\nstop_reason: end_turn\n\ndone"
    );
    assert_eq!(format_run_report("raw", None), "raw");
    let no_text = object(&[("sessionId", "s")]);
    assert_eq!(
        format_run_report("raw", Some(&no_text)),
        "session_id: s\nstop_reason: unknown\n\nraw"
    );
}

#[test]
fn sessions_args_list_or_search() {
    let p = GrokSessionsParams { query: None, limit: None };
    assert_eq!(build_sessions_args(&p), vec!["sessions", "list"]);
    let p = GrokSessionsParams { query: Some("  auth bug ".to_string()), limit: Some(5) };
    assert_eq!(build_sessions_args(&p), vec!["sessions", "search", "auth bug", "--limit", "5"]);
    let p = GrokSessionsParams { query: Some("  ".to_string()), limit: Some(0) };
    assert_eq!(build_sessions_args(&p), vec!["sessions", "list", "--limit", "0"]);
}

#[test]
fn status_session_id_is_trimmed_and_required() {
    let p = GrokStatusParams { session_id: "  sess-9 ".to_string() };
    assert_eq!(status_session_id(&p), Ok("sess-9".to_string()));
    let p = GrokStatusParams { session_id: " ".to_string() };
    assert_eq!(status_session_id(&p), Err("session_id must not be empty".to_string()));
}

#[test]
fn working_directory_precedence() {
    let some = |s: &str| Some(s.to_string());
    assert_eq!(resolve_cwd(&some(" /work "), &some("/client"), &some("/proc")), "/work");
    assert_eq!(resolve_cwd(&some("  "), &some("/client"), &some("/proc")), "/client");
    assert_eq!(resolve_cwd(&None, &some(""), &some("/proc")), "/proc");
    assert_eq!(resolve_cwd(&None, &None, &None), ".");
}

#[test]
fn grok_home_precedence() {
    let some = |s: &str| Some(s.to_string());
    assert_eq!(grok_home(&some("/opt/grok"), &some("/home/u"), &None, '/'), "/opt/grok");
    assert_eq!(grok_home(&some(""), &some("/home/u"), &None, '/'), "/home/u/.grok");
    assert_eq!(grok_home(&None, &None, &some("C:/Users/u"), '/'), "C:/Users/u/.grok");
    assert_eq!(grok_home(&None, &None, &some(r"C:\Users\u"), '\\'), r"C:\Users\u\.grok");
    assert_eq!(grok_home(&None, &None, &None, '/'), ".grok");
}

#[test]
fn grok_outcome_reports_exit_code_and_detail() {
    assert_eq!(grok_outcome(true, Some(0), "  ok \n", "warn"), Ok("ok".to_string()));
    assert_eq!(
        grok_outcome(false, Some(2), "out", "  bad flag \n"),
        Err("grok exited with 2: bad flag".to_string())
    );
    assert_eq!(
        grok_outcome(false, None, " partial ", ""),
        Err("grok exited with -1: partial".to_string())
    );
    assert_eq!(
        grok_outcome(false, Some(-3), "", "x"),
        Err("grok exited with -3: x".to_string())
    );
}

#[test]
fn compact_text_matches_serde_display() {
    for text in [
        r#"{"a":[1,2.5,"x\"y"],"b":{"c":null,"d":true},"e":"tab\there"}"#,
        r#"[]"#,
        r#""ünïcode""#,
        r#"-12"#,
        r#"["\u0001\u001f\b\f\r\n\\ /"]"#,
    ] {
        let v: serde_json::Value = serde_json::from_str(text).unwrap();
        assert_eq!(goose_core::json::compact_text(&json_or_null(Some(text))), v.to_string());
    }
}

#[test]
fn session_status_lists_every_field() {
    let summary = json_or_null(Some(
        r#"{"info":{"cwd":"/tmp/p"},"generated_title":"Fix bug","num_messages":4,"agent_name":"grok"}"#,
    ));
    let signals =
        json_or_null(Some(r#"{"turnCount":2,"errorCount":0,"contextWindowTokens":[1,2]}"#));
    let text = goose_core::grok::format_session_status(
        "sess-1",
        &summary,
        &signals,
        "/home/u/.grok/sessions/%2Ftmp/sess-1",
    );
    assert_eq!(
        text,
        "session_id: sess-1\ncwd: /tmp/p\ntitle: Fix bug\nsummary: -\nmodel: -\nagent: grok\ncreated_at: -\nupdated_at: -\nlast_active_at: -\nmessages: 4\nchat_messages: -\nlast_turn_summary: -\nturns: 2\ntool_calls: -\ncontext_tokens_used: -\ncontext_window: [1,2]\nerrors: 0\npath: /home/u/.grok/sessions/%2Ftmp/sess-1"
    );
    let none = goose_core::grok::format_session_status("s", &Json::Null, &Json::Null, "p");
    assert!(none.starts_with("session_id: s\ncwd: -\ntitle: -"));
}

#[test]
fn unreadable_or_broken_files_read_as_null() {
    assert!(matches!(json_or_null(None), Json::Null));
    assert!(matches!(json_or_null(Some("{not json")), Json::Null));
    assert!(matches!(json_or_null(Some("")), Json::Null));
    match json_or_null(Some(r#"{"a":"b"}"#)) {
        Json::Object(ms) => {
            assert_eq!(ms.len(), 1);
            assert_eq!(ms[0].0, "a");
            assert!(matches!(&ms[0].1, Json::Str(s) if s == "b"));
        }
        _ => panic!("an object was expected"),
    }
}

#[test]
fn grok_command_resolution_order() {
    assert_eq!(
        grok_fallback_paths(Some("/home/u"), '/'),
        vec!["/home/u/.local/bin/grok", "/home/u/.grok/bin/grok"]
    );
    assert!(grok_fallback_paths(None, '/').is_empty());
    assert_eq!(choose_grok_command(Some("/opt/grok"), true, None, None), Ok("/opt/grok".to_string()));
    assert_eq!(
        choose_grok_command(Some("/opt/grok"), false, Some("/usr/bin/grok".into()), None),
        Err("GROK_COMMAND is set but not a file: /opt/grok".to_string())
    );
    assert_eq!(
        choose_grok_command(None, false, Some("/usr/bin/grok".into()), Some("/h/.grok/bin/grok".into())),
        Ok("/usr/bin/grok".to_string())
    );
    assert_eq!(
        choose_grok_command(None, false, None, Some("/h/.grok/bin/grok".into())),
        Ok("/h/.grok/bin/grok".to_string())
    );
    assert!(choose_grok_command(None, false, None, None).unwrap_err().starts_with("Could not find the Grok Build CLI"));
}

#[test]
fn grok_run_needs_a_prompt_and_status_names_missing_ids() {
    assert_eq!(run_prompt_check(&run_params("  ")), Err("prompt must not be empty".to_string()));
    assert_eq!(run_prompt_check(&run_params("go")), Ok(()));
    assert_eq!(missing_session_message("abc"), "No Grok session found for id abc");
}

#[test]
fn brand_meta_is_written_twice_and_read_back() {
    let mut meta = vec![
        ("goose".to_string(), Json::Str("old".to_string())),
        ("other".to_string(), Json::Bool(true)),
    ];
    assert!(matches!(get_brand_meta(&meta), Some(Json::Str(s)) if s == "old"));
    let value = Json::Object(vec![("mode".to_string(), Json::Str("auto".to_string()))]);
    insert_brand_meta(&mut meta, value);
    assert_eq!(meta.len(), 3);
    assert!(matches!(&meta[0], (k, Json::Object(ms)) if k == "goose" && ms.len() == 1));
    assert!(matches!(&meta[1], (k, Json::Bool(true)) if k == "other"));
    assert!(matches!(&meta[2], (k, Json::Object(_)) if k == "openduck"));
    let members = brand_meta_members(&meta);
    assert_eq!(members.len(), 1);
    assert!(matches!(&members[0], (k, Json::Str(v)) if k == "mode" && v == "auto"));
    assert!(brand_meta_members(&vec![]).is_empty());
}
