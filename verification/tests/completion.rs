use goose_core::completion::{
    complete, complete_argument_keys, complete_prompt_flags, complete_prompt_names,
    complete_resume_sessions, complete_slash_commands, cycle_menu_index, hint,
    is_slash_command_name_input, matching_slash_commands, menu_step, prompt_slash_command_tip_menu,
    slash_command_entries, slash_menu_prefix, split_tip_row, Candidate, Completion,
    CompletionData, HintStatus, MenuKey, MenuStep, PromptArgument, ResumeCompletionEntry,
    TipMenu,
};

/// Commands shown on the session startup splash guide.
const SPLASH_SLASH_COMMANDS: &[&str] = &[
    "/help", "/status", "/model", "/mode", "/plan", "/compact", "/skills", "/clear", "/exit",
];

/// Session slash commands beyond the agent's own list.
const CLI_LOCAL_SLASH_COMMANDS: &[&str] = &[
    "/quit",
    "/t",
    "/r",
    "/extension",
    "/builtin",
    "/recipe",
    "/prompts",
    "/prompt",
    "/resume",
    "/endplan",
    "/edit",
    "/?",
];

fn agent_commands() -> Vec<(String, String)> {
    [
        ("status", "show session status"),
        ("compact", "compact the conversation"),
        ("skills", "list installed skills"),
        ("clear", "clear the conversation"),
        ("prompts", "list available prompts"),
        ("prompt", "run a prompt"),
        ("resume", "resume a saved session"),
    ]
    .iter()
    .map(|(n, d)| (n.to_string(), d.to_string()))
    .collect()
}

fn prompt_arguments() -> Vec<(String, Option<Vec<PromptArgument>>)> {
    vec![
        (
            "test_prompt1".to_string(),
            Some(vec![
                PromptArgument { name: "required_arg".to_string(), required: Some(true) },
                PromptArgument { name: "optional_arg".to_string(), required: Some(false) },
            ]),
        ),
        ("test_prompt2".to_string(), None),
        ("other_prompt".to_string(), None),
    ]
}

fn prompt_names() -> Vec<String> {
    vec!["test_prompt1".to_string(), "test_prompt2".to_string(), "other_prompt".to_string()]
}

fn resume_entries() -> Vec<ResumeCompletionEntry> {
    vec![
        ResumeCompletionEntry {
            session_id: "20260326_1".to_string(),
            name: "older-work".to_string(),
            message_count: 3,
            is_current: false,
        },
        ResumeCompletionEntry {
            session_id: "20260326_2".to_string(),
            name: "react-migration".to_string(),
            message_count: 12,
            is_current: false,
        },
        ResumeCompletionEntry {
            session_id: "20260326_3".to_string(),
            name: "current-work".to_string(),
            message_count: 2,
            is_current: true,
        },
        ResumeCompletionEntry {
            session_id: "20260326_4".to_string(),
            name: "empty-skipped".to_string(),
            message_count: 0,
            is_current: false,
        },
    ]
}

fn data() -> CompletionData {
    CompletionData {
        agent_commands: agent_commands(),
        prompt_names: prompt_names(),
        prompt_arguments: prompt_arguments(),
        modes: vec!["auto".to_string(), "approve".to_string(), "chat".to_string()],
        resume_sessions: resume_entries(),
    }
}

fn candidate_names(candidates: &[Candidate]) -> Vec<&str> {
    candidates.iter().map(|c| c.replacement.trim_end()).collect()
}

fn has_cmd(candidates: &[Candidate], cmd: &str) -> bool {
    candidates.iter().any(|c| c.replacement.trim_end() == cmd)
}

fn done(c: Completion) -> (usize, Vec<Candidate>) {
    match c {
        Completion::Done(pos, cs) => (pos, cs),
        other => panic!("expected finished candidates, got {other:?}"),
    }
}

#[test]
fn test_complete_slash_commands() {
    let agent = agent_commands();

    let (pos, candidates) = complete_slash_commands("/exit", &agent);
    assert_eq!(pos, 0);
    assert!(candidates.len() > 1, "exact match should still offer the full cycle list");
    assert_ne!(
        candidates[0].replacement.trim_end(),
        "/exit",
        "first Tab on an exact command should move to a different candidate"
    );
    assert!(
        candidates.iter().any(|c| c.replacement.trim_end() == "/exit"),
        "cycle list still includes /exit"
    );

    let (pos, candidates) = complete_slash_commands("/ex", &agent);
    assert_eq!(pos, 0);
    let names = candidate_names(&candidates);
    assert!(names.contains(&"/exit"), "got {names:?}");
    assert!(names.contains(&"/extension"), "got {names:?}");
    assert!(
        names.iter().all(|n| n.starts_with("/ex")),
        "all candidates must match prefix, got {names:?}"
    );

    let (pos, candidates) = complete_slash_commands("/pl", &agent);
    assert_eq!(pos, 0);
    assert!(
        has_cmd(&candidates, "/plan"),
        "partial /pl should yield /plan, got {:?}",
        candidate_names(&candidates)
    );
    assert!(
        candidates
            .iter()
            .any(|c| c.replacement.trim_end() == "/plan" && c.display.contains("plan")),
        "tip menu for /plan should include a description"
    );

    let (pos, candidates) = complete_slash_commands("/", &agent);
    assert_eq!(pos, 0);
    assert!(candidates.len() > 1);
    assert!(candidates.iter().all(|c| c.replacement.starts_with('/')));
    assert!(
        candidates.iter().all(|c| c.display.contains("  ") && c.display.starts_with('/')),
        "every tip-menu row should be \"name  description\""
    );
    for cmd in SPLASH_SLASH_COMMANDS {
        assert!(has_cmd(&candidates, cmd), "splash command {cmd} missing from completer under `/`");
    }
    for (name, description) in &agent {
        let name = format!("/{}", name);
        assert!(has_cmd(&candidates, &name), "slash completion should list {name}");
        assert!(
            candidates
                .iter()
                .any(|c| c.replacement.trim_end() == name && c.display.contains(description.as_str())),
            "tip menu for {name} should show agent description"
        );
    }
    for cmd in CLI_LOCAL_SLASH_COMMANDS {
        assert!(has_cmd(&candidates, cmd), "CLI-local command {cmd} missing from completer under `/`");
    }

    let (_pos, candidates) = complete_slash_commands("/nonexistent", &agent);
    assert_eq!(candidates.len(), 0);
}

#[test]
fn test_completer_complete_slash_prefix() {
    let d = data();

    let line = "/";
    let (pos, candidates) = done(complete(line, line.len(), &d));
    assert_eq!(pos, 0);
    assert!(!candidates.is_empty(), "complete(\"/\") must yield slash-command candidates");
    for cmd in SPLASH_SLASH_COMMANDS {
        assert!(has_cmd(&candidates, cmd), "complete path missing splash command {cmd}");
    }

    let line = "/pl";
    let (pos, candidates) = done(complete(line, line.len(), &d));
    assert_eq!(pos, 0);
    assert!(has_cmd(&candidates, "/plan"), "complete(\"/pl\") should include /plan");

    let line = "/zzznomatch";
    let (_pos, candidates) = done(complete(line, line.len(), &d));
    assert!(candidates.is_empty(), "unknown prefix should yield no slash-command candidates");
}

#[test]
fn test_tab_cycles_slash_command_order() {
    let agent = agent_commands();
    let all = matching_slash_commands("/", &agent);
    assert!(all.len() > 5);
    for cmd in SPLASH_SLASH_COMMANDS {
        assert!(all.iter().any(|(n, _)| n == cmd), "cycle list missing splash command {cmd}");
    }
    assert_eq!(all[0].0, "/help", "first Tab on `/` should complete to /help");

    let (pos, candidates) = complete_slash_commands("/", &agent);
    assert_eq!(pos, 0);
    assert_eq!(candidates[0].replacement, "/help ", "circular Tab writes first candidate into the line");
    assert_eq!(
        candidates[1].replacement.trim_end(),
        "/status",
        "second Tab cycles to the next candidate"
    );

    let (pos, candidates) = complete_slash_commands("/ex", &agent);
    assert_eq!(pos, 0);
    let names = candidate_names(&candidates);
    assert!(names.len() >= 2, "got {names:?}");
    assert!(names.iter().all(|n| n.starts_with("/ex")));

    let none = matching_slash_commands("/zzznomatch", &agent);
    assert!(none.is_empty());
}

#[test]
fn test_slash_command_completion_hint() {
    let agent = agent_commands();

    let empty = hint("", HintStatus::Default, 'j', &agent).0.expect("empty-line hint");
    assert!(
        empty.contains("Tab complete") || empty.contains("/commands"),
        "default empty-line hint should mention Tab complete: {empty}"
    );

    let slash = hint("/", HintStatus::Default, 'j', &agent).0.expect("slash hint");
    assert!(
        slash.contains("Tab") && slash.contains("complete"),
        "typing / should hint Tab complete via menu: {slash}"
    );

    let partial = hint("/pl", HintStatus::Default, 'j', &agent).0.expect("partial slash hint");
    assert!(
        partial.contains("Tab") && partial.contains("/plan"),
        "partial /pl should mention menu and /plan: {partial}"
    );

    assert!(hint("/plan ", HintStatus::Default, 'j', &agent).0.is_none());
    assert!(hint("hello", HintStatus::Default, 'j', &agent).0.is_none());
}

#[test]
fn test_slash_menu_helpers() {
    let agent = agent_commands();
    assert!(is_slash_command_name_input("", 0));
    assert!(is_slash_command_name_input("/", 1));
    assert!(is_slash_command_name_input("/pl", 3));
    assert!(!is_slash_command_name_input("/plan hello", 11));
    assert!(!is_slash_command_name_input("hello", 5));

    assert!(matches!(
        prompt_slash_command_tip_menu("/exit", &agent),
        TipMenu::Unique(name) if name == "/exit"
    ));
    assert!(matches!(prompt_slash_command_tip_menu("/zzznomatch", &agent), TipMenu::NoMatch));

    assert_eq!(cycle_menu_index(3, 0, true), 1);
    assert_eq!(cycle_menu_index(3, 1, true), 2);
    assert_eq!(cycle_menu_index(3, 2, true), 0);
    assert_eq!(cycle_menu_index(3, 0, false), 2);
    assert_eq!(cycle_menu_index(3, 2, false), 1);
    assert_eq!(cycle_menu_index(1, 0, true), 0);
    assert_eq!(cycle_menu_index(0, 0, true), 0);
}

#[test]
fn test_complete_model_names() {
    let d = data();
    let (pos, candidates) = done(complete("/model ", "/model ".len(), &d));
    assert_eq!(pos, "/model ".len());
    assert!(candidates.is_empty());

    let (pos, candidates) = done(complete("/model gpt", "/model gpt".len(), &d));
    assert_eq!(pos, "/model gpt".len());
    assert!(candidates.is_empty());
}

#[test]
fn test_complete_resume_sessions() {
    let entries = resume_entries();

    let (pos, candidates) = complete_resume_sessions("/resume ", &entries);
    assert_eq!(pos, "/resume ".len());
    assert_eq!(candidates.len(), 2, "should skip current and empty");
    assert!(candidates.iter().any(|c| c.display.contains("older-work")));
    assert!(candidates.iter().any(|c| c.display.contains("react-migration")));
    assert!(!candidates.iter().any(|c| c.display.contains("current-work")));
    assert!(!candidates.iter().any(|c| c.display.contains("empty-skipped")));

    let (pos, candidates) = complete_resume_sessions("/resume re", &entries);
    assert_eq!(pos, "/resume ".len());
    assert_eq!(candidates.len(), 1);
    assert!(candidates[0].display.contains("react-migration"));
    assert_eq!(candidates[0].replacement, "react-migration ");

    let (pos, candidates) = complete_resume_sessions("/resume 20260326_1", &entries);
    assert_eq!(pos, "/resume ".len());
    assert_eq!(candidates.len(), 1);
    assert!(candidates[0].display.contains("older-work"));
    assert_eq!(candidates[0].replacement, "20260326_1 ");

    let (pos, candidates) = complete_resume_sessions("/resumex", &entries);
    assert!(candidates.is_empty() || pos == "/resumex".len());
}

#[test]
fn test_complete_prompt_names() {
    let names = prompt_names();

    let (pos, candidates) = complete_prompt_names("/prompt ", &names);
    assert_eq!(pos, 8);
    assert_eq!(candidates.len(), 3);

    let (pos, candidates) = complete_prompt_names("/prompt test", &names);
    assert_eq!(pos, 8);
    assert_eq!(candidates.len(), 2);

    let (pos, candidates) = complete_prompt_names("/prompt test_prompt1", &names);
    assert_eq!(pos, 8);
    assert_eq!(candidates.len(), 1);
    assert_eq!(candidates[0].display, "test_prompt1");

    let (pos, candidates) = complete_prompt_names("/prompt nonexistent", &names);
    assert_eq!(pos, 8);
    assert_eq!(candidates.len(), 0);
}

#[test]
fn test_complete_prompt_flags() {
    let (_pos, candidates) = complete_prompt_flags("/prompt test_prompt1 --");
    assert_eq!(candidates.len(), 1);
    assert_eq!(candidates[0].display, "--info");

    let (_pos, candidates) = complete_prompt_flags("/prompt test_prompt1 --info");
    assert_eq!(candidates.len(), 1);
    assert_eq!(candidates[0].display, "--info");

    let (_pos, candidates) = complete_prompt_flags("/prompt test_prompt1 --nonexistent");
    assert_eq!(candidates.len(), 0);

    let (_pos, candidates) = complete_prompt_flags("/prompt test_prompt1");
    assert_eq!(candidates.len(), 0);
}

#[test]
fn test_complete_argument_keys() {
    let args = prompt_arguments();

    let (_pos, candidates) = complete_argument_keys("/prompt test_prompt1", &args);
    assert_eq!(candidates.len(), 1);
    assert_eq!(candidates[0].display, "required_arg=");

    let (_pos, candidates) = complete_argument_keys("/prompt test_prompt1 req", &args);
    assert_eq!(candidates.len(), 1);
    assert_eq!(candidates[0].display, "required_arg=");

    let (_pos, candidates) = complete_argument_keys("/prompt test_prompt1 required_arg=value", &args);
    assert_eq!(candidates.len(), 1);
    assert_eq!(candidates[0].display, "optional_arg=");

    let (_pos, candidates) =
        complete_argument_keys("/prompt test_prompt1 required_arg=value optional_arg=value", &args);
    assert_eq!(candidates.len(), 0);

    let (_pos, candidates) = complete_argument_keys("/prompt test_prompt2", &args);
    assert_eq!(candidates.len(), 0);

    let (_pos, candidates) = complete_argument_keys("/prompt nonexistent", &args);
    assert_eq!(candidates.len(), 0);
}

#[test]
fn menu_cycle_forward_then_back_returns_to_start() {
    for n in 1..6usize {
        for i in 0..n {
            assert_eq!(cycle_menu_index(n, cycle_menu_index(n, i, true), false), i);
            assert_eq!(cycle_menu_index(n, cycle_menu_index(n, i, false), true), i);
        }
    }
}

#[test]
fn menu_step_keys() {
    assert_eq!(menu_step(3, 2, MenuKey::Tab), MenuStep::Move(0));
    assert_eq!(menu_step(3, 0, MenuKey::BackTab), MenuStep::Move(2));
    assert_eq!(menu_step(3, 1, MenuKey::Char('j')), MenuStep::Move(2));
    assert_eq!(menu_step(3, 1, MenuKey::Char('h')), MenuStep::Move(0));
    assert_eq!(menu_step(3, 1, MenuKey::Enter), MenuStep::Choose(1));
    assert_eq!(menu_step(3, 1, MenuKey::Escape), MenuStep::Cancel);
    assert_eq!(menu_step(3, 1, MenuKey::Char('x')), MenuStep::Stay);
}

#[test]
fn slash_menu_prefix_of_lines() {
    assert_eq!(slash_menu_prefix("", 0), Some("/".to_string()));
    assert_eq!(slash_menu_prefix("/pl  ", 5), Some("/pl".to_string()));
    assert_eq!(slash_menu_prefix("/plan hello", 11), None);
    assert_eq!(slash_menu_prefix("/pl", 1), None);
}

#[test]
fn tip_row_split_keeps_slash_names() {
    assert_eq!(
        split_tip_row("/plan  enter plan mode"),
        Some(("/plan".to_string(), "enter plan mode".to_string()))
    );
    assert_eq!(split_tip_row("plan  enter"), None);
    assert_eq!(split_tip_row("/plan enter"), None);
}

#[test]
fn slash_entries_are_sorted_in_splash_order_without_duplicates() {
    let mut agent = agent_commands();
    agent.push(("exit".to_string(), "duplicate of a CLI command".to_string()));
    let entries = slash_command_entries(&agent);
    let names: Vec<&str> = entries.iter().map(|(n, _)| n.as_str()).collect();
    assert_eq!(&names[..SPLASH_SLASH_COMMANDS.len()], SPLASH_SLASH_COMMANDS);
    assert_eq!(names.iter().filter(|n| **n == "/exit").count(), 1);
    let exit = entries.iter().find(|(n, _)| n == "/exit").unwrap();
    assert_eq!(exit.1, "quit session");
    let rest = &names[SPLASH_SLASH_COMMANDS.len()..];
    let mut sorted = rest.to_vec();
    sorted.sort();
    assert_eq!(rest, &sorted[..]);
}

#[test]
fn hint_clears_interrupted_status_on_typing() {
    let agent = agent_commands();
    assert_eq!(hint("x", HintStatus::Interrupted, 'j', &agent), (None, true));
    let (text, reset) = hint("", HintStatus::Interrupted, 'j', &agent);
    assert!(!reset);
    assert_eq!(text.unwrap(), "Interrupted, what should goose work on instead?");
    let (text, _) = hint("", HintStatus::Default, 'j', &agent);
    assert!(text.unwrap().ends_with("Ctrl+J newline"));
}

#[test]
fn complete_non_slash_line_asks_for_file_path() {
    let d = data();
    match complete("open ./src/ma", "open ./src/ma".len(), &d) {
        Completion::FilePath(pos, word) => {
            assert_eq!(pos, 5);
            assert_eq!(word, "./src/ma");
        }
        other => panic!("expected a file path completion, got {other:?}"),
    }
    let (pos, cs) = done(complete("run --fl", 8, &d));
    assert_eq!(pos, 8);
    assert!(cs.is_empty());
    let (pos, cs) = done(complete("/plan", 2, &d));
    assert_eq!(pos, 2);
    assert!(cs.is_empty());
    assert!(matches!(complete("/skills ", 8, &d), Completion::Skills));
}
