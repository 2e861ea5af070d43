use goose_core::paths::{join, AppDirs, DirFacts, DirType, Paths, RootVar};

fn dirs(base: &str, state: bool) -> AppDirs {
    AppDirs {
        config: format!("{base}/config"),
        data: format!("{base}/data"),
        state: if state { Some(format!("{base}/state")) } else { None },
        home: "/home/u".to_string(),
    }
}

fn root(v: &str) -> RootVar {
    RootVar { value: v.to_string(), absolute: std::path::Path::new(v).is_absolute() }
}

fn facts(openduck: Option<&str>, goose: Option<&str>, populated: &[&str]) -> DirFacts {
    DirFacts {
        openduck_path_root: openduck.map(root),
        goose_path_root: goose.map(root),
        separator: '/',
        current: dirs("/xdg/openduck", true),
        legacy: dirs("/xdg/goose", true),
        populated: populated.iter().map(|s| s.to_string()).collect(),
    }
}

#[test]
fn path_root_requires_an_absolute_path() {
    assert_eq!(Paths::path_root(&facts(None, None, &[])), None);
    assert_eq!(Paths::path_root(&facts(Some(""), None, &[])), None);
    assert_eq!(Paths::path_root(&facts(Some("relative/root"), None, &[])), None);
    assert_eq!(
        Paths::path_root(&facts(Some("/work/nonexistent-goose-root"), None, &[])),
        Some("/work/nonexistent-goose-root".to_string())
    );
}

#[test]
fn path_root_openduck_wins_over_goose() {
    let f = facts(Some("/work/nonexistent-openduck-root"), Some("/work/nonexistent-goose-root"), &[]);
    assert_eq!(Paths::path_root(&f), Some("/work/nonexistent-openduck-root".to_string()));
}

#[test]
fn path_root_falls_back_to_goose() {
    let f = facts(None, Some("/work/nonexistent-goose-root"), &[]);
    assert_eq!(Paths::path_root(&f), Some("/work/nonexistent-goose-root".to_string()));
}

#[test]
fn path_root_rejects_relative_openduck_and_goose() {
    let f = facts(Some("relative/openduck"), Some("relative/goose"), &[]);
    assert_eq!(Paths::path_root(&f), None);
}

#[test]
fn path_root_falls_back_to_absolute_goose_when_openduck_is_relative() {
    let f = facts(Some("relative/openduck"), Some("/work/nonexistent-goose-root"), &[]);
    assert_eq!(Paths::path_root(&f), Some("/work/nonexistent-goose-root".to_string()));
}

#[test]
fn find_project_dir_prefers_openduck() {
    let existing = vec!["/proj/.openduck".to_string(), "/proj/.goose".to_string()];
    assert_eq!(Paths::find_project_dir("/proj", &existing, '/'), "/proj/.openduck");
}

#[test]
fn find_project_dir_falls_back_to_goose() {
    let existing = vec!["/proj/.goose".to_string()];
    assert_eq!(Paths::find_project_dir("/proj", &existing, '/'), "/proj/.goose");
    assert_eq!(Paths::find_project_dir("/proj/", &vec![], '/'), "/proj/.openduck");
}

#[test]
fn dirs_under_path_root() {
    let f = facts(Some("/root"), None, &[]);
    assert_eq!(Paths::config_dir(&f), "/root/config");
    assert_eq!(Paths::data_dir(&f), "/root/data");
    assert_eq!(Paths::state_dir(&f), "/root/state");
    assert_eq!(Paths::plugins_dir(&f), "/root/.agents/plugins");
    assert_eq!(Paths::agents_dir(&f), "/root/.agents/agents");
    assert_eq!(Paths::agents_home_dir(&f), "/root/.agents");
    assert_eq!(Paths::in_config_dir(&f, "config.yaml"), "/root/config/config.yaml");
    assert_eq!(Paths::in_state_dir(&f, "logs"), "/root/state/logs");
    assert_eq!(Paths::in_data_dir(&f, "sessions"), "/root/data/sessions");
    assert_eq!(Paths::in_agents_home_dir(&f, "skills"), "/root/.agents/skills");
    assert_eq!(Paths::migration_pair(&f, DirType::Config), None);
}

#[test]
fn config_dir_prefers_populated_new_then_legacy() {
    let f = facts(None, None, &[]);
    assert_eq!(Paths::config_dir(&f), "/xdg/openduck/config");
    let f = facts(None, None, &["/xdg/goose/config"]);
    assert_eq!(Paths::config_dir(&f), "/xdg/goose/config");
    let f = facts(None, None, &["/xdg/goose/config", "/xdg/openduck/config"]);
    assert_eq!(Paths::config_dir(&f), "/xdg/openduck/config");
    // Agent directories are never migrated.
    let f = facts(None, None, &["/xdg/goose/config"]);
    assert_eq!(Paths::agents_home_dir(&f), "/home/u/.agents");
    assert_eq!(
        Paths::migration_pair(&f, DirType::State),
        Some(("/xdg/openduck/state".to_string(), "/xdg/goose/state".to_string()))
    );
    assert_eq!(Paths::migration_pair(&f, DirType::Plugins), None);
    assert_eq!(Paths::legacy_config_dir(&f), "/xdg/goose/config");
}

#[test]
fn state_falls_back_to_data_without_state_dir() {
    let mut f = facts(None, None, &[]);
    f.current = dirs("/mac/openduck", false);
    assert_eq!(Paths::state_dir(&f), "/mac/openduck/data");
}

#[test]
fn join_follows_path_rules() {
    assert_eq!(join("/a", "b", '/'), "/a/b");
    assert_eq!(join("/a/", "b", '/'), "/a/b");
    assert_eq!(join("", "b", '/'), "b");
    assert_eq!(join("/a", "/abs", '/'), "/abs");
    assert_eq!(Paths::project_dir_names(), vec![".openduck", ".goose"]);
    // With the Windows separator: either separator ends a base.
    assert_eq!(join(r"C:\root", "config", '\\'), r"C:\root\config");
    assert_eq!(join(r"C:\root\", "config", '\\'), r"C:\root\config");
    assert_eq!(join("C:/root/", "config", '\\'), "C:/root/config");
}

#[test]
fn windows_roots_are_taken_as_the_platform_says() {
    let mut f = facts(None, None, &[]);
    f.separator = '\\';
    f.openduck_path_root = Some(RootVar { value: r"C:\root".to_string(), absolute: true });
    assert_eq!(Paths::path_root(&f), Some(r"C:\root".to_string()));
    assert_eq!(Paths::config_dir(&f), r"C:\root\config");
    assert_eq!(Paths::plugins_dir(&f), r"C:\root\.agents\plugins");
    assert_eq!(Paths::in_data_dir(&f, "sessions"), r"C:\root\data\sessions");
}

#[test]
fn path_root_notices_warn_of_relative_and_legacy_roots() {
    let f = facts(Some("relative/root"), Some("/legacy"), &[]);
    assert_eq!(
        Paths::path_root_notices(&f),
        (Some("OPENDUCK_PATH_ROOT is set but is not an absolute path; ignoring".to_string()), true)
    );
    assert_eq!(Paths::path_root(&f), Some("/legacy".to_string()));
    let f = facts(Some("/root"), Some("/legacy"), &[]);
    assert_eq!(Paths::path_root_notices(&f), (None, false));
    let f = facts(None, Some("relative"), &[]);
    assert_eq!(Paths::path_root_notices(&f), (None, false));
    let f = facts(None, None, &[]);
    assert_eq!(Paths::path_root_notices(&f), (None, false));
}
