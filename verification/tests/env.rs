use goose_core::config_env::{
    env_lookup, env_lookup_names, env_value, get_var, get_var_os, get_var_result, legacy_fallback, lookup_names,
    warn_legacy_once, EnvSnapshot, VarError,
};

fn env(vars: &[(&str, Option<&str>)]) -> EnvSnapshot {
    EnvSnapshot {
        vars: vars
            .iter()
            .filter_map(|(k, v)| v.map(|v| (k.to_string(), Some(v.to_string()))))
            .collect(),
    }
}

#[test]
fn get_var_openduck_wins_over_goose() {
    let e = env(&[
        ("OPENDUCK_PROVIDER", Some("openduck-provider")),
        ("GOOSE_PROVIDER", Some("goose-provider")),
    ]);
    assert_eq!(get_var(&e, "PROVIDER").as_deref(), Some("openduck-provider"));
    assert_eq!(get_var(&e, "GOOSE_PROVIDER").as_deref(), Some("openduck-provider"));
}

#[test]
fn get_var_falls_back_to_goose() {
    let e = env(&[("OPENDUCK_PROVIDER", None), ("GOOSE_PROVIDER", Some("goose-provider"))]);
    assert_eq!(get_var(&e, "PROVIDER").as_deref(), Some("goose-provider"));
}

#[test]
fn get_var_missing_both_returns_none() {
    let e = env(&[("OPENDUCK_PROVIDER", None), ("GOOSE_PROVIDER", None)]);
    assert_eq!(get_var(&e, "PROVIDER"), None);
    assert!(matches!(get_var_result(&e, "PROVIDER"), Err(VarError::NotPresent)));
}

#[test]
fn get_var_supports_nested_secret_key() {
    let e = env(&[
        ("OPENDUCK_SERVER__SECRET_KEY", Some("openduck-secret")),
        ("GOOSE_SERVER__SECRET_KEY", Some("goose-secret")),
    ]);
    assert_eq!(get_var(&e, "SERVER__SECRET_KEY").as_deref(), Some("openduck-secret"));
}

#[test]
fn env_lookup_unprefixed_reads_raw_key() {
    let e = env(&[
        ("OPENDUCK_OPENAI_API_KEY", None),
        ("GOOSE_OPENAI_API_KEY", None),
        ("OPENAI_API_KEY", Some("sk-raw")),
    ]);
    assert_eq!(env_lookup(&e, "openai_api_key").as_deref(), Some("sk-raw"));
}

#[test]
fn env_lookup_goose_prefixed_key_prefers_openduck() {
    let e = env(&[("OPENDUCK_MODE", Some("auto")), ("GOOSE_MODE", Some("approve"))]);
    assert_eq!(env_lookup(&e, "GOOSE_MODE").as_deref(), Some("auto"));
    assert_eq!(env_lookup(&e, "MODE").as_deref(), Some("auto"));
}

#[test]
fn non_unicode_values_are_told_apart() {
    let e = EnvSnapshot {
        vars: vec![
            ("OPENDUCK_PATH_ROOT".to_string(), None),
            ("GOOSE_PATH_ROOT".to_string(), Some("/legacy".to_string())),
        ],
    };
    assert_eq!(get_var_os(&e, "PATH_ROOT"), Some(None));
    assert_eq!(get_var(&e, "PATH_ROOT"), None);
    assert_eq!(get_var_result(&e, "PATH_ROOT"), Err(VarError::NotUnicode));
}

#[test]
fn prefixed_lookups_do_not_read_the_raw_key() {
    let e = env(&[("GOOSE_", Some("bare")), ("MODE", Some("raw"))]);
    // A bare prefix has no suffix: it is looked up as `OPENDUCK_GOOSE_`, then `GOOSE_GOOSE_`.
    assert_eq!(get_var(&e, "GOOSE_"), None);
    assert_eq!(env_lookup(&e, "goose_mode"), None);
    assert_eq!(env_lookup(&e, "mode").as_deref(), Some("raw"));
}

#[test]
fn first_entry_for_a_name_counts() {
    let e = env(&[("OPENDUCK_X", Some("first")), ("OPENDUCK_X", Some("second"))]);
    assert_eq!(env_value(&e, &"OPENDUCK_X".chars().collect::<Vec<_>>()), Some(Some("first".to_string())));
    assert_eq!(get_var(&e, "openduck_x").as_deref(), Some("first"));
}

#[test]
fn legacy_fallback_is_warned_of_once() {
    let e = env(&[("GOOSE_PROVIDER", Some("goose-provider"))]);
    assert_eq!(
        legacy_fallback(&e, "provider"),
        Some(("GOOSE_PROVIDER".to_string(), "OPENDUCK_PROVIDER".to_string()))
    );
    let both = env(&[("OPENDUCK_PROVIDER", Some("o")), ("GOOSE_PROVIDER", Some("g"))]);
    assert_eq!(legacy_fallback(&both, "PROVIDER"), None);
    assert_eq!(legacy_fallback(&env(&[]), "PROVIDER"), None);

    let mut warned = Vec::new();
    assert_eq!(
        warn_legacy_once(&mut warned, "GOOSE_PROVIDER", "OPENDUCK_PROVIDER"),
        Some("GOOSE_PROVIDER is deprecated; use OPENDUCK_PROVIDER instead".to_string())
    );
    assert_eq!(warn_legacy_once(&mut warned, "GOOSE_PROVIDER", "OPENDUCK_PROVIDER"), None);
    assert_eq!(
        warn_legacy_once(&mut warned, "GOOSE_PATH_ROOT", "OPENDUCK_PATH_ROOT"),
        Some("GOOSE_PATH_ROOT is deprecated; use OPENDUCK_PATH_ROOT instead".to_string())
    );
    assert_eq!(warned, vec!["GOOSE_PROVIDER", "GOOSE_PATH_ROOT"]);
}

#[test]
fn lookup_names_strip_prefix_and_case() {
    assert_eq!(
        lookup_names("goose_server__secret_key"),
        ("OPENDUCK_SERVER__SECRET_KEY".to_string(), "GOOSE_SERVER__SECRET_KEY".to_string())
    );
    assert_eq!(lookup_names("Mode"), ("OPENDUCK_MODE".to_string(), "GOOSE_MODE".to_string()));
}

#[test]
fn env_lookup_reads_three_names() {
    assert_eq!(
        env_lookup_names("goose_mode"),
        vec!["OPENDUCK_MODE", "GOOSE_MODE", "GOOSE_MODE"]
    );
    assert_eq!(env_lookup_names("Editor"), vec!["OPENDUCK_EDITOR", "GOOSE_EDITOR", "EDITOR"]);
}
