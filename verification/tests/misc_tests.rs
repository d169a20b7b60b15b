use notebooklm_core::cli::{command_reply, config_patch, parse_config_command, ConfigCommand};
use notebooklm_core::config::{AppDirs, Config, EnvVars};
use notebooklm_core::errors::{is_closed_error, AuthenticationError, RateLimitError, SessionClosedError};
use notebooklm_core::server::{
    method_not_found, route_method, tool_named, unknown_tool, Method, ToolName, INTERNAL_ERROR_CODE, PARSE_ERROR_CODE,
    TOOL_LIST,
};
use notebooklm_core::session::shared_context_manager::{
    browser_display_name, decide_browser, fallback_after_failure, first_profile, instance_dir_name, launch_args,
    prune_isolated_profiles, should_copy_profile_entry, target_headless, window_size, BrowserNeed, ProfileChoice,
    ProfileDirAge,
};
use notebooklm_core::config::ProfileStrategy;
use notebooklm_core::tools::source_ops::{delete_button_error, escape_single_quotes, menu_button_error, menu_step, MenuStep};
use notebooklm_core::utils::settings_manager::ProfileName;
use notebooklm_core::types::ToolResult;
use notebooklm_core::utils::stealth::{char_delay_class, effective_wpm, random_char, random_int, DelayClass, TYPO_KEYS};

fn cfg_with(env: EnvVars) -> Config {
    let dirs = AppDirs { data_dir: "/tmp/d".into(), config_dir: "/tmp/c".into() };
    Config::build_from_env(&env, &dirs, None)
}

fn args(v: &[&str]) -> Vec<String> {
    v.iter().map(|s| s.to_string()).collect()
}

#[test]
fn error_messages() {
    assert_eq!(RateLimitError::new().to_message(), "NotebookLM rate limit reached (50 queries/day for free accounts)");
    assert_eq!(RateLimitError::with_message("slow down".into()).to_message(), "slow down");
    assert_eq!(RateLimitError::default().message, RateLimitError::new().message);
    let a = AuthenticationError::new("bad".into());
    assert!(!a.suggest_cleanup);
    assert!(AuthenticationError::with_cleanup_hint("bad".into()).suggest_cleanup);
    assert_eq!(SessionClosedError::new("gone".into()).to_message(), "Browser session closed: gone");
}

#[test]
fn closed_error_detection() {
    assert!(is_closed_error("Target CLOSED"));
    assert!(is_closed_error("connection refused (os error 111)"));
    assert!(is_closed_error("Execution context destroyed"));
    assert!(!is_closed_error("context closed"));
    assert!(!is_closed_error(""));
}

#[test]
fn methods_route_to_handlers() {
    assert_eq!(route_method("initialize"), Method::Initialize);
    assert_eq!(route_method("tools/call"), Method::CallTool);
    assert_eq!(route_method("resources/templates/list"), Method::ListResourceTemplates);
    assert_eq!(route_method("completion/complete"), Method::Complete);
    assert_eq!(route_method("ping"), Method::Ping);
    assert_eq!(route_method("Ping"), Method::Unknown);
    assert_eq!(method_not_found("foo/bar"), "Method not found: foo/bar");
    assert_eq!(PARSE_ERROR_CODE, -32700);
    assert_eq!(INTERNAL_ERROR_CODE, -32603);
}

#[test]
fn listed_tools_are_callable_except_remove_source() {
    for name in TOOL_LIST.iter() {
        if *name == "remove_source" {
            assert!(tool_named(name).is_none());
        } else {
            assert!(tool_named(name).is_some(), "{name} is listed but not callable");
        }
    }
    assert_eq!(tool_named("ask_question"), Some(ToolName::AskQuestion));
    assert_eq!(tool_named("cleanup_data"), Some(ToolName::CleanupData));
    assert_eq!(unknown_tool("remove_source"), "Unknown tool: remove_source");
}

#[test]
fn config_command_parsing() {
    assert!(matches!(parse_config_command(&args(&["get"])), ConfigCommand::Get));
    assert!(matches!(parse_config_command(&args(&["reset"])), ConfigCommand::Reset));
    assert!(matches!(parse_config_command(&args(&[])), ConfigCommand::Usage));
    assert!(matches!(parse_config_command(&args(&["frobnicate"])), ConfigCommand::Usage));
    assert!(matches!(parse_config_command(&args(&["set", "profile"])), ConfigCommand::SetUsage));
    assert!(matches!(parse_config_command(&args(&["set", "colour", "red"])), ConfigCommand::SetUsage));
    assert!(matches!(
        parse_config_command(&args(&["set", "profile", "standard"])),
        ConfigCommand::SetProfile(ProfileName::Standard)
    ));
    match parse_config_command(&args(&["set", "profile", "huge"])) {
        ConfigCommand::UnknownProfile(n) => assert_eq!(n, "huge"),
        other => panic!("unexpected {other:?}"),
    }
    match parse_config_command(&args(&["set", "disabled-tools", " re_auth, get_health ,"])) {
        ConfigCommand::SetDisabledTools(v) => assert_eq!(v, vec!["re_auth", "get_health", ""]),
        other => panic!("unexpected {other:?}"),
    }
}

#[test]
fn config_command_replies_and_patches() {
    let a = args(&["set", "profile", "minimal"]);
    let cmd = parse_config_command(&a);
    assert_eq!(command_reply(&cmd, &a).unwrap(), Some("Profile set to 'minimal'".to_string()));
    let patch = config_patch(cmd).unwrap();
    assert_eq!(patch.profile, Some(ProfileName::Minimal));
    assert!(patch.disabled_tools.is_none());
    let bad = args(&["set", "profile", "x"]);
    assert_eq!(
        command_reply(&parse_config_command(&bad), &bad).unwrap_err(),
        vec!["Unknown profile 'x'. Valid: minimal, standard, full".to_string()]
    );
    assert!(config_patch(parse_config_command(&bad)).is_none());
    let r = args(&["reset"]);
    assert_eq!(command_reply(&parse_config_command(&r), &r).unwrap(), Some("Settings reset to defaults".to_string()));
    let p = config_patch(parse_config_command(&r)).unwrap();
    assert_eq!(p.profile, Some(ProfileName::Full));
    assert_eq!(p.disabled_tools, Some(Vec::<String>::new()));
    let u = args(&["set"]);
    assert_eq!(command_reply(&parse_config_command(&u), &u).unwrap_err().len(), 2);
    let g = args(&["get"]);
    assert_eq!(command_reply(&parse_config_command(&g), &g).unwrap(), None);
}

#[test]
fn shared_browser_decisions() {
    let cfg = cfg_with(EnvVars::empty());
    assert!(target_headless(None, &cfg));
    assert!(!target_headless(Some(true), &cfg));
    assert_eq!(decide_browser(None, false, true), BrowserNeed::Launch);
    assert_eq!(decide_browser(Some(false), true, true), BrowserNeed::RelaunchModeChange);
    assert_eq!(decide_browser(Some(true), false, true), BrowserNeed::RelaunchStale);
    assert_eq!(decide_browser(Some(true), true, true), BrowserNeed::UseRunning);
    assert_eq!(first_profile(ProfileStrategy::Isolated), ProfileChoice::Isolated);
    assert_eq!(first_profile(ProfileStrategy::Auto), ProfileChoice::Base);
    assert!(fallback_after_failure(ProfileStrategy::Auto, "ProcessSingleton lock held"));
    assert!(!fallback_after_failure(ProfileStrategy::Single, "ProcessSingleton lock held"));
    assert!(!fallback_after_failure(ProfileStrategy::Auto, "crashed"));
    assert_eq!(
        launch_args(),
        vec![
            "--disable-blink-features=AutomationControlled",
            "--disable-dev-shm-usage",
            "--no-first-run",
            "--no-default-browser-check",
            "--disable-infobars",
            "--lang=en-US",
        ]
    );
    assert_eq!(window_size(false), Some((1280, 900)));
    assert_eq!(window_size(true), None);
}

#[test]
fn browser_names_and_profile_files() {
    assert_eq!(browser_display_name(Some("/usr/bin/google-chrome")), "google-chrome");
    assert_eq!(browser_display_name(None), "Chrome/Edge");
    assert_eq!(instance_dir_name(4242, 1700000000123), "instance-4242-1700000000123");
    assert!(!should_copy_profile_entry("SingletonLock"));
    assert!(!should_copy_profile_entry("LOCK.lock"));
    assert!(!should_copy_profile_entry("x.tmp"));
    assert!(should_copy_profile_entry("Default"));
}

#[test]
fn pruning_keeps_current_and_respects_ttl_and_count() {
    let cfg = cfg_with(EnvVars::empty().with("NOTEBOOK_INSTANCE_TTL_HOURS", "1").with("NOTEBOOK_INSTANCE_MAX_COUNT", "2"));
    let dirs = vec![
        ProfileDirAge { age_secs: 10, is_current: false },
        ProfileDirAge { age_secs: 20, is_current: true },
        ProfileDirAge { age_secs: 30, is_current: false },
        ProfileDirAge { age_secs: 5_000, is_current: false },
        ProfileDirAge { age_secs: 40, is_current: false },
    ];
    assert_eq!(prune_isolated_profiles(&dirs, &cfg), vec![false, false, true, true, true]);
}

#[test]
fn source_removal_helpers() {
    assert_eq!(escape_single_quotes("Bob's notes"), "Bob\\'s notes");
    assert_eq!(escape_single_quotes("plain"), "plain");
    assert_eq!(menu_step(false, true), MenuStep::NotFound);
    assert_eq!(menu_step(true, true), MenuStep::Opened);
    assert_eq!(menu_step(true, false), MenuStep::RetryClick);
    assert_eq!(
        menu_button_error("doc"),
        "Source 'doc' found but its 3-dots menu button could not be clicked. NotebookLM's UI may have changed."
    );
    assert_eq!(
        delete_button_error("doc"),
        "Opened context menu for 'doc' but could not click the delete button. NotebookLM's UI may have changed."
    );
}

#[test]
fn stealth_integers() {
    for _ in 0..200 {
        let v = random_int(-3, 3);
        assert!((-3..=3).contains(&v));
        assert!(TYPO_KEYS.contains(&random_char()));
    }
    assert_eq!(random_int(7, 7), 7);
    let cfg = cfg_with(EnvVars::empty());
    assert_eq!(effective_wpm(Some(99), &cfg), 99);
    let w = effective_wpm(None, &cfg);
    assert!((160..=240).contains(&w));
    assert_eq!(char_delay_class('?'), DelayClass::SentenceEnd);
    assert_eq!(char_delay_class(' '), DelayClass::Space);
    assert_eq!(char_delay_class(','), DelayClass::Comma);
    assert_eq!(char_delay_class('x'), DelayClass::Other);
}

#[test]
fn tool_results() {
    let ok = ToolResult::ok(serde_json::Value::Bool(true));
    assert!(ok.success && ok.error.is_none());
    assert_eq!(ok.data, Some(serde_json::Value::Bool(true)));
    let err = ToolResult::err("boom".into());
    assert!(!err.success && err.data.is_none());
    assert_eq!(err.error, Some("boom".to_string()));
}
