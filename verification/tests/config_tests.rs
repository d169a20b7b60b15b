use std::path::Path;

use notebooklm_core::config::{
    app_dirs, apply_browser_options, config, comma_list, env_bool, env_profile_strategy, env_u32, env_u64, env_vec, parse_u32, parse_u64,
    path_join, pick_chrome_executable, AppDirs, BrowserOptions, Config, EnvVars, ProfileStrategy, StealthOptions,
    ViewportOptions,
};

fn dirs() -> AppDirs {
    AppDirs { data_dir: "/home/u/.local/share/notebooklm-mcp".into(), config_dir: "/home/u/.config/notebooklm-mcp".into() }
}

#[test]
fn env_bool_parses_correctly() {
    let env = EnvVars::empty();
    assert!(env_bool(&env, "__NONEXISTENT__", true));
    assert!(!env_bool(&env, "__NONEXISTENT__", false));
}

#[test]
fn env_vec_splits_comma_separated() {
    let env = EnvVars::empty().with("__TEST_VEC__", "a, b, c");
    let v = env_vec(&env, "__TEST_VEC__", vec![]);
    assert_eq!(v, ["a", "b", "c"]);
}

#[test]
fn config_paths_are_non_empty() {
    let cfg = config(&EnvVars::empty(), None).expect("a home directory for the platform directories");
    assert!(!cfg.data_dir.is_empty());
    assert!(!cfg.config_dir.is_empty());
    assert_eq!(Path::new(&cfg.browser_state_dir), Path::new(&cfg.data_dir).join("browser_state"));
    assert_eq!(Path::new(&cfg.chrome_profile_dir), Path::new(&cfg.data_dir).join("chrome_profile"));
}

#[test]
fn config_from_platform_dirs_has_joined_paths() {
    let cfg = config(&EnvVars::empty(), None).expect("a home directory for the platform directories");
    assert_eq!(cfg.browser_state_dir, path_join(&cfg.data_dir, "browser_state"));
    assert_eq!(cfg.chrome_profile_dir, path_join(&cfg.data_dir, "chrome_profile"));
    assert_eq!(cfg.chrome_instances_dir, path_join(&cfg.data_dir, "chrome_profile_instances"));
    let dirs = app_dirs().expect("a home directory for the platform directories");
    assert_eq!(cfg.data_dir, dirs.data_dir);
    assert_eq!(cfg.config_dir, dirs.config_dir);
}

#[test]
fn env_bool_reads_true_false_one_zero() {
    let env = EnvVars::empty().with("A", "true").with("B", "1").with("C", "yes").with("D", "0").with("E", "false");
    assert!(env_bool(&env, "A", false));
    assert!(env_bool(&env, "B", false));
    assert!(env_bool(&env, "C", true));
    assert!(!env_bool(&env, "C", false));
    assert!(!env_bool(&env, "D", true));
    assert!(!env_bool(&env, "E", true));
}

#[test]
fn numbers_fall_back_on_bad_values() {
    let env = EnvVars::empty().with("N", "42").with("BAD", "4x2").with("BIG", "99999999999");
    assert_eq!(env_u64(&env, "N", 7), 42);
    assert_eq!(env_u64(&env, "BAD", 7), 7);
    assert_eq!(env_u32(&env, "BIG", 5), 5);
    assert_eq!(env_u64(&env, "MISSING", 9), 9);
}

#[test]
fn parse_numbers_like_std() {
    assert_eq!(parse_u64("+12"), Some(12));
    assert_eq!(parse_u64(""), None);
    assert_eq!(parse_u64("-1"), None);
    assert_eq!(parse_u64("18446744073709551615"), Some(u64::MAX));
    assert_eq!(parse_u64("18446744073709551616"), None);
    assert_eq!(parse_u32("4294967295"), Some(u32::MAX));
    assert_eq!(parse_u32("4294967296"), None);
}

#[test]
fn comma_list_drops_empty_items() {
    assert_eq!(comma_list(" a ,, b ,"), vec!["a".to_string(), "b".to_string()]);
}

#[test]
fn env_vec_keeps_default_when_missing() {
    let env = EnvVars::empty();
    assert_eq!(env_vec(&env, "X", vec!["d".into()]), vec!["d".to_string()]);
}

#[test]
fn profile_strategy_values() {
    let env = EnvVars::empty().with("S", "single").with("I", "isolated").with("O", "other");
    assert_eq!(env_profile_strategy(&env, "S"), ProfileStrategy::Single);
    assert_eq!(env_profile_strategy(&env, "I"), ProfileStrategy::Isolated);
    assert_eq!(env_profile_strategy(&env, "O"), ProfileStrategy::Auto);
    assert_eq!(env_profile_strategy(&env, "NONE"), ProfileStrategy::Auto);
}

#[test]
fn defaults_of_the_configuration() {
    let cfg = Config::build_from_env(&EnvVars::empty(), &dirs(), None);
    assert!(cfg.headless);
    assert_eq!(cfg.browser_timeout, 30_000);
    assert_eq!(cfg.viewport_width, 1920);
    assert_eq!(cfg.viewport_height, 1080);
    assert_eq!(cfg.max_sessions, 10);
    assert_eq!(cfg.session_timeout, 900);
    assert_eq!(cfg.typing_wpm_min, 160);
    assert_eq!(cfg.typing_wpm_max, 240);
    assert_eq!(cfg.notebook_description, "General knowledge base");
    assert_eq!(cfg.notebook_content_types, vec!["documentation".to_string(), "examples".to_string()]);
    assert_eq!(cfg.instance_profile_ttl_hours, 72);
    assert_eq!(cfg.instance_profile_max_count, 20);
    assert_eq!(cfg.chrome_instances_dir, path_join(&cfg.data_dir, "chrome_profile_instances"));
}

#[test]
fn environment_overrides_defaults() {
    let env = EnvVars::empty().with("HEADLESS", "false").with("MAX_SESSIONS", "3").with("NOTEBOOK_TOPICS", "x,y");
    let cfg = Config::build_from_env(&env, &dirs(), Some("/usr/bin/chrome".into()));
    assert!(!cfg.headless);
    assert_eq!(cfg.max_sessions, 3);
    assert_eq!(cfg.notebook_topics, vec!["x".to_string(), "y".to_string()]);
    assert_eq!(cfg.chrome_executable, Some("/usr/bin/chrome".to_string()));
}

#[test]
fn chrome_executable_prefers_existing_explicit_path() {
    let cands = vec![("/a".to_string(), false), ("/b".to_string(), true), ("/c".to_string(), true)];
    assert_eq!(pick_chrome_executable(Some(("/x".into(), true)), &cands), Some("/x".to_string()));
    assert_eq!(pick_chrome_executable(Some(("/x".into(), false)), &cands), Some("/b".to_string()));
    assert_eq!(pick_chrome_executable(None, &vec![("/a".to_string(), false)]), None);
}

#[test]
fn path_join_adds_one_separator() {
    assert_eq!(path_join("/data", "x"), "/data/x");
    assert_eq!(path_join("/data/", "x"), "/data/x");
}

#[test]
fn no_options_keep_the_configuration() {
    let base = Config::build_from_env(&EnvVars::empty(), &dirs(), None);
    let cfg = apply_browser_options(&base, None, None);
    assert_eq!(cfg.headless, base.headless);
    assert_eq!(cfg.browser_timeout, base.browser_timeout);
    assert_eq!(cfg.data_dir, base.data_dir);
}

#[test]
fn options_override_the_configuration() {
    let base = Config::build_from_env(&EnvVars::empty(), &dirs(), None);
    let opts = BrowserOptions {
        show: Some(true),
        headless: None,
        timeout_ms: Some(5_000),
        stealth: Some(StealthOptions {
            enabled: Some(false),
            typing_wpm_min: Some(50),
            ..Default::default()
        }),
        viewport: Some(ViewportOptions { width: Some(800), height: None }),
    };
    let cfg = apply_browser_options(&base, Some(&opts), Some(false));
    assert!(!cfg.headless);
    assert_eq!(cfg.browser_timeout, 5_000);
    assert!(!cfg.stealth_enabled);
    assert_eq!(cfg.typing_wpm_min, 50);
    assert_eq!(cfg.typing_wpm_max, 240);
    assert_eq!(cfg.viewport_width, 800);
    assert_eq!(cfg.viewport_height, 1080);
}

#[test]
fn headless_option_wins_over_show() {
    let base = Config::build_from_env(&EnvVars::empty(), &dirs(), None);
    let opts = BrowserOptions { show: Some(true), headless: Some(true), ..Default::default() };
    assert!(apply_browser_options(&base, Some(&opts), None).headless);
    assert!(!apply_browser_options(&base, None, Some(true)).headless);
}

#[test]
fn app_dirs_hold_application_name() {
    let dirs = app_dirs().expect("a home directory for the platform directories");
    assert!(dirs.data_dir.contains("notebooklm-mcp"));
    assert!(dirs.config_dir.contains("notebooklm-mcp"));
    let cfg = config(&EnvVars::empty(), None).expect("a home directory for the platform directories");
    assert!(cfg.data_dir.contains("notebooklm-mcp"));
    assert!(cfg.config_dir.contains("notebooklm-mcp"));
}
