use notebooklm_core::config::{AppDirs, Config, EnvVars};
use notebooklm_core::session::browser_session::{answer_with_reminder, is_closed_error, should_recover, Attempt, CHAT_INPUT_SELECTORS};
use notebooklm_core::session::session_manager::{new_session_id, SessionManager, SessionPlan, SessionRecord};
use notebooklm_core::tools::handlers::follow_up_reminder;

fn cfg_with(env: EnvVars) -> Config {
    let dirs = AppDirs { data_dir: "/tmp/d".into(), config_dir: "/tmp/c".into() };
    Config::build_from_env(&env, &dirs, None)
}

const URL: &str = "https://notebooklm.google.com/notebook/abc";

fn create(m: &mut SessionManager, id: &str, cfg: &Config, now: u64) -> Vec<String> {
    match m.get_or_create_session(Some(id.to_string()), Some(URL.to_string()), cfg, now).unwrap() {
        SessionPlan::Create { session_id, notebook_url, close } => {
            assert_eq!(session_id, id);
            assert_eq!(notebook_url, URL);
            m.insert_session(session_id, notebook_url, now);
            close
        }
        SessionPlan::Reuse { .. } => panic!("expected a new session"),
    }
}

#[test]
fn missing_url_is_an_error() {
    let mut m = SessionManager::new();
    let cfg = cfg_with(EnvVars::empty());
    let err = m.get_or_create_session(None, None, &cfg, 0).unwrap_err();
    assert_eq!(
        err,
        "Notebook URL is required. Provide it via the 'notebook_url' parameter or set the NOTEBOOK_URL environment variable."
    );
}

#[test]
fn relative_url_is_an_error() {
    let mut m = SessionManager::new();
    let cfg = cfg_with(EnvVars::empty());
    let err = m.get_or_create_session(None, Some("notebook/abc".into()), &cfg, 0).unwrap_err();
    assert_eq!(err, "Notebook URL must be an absolute URL (starting with http)");
}

#[test]
fn same_id_and_url_is_reused() {
    let mut m = SessionManager::new();
    let cfg = cfg_with(EnvVars::empty());
    assert!(create(&mut m, "s1", &cfg, 1_000).is_empty());
    match m.get_or_create_session(Some("s1".into()), Some(URL.into()), &cfg, 5_000).unwrap() {
        SessionPlan::Reuse { session_id } => assert_eq!(session_id, "s1"),
        SessionPlan::Create { .. } => panic!("expected reuse"),
    }
    assert_eq!(m.get_session("s1").unwrap().last_activity_ms, 5_000);
}

#[test]
fn url_change_recreates_the_session() {
    let mut m = SessionManager::new();
    let cfg = cfg_with(EnvVars::empty());
    create(&mut m, "s1", &cfg, 1_000);
    match m.get_or_create_session(Some("s1".into()), Some("https://other".into()), &cfg, 2_000).unwrap() {
        SessionPlan::Create { close, .. } => assert_eq!(close, vec!["s1".to_string()]),
        SessionPlan::Reuse { .. } => panic!("expected a new session"),
    }
    assert!(m.get_session("s1").is_none());
}

#[test]
fn full_pool_evicts_the_oldest() {
    let mut m = SessionManager::new();
    let cfg = cfg_with(EnvVars::empty().with("MAX_SESSIONS", "2"));
    create(&mut m, "a", &cfg, 1_000);
    create(&mut m, "b", &cfg, 2_000);
    let closed = create(&mut m, "c", &cfg, 3_000);
    assert_eq!(closed, vec!["a".to_string()]);
    assert!(m.get_session("a").is_none());
    assert!(m.get_session("b").is_some());
    assert!(m.get_session("c").is_some());
}

#[test]
fn configured_url_is_the_fallback() {
    let mut m = SessionManager::new();
    let cfg = cfg_with(EnvVars::empty().with("NOTEBOOK_URL", URL));
    match m.get_or_create_session(None, None, &cfg, 0).unwrap() {
        SessionPlan::Create { session_id, notebook_url, close } => {
            assert_eq!(notebook_url, URL);
            assert_eq!(session_id.len(), 8);
            assert!(close.is_empty());
        }
        SessionPlan::Reuse { .. } => panic!("expected a new session"),
    }
}

#[test]
fn session_ids_are_eight_hex_digits() {
    let id = new_session_id();
    assert_eq!(id.len(), 8);
    assert!(id.chars().all(|c| c.is_ascii_hexdigit() && !c.is_ascii_uppercase()));
}

#[test]
fn close_and_cleanup() {
    let mut m = SessionManager::new();
    let cfg = cfg_with(EnvVars::empty());
    create(&mut m, "a", &cfg, 0);
    create(&mut m, "b", &cfg, 600_000);
    assert!(m.close_session("a"));
    assert!(!m.close_session("a"));
    create(&mut m, "c", &cfg, 0);
    let expired = m.cleanup_expired(900, 1_000_000);
    assert_eq!(expired, vec!["c".to_string()]);
    assert_eq!(m.close_all(), vec!["b".to_string()]);
}

#[test]
fn activity_counts_messages_and_stats_sum_them() {
    let mut m = SessionManager::new();
    let cfg = cfg_with(EnvVars::empty());
    create(&mut m, "a", &cfg, 0);
    create(&mut m, "b", &cfg, 10_000);
    assert!(m.record_activity("a", 20_000, true));
    assert!(m.record_activity("a", 21_000, true));
    assert!(m.record_activity("b", 22_000, false));
    assert!(!m.record_activity("zz", 22_000, true));
    let stats = m.get_stats(&cfg, 30_000);
    assert_eq!(stats.active_sessions, 2);
    assert_eq!(stats.total_messages, 2);
    assert_eq!(stats.oldest_session_seconds, 30);
    assert_eq!(stats.max_sessions, 10);
    assert!(m.reset_messages("a", 40_000));
    assert_eq!(m.get_session("a").unwrap().message_count, 0);
}

#[test]
fn session_info_ages() {
    let rec = SessionRecord {
        session_id: "x".into(),
        notebook_url: URL.into(),
        created_ms: 1_000,
        last_activity_ms: 4_000,
        message_count: 3,
    };
    let info = rec.get_info(10_000, 1_700_000_000_000);
    assert_eq!(info.age_seconds, 9);
    assert_eq!(info.inactive_seconds, 6);
    assert_eq!(info.message_count, 3);
    assert!(rec.is_expired(5, 10_000));
    assert!(!rec.is_expired(6, 10_000));
    let listed = {
        let mut m = SessionManager::new();
        m.insert_session("x".into(), URL.into(), 1_000);
        m.list_sessions(10_000, 1_700_000_000_000)
    };
    assert_eq!(listed.len(), 1);
    assert_eq!(listed[0].id, "x");
}

#[test]
fn page_closed_messages_are_recognised() {
    assert!(is_closed_error("Target closed"));
    assert!(is_closed_error("Browser has been closed unexpectedly"));
    assert!(is_closed_error("the Session Closed"));
    assert!(!is_closed_error("timeout waiting for selector"));
}

#[test]
fn only_the_first_attempt_recovers() {
    assert!(should_recover(Attempt::First, "context closed"));
    assert!(!should_recover(Attempt::AfterRecovery, "context closed"));
    assert!(!should_recover(Attempt::First, "network error"));
}

#[test]
fn answers_carry_the_reminder() {
    let a = answer_with_reminder("42");
    assert_eq!(a, format!("42{}", follow_up_reminder()));
    assert!(a.starts_with("42\n\n---\n"));
    assert_ne!(a, "42");
}

#[test]
fn chat_input_selectors_in_priority_order() {
    assert_eq!(CHAT_INPUT_SELECTORS[0], "textarea.query-box-input");
    assert_eq!(CHAT_INPUT_SELECTORS.len(), 2);
}
