use notebooklm_core::auth::auth_manager::{is_critical_cookie, AuthManager, CookieStatus, LoginStep, StateFileStatus};
use notebooklm_core::config::{path_join, AppDirs, Config, EnvVars};

fn manager() -> (AuthManager, Config) {
    let dirs = AppDirs { data_dir: "/tmp/d".into(), config_dir: "/tmp/c".into() };
    let cfg = Config::build_from_env(&EnvVars::empty(), &dirs, None);
    (AuthManager::new(&cfg), cfg)
}

fn cookie(name: &str, expired: bool) -> CookieStatus {
    CookieStatus { name: name.into(), expired }
}

#[test]
fn state_paths_live_in_browser_state_dir() {
    let (m, cfg) = manager();
    assert_eq!(m.state_path(), &path_join(&cfg.browser_state_dir, "state.json"));
    assert_eq!(m.session_path(), &path_join(&cfg.browser_state_dir, "session.json"));
}

#[test]
fn state_expiry_after_a_day() {
    let (m, _) = manager();
    let fresh = StateFileStatus { exists: true, age_secs: Some(86_400) };
    let stale = StateFileStatus { exists: true, age_secs: Some(86_401) };
    let unknown = StateFileStatus { exists: true, age_secs: None };
    let missing = StateFileStatus { exists: false, age_secs: Some(1) };
    assert!(!m.is_state_expired(fresh));
    assert!(m.is_state_expired(stale));
    assert!(m.is_state_expired(unknown));
    assert!(m.is_state_expired(missing));
    assert!(m.get_valid_state_path(fresh).is_some());
    assert!(m.get_valid_state_path(stale).is_none());
    assert!(!m.has_saved_state(missing));
    let info = m.get_auth_info(fresh);
    assert!(info.authenticated && info.has_saved_state && !info.state_expired);
}

#[test]
fn cookie_validation() {
    let (m, _) = manager();
    assert!(!m.validate_cookies_expiry(&vec![]));
    assert!(!m.validate_cookies_expiry(&vec![cookie("NID", false)]));
    assert!(m.validate_cookies_expiry(&vec![cookie("NID", true), cookie("SID", false)]));
    assert!(m.validate_cookies_expiry(&vec![cookie("SID", false), cookie("__Secure-1PSID", true)]));
    assert!(!m.validate_cookies_expiry(&vec![cookie("SID", true), cookie("__Secure-1PSID", true)]));
    assert!(is_critical_cookie("SAPISID"));
    assert!(!is_critical_cookie("sid"));
}

#[test]
fn login_poll_decisions() {
    let (m, _) = manager();
    match m.login_poll_step(true, 120_000, "") {
        LoginStep::TimedOut(msg) => assert_eq!(msg, "Login timed out after 120s — please call setup_auth again to retry"),
        _ => panic!("expected a timeout"),
    }
    assert!(matches!(m.login_poll_step(false, 1, "https://notebooklm.google.com/"), LoginStep::Redirected));
    assert!(matches!(m.login_poll_step(false, 1, "https://myaccount.google.com/"), LoginStep::CheckCookies));
    assert!(matches!(
        m.login_poll_step(false, 1, "https://accounts.google.com/v3/signin/identifier"),
        LoginStep::Wait
    ));
    assert!(matches!(m.login_poll_step(false, 1, ""), LoginStep::Wait));
}

#[test]
fn session_storage_script_embeds_the_data() {
    let (m, _) = manager();
    let s = m.session_storage_script("{\"k\":1}");
    assert!(s.starts_with("() => {"));
    assert!(s.contains("const data = {\"k\":1};"));
    assert!(s.contains("sessionStorage.setItem"));
}
