//! Authentication state: where the saved browser state lives, when it counts
//! as expired, whether the browser's Google auth cookies are usable, and the
//! decisions of the interactive login loop. Reading files, talking to the
//! browser and sleeping are the caller's part.

use vstd::prelude::*;
use crate::text::{owned, concat2, contains, has_sub, str_eq, decimal, decimal_string};
use crate::config::{Config, path_join, joined};

verus! {

/// Names of the Google cookies that carry the login.
pub open spec fn critical_cookie_names() -> Seq<Seq<char>> {
    seq![
        "SID"@, "HSID"@, "SSID"@, "__Secure-OSID"@, "__Secure-1PSID"@, "__Secure-3PSID"@,
        "OSID"@, "APISID"@, "SAPISID"@,
    ]
}

/// Whether `name` is one of the critical auth cookie names.
pub fn is_critical_cookie(name: &str) -> (r: bool)
    ensures
        r == critical_cookie_names().contains(name@),
{
    let names: [&'static str; 9] = ["SID", "HSID", "SSID", "__Secure-OSID", "__Secure-1PSID", "__Secure-3PSID", "OSID", "APISID", "SAPISID"];
    let ghost cs = critical_cookie_names();
    let mut i: usize = 0;
    while i < 9
        invariant
            cs == critical_cookie_names(),
            names@.map_values(|t: &str| t@) == cs,
            i <= 9,
            forall|j: int| 0 <= j < i ==> #[trigger] cs[j] != name@,
        decreases 9 - i,
    {
        assert(cs[i as int] == names@[i as int]@);
        if str_eq(names[i], name) {
            return true;
        }
        i = i + 1;
    }
    false
}

/// A browser cookie as the validation reads it: its name, and whether it has an
/// expiry time (not a session cookie) that lies in the past.
#[derive(Debug)]
pub struct CookieStatus {
    pub name: String,
    pub expired: bool,
}

/// At least one critical cookie is present and has not expired (a session
/// cookie, without an expiry time, counts as unexpired).
pub open spec fn cookies_valid(cookies: Seq<CookieStatus>) -> bool {
    exists|i: int| 0 <= i < cookies.len() && live_critical(#[trigger] cookies[i])
}

/// A critical cookie that has not expired.
pub open spec fn live_critical(c: CookieStatus) -> bool {
    critical_cookie_names().contains(c.name@) && !c.expired
}

/// What the file system says of `state.json`: whether it exists, and its age in
/// whole seconds when its modification time could be read.
#[derive(Debug, Clone, Copy)]
pub struct StateFileStatus {
    pub exists: bool,
    pub age_secs: Option<u64>,
}

/// The state file is absent, its age unknown, or older than 24 hours.
pub open spec fn state_expired(f: StateFileStatus) -> bool {
    !f.exists || match f.age_secs {
        Some(a) => a > 24 * 3600,
        None => true,
    }
}

/// Authentication information for the health report.
#[derive(Debug)]
pub struct AuthInfo {
    pub has_saved_state: bool,
    pub state_expired: bool,
    pub authenticated: bool,
    pub state_path: String,
}

/// What the interactive login loop does after one poll.
#[derive(Debug)]
pub enum LoginStep {
    /// The deadline has passed: fail with this message.
    TimedOut(String),
    /// The browser was redirected to NotebookLM: save the cookies and finish.
    Redirected,
    /// Validate the browser's cookies; when they are valid, save them and finish.
    CheckCookies,
    /// Sleep for the poll interval and poll again.
    Wait,
}

pub open spec fn timeout_message(timeout_ms: u64) -> Seq<char> {
    "Login timed out after "@ + decimal((timeout_ms / 1000) as nat) + "s — please call setup_auth again to retry"@
}

pub struct AuthManager {
    state_path: String,
    session_path: String,
}

impl AuthManager {
    pub closed spec fn state_path_view(&self) -> Seq<char> {
        self.state_path@
    }

    pub closed spec fn session_path_view(&self) -> Seq<char> {
        self.session_path@
    }

    /// The manager for the state files in the configured browser-state directory.
    pub fn new(cfg: &Config) -> (r: AuthManager)
        ensures
            r.state_path_view() == joined(cfg@.browser_state_dir, "state.json"@),
            r.session_path_view() == joined(cfg@.browser_state_dir, "session.json"@),
    {
        proof {
            reveal_strlit("state.json");
            reveal_strlit("session.json");
        }
        AuthManager {
            state_path: path_join(cfg.browser_state_dir.as_str(), "state.json"),
            session_path: path_join(cfg.browser_state_dir.as_str(), "session.json"),
        }
    }

    /// Path of `state.json`.
    pub fn state_path(&self) -> (r: &String)
        ensures
            r@ == self.state_path_view(),
    {
        &self.state_path
    }

    /// Path of `session.json`.
    pub fn session_path(&self) -> (r: &String)
        ensures
            r@ == self.session_path_view(),
    {
        &self.session_path
    }

    pub fn has_saved_state(&self, file: StateFileStatus) -> (r: bool)
        ensures
            r == file.exists,
    {
        file.exists
    }

    /// Returns `true` if the state file is older than 24 hours (or absent).
    pub fn is_state_expired(&self, file: StateFileStatus) -> (r: bool)
        ensures
            r == state_expired(file),
    {
        if !file.exists {
            return true;
        }
        match file.age_secs {
            Some(a) => a > 24 * 3600,
            None => true,
        }
    }

    /// The state path if the state exists and has not expired.
    pub fn get_valid_state_path(&self, file: StateFileStatus) -> (r: Option<&String>)
        ensures
            r.is_some() == (file.exists && !state_expired(file)),
            r.is_some() ==> r.unwrap()@ == self.state_path_view(),
    {
        if self.has_saved_state(file) && !self.is_state_expired(file) {
            Some(&self.state_path)
        } else {
            None
        }
    }

    /// Check that at least one critical Google auth cookie is present and not expired.
    pub fn validate_cookies_expiry(&self, cookies: &Vec<CookieStatus>) -> (r: bool)
        ensures
            r == cookies_valid(cookies@),
    {
        let mut i: usize = 0;
        while i < cookies.len()
            invariant
                i <= cookies.len(),
                forall|j: int| 0 <= j < i ==> !live_critical(#[trigger] cookies@[j]),
            decreases cookies.len() - i,
        {
            if !cookies[i].expired && is_critical_cookie(cookies[i].name.as_str()) {
                assert(live_critical(cookies@[i as int]));
                return true;
            }
            i = i + 1;
        }
        false
    }

    /// Authentication information for the health report.
    pub fn get_auth_info(&self, file: StateFileStatus) -> (r: AuthInfo)
        ensures
            r.has_saved_state == file.exists,
            r.state_expired == state_expired(file),
            r.authenticated == (file.exists && !state_expired(file)),
            r.state_path@ == self.state_path_view(),
    {
        AuthInfo {
            has_saved_state: self.has_saved_state(file),
            state_expired: self.is_state_expired(file),
            authenticated: self.has_saved_state(file) && !self.is_state_expired(file),
            state_path: self.state_path.clone(),
        }
    }

    /// One poll of the interactive login: given whether the deadline has passed
    /// and the page's current URL (empty when it could not be read), decide
    /// what to do.
    pub fn login_poll_step(&self, deadline_passed: bool, timeout_ms: u64, current_url: &str) -> (r: LoginStep)
        ensures
            deadline_passed ==> (r matches LoginStep::TimedOut(m) && m@ == timeout_message(timeout_ms)),
            !deadline_passed && has_sub(current_url@, "notebooklm.google.com"@) && !has_sub(current_url@, "accounts.google.com"@)
                ==> r matches LoginStep::Redirected,
            !deadline_passed && !(has_sub(current_url@, "notebooklm.google.com"@) && !has_sub(current_url@, "accounts.google.com"@))
                && current_url@.len() > 0 && !has_sub(current_url@, "accounts.google.com/v3/signin"@)
                ==> r matches LoginStep::CheckCookies,
            !deadline_passed && !(has_sub(current_url@, "notebooklm.google.com"@) && !has_sub(current_url@, "accounts.google.com"@))
                && !(current_url@.len() > 0 && !has_sub(current_url@, "accounts.google.com/v3/signin"@))
                ==> r matches LoginStep::Wait,
    {
        if deadline_passed {
            let a = concat2("Login timed out after ", decimal_string(timeout_ms / 1000).as_str());
            return LoginStep::TimedOut(concat2(a.as_str(), "s — please call setup_auth again to retry"));
        }
        if contains(current_url, "notebooklm.google.com") && !contains(current_url, "accounts.google.com") {
            return LoginStep::Redirected;
        }
        if !current_url.is_empty() && !contains(current_url, "accounts.google.com/v3/signin") {
            return LoginStep::CheckCookies;
        }
        LoginStep::Wait
    }

    /// The script that restores `sessionStorage` from the raw `session.json` text.
    pub fn session_storage_script(&self, raw: &str) -> (r: String)
        ensures
            r@ == session_script_prefix() + raw@ + session_script_suffix(),
    {
        let a = concat2(SESSION_SCRIPT_PREFIX, raw);
        concat2(a.as_str(), SESSION_SCRIPT_SUFFIX)
    }
}

pub const SESSION_SCRIPT_PREFIX: &'static str = "() => {\n                const data = ";
pub const SESSION_SCRIPT_SUFFIX: &'static str = ";\n                for (const [k, v] of Object.entries(data)) {\n                    try { sessionStorage.setItem(k, typeof v === 'string' ? v : JSON.stringify(v)); } catch(e) {}\n                }\n            }";

pub open spec fn session_script_prefix() -> Seq<char> {
    SESSION_SCRIPT_PREFIX@
}

pub open spec fn session_script_suffix() -> Seq<char> {
    SESSION_SCRIPT_SUFFIX@
}

/// One live critical cookie is enough: whatever other cookies are present,
/// expired ones included, the cookies are valid.
pub proof fn law_live_critical_cookie_suffices(cookies: Seq<CookieStatus>, i: int)
    requires
        0 <= i < cookies.len(),
        critical_cookie_names().contains(cookies[i].name@),
        !cookies[i].expired,
    ensures
        cookies_valid(cookies),
{
    assert(live_critical(cookies[i]));
}

/// Without a critical cookie the cookies are never valid.
pub proof fn law_no_critical_cookie_is_invalid(cookies: Seq<CookieStatus>)
    requires
        forall|i: int| 0 <= i < cookies.len() ==> !critical_cookie_names().contains(#[trigger] cookies[i].name@),
    ensures
        !cookies_valid(cookies),
{
}

/// A state file is valid only while it is younger than a day.
pub proof fn law_fresh_state_is_valid(f: StateFileStatus)
    ensures
        (f.exists && !state_expired(f)) <==> (f.exists && f.age_secs.is_some() && f.age_secs.unwrap() <= 86400),
{
}

} // verus!
