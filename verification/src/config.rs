//! Server configuration: defaults, parsing of environment values, directory
//! layout and per-call browser option overrides.
//!
//! Priority (highest last): hardcoded defaults, environment variables, tool
//! parameters applied through `apply_browser_options`.

use vstd::prelude::*;
use crate::text::{chars_of, concat2, owned, split_char, split_on, trim, trimmed, str_eq, has_prefix, has_suffix, ends_with, has_sub};
use crate::library::types::{strs, copy_strs, opt_str, copy_opt_str};

verus! {

/// Google NotebookLM auth URL (used by setup_auth tool)
pub const NOTEBOOKLM_AUTH_URL: &'static str = "https://accounts.google.com/v3/signin/identifier?continue=https%3A%2F%2Fnotebooklm.google.com%2F&flowName=GlifWebSignIn&flowEntry=ServiceLogin";

#[derive(Debug, Clone, Copy, PartialEq, Eq, Structural)]
pub enum ProfileStrategy {
    /// Try shared profile; fall back to isolated if locked (default)
    Auto,
    /// Always use a single shared profile
    Single,
    /// Always create an isolated per-process profile
    Isolated,
}

/// Model of the configuration.
#[verifier::ext_equal]
pub struct ConfigView {
    pub notebook_url: Seq<char>,
    pub headless: bool,
    pub chrome_executable: Option<Seq<char>>,
    pub browser_timeout: u64,
    pub viewport_width: u32,
    pub viewport_height: u32,
    pub max_sessions: u32,
    pub session_timeout: u64,
    pub auto_login_enabled: bool,
    pub login_email: Seq<char>,
    pub login_password: Seq<char>,
    pub auto_login_timeout_ms: u64,
    pub stealth_enabled: bool,
    pub stealth_random_delays: bool,
    pub stealth_human_typing: bool,
    pub stealth_mouse_movements: bool,
    pub typing_wpm_min: u32,
    pub typing_wpm_max: u32,
    pub min_delay_ms: u64,
    pub max_delay_ms: u64,
    pub config_dir: Seq<char>,
    pub data_dir: Seq<char>,
    pub browser_state_dir: Seq<char>,
    pub chrome_profile_dir: Seq<char>,
    pub chrome_instances_dir: Seq<char>,
    pub notebook_description: Seq<char>,
    pub notebook_topics: Seq<Seq<char>>,
    pub notebook_content_types: Seq<Seq<char>>,
    pub notebook_use_cases: Seq<Seq<char>>,
    pub profile_strategy: ProfileStrategy,
    pub clone_profile_on_isolated: bool,
    pub cleanup_instances_on_startup: bool,
    pub cleanup_instances_on_shutdown: bool,
    pub instance_profile_ttl_hours: u64,
    pub instance_profile_max_count: u32,
}

#[derive(Debug)]
pub struct Config {
    // NotebookLM — optional legacy default notebook
    pub notebook_url: String,
    // Browser
    pub headless: bool,
    pub chrome_executable: Option<String>,
    /// milliseconds
    pub browser_timeout: u64,
    pub viewport_width: u32,
    pub viewport_height: u32,
    // Session management
    pub max_sessions: u32,
    /// seconds
    pub session_timeout: u64,
    // Authentication
    pub auto_login_enabled: bool,
    pub login_email: String,
    pub login_password: String,
    pub auto_login_timeout_ms: u64,
    // Stealth settings
    pub stealth_enabled: bool,
    pub stealth_random_delays: bool,
    pub stealth_human_typing: bool,
    pub stealth_mouse_movements: bool,
    pub typing_wpm_min: u32,
    pub typing_wpm_max: u32,
    pub min_delay_ms: u64,
    pub max_delay_ms: u64,
    // Paths
    pub config_dir: String,
    pub data_dir: String,
    pub browser_state_dir: String,
    pub chrome_profile_dir: String,
    pub chrome_instances_dir: String,
    // Library metadata defaults
    pub notebook_description: String,
    pub notebook_topics: Vec<String>,
    pub notebook_content_types: Vec<String>,
    pub notebook_use_cases: Vec<String>,
    // Multi-instance profile strategy
    pub profile_strategy: ProfileStrategy,
    pub clone_profile_on_isolated: bool,
    pub cleanup_instances_on_startup: bool,
    pub cleanup_instances_on_shutdown: bool,
    pub instance_profile_ttl_hours: u64,
    pub instance_profile_max_count: u32,
}

impl View for Config {
    type V = ConfigView;

    open spec fn view(&self) -> ConfigView {
        ConfigView {
            notebook_url: self.notebook_url@,
            headless: self.headless,
            chrome_executable: opt_str(self.chrome_executable),
            browser_timeout: self.browser_timeout,
            viewport_width: self.viewport_width,
            viewport_height: self.viewport_height,
            max_sessions: self.max_sessions,
            session_timeout: self.session_timeout,
            auto_login_enabled: self.auto_login_enabled,
            login_email: self.login_email@,
            login_password: self.login_password@,
            auto_login_timeout_ms: self.auto_login_timeout_ms,
            stealth_enabled: self.stealth_enabled,
            stealth_random_delays: self.stealth_random_delays,
            stealth_human_typing: self.stealth_human_typing,
            stealth_mouse_movements: self.stealth_mouse_movements,
            typing_wpm_min: self.typing_wpm_min,
            typing_wpm_max: self.typing_wpm_max,
            min_delay_ms: self.min_delay_ms,
            max_delay_ms: self.max_delay_ms,
            config_dir: self.config_dir@,
            data_dir: self.data_dir@,
            browser_state_dir: self.browser_state_dir@,
            chrome_profile_dir: self.chrome_profile_dir@,
            chrome_instances_dir: self.chrome_instances_dir@,
            notebook_description: self.notebook_description@,
            notebook_topics: strs(self.notebook_topics@),
            notebook_content_types: strs(self.notebook_content_types@),
            notebook_use_cases: strs(self.notebook_use_cases@),
            profile_strategy: self.profile_strategy,
            clone_profile_on_isolated: self.clone_profile_on_isolated,
            cleanup_instances_on_startup: self.cleanup_instances_on_startup,
            cleanup_instances_on_shutdown: self.cleanup_instances_on_shutdown,
            instance_profile_ttl_hours: self.instance_profile_ttl_hours,
            instance_profile_max_count: self.instance_profile_max_count,
        }
    }
}

impl Config {
    /// A field-by-field copy.
    pub fn duplicate(&self) -> (r: Config)
        ensures
            r@ == self@,
    {
        Config {
            notebook_url: self.notebook_url.clone(),
            headless: self.headless,
            chrome_executable: copy_opt_str(&self.chrome_executable),
            browser_timeout: self.browser_timeout,
            viewport_width: self.viewport_width,
            viewport_height: self.viewport_height,
            max_sessions: self.max_sessions,
            session_timeout: self.session_timeout,
            auto_login_enabled: self.auto_login_enabled,
            login_email: self.login_email.clone(),
            login_password: self.login_password.clone(),
            auto_login_timeout_ms: self.auto_login_timeout_ms,
            stealth_enabled: self.stealth_enabled,
            stealth_random_delays: self.stealth_random_delays,
            stealth_human_typing: self.stealth_human_typing,
            stealth_mouse_movements: self.stealth_mouse_movements,
            typing_wpm_min: self.typing_wpm_min,
            typing_wpm_max: self.typing_wpm_max,
            min_delay_ms: self.min_delay_ms,
            max_delay_ms: self.max_delay_ms,
            config_dir: self.config_dir.clone(),
            data_dir: self.data_dir.clone(),
            browser_state_dir: self.browser_state_dir.clone(),
            chrome_profile_dir: self.chrome_profile_dir.clone(),
            chrome_instances_dir: self.chrome_instances_dir.clone(),
            notebook_description: self.notebook_description.clone(),
            notebook_topics: copy_strs(&self.notebook_topics),
            notebook_content_types: copy_strs(&self.notebook_content_types),
            notebook_use_cases: copy_strs(&self.notebook_use_cases),
            profile_strategy: self.profile_strategy,
            clone_profile_on_isolated: self.clone_profile_on_isolated,
            cleanup_instances_on_startup: self.cleanup_instances_on_startup,
            cleanup_instances_on_shutdown: self.cleanup_instances_on_shutdown,
            instance_profile_ttl_hours: self.instance_profile_ttl_hours,
            instance_profile_max_count: self.instance_profile_max_count,
        }
    }
}

// ---------------------------------------------------------------------------
// Environment values
// ---------------------------------------------------------------------------

/// A snapshot of the process environment: (name, value) pairs.
#[derive(Debug)]
pub struct EnvVars {
    pub vars: Vec<(String, String)>,
}

/// The value of the first pair named `key`.
pub open spec fn env_lookup(vars: Seq<(String, String)>, key: Seq<char>) -> Option<Seq<char>>
    decreases vars.len(),
{
    if vars.len() == 0 {
        None
    } else if vars[0].0@ == key {
        Some(vars[0].1@)
    } else {
        env_lookup(vars.drop_first(), key)
    }
}

impl EnvVars {
    /// An environment with no variables set.
    pub fn empty() -> (r: EnvVars)
        ensures
            r.vars@.len() == 0,
    {
        EnvVars { vars: Vec::new() }
    }

    /// Adds a variable (the earlier value of the same name, if any, is kept in front).
    pub fn with(self, key: &str, value: &str) -> (r: EnvVars)
        ensures
            r.vars@.len() == self.vars@.len() + 1,
            r.vars@.subrange(0, self.vars@.len() as int) == self.vars@,
            r.vars@.last().0@ == key@,
            r.vars@.last().1@ == value@,
    {
        let mut vars = self.vars;
        vars.push((owned(key), owned(value)));
        EnvVars { vars }
    }

    /// The value of `key`, if set.
    pub fn get(&self, key: &str) -> (r: Option<String>)
        ensures
            opt_str(r) == env_lookup(self.vars@, key@),
    {
        let mut i: usize = 0;
        assert(self.vars@.subrange(0, self.vars@.len() as int) =~= self.vars@);
        while i < self.vars.len()
            invariant
                i <= self.vars.len(),
                env_lookup(self.vars@, key@) == env_lookup(self.vars@.subrange(i as int, self.vars@.len() as int), key@),
            decreases self.vars.len() - i,
        {
            let ghost rest = self.vars@.subrange(i as int, self.vars@.len() as int);
            assert(rest.drop_first() =~= self.vars@.subrange(i + 1, self.vars@.len() as int));
            assert(rest[0] == self.vars@[i as int]);
            if str_eq(self.vars[i].0.as_str(), key) {
                return Some(self.vars[i].1.clone());
            }
            i = i + 1;
        }
        None
    }
}

/// `env_string`: the value, or `default` when unset.
pub fn env_string(env: &EnvVars, key: &str, default: &str) -> (r: String)
    ensures
        r@ == (match env_lookup(env.vars@, key@) {
            Some(v) => v,
            None => default@,
        }),
{
    match env.get(key) {
        Some(v) => v,
        None => owned(default),
    }
}

pub open spec fn bool_value(v: Option<Seq<char>>, default: bool) -> bool {
    match v {
        Some(s) => if s == "true"@ || s == "1"@ {
            true
        } else if s == "false"@ || s == "0"@ {
            false
        } else {
            default
        },
        None => default,
    }
}

/// `"true"`/`"1"` are true, `"false"`/`"0"` false; any other value, or none, gives `default`.
pub fn env_bool(env: &EnvVars, key: &str, default: bool) -> (r: bool)
    ensures
        r == bool_value(env_lookup(env.vars@, key@), default),
{
    match env.get(key) {
        Some(v) => {
            let s = v.as_str();
            if str_eq(s, "true") || str_eq(s, "1") {
                true
            } else if str_eq(s, "false") || str_eq(s, "0") {
                false
            } else {
                default
            }
        },
        None => default,
    }
}

pub open spec fn is_digit(c: char) -> bool {
    '0' <= c <= '9'
}

pub open spec fn digits_value(s: Seq<char>) -> nat
    decreases s.len(),
{
    if s.len() == 0 {
        0
    } else {
        digits_value(s.drop_last()) * 10 + (s.last() as nat - '0' as nat) as nat
    }
}

/// The digits that `str::parse` reads for an unsigned integer: the text after an
/// optional leading `+`.
pub open spec fn unsigned_digits(s: Seq<char>) -> Seq<char> {
    if s.len() > 0 && s[0] == '+' {
        s.drop_first()
    } else {
        s
    }
}

/// `str::parse::<uN>` succeeds: a non-empty run of ASCII digits after an optional
/// `+`, whose value is at most `max`.
pub open spec fn parses_unsigned(s: Seq<char>, max: nat) -> bool {
    let d = unsigned_digits(s);
    d.len() > 0 && (forall|i: int| 0 <= i < d.len() ==> is_digit(#[trigger] d[i])) && digits_value(d) <= max
}

/// Parses a decimal unsigned integer the way `str::parse::<u64>` does.
pub fn parse_u64(s: &str) -> (r: Option<u64>)
    ensures
        r.is_some() == parses_unsigned(s@, u64::MAX as nat),
        r.is_some() ==> r.unwrap() as nat == digits_value(unsigned_digits(s@)),
{
    let cs = chars_of(s);
    let mut start: usize = 0;
    if cs.len() > 0 && cs[0] == '+' {
        start = 1;
    }
    let ghost d = unsigned_digits(s@);
    assert(d =~= cs@.subrange(start as int, cs@.len() as int));
    if start >= cs.len() {
        assert(d.len() == 0);
        return None;
    }
    let mut acc: u64 = 0;
    let mut i: usize = start;
    while i < cs.len()
        invariant
            cs@ == s@,
            start <= i <= cs.len(),
            d == unsigned_digits(s@),
            d == cs@.subrange(start as int, cs@.len() as int),
            forall|k: int| start <= k < i ==> is_digit(#[trigger] cs@[k]),
            acc as nat == digits_value(cs@.subrange(start as int, i as int)),
        decreases cs.len() - i,
    {
        let c = cs[i];
        let ghost pre = cs@.subrange(start as int, i as int);
        let ghost nxt = cs@.subrange(start as int, i + 1);
        assert(nxt.drop_last() =~= pre);
        if !('0' <= c && c <= '9') {
            assert(d[i - start] == c);
            return None;
        }
        let dv: u64 = (c as u64) - ('0' as u64);
        if acc > (u64::MAX - dv) / 10 {
            proof {
                assert(digits_value(nxt) == digits_value(pre) * 10 + dv);
                assert(acc * 10 + dv > u64::MAX) by (nonlinear_arith)
                    requires
                        acc > (u64::MAX - dv) / 10,
                        dv <= 9;
                if forall|k: int| 0 <= k < d.len() ==> is_digit(#[trigger] d[k]) {
                    lemma_digits_prefix_monotone(d, (i - start) as nat);
                    assert(d.subrange(0, (i - start + 1) as int) =~= nxt);
                }
            }
            return None;
        }
        acc = acc * 10 + dv;
        i = i + 1;
    }
    assert(cs@.subrange(start as int, cs@.len() as int) == d);
    Some(acc)
}

/// The value of a digit run is at least the value of any of its prefixes extended by one digit.
proof fn lemma_digits_prefix_monotone(d: Seq<char>, k: nat)
    requires
        k < d.len(),
        forall|i: int| 0 <= i < d.len() ==> is_digit(#[trigger] d[i]),
    ensures
        digits_value(d) >= digits_value(d.subrange(0, (k + 1) as int)),
    decreases d.len(),
{
    if k + 1 < d.len() {
        lemma_digits_prefix_monotone(d.drop_last(), k);
        assert(d.drop_last().subrange(0, (k + 1) as int) =~= d.subrange(0, (k + 1) as int));
    } else {
        assert(d.subrange(0, (k + 1) as int) =~= d);
    }
}

/// Parses a decimal unsigned integer the way `str::parse::<u32>` does.
pub fn parse_u32(s: &str) -> (r: Option<u32>)
    ensures
        r.is_some() == parses_unsigned(s@, u32::MAX as nat),
        r.is_some() ==> r.unwrap() as nat == digits_value(unsigned_digits(s@)),
{
    match parse_u64(s) {
        Some(v) => if v <= u32::MAX as u64 {
            Some(v as u32)
        } else {
            None
        },
        None => {
            proof {
                let d = unsigned_digits(s@);
                if parses_unsigned(s@, u32::MAX as nat) {
                    assert(digits_value(d) <= u64::MAX);
                }
            }
            None
        },
    }
}

pub open spec fn u64_value(v: Option<Seq<char>>, default: u64) -> u64 {
    match v {
        Some(s) => if parses_unsigned(s, u64::MAX as nat) {
            digits_value(unsigned_digits(s)) as u64
        } else {
            default
        },
        None => default,
    }
}

pub open spec fn u32_value(v: Option<Seq<char>>, default: u32) -> u32 {
    match v {
        Some(s) => if parses_unsigned(s, u32::MAX as nat) {
            digits_value(unsigned_digits(s)) as u32
        } else {
            default
        },
        None => default,
    }
}

/// The parsed value, or `default` when unset or not a `u64`.
pub fn env_u64(env: &EnvVars, key: &str, default: u64) -> (r: u64)
    ensures
        r == u64_value(env_lookup(env.vars@, key@), default),
{
    match env.get(key) {
        Some(v) => match parse_u64(v.as_str()) {
            Some(n) => n,
            None => default,
        },
        None => default,
    }
}

/// The parsed value, or `default` when unset or not a `u32`.
pub fn env_u32(env: &EnvVars, key: &str, default: u32) -> (r: u32)
    ensures
        r == u32_value(env_lookup(env.vars@, key@), default),
{
    match env.get(key) {
        Some(v) => match parse_u32(v.as_str()) {
            Some(n) => n,
            None => default,
        },
        None => default,
    }
}

/// The comma-separated items of `s`, trimmed, empty ones dropped.
pub open spec fn list_items(pieces: Seq<Seq<char>>) -> Seq<Seq<char>>
    decreases pieces.len(),
{
    if pieces.len() == 0 {
        Seq::empty()
    } else {
        let rest = list_items(pieces.drop_last());
        let t = trimmed(pieces.last());
        if t.len() > 0 {
            rest.push(t)
        } else {
            rest
        }
    }
}

pub open spec fn vec_value(v: Option<Seq<char>>, default: Seq<Seq<char>>) -> Seq<Seq<char>> {
    match v {
        Some(s) => if s.len() > 0 {
            list_items(split_on(s, ','))
        } else {
            default
        },
        None => default,
    }
}

/// Splits `s` at commas, trims each piece and drops the empty ones.
pub fn comma_list(s: &str) -> (r: Vec<String>)
    ensures
        strs(r@) == list_items(split_on(s@, ',')),
{
    let pieces = split_char(s, ',');
    let ghost ps = split_on(s@, ',');
    let mut r: Vec<String> = Vec::new();
    let mut i: usize = 0;
    while i < pieces.len()
        invariant
            pieces@.map_values(|p: String| p@) == ps,
            i <= pieces.len(),
            strs(r@) == list_items(ps.subrange(0, i as int)),
        decreases pieces.len() - i,
    {
        let t = trim(pieces[i].as_str());
        let ghost nxt = ps.subrange(0, i + 1);
        assert(nxt.drop_last() =~= ps.subrange(0, i as int));
        assert(nxt.last() == pieces@[i as int]@);
        if !t.as_str().is_empty() {
            let ghost before = r@;
            r.push(t);
            assert(strs(r@) =~= strs(before).push(t@));
        }
        i = i + 1;
    }
    assert(ps.subrange(0, pieces.len() as int) =~= ps);
    r
}

/// `env_vec`: a non-empty value is split into trimmed, non-empty comma items;
/// otherwise `default`.
pub fn env_vec(env: &EnvVars, key: &str, default: Vec<String>) -> (r: Vec<String>)
    ensures
        strs(r@) == vec_value(env_lookup(env.vars@, key@), strs(default@)),
{
    match env.get(key) {
        Some(v) => if !v.as_str().is_empty() {
            comma_list(v.as_str())
        } else {
            default
        },
        None => default,
    }
}

pub open spec fn strategy_value(v: Option<Seq<char>>) -> ProfileStrategy {
    match v {
        Some(s) => if s == "single"@ {
            ProfileStrategy::Single
        } else if s == "isolated"@ {
            ProfileStrategy::Isolated
        } else {
            ProfileStrategy::Auto
        },
        None => ProfileStrategy::Auto,
    }
}

/// `"single"` and `"isolated"` select those strategies; anything else is `Auto`.
pub fn env_profile_strategy(env: &EnvVars, key: &str) -> (r: ProfileStrategy)
    ensures
        r == strategy_value(env_lookup(env.vars@, key@)),
{
    match env.get(key) {
        Some(v) => {
            if str_eq(v.as_str(), "single") {
                ProfileStrategy::Single
            } else if str_eq(v.as_str(), "isolated") {
                ProfileStrategy::Isolated
            } else {
                ProfileStrategy::Auto
            }
        },
        None => ProfileStrategy::Auto,
    }
}

// ---------------------------------------------------------------------------
// Paths
// ---------------------------------------------------------------------------

/// `PathBuf::join` of a relative component onto `base` (Unix separators).
pub open spec fn joined(base: Seq<char>, name: Seq<char>) -> Seq<char> {
    if base.len() == 0 || base.last() == '/' {
        base + name
    } else {
        base + seq!['/'] + name
    }
}

/// Joins a relative path component onto `base`.
pub fn path_join(base: &str, name: &str) -> (r: String)
    requires
        name@.len() == 0 || name@[0] != '/',
    ensures
        r@ == joined(base@, name@),
{
    proof {
        reveal_strlit("/");
    }
    if base.is_empty() || ends_with(base, "/") {
        proof {
            if base@.len() > 0 {
                assert(base@.subrange(base@.len() - 1, base@.len() as int)[0] == base@.last());
            }
        }
        concat2(base, name)
    } else {
        proof {
            assert(base@.len() > 0);
            if base@.last() == '/' {
                assert(base@.subrange(base@.len() - 1, base@.len() as int) =~= "/"@);
            }
        }
        let with_sep = concat2(base, "/");
        assert("/"@ =~= seq!['/']);
        concat2(with_sep.as_str(), name)
    }
}

/// The per-user directories of the application.
pub struct AppDirs {
    pub data_dir: String,
    pub config_dir: String,
}

/// The application's own name, which every per-user directory of it holds.
pub const APP_NAME: &'static str = "notebooklm-mcp";

/// Both directories hold the application's name.
pub open spec fn names_app(data_dir: Seq<char>, config_dir: Seq<char>) -> bool {
    has_sub(data_dir, APP_NAME@) && has_sub(config_dir, APP_NAME@)
}

/// Calls `directories::ProjectDirs::from("", "", "notebooklm-mcp")` and renders the
/// data and config directories as strings with `Path::to_string_lossy` (a part of
/// a path that is not valid UTF-8 becomes U+FFFD; the application name, ASCII, is
/// kept as it is). On every platform the crate supports,
/// each directory is a base directory joined with a project path built from the
/// application name (`notebooklm-mcp`; on Windows `data` or `config` follows), so
/// both hold that name. Whether a home directory is found, and which base
/// directories are used, depends on the user's environment and platform; that is
/// not stated.
#[verifier::external_body]
fn project_dirs() -> (r: Option<AppDirs>)
    ensures
        r matches Some(d) ==> names_app(d.data_dir@, d.config_dir@),
{
    let proj = directories::ProjectDirs::from("", "", "notebooklm-mcp")?;
    Some(AppDirs {
        data_dir: proj.data_dir().to_string_lossy().into_owned(),
        config_dir: proj.config_dir().to_string_lossy().into_owned(),
    })
}

/// The platform's data and config directories for the server, if a home
/// directory can be determined.
pub fn app_dirs() -> (r: Option<AppDirs>)
    ensures
        r matches Some(d) ==> names_app(d.data_dir@, d.config_dir@),
{
    project_dirs()
}

/// The Chrome executable to use: an explicit path that exists, else the first
/// existing candidate, else none (the browser crate auto-detects).
pub open spec fn chosen_executable(explicit: Option<(Seq<char>, bool)>, candidates: Seq<(Seq<char>, bool)>) -> Option<Seq<char>>
    decreases candidates.len(),
{
    match explicit {
        Some((p, exists)) if exists => Some(p),
        _ => if candidates.len() == 0 {
            None
        } else if candidates[0].1 {
            Some(candidates[0].0)
        } else {
            chosen_executable(None, candidates.drop_first())
        },
    }
}

pub open spec fn explicit_view(e: Option<(String, bool)>) -> Option<(Seq<char>, bool)> {
    match e {
        Some((p, x)) => Some((p@, x)),
        None => None,
    }
}

fn first_existing(candidates: &Vec<(String, bool)>) -> (r: Option<String>)
    ensures
        opt_str(r) == chosen_executable(None, candidates@.map_values(|c: (String, bool)| (c.0@, c.1))),
{
    let ghost cs = candidates@.map_values(|c: (String, bool)| (c.0@, c.1));
    assert(cs.subrange(0, cs.len() as int) =~= cs);
    let mut i: usize = 0;
    while i < candidates.len()
        invariant
            i <= candidates.len(),
            cs == candidates@.map_values(|c: (String, bool)| (c.0@, c.1)),
            chosen_executable(None, cs) == chosen_executable(None, cs.subrange(i as int, cs.len() as int)),
        decreases candidates.len() - i,
    {
        let ghost rest = cs.subrange(i as int, cs.len() as int);
        assert(rest.drop_first() =~= cs.subrange(i + 1, cs.len() as int));
        assert(rest[0] == cs[i as int]);
        assert(cs[i as int] == (candidates@[i as int].0@, candidates@[i as int].1));
        if candidates[i].1 {
            let r = candidates[i].0.clone();
            return Some(r);
        }
        i = i + 1;
    }
    None
}

/// Resolves the browser executable from `CHROME_PATH` (with whether that path
/// exists) and the platform's well-known candidate paths (with existence).
pub fn pick_chrome_executable(explicit: Option<(String, bool)>, candidates: &Vec<(String, bool)>) -> (r: Option<String>)
    ensures
        opt_str(r) == chosen_executable(
            explicit_view(explicit),
            candidates@.map_values(|c: (String, bool)| (c.0@, c.1)),
        ),
{
    match explicit {
        Some((p, true)) => Some(p),
        _ => first_existing(candidates),
    }
}

/// The configuration that the environment `env` gives, with the application
/// directories `data_dir` and `config_dir` and the resolved browser executable.
pub open spec fn env_config(
    env: Seq<(String, String)>,
    data_dir: Seq<char>,
    config_dir: Seq<char>,
    chrome: Option<Seq<char>>,
) -> ConfigView {
    ConfigView {
        notebook_url: (match env_lookup(env, "NOTEBOOK_URL"@) { Some(v) => v, None => ""@ }),
        headless: bool_value(env_lookup(env, "HEADLESS"@), true),
        chrome_executable: chrome,
        browser_timeout: u64_value(env_lookup(env, "BROWSER_TIMEOUT"@), 30000),
        viewport_width: u32_value(env_lookup(env, "VIEWPORT_WIDTH"@), 1920),
        viewport_height: u32_value(env_lookup(env, "VIEWPORT_HEIGHT"@), 1080),
        max_sessions: u32_value(env_lookup(env, "MAX_SESSIONS"@), 10),
        session_timeout: u64_value(env_lookup(env, "SESSION_TIMEOUT"@), 900),
        auto_login_enabled: bool_value(env_lookup(env, "AUTO_LOGIN_ENABLED"@), false),
        login_email: (match env_lookup(env, "LOGIN_EMAIL"@) { Some(v) => v, None => ""@ }),
        login_password: (match env_lookup(env, "LOGIN_PASSWORD"@) { Some(v) => v, None => ""@ }),
        auto_login_timeout_ms: u64_value(env_lookup(env, "AUTO_LOGIN_TIMEOUT_MS"@), 120000),
        stealth_enabled: bool_value(env_lookup(env, "STEALTH_ENABLED"@), true),
        stealth_random_delays: bool_value(env_lookup(env, "STEALTH_RANDOM_DELAYS"@), true),
        stealth_human_typing: bool_value(env_lookup(env, "STEALTH_HUMAN_TYPING"@), true),
        stealth_mouse_movements: bool_value(env_lookup(env, "STEALTH_MOUSE_MOVEMENTS"@), true),
        typing_wpm_min: u32_value(env_lookup(env, "TYPING_WPM_MIN"@), 160),
        typing_wpm_max: u32_value(env_lookup(env, "TYPING_WPM_MAX"@), 240),
        min_delay_ms: u64_value(env_lookup(env, "MIN_DELAY_MS"@), 100),
        max_delay_ms: u64_value(env_lookup(env, "MAX_DELAY_MS"@), 400),
        data_dir: data_dir,
        config_dir: config_dir,
        browser_state_dir: joined(data_dir, "browser_state"@),
        chrome_profile_dir: joined(data_dir, "chrome_profile"@),
        chrome_instances_dir: joined(data_dir, "chrome_profile_instances"@),
        notebook_description: (match env_lookup(env, "NOTEBOOK_DESCRIPTION"@) { Some(v) => v, None => "General knowledge base"@ }),
        notebook_topics: vec_value(env_lookup(env, "NOTEBOOK_TOPICS"@), seq!["General topics"@]),
        notebook_content_types: vec_value(env_lookup(env, "NOTEBOOK_CONTENT_TYPES"@), seq!["documentation"@, "examples"@]),
        notebook_use_cases: vec_value(env_lookup(env, "NOTEBOOK_USE_CASES"@), seq!["General research"@]),
        profile_strategy: strategy_value(env_lookup(env, "NOTEBOOK_PROFILE_STRATEGY"@)),
        clone_profile_on_isolated: bool_value(env_lookup(env, "NOTEBOOK_CLONE_PROFILE"@), false),
        cleanup_instances_on_startup: bool_value(env_lookup(env, "NOTEBOOK_CLEANUP_ON_STARTUP"@), true),
        cleanup_instances_on_shutdown: bool_value(env_lookup(env, "NOTEBOOK_CLEANUP_ON_SHUTDOWN"@), true),
        instance_profile_ttl_hours: u64_value(env_lookup(env, "NOTEBOOK_INSTANCE_TTL_HOURS"@), 72),
        instance_profile_max_count: u32_value(env_lookup(env, "NOTEBOOK_INSTANCE_MAX_COUNT"@), 20),
    }
}

impl Config {
    /// Builds the configuration from environment values, the application
    /// directories and the resolved browser executable.
    pub fn build_from_env(env: &EnvVars, dirs: &AppDirs, chrome_executable: Option<String>) -> (r: Config)
        ensures
            r@ == env_config(env.vars@, dirs.data_dir@, dirs.config_dir@, opt_str(chrome_executable)),
    {
        proof {
            reveal_strlit("/");
            reveal_strlit("browser_state");
            reveal_strlit("chrome_profile");
            reveal_strlit("chrome_profile_instances");
        }
        let mut topics: Vec<String> = Vec::new();
        topics.push(owned("General topics"));
        let mut content_types: Vec<String> = Vec::new();
        content_types.push(owned("documentation"));
        content_types.push(owned("examples"));
        let mut use_cases: Vec<String> = Vec::new();
        use_cases.push(owned("General research"));
        assert(strs(topics@) =~= seq!["General topics"@]);
        assert(strs(content_types@) =~= seq!["documentation"@, "examples"@]);
        assert(strs(use_cases@) =~= seq!["General research"@]);
        Config {
            notebook_url: env_string(env, "NOTEBOOK_URL", ""),
            headless: env_bool(env, "HEADLESS", true),
            chrome_executable,
            browser_timeout: env_u64(env, "BROWSER_TIMEOUT", 30000),
            viewport_width: env_u32(env, "VIEWPORT_WIDTH", 1920),
            viewport_height: env_u32(env, "VIEWPORT_HEIGHT", 1080),
            max_sessions: env_u32(env, "MAX_SESSIONS", 10),
            session_timeout: env_u64(env, "SESSION_TIMEOUT", 900),
            auto_login_enabled: env_bool(env, "AUTO_LOGIN_ENABLED", false),
            login_email: env_string(env, "LOGIN_EMAIL", ""),
            login_password: env_string(env, "LOGIN_PASSWORD", ""),
            auto_login_timeout_ms: env_u64(env, "AUTO_LOGIN_TIMEOUT_MS", 120000),
            stealth_enabled: env_bool(env, "STEALTH_ENABLED", true),
            stealth_random_delays: env_bool(env, "STEALTH_RANDOM_DELAYS", true),
            stealth_human_typing: env_bool(env, "STEALTH_HUMAN_TYPING", true),
            stealth_mouse_movements: env_bool(env, "STEALTH_MOUSE_MOVEMENTS", true),
            typing_wpm_min: env_u32(env, "TYPING_WPM_MIN", 160),
            typing_wpm_max: env_u32(env, "TYPING_WPM_MAX", 240),
            min_delay_ms: env_u64(env, "MIN_DELAY_MS", 100),
            max_delay_ms: env_u64(env, "MAX_DELAY_MS", 400),
            browser_state_dir: path_join(dirs.data_dir.as_str(), "browser_state"),
            chrome_profile_dir: path_join(dirs.data_dir.as_str(), "chrome_profile"),
            chrome_instances_dir: path_join(dirs.data_dir.as_str(), "chrome_profile_instances"),
            data_dir: dirs.data_dir.clone(),
            config_dir: dirs.config_dir.clone(),
            notebook_description: env_string(env, "NOTEBOOK_DESCRIPTION", "General knowledge base"),
            notebook_topics: env_vec(env, "NOTEBOOK_TOPICS", topics),
            notebook_content_types: env_vec(env, "NOTEBOOK_CONTENT_TYPES", content_types),
            notebook_use_cases: env_vec(env, "NOTEBOOK_USE_CASES", use_cases),
            profile_strategy: env_profile_strategy(env, "NOTEBOOK_PROFILE_STRATEGY"),
            clone_profile_on_isolated: env_bool(env, "NOTEBOOK_CLONE_PROFILE", false),
            cleanup_instances_on_startup: env_bool(env, "NOTEBOOK_CLEANUP_ON_STARTUP", true),
            cleanup_instances_on_shutdown: env_bool(env, "NOTEBOOK_CLEANUP_ON_SHUTDOWN", true),
            instance_profile_ttl_hours: env_u64(env, "NOTEBOOK_INSTANCE_TTL_HOURS", 72),
            instance_profile_max_count: env_u32(env, "NOTEBOOK_INSTANCE_MAX_COUNT", 20),
        }
    }
}

/// The configuration of this process: the environment `env` read in the
/// platform's application directories. `None` where no home directory can be
/// determined, which the server treats as fatal.
pub fn config(env: &EnvVars, chrome_executable: Option<String>) -> (r: Option<Config>)
    ensures
        r matches Some(c) ==> exists|data_dir: Seq<char>, config_dir: Seq<char>|
            names_app(data_dir, config_dir)
            && c@ == #[trigger] env_config(env.vars@, data_dir, config_dir, opt_str(chrome_executable)),
{
    match app_dirs() {
        Some(dirs) => {
            let ghost chrome = opt_str(chrome_executable);
            let c = Config::build_from_env(env, &dirs, chrome_executable);
            assert(c@ == env_config(env.vars@, dirs.data_dir@, dirs.config_dir@, chrome));
            Some(c)
        },
        None => None,
    }
}

// ---------------------------------------------------------------------------
// Browser options (per-call overrides)
// ---------------------------------------------------------------------------

#[derive(Debug, Clone, Copy)]
pub struct StealthOptions {
    pub enabled: Option<bool>,
    pub random_delays: Option<bool>,
    pub human_typing: Option<bool>,
    pub mouse_movements: Option<bool>,
    pub typing_wpm_min: Option<u32>,
    pub typing_wpm_max: Option<u32>,
    pub delay_min_ms: Option<u64>,
    pub delay_max_ms: Option<u64>,
}

#[derive(Debug, Clone, Copy)]
pub struct ViewportOptions {
    pub width: Option<u32>,
    pub height: Option<u32>,
}

/// Runtime overrides passed by the client via tool parameters.
#[derive(Debug, Clone, Copy)]
pub struct BrowserOptions {
    /// Show browser window (inverse of headless)
    pub show: Option<bool>,
    pub headless: Option<bool>,
    pub timeout_ms: Option<u64>,
    pub stealth: Option<StealthOptions>,
    pub viewport: Option<ViewportOptions>,
}

impl Default for StealthOptions {
    fn default() -> (r: StealthOptions)
        ensures
            r.enabled.is_none() && r.random_delays.is_none() && r.human_typing.is_none()
                && r.mouse_movements.is_none() && r.typing_wpm_min.is_none()
                && r.typing_wpm_max.is_none() && r.delay_min_ms.is_none() && r.delay_max_ms.is_none(),
    {
        StealthOptions {
            enabled: None,
            random_delays: None,
            human_typing: None,
            mouse_movements: None,
            typing_wpm_min: None,
            typing_wpm_max: None,
            delay_min_ms: None,
            delay_max_ms: None,
        }
    }
}

impl Default for ViewportOptions {
    fn default() -> (r: ViewportOptions)
        ensures
            r.width.is_none() && r.height.is_none(),
    {
        ViewportOptions { width: None, height: None }
    }
}

impl Default for BrowserOptions {
    fn default() -> (r: BrowserOptions)
        ensures
            r.show.is_none() && r.headless.is_none() && r.timeout_ms.is_none()
                && r.stealth.is_none() && r.viewport.is_none(),
    {
        BrowserOptions { show: None, headless: None, timeout_ms: None, stealth: None, viewport: None }
    }
}

pub open spec fn or_else<T>(o: Option<T>, d: T) -> T {
    match o {
        Some(v) => v,
        None => d,
    }
}

/// The headless flag after the legacy `show_browser` flag and the options.
pub open spec fn headless_after(base: bool, options: Option<BrowserOptions>, legacy_show: Option<bool>) -> bool {
    let h1 = match legacy_show { Some(show) => !show, None => base };
    match options {
        Some(o) => {
            let h2 = match o.show { Some(show) => !show, None => h1 };
            or_else(o.headless, h2)
        },
        None => h1,
    }
}

/// The configuration with the per-call overrides applied.
pub open spec fn with_options(base: ConfigView, options: Option<BrowserOptions>, legacy_show: Option<bool>) -> ConfigView {
    let headless = headless_after(base.headless, options, legacy_show);
    match options {
        None => ConfigView { headless, ..base },
        Some(o) => {
            let s = match o.stealth {
                Some(s) => s,
                None => StealthOptions {
                    enabled: None,
                    random_delays: None,
                    human_typing: None,
                    mouse_movements: None,
                    typing_wpm_min: None,
                    typing_wpm_max: None,
                    delay_min_ms: None,
                    delay_max_ms: None,
                },
            };
            let vp = match o.viewport {
                Some(v) => v,
                None => ViewportOptions { width: None, height: None },
            };
            ConfigView {
                headless,
                browser_timeout: or_else(o.timeout_ms, base.browser_timeout),
                stealth_enabled: or_else(s.enabled, base.stealth_enabled),
                stealth_random_delays: or_else(s.random_delays, base.stealth_random_delays),
                stealth_human_typing: or_else(s.human_typing, base.stealth_human_typing),
                stealth_mouse_movements: or_else(s.mouse_movements, base.stealth_mouse_movements),
                typing_wpm_min: or_else(s.typing_wpm_min, base.typing_wpm_min),
                typing_wpm_max: or_else(s.typing_wpm_max, base.typing_wpm_max),
                min_delay_ms: or_else(s.delay_min_ms, base.min_delay_ms),
                max_delay_ms: or_else(s.delay_max_ms, base.max_delay_ms),
                viewport_width: or_else(vp.width, base.viewport_width),
                viewport_height: or_else(vp.height, base.viewport_height),
                ..base
            }
        },
    }
}

fn pick<T: Copy>(o: Option<T>, d: T) -> (r: T)
    ensures
        r == or_else(o, d),
{
    match o {
        Some(v) => v,
        None => d,
    }
}

/// Apply per-call `BrowserOptions` on top of `base`; `legacy_show_browser` maps
/// the old `show_browser` parameter. `base` itself is not changed.
pub fn apply_browser_options(base: &Config, options: Option<&BrowserOptions>, legacy_show_browser: Option<bool>) -> (r: Config)
    ensures
        r@ == with_options(base@, match options { Some(o) => Some(*o), None => None }, legacy_show_browser),
{
    let mut headless = base.headless;
    if let Some(show) = legacy_show_browser {
        headless = !show;
    }
    let opts = match options {
        Some(o) => *o,
        None => BrowserOptions::default(),
    };
    if let Some(show) = opts.show {
        headless = !show;
    }
    if let Some(h) = opts.headless {
        headless = h;
    }
    let s = match opts.stealth {
        Some(s) => s,
        None => StealthOptions::default(),
    };
    let vp = match opts.viewport {
        Some(v) => v,
        None => ViewportOptions::default(),
    };
    let r = Config {
        notebook_url: base.notebook_url.clone(),
        headless,
        chrome_executable: copy_opt_str(&base.chrome_executable),
        browser_timeout: pick(opts.timeout_ms, base.browser_timeout),
        viewport_width: pick(vp.width, base.viewport_width),
        viewport_height: pick(vp.height, base.viewport_height),
        max_sessions: base.max_sessions,
        session_timeout: base.session_timeout,
        auto_login_enabled: base.auto_login_enabled,
        login_email: base.login_email.clone(),
        login_password: base.login_password.clone(),
        auto_login_timeout_ms: base.auto_login_timeout_ms,
        stealth_enabled: pick(s.enabled, base.stealth_enabled),
        stealth_random_delays: pick(s.random_delays, base.stealth_random_delays),
        stealth_human_typing: pick(s.human_typing, base.stealth_human_typing),
        stealth_mouse_movements: pick(s.mouse_movements, base.stealth_mouse_movements),
        typing_wpm_min: pick(s.typing_wpm_min, base.typing_wpm_min),
        typing_wpm_max: pick(s.typing_wpm_max, base.typing_wpm_max),
        min_delay_ms: pick(s.delay_min_ms, base.min_delay_ms),
        max_delay_ms: pick(s.delay_max_ms, base.max_delay_ms),
        config_dir: base.config_dir.clone(),
        data_dir: base.data_dir.clone(),
        browser_state_dir: base.browser_state_dir.clone(),
        chrome_profile_dir: base.chrome_profile_dir.clone(),
        chrome_instances_dir: base.chrome_instances_dir.clone(),
        notebook_description: base.notebook_description.clone(),
        notebook_topics: copy_strs(&base.notebook_topics),
        notebook_content_types: copy_strs(&base.notebook_content_types),
        notebook_use_cases: copy_strs(&base.notebook_use_cases),
        profile_strategy: base.profile_strategy,
        clone_profile_on_isolated: base.clone_profile_on_isolated,
        cleanup_instances_on_startup: base.cleanup_instances_on_startup,
        cleanup_instances_on_shutdown: base.cleanup_instances_on_shutdown,
        instance_profile_ttl_hours: base.instance_profile_ttl_hours,
        instance_profile_max_count: base.instance_profile_max_count,
    };
    assert(r@ =~= with_options(base@, match options { Some(o) => Some(*o), None => None }, legacy_show_browser));
    r
}

/// Applying no options and no legacy flag gives back the base configuration.
pub proof fn law_no_options_is_identity(base: ConfigView)
    ensures
        with_options(base, None, None) == base,
{
}

/// An explicit `headless` option wins over both `show` and the legacy flag.
pub proof fn law_headless_option_wins(base: ConfigView, o: BrowserOptions, legacy_show: Option<bool>)
    requires
        o.headless.is_some(),
    ensures
        with_options(base, Some(o), legacy_show).headless == o.headless.unwrap(),
{
}

/// Options change only browser, stealth and viewport settings: paths, session
/// limits and library defaults are those of the base.
pub proof fn law_options_keep_paths_and_limits(base: ConfigView, options: Option<BrowserOptions>, legacy_show: Option<bool>)
    ensures
        with_options(base, options, legacy_show).data_dir == base.data_dir,
        with_options(base, options, legacy_show).config_dir == base.config_dir,
        with_options(base, options, legacy_show).browser_state_dir == base.browser_state_dir,
        with_options(base, options, legacy_show).chrome_profile_dir == base.chrome_profile_dir,
        with_options(base, options, legacy_show).max_sessions == base.max_sessions,
        with_options(base, options, legacy_show).session_timeout == base.session_timeout,
        with_options(base, options, legacy_show).notebook_url == base.notebook_url,
{
}

} // verus!
