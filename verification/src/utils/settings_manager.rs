//! Tool profiles and disabled-tool lists.
//!
//! The settings document (`settings.json`) is read and written by the caller;
//! this module merges it with the environment overrides and filters tool
//! names by the effective profile.

use vstd::prelude::*;
use crate::text::{str_eq, split_on};
use crate::config::{comma_list, list_items};
use crate::library::types::{strs, copy_strs};

verus! {

#[derive(Debug, Clone, Copy, PartialEq, Eq, Structural, Hash)]
pub enum ProfileName {
    Minimal,
    Standard,
    Full,
}

impl Default for ProfileName {
    fn default() -> (r: ProfileName)
        ensures
            r == ProfileName::Full,
    {
        ProfileName::Full
    }
}

/// The characters of each name.
pub open spec fn names(v: Seq<&str>) -> Seq<Seq<char>> {
    v.map_values(|t: &str| t@)
}

/// The tools each profile allows; `*` allows every tool.
pub open spec fn profile_list(p: ProfileName) -> Seq<Seq<char>> {
    match p {
        ProfileName::Minimal => seq![
            "ask_question"@, "get_health"@, "list_notebooks"@, "select_notebook"@, "get_notebook"@,
        ],
        ProfileName::Standard => seq![
            "ask_question"@, "get_health"@, "list_notebooks"@, "select_notebook"@, "get_notebook"@,
            "setup_auth"@, "list_sessions"@, "add_notebook"@, "update_notebook"@, "search_notebooks"@,
        ],
        ProfileName::Full => seq!["*"@],
    }
}

/// The tool allowlist of a profile.
pub fn profile_tools(p: ProfileName) -> (r: Vec<&'static str>)
    ensures
        names(r@) == profile_list(p),
{
    let mut v: Vec<&'static str> = Vec::new();
    match p {
        ProfileName::Minimal => {
            v.push("ask_question");
            v.push("get_health");
            v.push("list_notebooks");
            v.push("select_notebook");
            v.push("get_notebook");
        },
        ProfileName::Standard => {
            v.push("ask_question");
            v.push("get_health");
            v.push("list_notebooks");
            v.push("select_notebook");
            v.push("get_notebook");
            v.push("setup_auth");
            v.push("list_sessions");
            v.push("add_notebook");
            v.push("update_notebook");
            v.push("search_notebooks");
        },
        ProfileName::Full => {
            v.push("*");
        },
    }
    assert(names(v@) =~= profile_list(p));
    v
}

/// Every profile with its tool allowlist.
pub fn profiles() -> (r: Vec<(ProfileName, Vec<&'static str>)>)
    ensures
        r@.len() == 3,
        r@[0].0 == ProfileName::Minimal,
        r@[1].0 == ProfileName::Standard,
        r@[2].0 == ProfileName::Full,
        forall|i: int| 0 <= i < 3 ==> #[trigger] names(r@[i].1@) == profile_list(r@[i].0),
{
    let mut r: Vec<(ProfileName, Vec<&'static str>)> = Vec::new();
    r.push((ProfileName::Minimal, profile_tools(ProfileName::Minimal)));
    r.push((ProfileName::Standard, profile_tools(ProfileName::Standard)));
    r.push((ProfileName::Full, profile_tools(ProfileName::Full)));
    r
}

#[verifier::external_type_specification]
#[verifier::external_body]
pub struct ExJsonValue(serde_json::Value);

/// Calls `serde_json::Value::clone`, which the crate derives: the copy equals the value copied.
#[verifier::external_body]
fn clone_json(v: &serde_json::Value) -> (r: serde_json::Value)
    ensures
        r == *v,
{
    v.clone()
}

#[derive(Debug)]
pub struct Settings {
    pub profile: ProfileName,
    pub disabled_tools: Vec<String>,
    pub custom_settings: Option<serde_json::Value>,
}

impl Default for Settings {
    fn default() -> (r: Settings)
        ensures
            r.profile == ProfileName::Full,
            r.disabled_tools@.len() == 0,
            r.custom_settings.is_none(),
    {
        Settings { profile: ProfileName::Full, disabled_tools: Vec::new(), custom_settings: None }
    }
}

/// Partial settings update.
#[derive(Debug)]
pub struct SettingsPatch {
    pub profile: Option<ProfileName>,
    pub disabled_tools: Option<Vec<String>>,
    pub custom_settings: Option<serde_json::Value>,
}

impl Default for SettingsPatch {
    fn default() -> (r: SettingsPatch)
        ensures
            r.profile.is_none(),
            r.disabled_tools.is_none(),
            r.custom_settings.is_none(),
    {
        SettingsPatch { profile: None, disabled_tools: None, custom_settings: None }
    }
}

/// The values of the `NOTEBOOKLM_PROFILE` and `NOTEBOOKLM_DISABLED_TOOLS`
/// environment variables.
#[derive(Debug)]
pub struct SettingsEnv {
    pub profile: Option<String>,
    pub disabled_tools: Option<String>,
}

impl SettingsEnv {
    /// Neither variable set.
    pub fn none() -> (r: SettingsEnv)
        ensures
            r.profile.is_none(),
            r.disabled_tools.is_none(),
    {
        SettingsEnv { profile: None, disabled_tools: None }
    }
}

/// The name of a profile, as settings, the environment and the command line spell it.
pub open spec fn profile_label(p: ProfileName) -> Seq<char> {
    match p {
        ProfileName::Minimal => "minimal"@,
        ProfileName::Standard => "standard"@,
        ProfileName::Full => "full"@,
    }
}

/// The profile after the environment override: `minimal`, `standard` and
/// `full` name a profile, anything else keeps the file's.
pub open spec fn env_profile(v: Option<Seq<char>>, base: ProfileName) -> ProfileName {
    match v {
        Some(s) => if s == "minimal"@ {
            ProfileName::Minimal
        } else if s == "standard"@ {
            ProfileName::Standard
        } else if s == "full"@ {
            ProfileName::Full
        } else {
            base
        },
        None => base,
    }
}

/// The disabled list extended by `items`, each added once.
pub open spec fn merge_disabled(base: Seq<Seq<char>>, items: Seq<Seq<char>>) -> Seq<Seq<char>>
    decreases items.len(),
{
    if items.len() == 0 {
        base
    } else {
        let acc = merge_disabled(base, items.drop_last());
        if acc.contains(items.last()) {
            acc
        } else {
            acc.push(items.last())
        }
    }
}

pub open spec fn env_disabled(base: Seq<Seq<char>>, v: Option<Seq<char>>) -> Seq<Seq<char>> {
    match v {
        Some(s) => merge_disabled(base, list_items(split_on(s, ','))),
        None => base,
    }
}

/// A tool survives the filter: the profile allows it (by name or by `*`) and it is not disabled.
pub open spec fn tool_allowed(name: Seq<char>, p: ProfileName, disabled: Seq<Seq<char>>) -> bool {
    (profile_list(p).contains("*"@) || profile_list(p).contains(name)) && !disabled.contains(name)
}

pub open spec fn kept_tools(tools: Seq<Seq<char>>, p: ProfileName, disabled: Seq<Seq<char>>) -> Seq<Seq<char>>
    decreases tools.len(),
{
    if tools.len() == 0 {
        Seq::empty()
    } else {
        let rest = kept_tools(tools.drop_last(), p, disabled);
        if tool_allowed(tools.last(), p, disabled) {
            rest.push(tools.last())
        } else {
            rest
        }
    }
}

fn contains_str(v: &Vec<String>, s: &str) -> (r: bool)
    ensures
        r == strs(v@).contains(s@),
{
    let mut i: usize = 0;
    while i < v.len()
        invariant
            i <= v.len(),
            forall|j: int| 0 <= j < i ==> #[trigger] strs(v@)[j] != s@,
        decreases v.len() - i,
    {
        assert(strs(v@)[i as int] == v@[i as int]@);
        if str_eq(v[i].as_str(), s) {
            return true;
        }
        i = i + 1;
    }
    false
}

fn contains_static(v: &Vec<&'static str>, s: &str) -> (r: bool)
    ensures
        r == names(v@).contains(s@),
{
    let ghost vs = names(v@);
    let mut i: usize = 0;
    while i < v.len()
        invariant
            vs == names(v@),
            i <= v.len(),
            forall|j: int| 0 <= j < i ==> #[trigger] vs[j] != s@,
        decreases v.len() - i,
    {
        assert(vs[i as int] == v@[i as int]@);
        if str_eq(v[i], s) {
            return true;
        }
        i = i + 1;
    }
    false
}

/// Model of the settings that the filter reads.
pub open spec fn settings_view(s: &Settings) -> (ProfileName, Seq<Seq<char>>, Option<serde_json::Value>) {
    (s.profile, strs(s.disabled_tools@), s.custom_settings)
}

pub struct SettingsManager {
    state: Settings,
}

impl View for SettingsManager {
    type V = (ProfileName, Seq<Seq<char>>, Option<serde_json::Value>);

    closed spec fn view(&self) -> (ProfileName, Seq<Seq<char>>, Option<serde_json::Value>) {
        settings_view(&self.state)
    }
}

impl SettingsManager {
    /// The manager over the settings read from disk, or the defaults when there
    /// were none or they could not be parsed.
    pub fn new(loaded: Option<Settings>) -> (r: SettingsManager)
        ensures
            loaded.is_some() ==> r@ == settings_view(&loaded.unwrap()),
            loaded.is_none() ==> r@ == (ProfileName::Full, Seq::<Seq<char>>::empty(), None::<serde_json::Value>),
    {
        match loaded {
            Some(s) => SettingsManager { state: s },
            None => {
                let s = Settings::default();
                assert(strs(s.disabled_tools@) =~= Seq::<Seq<char>>::empty());
                SettingsManager { state: s }
            },
        }
    }

    /// The settings as stored (for writing them to disk).
    pub fn settings(&self) -> (r: &Settings)
        ensures
            settings_view(r) == self@,
    {
        &self.state
    }

    /// Effective settings: the stored ones merged with the environment overrides.
    /// `NOTEBOOKLM_PROFILE` replaces the profile; `NOTEBOOKLM_DISABLED_TOOLS`
    /// (comma-separated) extends the disabled list with the tools not yet in it.
    pub fn get_effective_settings(&self, env: &SettingsEnv) -> (r: Settings)
        ensures
            r.profile == env_profile(crate::library::types::opt_str(env.profile), self@.0),
            strs(r.disabled_tools@) == env_disabled(self@.1, crate::library::types::opt_str(env.disabled_tools)),
            r.custom_settings == self@.2,
    {
        let profile = match &env.profile {
            Some(p) => {
                if str_eq(p.as_str(), "minimal") {
                    ProfileName::Minimal
                } else if str_eq(p.as_str(), "standard") {
                    ProfileName::Standard
                } else if str_eq(p.as_str(), "full") {
                    ProfileName::Full
                } else {
                    self.state.profile
                }
            },
            None => self.state.profile,
        };
        let mut disabled = copy_strs(&self.state.disabled_tools);
        match &env.disabled_tools {
            Some(list) => {
                let items = comma_list(list.as_str());
                let ghost is = strs(items@);
                let ghost base = self@.1;
                let mut i: usize = 0;
                assert(is.subrange(0, 0) =~= Seq::<Seq<char>>::empty());
                while i < items.len()
                    invariant
                        is == strs(items@),
                        i <= items.len(),
                        strs(disabled@) == merge_disabled(base, is.subrange(0, i as int)),
                    decreases items.len() - i,
                {
                    let ghost nxt = is.subrange(0, i + 1);
                    assert(nxt.drop_last() =~= is.subrange(0, i as int));
                    assert(nxt.last() == items@[i as int]@);
                    if !contains_str(&disabled, items[i].as_str()) {
                        let ghost before = disabled@;
                        disabled.push(items[i].clone());
                        assert(strs(disabled@) =~= strs(before).push(items@[i as int]@));
                    }
                    i = i + 1;
                }
                assert(is.subrange(0, items.len() as int) =~= is);
            },
            None => {},
        }
        Settings {
            profile,
            disabled_tools: disabled,
            custom_settings: match &self.state.custom_settings {
                Some(v) => Some(clone_json(v)),
                None => None,
            },
        }
    }

    /// Filter tool names by the effective profile and disabled list, keeping order.
    pub fn filter_tool_names<'a>(&self, all_tools: &[&'a str], env: &SettingsEnv) -> (r: Vec<&'a str>)
        ensures
            names(r@) == kept_tools(
                names(all_tools@),
                env_profile(crate::library::types::opt_str(env.profile), self@.0),
                env_disabled(self@.1, crate::library::types::opt_str(env.disabled_tools)),
            ),
    {
        let settings = self.get_effective_settings(env);
        let allowed = profile_tools(settings.profile);
        let is_wildcard = contains_static(&allowed, "*");
        let ghost ts = names(all_tools@);
        let ghost p = settings.profile;
        let ghost d = strs(settings.disabled_tools@);
        let mut out: Vec<&'a str> = Vec::new();
        let mut i: usize = 0;
        while i < all_tools.len()
            invariant
                ts == names(all_tools@),
                p == settings.profile,
                d == strs(settings.disabled_tools@),
                names(allowed@) == profile_list(p),
                is_wildcard == profile_list(p).contains("*"@),
                i <= all_tools.len(),
                names(out@) == kept_tools(ts.subrange(0, i as int), p, d),
            decreases all_tools.len() - i,
        {
            let name = all_tools[i];
            let ghost nxt = ts.subrange(0, i + 1);
            assert(nxt.drop_last() =~= ts.subrange(0, i as int));
            assert(nxt.last() == name@);
            let ok = (is_wildcard || contains_static(&allowed, name)) && !contains_str(&settings.disabled_tools, name);
            if ok {
                let ghost before = out@;
                out.push(name);
                assert(names(out@) =~= names(before).push(name@));
            }
            i = i + 1;
        }
        assert(ts.subrange(0, all_tools.len() as int) =~= ts);
        out
    }

    /// Apply a partial settings update: each field given replaces the stored one.
    pub fn save_settings(&mut self, patch: SettingsPatch)
        ensures
            final(self)@.0 == (match patch.profile { Some(p) => p, None => old(self)@.0 }),
            final(self)@.1 == (match patch.disabled_tools { Some(d) => strs(d@), None => old(self)@.1 }),
            final(self)@.2 == (match patch.custom_settings { Some(c) => Some(c), None => old(self)@.2 }),
    {
        if let Some(p) = patch.profile {
            self.state.profile = p;
        }
        if let Some(dt) = patch.disabled_tools {
            self.state.disabled_tools = dt;
        }
        if let Some(cs) = patch.custom_settings {
            self.state.custom_settings = Some(cs);
        }
    }
}

/// The filter keeps tools in their order and never adds one: its result is a
/// subsequence of the input made of allowed tools only.
pub proof fn law_filter_keeps_allowed(tools: Seq<Seq<char>>, p: ProfileName, disabled: Seq<Seq<char>>)
    ensures
        kept_tools(tools, p, disabled).len() <= tools.len(),
        forall|i: int| 0 <= i < kept_tools(tools, p, disabled).len() ==>
            tool_allowed(#[trigger] kept_tools(tools, p, disabled)[i], p, disabled)
            && tools.contains(kept_tools(tools, p, disabled)[i]),
    decreases tools.len(),
{
    if tools.len() > 0 {
        let init = tools.drop_last();
        law_filter_keeps_allowed(init, p, disabled);
        let rest = kept_tools(init, p, disabled);
        let k = kept_tools(tools, p, disabled);
        assert forall|i: int| 0 <= i < k.len() implies
            tool_allowed(#[trigger] k[i], p, disabled) && tools.contains(k[i]) by {
            if i < rest.len() {
                assert(k[i] == rest[i]);
                let j = choose|j: int| 0 <= j < init.len() && init[j] == rest[i];
                assert(tools[j] == init[j]);
            } else {
                assert(k[i] == tools.last());
                assert(tools[tools.len() - 1] == tools.last());
            }
        }
    }
}

/// The full profile with nothing disabled keeps every tool.
pub proof fn law_full_profile_keeps_all(tools: Seq<Seq<char>>)
    ensures
        kept_tools(tools, ProfileName::Full, Seq::empty()) == tools,
    decreases tools.len(),
{
    if tools.len() > 0 {
        law_full_profile_keeps_all(tools.drop_last());
        assert(profile_list(ProfileName::Full)[0] == "*"@);
        assert(profile_list(ProfileName::Full).contains("*"@));
        assert(tools.drop_last().push(tools.last()) =~= tools);
    }
}

/// A disabled tool never survives the filter, whatever the profile.
pub proof fn law_disabled_never_kept(tools: Seq<Seq<char>>, p: ProfileName, disabled: Seq<Seq<char>>, t: Seq<char>)
    requires
        disabled.contains(t),
    ensures
        !kept_tools(tools, p, disabled).contains(t),
{
    law_filter_keeps_allowed(tools, p, disabled);
    if kept_tools(tools, p, disabled).contains(t) {
        let i = choose|i: int| 0 <= i < kept_tools(tools, p, disabled).len() && kept_tools(tools, p, disabled)[i] == t;
        assert(tool_allowed(kept_tools(tools, p, disabled)[i], p, disabled));
    }
}

/// The profiles nest: a tool that the minimal profile allows the standard one
/// allows too, and the full profile allows every tool that another allows.
pub proof fn law_profiles_nest(name: Seq<char>, disabled: Seq<Seq<char>>)
    ensures
        tool_allowed(name, ProfileName::Minimal, disabled) ==> tool_allowed(name, ProfileName::Standard, disabled),
        tool_allowed(name, ProfileName::Standard, disabled) ==> tool_allowed(name, ProfileName::Full, disabled),
{
    let m = profile_list(ProfileName::Minimal);
    let st = profile_list(ProfileName::Standard);
    assert(profile_list(ProfileName::Full)[0] == "*"@);
    assert(profile_list(ProfileName::Full).contains("*"@));
    if tool_allowed(name, ProfileName::Minimal, disabled) {
        if m.contains("*"@) {
            let j = choose|j: int| 0 <= j < m.len() && m[j] == "*"@;
            assert(st[j] == m[j]);
        } else {
            let j = choose|j: int| 0 <= j < m.len() && m[j] == name;
            assert(st[j] == m[j]);
        }
    }
}

/// Merging environment items into a disabled list keeps the list (as a
/// prefix), adds every item, and adds no duplicate.
pub proof fn law_merge_disabled(base: Seq<Seq<char>>, items: Seq<Seq<char>>)
    ensures
        merge_disabled(base, items).len() >= base.len(),
        merge_disabled(base, items).subrange(0, base.len() as int) == base,
        forall|i: int| 0 <= i < items.len() ==> merge_disabled(base, items).contains(#[trigger] items[i]),
        base.no_duplicates() ==> merge_disabled(base, items).no_duplicates(),
    decreases items.len(),
{
    if items.len() > 0 {
        let init = items.drop_last();
        law_merge_disabled(base, init);
        let acc = merge_disabled(base, init);
        let m = merge_disabled(base, items);
        if !acc.contains(items.last()) {
            assert(m.subrange(0, base.len() as int) =~= acc.subrange(0, base.len() as int));
            assert forall|i: int| 0 <= i < items.len() implies m.contains(#[trigger] items[i]) by {
                if i < init.len() {
                    assert(init[i] == items[i]);
                    assert(acc.contains(init[i]));
                    let j = choose|j: int| 0 <= j < acc.len() && acc[j] == init[i];
                    assert(m[j] == acc[j]);
                } else {
                    assert(m[acc.len() as int] == items.last());
                }
            }
        } else {
            assert forall|i: int| 0 <= i < items.len() implies m.contains(#[trigger] items[i]) by {
                if i < init.len() {
                    assert(init[i] == items[i]);
                }
            }
        }
    }
}

/// `NOTEBOOKLM_PROFILE` set to a profile's name selects that profile,
/// whatever profile the settings file holds.
pub proof fn law_env_profile_selects_named(p: ProfileName, stored: ProfileName)
    ensures
        env_profile(Some(profile_label(p)), stored) == p,
{
    reveal_strlit("minimal");
    reveal_strlit("standard");
    reveal_strlit("full");
    assert("minimal"@ != "standard"@ && "minimal"@ != "full"@ && "standard"@ != "full"@) by {
        assert("minimal"@.len() == 7 && "standard"@.len() == 8 && "full"@.len() == 4);
    }
}

/// A `NOTEBOOKLM_PROFILE` value that names no profile leaves the stored profile,
/// and an override never yields a profile other than the one named or the stored one.
pub proof fn law_env_profile_named_or_stored(v: Seq<char>, stored: ProfileName)
    ensures
        env_profile(Some(v), stored) == stored
            || profile_label(env_profile(Some(v), stored)) == v,
{
}

} // verus!
