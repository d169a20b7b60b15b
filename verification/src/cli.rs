//! The `config` sub-command of the server binary: reading its arguments into a
//! command, the settings change it makes, and what it prints.

use vstd::prelude::*;
use crate::text::{owned, concat2, str_eq, split_char, split_on, trim, trimmed};
use crate::library::types::strs;
use crate::utils::settings_manager::{ProfileName, SettingsPatch, profile_label, env_profile};

verus! {

/// A `config` sub-command.
#[derive(Debug)]
pub enum ConfigCommand {
    /// `get`: print the effective settings.
    Get,
    /// `set profile <name>` with a known profile.
    SetProfile(ProfileName),
    /// `set profile <name>` with an unknown name.
    UnknownProfile(String),
    /// `set disabled-tools <a,b,...>`: the comma-separated names, trimmed.
    SetDisabledTools(Vec<String>),
    /// `reset`: save an empty change.
    Reset,
    /// `set` without a known field and a value.
    SetUsage,
    /// No sub-command, or an unknown one.
    Usage,
}

pub open spec fn profile_named(s: Seq<char>) -> Option<ProfileName> {
    if s == "minimal"@ {
        Some(ProfileName::Minimal)
    } else if s == "standard"@ {
        Some(ProfileName::Standard)
    } else if s == "full"@ {
        Some(ProfileName::Full)
    } else {
        None
    }
}

/// The tool names of a `disabled-tools` value: split at commas, each trimmed.
pub open spec fn tool_list(s: Seq<char>) -> Seq<Seq<char>> {
    split_on(s, ',').map_values(|p: Seq<char>| trimmed(p))
}

fn parse_profile(name: &str) -> (r: Option<ProfileName>)
    ensures
        r == profile_named(name@),
{
    if str_eq(name, "minimal") {
        Some(ProfileName::Minimal)
    } else if str_eq(name, "standard") {
        Some(ProfileName::Standard)
    } else if str_eq(name, "full") {
        Some(ProfileName::Full)
    } else {
        None
    }
}

fn parse_tool_list(s: &str) -> (r: Vec<String>)
    ensures
        strs(r@) == tool_list(s@),
{
    let parts = split_char(s, ',');
    let ghost ps = parts@.map_values(|p: String| p@);
    let mut r: Vec<String> = Vec::new();
    let mut i: usize = 0;
    while i < parts.len()
        invariant
            i <= parts.len(),
            ps == parts@.map_values(|p: String| p@),
            r@.len() == i,
            forall|j: int| 0 <= j < i ==> #[trigger] r@[j]@ == trimmed(ps[j]),
        decreases parts.len() - i,
    {
        r.push(trim(parts[i].as_str()));
        i = i + 1;
    }
    assert(strs(r@) =~= tool_list(s@));
    r
}

/// Reads the arguments that follow `config`.
pub fn parse_config_command(args: &Vec<String>) -> (r: ConfigCommand)
    ensures
        ({
            let a = strs(args@);
            if a.len() == 0 {
                r is Usage
            } else if a[0] == "get"@ {
                r is Get
            } else if a[0] == "reset"@ {
                r is Reset
            } else if a[0] == "set"@ {
                if a.len() >= 3 && a[1] == "profile"@ {
                    match profile_named(a[2]) {
                        Some(p) => (r matches ConfigCommand::SetProfile(q) && q == p),
                        None => (r matches ConfigCommand::UnknownProfile(n) && n@ == a[2]),
                    }
                } else if a.len() >= 3 && a[1] == "disabled-tools"@ {
                    (r matches ConfigCommand::SetDisabledTools(v) && strs(v@) == tool_list(a[2]))
                } else {
                    r is SetUsage
                }
            } else {
                r is Usage
            }
        }),
{
    let ghost a = strs(args@);
    if args.len() == 0 {
        return ConfigCommand::Usage;
    }
    assert(a[0] == args@[0]@);
    let first = args[0].as_str();
    if str_eq(first, "get") {
        ConfigCommand::Get
    } else if str_eq(first, "reset") {
        ConfigCommand::Reset
    } else if str_eq(first, "set") {
        if args.len() >= 3 {
            assert(a[1] == args@[1]@);
            assert(a[2] == args@[2]@);
            let field = args[1].as_str();
            let value = args[2].as_str();
            if str_eq(field, "profile") {
                match parse_profile(value) {
                    Some(p) => ConfigCommand::SetProfile(p),
                    None => ConfigCommand::UnknownProfile(owned(value)),
                }
            } else if str_eq(field, "disabled-tools") {
                ConfigCommand::SetDisabledTools(parse_tool_list(value))
            } else {
                ConfigCommand::SetUsage
            }
        } else {
            ConfigCommand::SetUsage
        }
    } else {
        ConfigCommand::Usage
    }
}

/// The settings change a command saves, if it saves one: `set` replaces the
/// profile or the disabled tools, and `reset` restores the defaults: the full
/// profile with no tool disabled.
pub fn config_patch(cmd: ConfigCommand) -> (r: Option<SettingsPatch>)
    ensures
        match cmd {
            ConfigCommand::SetProfile(p) => (r matches Some(s) && s.profile == Some(p)
                && s.disabled_tools.is_none() && s.custom_settings.is_none()),
            ConfigCommand::SetDisabledTools(v) => (r matches Some(s) && s.profile.is_none()
                && s.disabled_tools == Some(v) && s.custom_settings.is_none()),
            ConfigCommand::Reset => (r matches Some(s) && s.profile == Some(ProfileName::Full)
                && s.disabled_tools.is_some() && s.disabled_tools.unwrap()@.len() == 0
                && s.custom_settings.is_none()),
            _ => r.is_none(),
        },
{
    match cmd {
        ConfigCommand::SetProfile(p) => Some(SettingsPatch { profile: Some(p), disabled_tools: None, custom_settings: None }),
        ConfigCommand::SetDisabledTools(v) => Some(SettingsPatch { profile: None, disabled_tools: Some(v), custom_settings: None }),
        ConfigCommand::Reset => Some(SettingsPatch {
            profile: Some(ProfileName::Full),
            disabled_tools: Some(Vec::new()),
            custom_settings: None,
        }),
        _ => None,
    }
}

/// What a command prints on success (on standard output, after its change was
/// saved), or the lines it prints on standard error before exiting with status 1.
/// `get` prints the settings themselves, which the caller renders.
pub fn command_reply(cmd: &ConfigCommand, args: &Vec<String>) -> (r: Result<Option<String>, Vec<String>>)
    requires
        cmd is SetProfile ==> args@.len() >= 3,
    ensures
        match cmd {
            ConfigCommand::Get => r == Ok::<Option<String>, Vec<String>>(None),
            ConfigCommand::SetProfile(_) => (r matches Ok(Some(m)) && m@ == "Profile set to '"@ + args@[2]@ + "'"@),
            ConfigCommand::SetDisabledTools(_) => (r matches Ok(Some(m)) && m@ == "Disabled tools updated"@),
            ConfigCommand::Reset => (r matches Ok(Some(m)) && m@ == "Settings reset to defaults"@),
            ConfigCommand::UnknownProfile(n) => (r matches Err(v) && v@.len() == 1
                && v@[0]@ == "Unknown profile '"@ + n@ + "'. Valid: minimal, standard, full"@),
            ConfigCommand::SetUsage => (r matches Err(v) && v@.len() == 2
                && v@[0]@ == "Usage: notebooklm-mcp config set profile <minimal|standard|full>"@
                && v@[1]@ == "       notebooklm-mcp config set disabled-tools <tool1,tool2>"@),
            ConfigCommand::Usage => (r matches Err(v) && v@.len() == 1
                && v@[0]@ == "Usage: notebooklm-mcp config <get|set|reset>"@),
        },
{
    match cmd {
        ConfigCommand::Get => Ok(None),
        ConfigCommand::SetProfile(_) => {
            let a = concat2("Profile set to '", args[2].as_str());
            Ok(Some(concat2(a.as_str(), "'")))
        },
        ConfigCommand::SetDisabledTools(_) => Ok(Some(owned("Disabled tools updated"))),
        ConfigCommand::Reset => Ok(Some(owned("Settings reset to defaults"))),
        ConfigCommand::UnknownProfile(n) => {
            let a = concat2("Unknown profile '", n.as_str());
            let mut v: Vec<String> = Vec::new();
            v.push(concat2(a.as_str(), "'. Valid: minimal, standard, full"));
            Err(v)
        },
        ConfigCommand::SetUsage => {
            let mut v: Vec<String> = Vec::new();
            v.push(owned("Usage: notebooklm-mcp config set profile <minimal|standard|full>"));
            v.push(owned("       notebooklm-mcp config set disabled-tools <tool1,tool2>"));
            Err(v)
        },
        ConfigCommand::Usage => {
            let mut v: Vec<String> = Vec::new();
            v.push(owned("Usage: notebooklm-mcp config <get|set|reset>"));
            Err(v)
        },
    }
}

/// Every profile the command line lists as valid parses to that profile.
pub proof fn law_cli_parses_every_profile(p: ProfileName)
    ensures
        profile_named(profile_label(p)) == Some(p),
{
    reveal_strlit("minimal");
    reveal_strlit("standard");
    reveal_strlit("full");
    assert("minimal"@ != "standard"@ && "minimal"@ != "full"@ && "standard"@ != "full"@) by {
        assert("minimal"@.len() == 7 && "standard"@.len() == 8 && "full"@.len() == 4);
    }
}

/// A name the command line accepts is exactly the name of the profile it
/// gives, and the environment override reads the same names the same way.
pub proof fn law_cli_and_env_agree(s: Seq<char>, stored: ProfileName)
    ensures
        profile_named(s) matches Some(p) ==> profile_label(p) == s,
        env_profile(Some(s), stored) == (match profile_named(s) {
            Some(p) => p,
            None => stored,
        }),
{
}

} // verus!
