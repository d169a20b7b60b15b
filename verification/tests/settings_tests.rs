use notebooklm_core::utils::settings_manager::{profile_tools, ProfileName, Settings, SettingsEnv, SettingsManager, SettingsPatch};
use notebooklm_core::cli::{config_patch, ConfigCommand};

fn fresh_manager() -> SettingsManager {
    SettingsManager::new(None)
}

#[test]
fn default_profile_is_full() {
    let mgr = fresh_manager();
    assert_eq!(mgr.get_effective_settings(&SettingsEnv::none()).profile, ProfileName::Full);
}

#[test]
fn full_profile_allows_all_tools() {
    let mgr = fresh_manager();
    let all = ["ask_question", "get_health", "cleanup_data", "re_auth"];
    let filtered = mgr.filter_tool_names(&all, &SettingsEnv::none());
    assert_eq!(filtered.len(), 4);
}

#[test]
fn minimal_profile_restricts_tools() {
    let mut mgr = fresh_manager();
    mgr.save_settings(SettingsPatch { profile: Some(ProfileName::Minimal), ..Default::default() });
    let all = ["ask_question", "cleanup_data", "re_auth", "get_health"];
    let filtered = mgr.filter_tool_names(&all, &SettingsEnv::none());
    assert!(filtered.contains(&"ask_question"));
    assert!(filtered.contains(&"get_health"));
    assert!(!filtered.contains(&"cleanup_data"));
    assert!(!filtered.contains(&"re_auth"));
}

#[test]
fn disabled_tools_are_excluded() {
    let mut mgr = fresh_manager();
    mgr.save_settings(SettingsPatch { disabled_tools: Some(vec!["get_health".into()]), ..Default::default() });
    let filtered = mgr.filter_tool_names(&["ask_question", "get_health"], &SettingsEnv::none());
    assert!(filtered.contains(&"ask_question"));
    assert!(!filtered.contains(&"get_health"));
}

#[test]
fn settings_round_trip() {
    let mut mgr = fresh_manager();
    mgr.save_settings(SettingsPatch {
        profile: Some(ProfileName::Standard),
        disabled_tools: Some(vec!["re_auth".into()]),
        ..Default::default()
    });
    let saved = mgr.settings();
    let reloaded = SettingsManager::new(Some(Settings {
        profile: saved.profile,
        disabled_tools: saved.disabled_tools.clone(),
        custom_settings: None,
    }));
    let loaded = reloaded.settings();
    assert_eq!(loaded.profile, ProfileName::Standard);
    assert_eq!(loaded.disabled_tools, ["re_auth"]);
}

#[test]
fn env_profile_overrides_file_profile() {
    let mgr = fresh_manager();
    let env = SettingsEnv { profile: Some("minimal".into()), disabled_tools: None };
    assert_eq!(mgr.get_effective_settings(&env).profile, ProfileName::Minimal);
    let unknown = SettingsEnv { profile: Some("huge".into()), disabled_tools: None };
    assert_eq!(mgr.get_effective_settings(&unknown).profile, ProfileName::Full);
}

#[test]
fn env_disabled_tools_extend_without_duplicates() {
    let mut mgr = fresh_manager();
    mgr.save_settings(SettingsPatch { disabled_tools: Some(vec!["re_auth".into()]), ..Default::default() });
    let env = SettingsEnv { profile: None, disabled_tools: Some(" re_auth , get_health,, ".into()) };
    let eff = mgr.get_effective_settings(&env);
    assert_eq!(eff.disabled_tools, vec!["re_auth".to_string(), "get_health".to_string()]);
}

#[test]
fn standard_profile_lists_ten_tools() {
    let tools = profile_tools(ProfileName::Standard);
    assert_eq!(tools.len(), 10);
    assert!(tools.contains(&"search_notebooks"));
    assert_eq!(profile_tools(ProfileName::Full), vec!["*"]);
}

#[test]
fn filter_keeps_input_order() {
    let mgr = fresh_manager();
    let filtered = mgr.filter_tool_names(&["b_tool", "a_tool", "c_tool"], &SettingsEnv::none());
    assert_eq!(filtered, vec!["b_tool", "a_tool", "c_tool"]);
}

#[test]
fn custom_settings_are_kept_and_replaced() {
    let mut mgr = fresh_manager();
    assert!(mgr.get_effective_settings(&SettingsEnv::none()).custom_settings.is_none());
    let mut map = serde_json::Map::new();
    map.insert("theme".to_string(), serde_json::Value::String("dark".to_string()));
    let value = serde_json::Value::Object(map);
    mgr.save_settings(SettingsPatch { custom_settings: Some(value.clone()), ..Default::default() });
    assert_eq!(mgr.get_effective_settings(&SettingsEnv::none()).custom_settings, Some(value.clone()));
    mgr.save_settings(SettingsPatch { profile: Some(ProfileName::Minimal), ..Default::default() });
    assert_eq!(mgr.settings().custom_settings, Some(value));
}

#[test]
fn profiles_nest() {
    let all = [
        "ask_question", "add_notebook", "list_notebooks", "get_notebook", "select_notebook", "update_notebook",
        "remove_notebook", "search_notebooks", "get_library_stats", "list_sessions", "close_session",
        "reset_session", "get_health", "setup_auth", "re_auth", "cleanup_data",
    ];
    let with = |p: ProfileName| {
        let mut mgr = fresh_manager();
        mgr.save_settings(SettingsPatch { profile: Some(p), ..Default::default() });
        mgr.filter_tool_names(&all, &SettingsEnv::none())
    };
    let minimal = with(ProfileName::Minimal);
    let standard = with(ProfileName::Standard);
    let full = with(ProfileName::Full);
    assert_eq!(minimal.len(), 5);
    assert_eq!(standard.len(), 10);
    assert_eq!(full.len(), all.len());
    assert!(minimal.iter().all(|t| standard.contains(t)));
    assert!(standard.iter().all(|t| full.contains(t)));
}

#[test]
fn reset_restores_defaults_after_set() {
    let mut mgr = fresh_manager();
    mgr.save_settings(SettingsPatch {
        profile: Some(ProfileName::Minimal),
        disabled_tools: Some(vec!["re_auth".into()]),
        ..Default::default()
    });
    mgr.save_settings(config_patch(ConfigCommand::Reset).unwrap());
    let eff = mgr.get_effective_settings(&SettingsEnv::none());
    assert_eq!(eff.profile, ProfileName::Full);
    assert!(eff.disabled_tools.is_empty());
}
