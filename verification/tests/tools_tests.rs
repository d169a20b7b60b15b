use notebooklm_core::config::{AppDirs, Config, EnvVars};
use notebooklm_core::library::notebook_library::NotebookLibrary;
use notebooklm_core::library::types::{AddNotebookInput, Library, UpdateNotebookInput};
use notebooklm_core::session::session_manager::SessionManager;
use notebooklm_core::tools::definitions::{build_ask_question_description, DESCRIPTION_NO_ACTIVE};
use notebooklm_core::tools::handlers::{
    add_notebook_reply, ask_target, close_session_reply, count_active_use, follow_up_reminder, get_notebook_reply,
    missing_parameter, remove_notebook_reply, reset_session_reply, select_notebook_reply, update_notebook_reply,
};

fn plain_config() -> Config {
    let dirs = AppDirs { data_dir: "/tmp/d".into(), config_dir: "/tmp/c".into() };
    Config::build_from_env(&EnvVars::empty(), &dirs, None)
}

fn empty_library() -> NotebookLibrary {
    NotebookLibrary::new(Some(Library::default()), &plain_config())
}

fn input(name: &str) -> AddNotebookInput {
    AddNotebookInput {
        url: format!("https://notebooklm.google.com/notebook/{name}"),
        name: name.to_string(),
        description: format!("Docs of {name}"),
        topics: vec!["hooks".into(), "state".into()],
        content_types: None,
        use_cases: Some(vec!["Build UIs".into(), "Debug renders".into()]),
        tags: None,
    }
}

#[test]
fn follow_up_reminder_text() {
    let r = follow_up_reminder();
    assert!(r.starts_with("\n\n---\n💡 **Keep researching?**"));
    assert!(r.ends_with("Only reply to the user once you are **100% sure** the information is complete."));
    assert!(r.contains("Great answers often require 2–4 targeted questions."));
}

#[test]
fn ask_requires_a_question() {
    let lib = empty_library();
    match ask_target(None, Some("https://x"), &lib, &plain_config()) {
        Err(e) => assert_eq!(e, "Missing required parameter 'question'"),
        Ok(_) => panic!("expected an error"),
    }
    assert_eq!(missing_parameter("id"), "Missing required parameter 'id'");
}

#[test]
fn ask_without_any_notebook_fails() {
    let lib = empty_library();
    match ask_target(Some("Q?"), Some(""), &lib, &plain_config()) {
        Err(e) => assert_eq!(
            e,
            "No notebook selected. Use add_notebook + select_notebook first, or pass notebook_url directly to ask_question."
        ),
        Ok(_) => panic!("expected an error"),
    }
}

#[test]
fn ask_prefers_the_argument_then_the_active_notebook() {
    let mut lib = empty_library();
    lib.add_notebook(input("react"));
    let t = ask_target(Some("Q?"), Some("https://adhoc"), &lib, &plain_config()).unwrap();
    assert_eq!(t.notebook_url, "https://adhoc");
    assert_eq!(t.question, "Q?");
    let t = ask_target(Some("Q?"), None, &lib, &plain_config()).unwrap();
    assert_eq!(t.notebook_url, "https://notebooklm.google.com/notebook/react");
    let t = ask_target(Some("Q?"), Some(""), &lib, &plain_config()).unwrap();
    assert_eq!(t.notebook_url, "https://notebooklm.google.com/notebook/react");
}

#[test]
fn ask_falls_back_to_the_configured_notebook_url() {
    let dirs = AppDirs { data_dir: "/tmp/d".into(), config_dir: "/tmp/c".into() };
    let env = EnvVars::empty().with("NOTEBOOK_URL", "https://notebooklm.google.com/notebook/env");
    let cfg = Config::build_from_env(&env, &dirs, None);
    let lib = empty_library();
    let t = ask_target(Some("Q?"), None, &lib, &cfg).unwrap();
    assert_eq!(t.notebook_url, "https://notebooklm.google.com/notebook/env");
    let t = ask_target(Some("Q?"), Some("https://adhoc"), &lib, &cfg).unwrap();
    assert_eq!(t.notebook_url, "https://adhoc");
    let mut lib = empty_library();
    lib.add_notebook(input("react"));
    let t = ask_target(Some("Q?"), Some(""), &lib, &cfg).unwrap();
    assert_eq!(t.notebook_url, "https://notebooklm.google.com/notebook/react");
}

#[test]
fn questions_count_against_the_active_notebook() {
    let mut lib = empty_library();
    assert!(count_active_use(&mut lib).is_none());
    lib.add_notebook(input("react"));
    let nb = count_active_use(&mut lib).unwrap();
    assert_eq!(nb.use_count, 1);
    assert_eq!(lib.get_stats().total_queries, 1);
}

#[test]
fn library_tool_replies() {
    let mut lib = empty_library();
    let (nb, msg) = add_notebook_reply(&mut lib, input("React Docs"));
    assert_eq!(nb.id, "react-docs");
    assert_eq!(msg, "Notebook 'React Docs' added to library (id: react-docs)");
    assert_eq!(get_notebook_reply(&lib, "react-docs").unwrap().name, "React Docs");
    assert_eq!(get_notebook_reply(&lib, "nope").unwrap_err(), "Notebook not found: nope");
    let (_, msg) = select_notebook_reply(&mut lib, "react-docs").unwrap();
    assert_eq!(msg, "Active notebook set to 'React Docs'");
    assert_eq!(select_notebook_reply(&mut lib, "nope").unwrap_err(), "Notebook not found: nope");
    let upd = UpdateNotebookInput {
        id: "react-docs".into(),
        name: Some("React".into()),
        description: None,
        topics: None,
        content_types: None,
        use_cases: None,
        tags: None,
        url: None,
    };
    let (nb, msg) = update_notebook_reply(&mut lib, upd).unwrap();
    assert_eq!(nb.name, "React");
    assert_eq!(msg, "Notebook 'react-docs' updated");
    assert_eq!(remove_notebook_reply(&mut lib, "react-docs").unwrap(), "Notebook 'react-docs' removed from library");
    assert_eq!(remove_notebook_reply(&mut lib, "react-docs").unwrap_err(), "Notebook not found: react-docs");
}

#[test]
fn session_tool_replies() {
    let mut sm = SessionManager::new();
    sm.insert_session("s1".into(), "https://x".into(), 0);
    sm.record_activity("s1", 10, true);
    assert_eq!(reset_session_reply(&mut sm, "s1", 20).unwrap(), "Session 's1' chat history reset");
    assert_eq!(sm.get_session("s1").unwrap().message_count, 0);
    assert_eq!(reset_session_reply(&mut sm, "s2", 20).unwrap_err(), "Session not found: s2");
    assert_eq!(close_session_reply(&mut sm, "s1").unwrap(), "Session 's1' closed");
    assert_eq!(close_session_reply(&mut sm, "s1").unwrap_err(), "Session not found: s1");
}

#[test]
fn description_without_active_notebook() {
    let lib = empty_library();
    let d = build_ask_question_description(&lib);
    assert_eq!(d, DESCRIPTION_NO_ACTIVE);
    assert!(d.contains("## No Active Notebook"));
}

#[test]
fn description_names_the_active_notebook() {
    let mut lib = empty_library();
    lib.add_notebook(input("react"));
    let d = build_ask_question_description(&lib);
    assert!(d.starts_with("# Conversational Research Partner (NotebookLM • Gemini 2.5 • Session RAG)\n\n**Active Notebook:** react\n**Content:** Docs of react\n**Topics:** hooks, state\n"));
    assert!(d.contains("## When To Use\n  - Build UIs\n  - Debug renders\n\n## Rules (Important)"));
    assert!(d.contains("```javascript\n// 1) Start broad"));
    assert!(d.contains("ask_question({ question: \"Key APIs/methods?\", session_id })"));
    assert!(d.ends_with("- Default: active notebook (react)\n- Or set notebook_id to use a library notebook\n- Or set notebook_url for ad-hoc notebooks (not in library)\n- If ambiguous which notebook fits, ASK the user which to use"));
}
