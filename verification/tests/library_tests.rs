use notebooklm_core::config::{AppDirs, Config, EnvVars};
use notebooklm_core::library::notebook_library::{id_for_slug, LibraryError, NotebookLibrary};
use notebooklm_core::library::types::{AddNotebookInput, Library, UpdateNotebookInput};

fn test_config() -> Config {
    let dirs = AppDirs { data_dir: "/tmp/nlm-data".to_string(), config_dir: "/tmp/nlm-config".to_string() };
    Config::build_from_env(&EnvVars::empty(), &dirs, None)
}

fn empty_library() -> NotebookLibrary {
    NotebookLibrary::new(Some(Library::default()), &test_config())
}

fn sample_input(name: &str) -> AddNotebookInput {
    AddNotebookInput {
        url: format!("https://notebooklm.google.com/notebook/{name}"),
        name: name.to_string(),
        description: format!("Test notebook: {name}"),
        topics: vec!["testing".into()],
        content_types: None,
        use_cases: None,
        tags: None,
    }
}

#[test]
fn add_and_list() {
    let mut lib = empty_library();
    let nb = lib.add_notebook(sample_input("my-docs"));
    assert_eq!(nb.id, "my-docs");
    assert_eq!(lib.list_notebooks().len(), 1);
}

#[test]
fn first_notebook_becomes_active() {
    let mut lib = empty_library();
    lib.add_notebook(sample_input("alpha"));
    assert_eq!(lib.get_active_notebook().unwrap().id, "alpha");
}

#[test]
fn search_by_topic() {
    let mut lib = empty_library();
    lib.add_notebook(AddNotebookInput { topics: vec!["rust".into(), "async".into()], ..sample_input("tokio-guide") });
    lib.add_notebook(sample_input("python-guide"));
    let results = lib.search_notebooks("rust");
    assert_eq!(results.len(), 1);
    assert_eq!(results[0].id, "tokio-guide");
}

#[test]
fn remove_active_promotes_another() {
    let mut lib = empty_library();
    lib.add_notebook(sample_input("first"));
    lib.add_notebook(sample_input("second"));
    lib.select_notebook("first").unwrap();
    assert!(lib.remove_notebook("first"));
    assert_eq!(lib.get_active_notebook().unwrap().id, "second");
}

#[test]
fn duplicate_names_get_unique_ids() {
    let mut lib = empty_library();
    lib.add_notebook(sample_input("my docs"));
    let nb2 = lib.add_notebook(sample_input("my docs"));
    assert_eq!(nb2.id, "my-docs-1");
}

#[test]
fn increment_use_count() {
    let mut lib = empty_library();
    lib.add_notebook(sample_input("counter"));
    lib.increment_use_count("counter");
    lib.increment_use_count("counter");
    let stats = lib.get_stats();
    assert_eq!(stats.total_queries, 2);
}

#[test]
fn third_duplicate_gets_suffix_two() {
    let mut lib = empty_library();
    lib.add_notebook(sample_input("my docs"));
    lib.add_notebook(sample_input("my docs"));
    let nb3 = lib.add_notebook(sample_input("my docs"));
    assert_eq!(nb3.id, "my-docs-2");
}

#[test]
fn id_is_slugified_name() {
    let mut lib = empty_library();
    let nb = lib.add_notebook(sample_input("React Hooks Guide!"));
    assert_eq!(nb.id, "react-hooks-guide");
}

#[test]
fn default_metadata_filled_in() {
    let mut lib = empty_library();
    let nb = lib.add_notebook(sample_input("n8n"));
    assert_eq!(nb.content_types, vec!["documentation".to_string(), "examples".to_string()]);
    assert_eq!(nb.use_cases, vec!["Learning about n8n".to_string(), "Implementing features with n8n".to_string()]);
    assert_eq!(nb.use_count, 0);
}

#[test]
fn get_after_add_returns_the_notebook() {
    let mut lib = empty_library();
    let nb = lib.add_notebook(sample_input("beta"));
    let got = lib.get_notebook("beta").unwrap();
    assert_eq!(got.url, nb.url);
    assert!(lib.get_notebook("missing").is_none());
}

#[test]
fn select_unknown_is_not_found() {
    let mut lib = empty_library();
    lib.add_notebook(sample_input("alpha"));
    match lib.select_notebook("nope") {
        Err(e) => {
            assert!(matches!(e, LibraryError::NotFound(_)));
            assert_eq!(e.message(), "Notebook not found: nope");
        }
        Ok(_) => panic!("expected an error"),
    }
    assert_eq!(lib.get_active_notebook().unwrap().id, "alpha");
}

#[test]
fn update_replaces_given_fields_only() {
    let mut lib = empty_library();
    lib.add_notebook(sample_input("alpha"));
    let upd = UpdateNotebookInput {
        id: "alpha".into(),
        name: None,
        description: Some("New description".into()),
        topics: None,
        content_types: None,
        use_cases: None,
        tags: Some(vec!["t".into()]),
        url: None,
    };
    let nb = lib.update_notebook(upd).unwrap();
    assert_eq!(nb.description, "New description");
    assert_eq!(nb.name, "alpha");
    assert_eq!(nb.tags, Some(vec!["t".to_string()]));
    let missing = UpdateNotebookInput {
        id: "zzz".into(),
        name: None,
        description: None,
        topics: None,
        content_types: None,
        use_cases: None,
        tags: None,
        url: None,
    };
    assert!(lib.update_notebook(missing).is_err());
}

#[test]
fn remove_unknown_returns_false() {
    let mut lib = empty_library();
    lib.add_notebook(sample_input("alpha"));
    assert!(!lib.remove_notebook("beta"));
    assert_eq!(lib.list_notebooks().len(), 1);
}

#[test]
fn remove_last_clears_active() {
    let mut lib = empty_library();
    lib.add_notebook(sample_input("only"));
    assert!(lib.remove_notebook("only"));
    assert!(lib.get_active_notebook().is_none());
}

#[test]
fn empty_query_matches_everything() {
    let mut lib = empty_library();
    lib.add_notebook(sample_input("a"));
    lib.add_notebook(sample_input("b"));
    assert_eq!(lib.search_notebooks("").len(), 2);
}

#[test]
fn search_is_case_insensitive() {
    let mut lib = empty_library();
    lib.add_notebook(AddNotebookInput { topics: vec!["Rust".into()], ..sample_input("guide") });
    assert_eq!(lib.search_notebooks("RUST").len(), 1);
}

#[test]
fn stats_report_most_used() {
    let mut lib = empty_library();
    lib.add_notebook(sample_input("a"));
    lib.add_notebook(sample_input("b"));
    lib.increment_use_count("b");
    let stats = lib.get_stats();
    assert_eq!(stats.total_notebooks, 2);
    assert_eq!(stats.active_notebook, Some("a".to_string()));
    assert_eq!(stats.most_used_notebook, Some("b".to_string()));
    assert_eq!(stats.total_queries, 1);
}

#[test]
fn increment_unknown_is_none() {
    let mut lib = empty_library();
    assert!(lib.increment_use_count("ghost").is_none());
}

#[test]
fn default_library_from_config_notebook() {
    let dirs = AppDirs { data_dir: "/tmp/d".into(), config_dir: "/tmp/c".into() };
    let env = EnvVars::empty()
        .with("NOTEBOOK_URL", "https://notebooklm.google.com/notebook/x")
        .with("NOTEBOOK_DESCRIPTION", "Team handbook");
    let cfg = Config::build_from_env(&env, &dirs, None);
    let lib = NotebookLibrary::new(None, &cfg);
    let nb = lib.get_active_notebook().unwrap();
    assert_eq!(nb.id, "team-handbook");
    assert_eq!(nb.name, "Team handbook");
    assert_eq!(nb.url, "https://notebooklm.google.com/notebook/x");
}

#[test]
fn default_library_without_config_is_empty() {
    let lib = NotebookLibrary::new(None, &test_config());
    assert_eq!(lib.list_notebooks().len(), 0);
    assert_eq!(lib.library().version, "1.0.0");
}

#[test]
fn empty_update_changes_nothing() {
    let mut lib = empty_library();
    let before = lib.add_notebook(sample_input("alpha"));
    let upd = UpdateNotebookInput {
        id: "alpha".into(),
        name: None,
        description: None,
        topics: None,
        content_types: None,
        use_cases: None,
        tags: None,
        url: None,
    };
    let after = lib.update_notebook(upd).unwrap();
    assert_eq!(after.name, before.name);
    assert_eq!(after.description, before.description);
    assert_eq!(after.topics, before.topics);
    assert_eq!(after.url, before.url);
    assert_eq!(after.use_count, before.use_count);
}

#[test]
fn select_makes_the_notebook_active() {
    let mut lib = empty_library();
    lib.add_notebook(sample_input("a"));
    lib.add_notebook(sample_input("b"));
    let nb = lib.select_notebook("b").unwrap();
    assert_eq!(nb.id, "b");
    assert_eq!(lib.get_active_notebook().unwrap().id, "b");
    assert_eq!(lib.get_stats().active_notebook, Some("b".to_string()));
}

#[test]
fn ids_from_slugs() {
    let mut lib = empty_library();
    assert_eq!(id_for_slug(&lib.list_notebooks(), "react"), "react");
    assert_eq!(id_for_slug(&lib.list_notebooks(), ""), "notebook");
    assert_eq!(id_for_slug(&lib.list_notebooks(), &"x".repeat(40)), "x".repeat(30));
    lib.add_notebook(sample_input("react"));
    lib.add_notebook(sample_input("react"));
    assert_eq!(id_for_slug(&lib.list_notebooks(), "react"), "react-2");
}
