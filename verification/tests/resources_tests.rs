use notebooklm_core::config::{AppDirs, Config, EnvVars};
use notebooklm_core::library::notebook_library::NotebookLibrary;
use notebooklm_core::library::types::{AddNotebookInput, Library};
use notebooklm_core::resources::resource_handlers::{
    is_valid_notebook_id, notebook_resource_description, notebook_resource_uri, urlencoding_decode, ResourceHandlers,
    ResourceRead, NOTEBOOK_TEMPLATE_URI,
};

fn library_with(names: &[&str]) -> NotebookLibrary {
    let dirs = AppDirs { data_dir: "/tmp/d".into(), config_dir: "/tmp/c".into() };
    let cfg = Config::build_from_env(&EnvVars::empty(), &dirs, None);
    let mut lib = NotebookLibrary::new(Some(Library::default()), &cfg);
    for n in names {
        lib.add_notebook(AddNotebookInput {
            url: format!("https://notebooklm.google.com/notebook/{n}"),
            name: n.to_string(),
            description: format!("About {n}"),
            topics: vec!["a".into(), "b".into()],
            content_types: None,
            use_cases: None,
            tags: None,
        });
    }
    lib
}

#[test]
fn decode_plain_and_escaped() {
    assert_eq!(urlencoding_decode("my-docs").unwrap(), "my-docs");
    assert_eq!(urlencoding_decode("a%20b").unwrap(), "a b");
    assert_eq!(urlencoding_decode("%41%42").unwrap(), "AB");
}

#[test]
fn decode_errors() {
    assert_eq!(urlencoding_decode("%4").unwrap_err(), "Truncated percent-encoding");
    assert_eq!(urlencoding_decode("%").unwrap_err(), "Truncated percent-encoding");
    assert_eq!(urlencoding_decode("%zz").unwrap_err(), "invalid digit found in string");
}

#[test]
fn decode_high_byte_is_latin1() {
    assert_eq!(urlencoding_decode("%E9").unwrap(), "\u{e9}");
}

#[test]
fn notebook_ids_are_letters_digits_hyphens() {
    assert!(is_valid_notebook_id("react-docs-2"));
    assert!(!is_valid_notebook_id("a b"));
    assert!(!is_valid_notebook_id("a/b"));
    assert!(is_valid_notebook_id(&"x".repeat(63)));
    assert!(!is_valid_notebook_id(&"x".repeat(64)));
}

#[test]
fn read_library_and_notebook() {
    let lib = library_with(&["alpha", "beta"]);
    let h = ResourceHandlers::new();
    assert!(matches!(h.handle_read_resource(&lib, Some("notebooklm://library")), Ok(ResourceRead::Library { .. })));
    match h.handle_read_resource(&lib, Some("notebooklm://library/beta")) {
        Ok(ResourceRead::Notebook { uri, notebook }) => {
            assert_eq!(uri, "notebooklm://library/beta");
            assert_eq!(notebook.id, "beta");
        }
        _ => panic!("expected the notebook"),
    }
    match h.handle_read_resource(&lib, Some("notebooklm://metadata")) {
        Ok(ResourceRead::Metadata { notebook, .. }) => assert_eq!(notebook.id, "alpha"),
        _ => panic!("expected the active notebook"),
    }
}

#[test]
fn read_errors() {
    let lib = library_with(&["alpha"]);
    let h = ResourceHandlers::new();
    let err = |uri: Option<&str>| match h.handle_read_resource(&lib, uri) {
        Err(e) => e,
        Ok(_) => panic!("expected an error"),
    };
    assert_eq!(err(None), "Missing 'uri' in resource read request");
    assert_eq!(err(Some("notebooklm://other")), "Unknown resource: notebooklm://other");
    assert_eq!(err(Some("notebooklm://library/")), "Notebook resource requires an ID (e.g. notebooklm://library/{id})");
    assert_eq!(err(Some("notebooklm://library/gamma")), "Notebook not found: gamma");
    assert_eq!(
        err(Some("notebooklm://library/a%20b")),
        "Invalid notebook identifier: a%20b. IDs may only contain letters, numbers, and hyphens."
    );
    let empty = library_with(&[]);
    match h.handle_read_resource(&empty, Some("notebooklm://metadata")) {
        Err(e) => assert_eq!(e, "No active notebook. Use notebooklm://library to see all notebooks."),
        Ok(_) => panic!("expected an error"),
    }
}

#[test]
fn completion_of_notebook_ids() {
    let lib = library_with(&["react-docs", "rust-book", "Go"]);
    let h = ResourceHandlers::new();
    assert_eq!(h.handle_complete(&lib, "ref/resource", NOTEBOOK_TEMPLATE_URI, "id", "R"), vec!["react-docs", "rust-book"]);
    assert_eq!(h.complete_notebook_ids(&lib, "book"), vec!["rust-book"]);
    assert!(h.handle_complete(&lib, "ref/prompt", NOTEBOOK_TEMPLATE_URI, "id", "r").is_empty());
    assert_eq!(h.complete_notebook_ids(&lib, "").len(), 3);
}

#[test]
fn resource_list_texts() {
    let lib = library_with(&["alpha"]);
    let nb = lib.get_notebook("alpha").unwrap();
    assert_eq!(
        notebook_resource_description(&nb),
        "About alpha | Topics: a, b | 💡 Use ask_question to query this notebook"
    );
    assert_eq!(notebook_resource_uri("alpha"), "notebooklm://library/alpha");
}

#[test]
fn resource_list_has_library_notebooks_and_metadata() {
    let h = ResourceHandlers::new();
    let empty = library_with(&[]);
    let items = h.handle_list_resources(&empty);
    assert_eq!(items.len(), 1);
    assert_eq!(items[0].uri, "notebooklm://library");
    assert_eq!(items[0].name, "Notebook Library");

    let lib = library_with(&["react", "vue"]);
    let items = h.handle_list_resources(&lib);
    assert_eq!(items.len(), 4);
    assert_eq!(items[1].uri, "notebooklm://library/react");
    assert_eq!(items[1].name, "react");
    assert_eq!(items[1].description, "About react | Topics: a, b | 💡 Use ask_question to query this notebook");
    assert_eq!(items[2].uri, "notebooklm://library/vue");
    assert_eq!(items[3].uri, "notebooklm://metadata");
    assert_eq!(items[3].name, "Active Notebook Metadata (Legacy)");
    assert!(items[3].description.starts_with("Information about the currently active notebook."));
    assert!(items.iter().all(|i| i.mime_type == "application/json"));
}
