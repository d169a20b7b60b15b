//! Notebook library data model: entries, the persisted library document, the
//! inputs of the add / update operations and the statistics record.

use vstd::prelude::*;
use crate::text::owned;

verus! {

/// The characters of each string of a vector.
pub open spec fn strs(v: Seq<String>) -> Seq<Seq<char>> {
    v.map_values(|s: String| s@)
}

pub open spec fn opt_strs(v: Option<Vec<String>>) -> Option<Seq<Seq<char>>> {
    match v {
        Some(x) => Some(strs(x@)),
        None => None,
    }
}

pub open spec fn opt_str(v: Option<String>) -> Option<Seq<char>> {
    match v {
        Some(x) => Some(x@),
        None => None,
    }
}

/// A copy of a vector of strings.
pub fn copy_strs(v: &Vec<String>) -> (r: Vec<String>)
    ensures
        strs(r@) == strs(v@),
{
    let mut r: Vec<String> = Vec::new();
    let mut i: usize = 0;
    while i < v.len()
        invariant
            i <= v.len(),
            r@.len() == i,
            strs(r@) == strs(v@.subrange(0, i as int)),
        decreases v.len() - i,
    {
        let ghost before = r@;
        let x = v[i].clone();
        r.push(x);
        assert forall|k: int| 0 <= k < i + 1 implies #[trigger] strs(r@)[k] == strs(v@.subrange(0, i + 1))[k] by {
            if k < i {
                assert(strs(before)[k] == strs(v@.subrange(0, i as int))[k]);
            }
        }
        assert(strs(r@) =~= strs(v@.subrange(0, i + 1)));
        i = i + 1;
    }
    assert(v@.subrange(0, v.len() as int) =~= v@);
    r
}

pub fn copy_opt_strs(v: &Option<Vec<String>>) -> (r: Option<Vec<String>>)
    ensures
        opt_strs(r) == opt_strs(*v),
{
    match v {
        Some(x) => Some(copy_strs(x)),
        None => None,
    }
}

pub fn copy_opt_str(v: &Option<String>) -> (r: Option<String>)
    ensures
        opt_str(r) == opt_str(*v),
{
    match v {
        Some(x) => Some(x.clone()),
        None => None,
    }
}

/// Model of one notebook entry.
#[verifier::ext_equal]
pub struct NotebookView {
    pub id: Seq<char>,
    pub url: Seq<char>,
    pub name: Seq<char>,
    pub description: Seq<char>,
    pub topics: Seq<Seq<char>>,
    pub content_types: Seq<Seq<char>>,
    pub use_cases: Seq<Seq<char>>,
    pub added_at: Seq<char>,
    pub last_used: Seq<char>,
    pub use_count: u64,
    pub tags: Option<Seq<Seq<char>>>,
}

/// A single notebook entry in the persistent library.
#[derive(Debug)]
pub struct NotebookEntry {
    /// Unique slug ID (e.g. "n8n-docs")
    pub id: String,
    /// NotebookLM URL
    pub url: String,
    /// Human-readable display name
    pub name: String,
    pub description: String,
    pub topics: Vec<String>,
    pub content_types: Vec<String>,
    pub use_cases: Vec<String>,
    /// ISO 8601 timestamp when added
    pub added_at: String,
    /// ISO 8601 timestamp of last use
    pub last_used: String,
    pub use_count: u64,
    pub tags: Option<Vec<String>>,
}

impl View for NotebookEntry {
    type V = NotebookView;

    open spec fn view(&self) -> NotebookView {
        NotebookView {
            id: self.id@,
            url: self.url@,
            name: self.name@,
            description: self.description@,
            topics: strs(self.topics@),
            content_types: strs(self.content_types@),
            use_cases: strs(self.use_cases@),
            added_at: self.added_at@,
            last_used: self.last_used@,
            use_count: self.use_count,
            tags: opt_strs(self.tags),
        }
    }
}

impl NotebookEntry {
    /// A field-by-field copy.
    pub fn duplicate(&self) -> (r: NotebookEntry)
        ensures
            r@ == self@,
    {
        NotebookEntry {
            id: self.id.clone(),
            url: self.url.clone(),
            name: self.name.clone(),
            description: self.description.clone(),
            topics: copy_strs(&self.topics),
            content_types: copy_strs(&self.content_types),
            use_cases: copy_strs(&self.use_cases),
            added_at: self.added_at.clone(),
            last_used: self.last_used.clone(),
            use_count: self.use_count,
            tags: copy_opt_strs(&self.tags),
        }
    }
}

/// The views of a sequence of entries.
pub open spec fn entries(v: Seq<NotebookEntry>) -> Seq<NotebookView> {
    v.map_values(|e: NotebookEntry| e@)
}

/// A copy of a vector of entries.
pub fn copy_entries(v: &Vec<NotebookEntry>) -> (r: Vec<NotebookEntry>)
    ensures
        entries(r@) == entries(v@),
{
    let mut r: Vec<NotebookEntry> = Vec::new();
    let mut i: usize = 0;
    while i < v.len()
        invariant
            i <= v.len(),
            r@.len() == i,
            entries(r@) == entries(v@.subrange(0, i as int)),
        decreases v.len() - i,
    {
        let ghost before = r@;
        let x = v[i].duplicate();
        r.push(x);
        assert forall|k: int| 0 <= k < i + 1 implies #[trigger] entries(r@)[k] == entries(v@.subrange(0, i + 1))[k] by {
            if k < i {
                assert(entries(before)[k] == entries(v@.subrange(0, i as int))[k]);
            }
        }
        assert(entries(r@) =~= entries(v@.subrange(0, i + 1)));
        i = i + 1;
    }
    assert(v@.subrange(0, v.len() as int) =~= v@);
    r
}

/// Model of the library document.
#[verifier::ext_equal]
pub struct LibraryView {
    pub notebooks: Seq<NotebookView>,
    pub active_notebook_id: Option<Seq<char>>,
    pub last_modified: Seq<char>,
    pub version: Seq<char>,
}

/// The complete notebook library as stored in `library.json`.
#[derive(Debug)]
pub struct Library {
    pub notebooks: Vec<NotebookEntry>,
    pub active_notebook_id: Option<String>,
    /// ISO 8601 timestamp of last modification
    pub last_modified: String,
    /// Format version of the document
    pub version: String,
}

impl View for Library {
    type V = LibraryView;

    open spec fn view(&self) -> LibraryView {
        LibraryView {
            notebooks: entries(self.notebooks@),
            active_notebook_id: opt_str(self.active_notebook_id),
            last_modified: self.last_modified@,
            version: self.version@,
        }
    }
}

/// Calls `chrono::Utc::now` and renders it with `to_rfc3339`. The result depends
/// on the clock, so nothing is stated of it.
#[verifier::external_body]
pub(crate) fn now_rfc3339() -> (r: String) {
    chrono::Utc::now().to_rfc3339()
}

impl Default for Library {
    /// An empty library of format version 1.0.0, stamped with the current time.
    fn default() -> (r: Library)
        ensures
            r@.notebooks.len() == 0,
            r@.active_notebook_id.is_none(),
            r@.version == "1.0.0"@,
    {
        Library {
            notebooks: Vec::new(),
            active_notebook_id: None,
            last_modified: now_rfc3339(),
            version: owned("1.0.0"),
        }
    }
}

/// Model of the `add_notebook` input.
#[verifier::ext_equal]
pub struct AddNotebookView {
    pub url: Seq<char>,
    pub name: Seq<char>,
    pub description: Seq<char>,
    pub topics: Seq<Seq<char>>,
    pub content_types: Option<Seq<Seq<char>>>,
    pub use_cases: Option<Seq<Seq<char>>>,
    pub tags: Option<Seq<Seq<char>>>,
}

/// Input for `add_notebook` tool
#[derive(Debug)]
pub struct AddNotebookInput {
    pub url: String,
    pub name: String,
    pub description: String,
    pub topics: Vec<String>,
    pub content_types: Option<Vec<String>>,
    pub use_cases: Option<Vec<String>>,
    pub tags: Option<Vec<String>>,
}

impl View for AddNotebookInput {
    type V = AddNotebookView;

    open spec fn view(&self) -> AddNotebookView {
        AddNotebookView {
            url: self.url@,
            name: self.name@,
            description: self.description@,
            topics: strs(self.topics@),
            content_types: opt_strs(self.content_types),
            use_cases: opt_strs(self.use_cases),
            tags: opt_strs(self.tags),
        }
    }
}

/// Model of the `update_notebook` input.
#[verifier::ext_equal]
pub struct UpdateNotebookView {
    pub id: Seq<char>,
    pub name: Option<Seq<char>>,
    pub description: Option<Seq<char>>,
    pub topics: Option<Seq<Seq<char>>>,
    pub content_types: Option<Seq<Seq<char>>>,
    pub use_cases: Option<Seq<Seq<char>>>,
    pub tags: Option<Seq<Seq<char>>>,
    pub url: Option<Seq<char>>,
}

/// Input for `update_notebook` tool
#[derive(Debug)]
pub struct UpdateNotebookInput {
    pub id: String,
    pub name: Option<String>,
    pub description: Option<String>,
    pub topics: Option<Vec<String>>,
    pub content_types: Option<Vec<String>>,
    pub use_cases: Option<Vec<String>>,
    pub tags: Option<Vec<String>>,
    pub url: Option<String>,
}

impl View for UpdateNotebookInput {
    type V = UpdateNotebookView;

    open spec fn view(&self) -> UpdateNotebookView {
        UpdateNotebookView {
            id: self.id@,
            name: opt_str(self.name),
            description: opt_str(self.description),
            topics: opt_strs(self.topics),
            content_types: opt_strs(self.content_types),
            use_cases: opt_strs(self.use_cases),
            tags: opt_strs(self.tags),
            url: opt_str(self.url),
        }
    }
}

/// Model of the statistics record.
#[verifier::ext_equal]
pub struct LibraryStatsView {
    pub total_notebooks: nat,
    pub active_notebook: Option<Seq<char>>,
    pub most_used_notebook: Option<Seq<char>>,
    pub total_queries: nat,
    pub last_modified: Seq<char>,
}

#[derive(Debug)]
pub struct LibraryStats {
    pub total_notebooks: usize,
    pub active_notebook: Option<String>,
    pub most_used_notebook: Option<String>,
    pub total_queries: u64,
    pub last_modified: String,
}

impl View for LibraryStats {
    type V = LibraryStatsView;

    open spec fn view(&self) -> LibraryStatsView {
        LibraryStatsView {
            total_notebooks: self.total_notebooks as nat,
            active_notebook: opt_str(self.active_notebook),
            most_used_notebook: opt_str(self.most_used_notebook),
            total_queries: self.total_queries as nat,
            last_modified: self.last_modified@,
        }
    }
}

} // verus!
