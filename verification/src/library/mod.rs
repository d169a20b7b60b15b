//! Persistent NotebookLM notebook library.

pub mod types;
pub mod notebook_library;
pub mod laws;

pub use notebook_library::{LibraryError, NotebookLibrary};
pub use types::{AddNotebookInput, Library, LibraryStats, NotebookEntry, UpdateNotebookInput};
