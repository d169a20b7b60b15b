//! Verified core of a NotebookLM MCP server: the notebook library, settings
//! profiles, configuration merging, resource addressing, session bookkeeping
//! and the decision logic that drives the browser automation.

pub mod text;
pub mod library;
pub mod config;
pub mod utils;
pub mod resources;
pub mod session;
pub mod types;
pub mod auth;
pub mod errors;
pub mod tools;
pub mod server;
pub mod cli;

pub use config::{config, Config};
pub use errors::{AuthenticationError, RateLimitError};
