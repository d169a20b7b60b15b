//! MCP resources over the notebook library.

pub mod resource_handlers;

pub use resource_handlers::ResourceHandlers;
