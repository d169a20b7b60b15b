//! The MCP tools: the `ask_question` description, the replies of the tools and
//! the text that source removal sends to the page.

pub mod definitions;
pub mod handlers;
pub mod source_ops;
