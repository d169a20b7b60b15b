//! Browser session bookkeeping and the decisions of the shared browser.

pub mod session_manager;
pub mod shared_context_manager;
pub mod browser_session;

pub use session_manager::SessionManager;
