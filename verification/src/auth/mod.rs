//! Authentication state and login decisions.

pub mod auth_manager;

pub use auth_manager::AuthManager;
