//! Utilities: answer extraction from the page, settings profiles and timing.

pub mod page_utils;
pub mod settings_manager;
pub mod stealth;
