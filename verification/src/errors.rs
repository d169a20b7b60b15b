//! Error types of the server, and the recognition of closed-browser errors
//! from their messages.

use vstd::prelude::*;
use crate::text::{owned, concat2, lowercase, contains, has_sub, spec_to_lowercase};

verus! {

pub open spec fn rate_limit_default_message() -> Seq<char> {
    "NotebookLM rate limit reached (50 queries/day for free accounts)"@
}

/// Raised when the NotebookLM rate limit is exceeded (free accounts: about 50
/// queries a day).
#[derive(Debug)]
pub struct RateLimitError {
    pub message: String,
}

impl RateLimitError {
    pub fn new() -> (r: RateLimitError)
        ensures
            r.message@ == rate_limit_default_message(),
    {
        RateLimitError { message: owned("NotebookLM rate limit reached (50 queries/day for free accounts)") }
    }

    pub fn with_message(msg: String) -> (r: RateLimitError)
        ensures
            r.message@ == msg@,
    {
        RateLimitError { message: msg }
    }

    /// The text the error displays: its message.
    pub fn to_message(&self) -> (r: String)
        ensures
            r@ == self.message@,
    {
        self.message.clone()
    }
}

impl Default for RateLimitError {
    fn default() -> (r: RateLimitError)
        ensures
            r.message@ == rate_limit_default_message(),
    {
        RateLimitError::new()
    }
}

/// Raised when authentication fails; `suggest_cleanup` is set when a full data
/// cleanup might fix the issue.
#[derive(Debug)]
pub struct AuthenticationError {
    pub message: String,
    pub suggest_cleanup: bool,
}

impl AuthenticationError {
    pub fn new(msg: String) -> (r: AuthenticationError)
        ensures
            r.message@ == msg@,
            !r.suggest_cleanup,
    {
        AuthenticationError { message: msg, suggest_cleanup: false }
    }

    pub fn with_cleanup_hint(msg: String) -> (r: AuthenticationError)
        ensures
            r.message@ == msg@,
            r.suggest_cleanup,
    {
        AuthenticationError { message: msg, suggest_cleanup: true }
    }

    /// The text the error displays: its message.
    pub fn to_message(&self) -> (r: String)
        ensures
            r@ == self.message@,
    {
        self.message.clone()
    }
}

/// The browser session was closed unexpectedly and needs re-initialisation.
#[derive(Debug)]
pub struct SessionClosedError {
    pub message: String,
}

impl SessionClosedError {
    pub fn new(msg: String) -> (r: SessionClosedError)
        ensures
            r.message@ == msg@,
    {
        SessionClosedError { message: msg }
    }

    /// The text the error displays: `Browser session closed: <message>`.
    pub fn to_message(&self) -> (r: String)
        ensures
            r@ == "Browser session closed: "@ + self.message@,
    {
        concat2("Browser session closed: ", self.message.as_str())
    }
}

/// The lowercased message mentions a closed page, target, browser or context,
/// or a refused connection.
pub open spec fn closed_error_text(msg: Seq<char>) -> bool {
    let m = spec_to_lowercase(msg);
    ||| has_sub(m, "has been closed"@)
    ||| has_sub(m, "target closed"@)
    ||| has_sub(m, "browser has been closed"@)
    ||| has_sub(m, "connection refused"@)
    ||| has_sub(m, "context destroyed"@)
}

/// Check whether an error (by its message) originated from a closed browser or page.
pub fn is_closed_error(message: &str) -> (r: bool)
    ensures
        r == closed_error_text(message@),
{
    let msg = lowercase(message);
    let m = msg.as_str();
    contains(m, "has been closed")
        || contains(m, "target closed")
        || contains(m, "browser has been closed")
        || contains(m, "connection refused")
        || contains(m, "context destroyed")
}

} // verus!
