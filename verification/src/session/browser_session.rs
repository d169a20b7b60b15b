//! The decisions of a browser session (one tab of the shared browser): which
//! input to type into, when a failed request is retried on a fresh page, and
//! the text handed back for an answer.

use vstd::prelude::*;
use crate::text::{lowercase, contains, concat2, has_sub, spec_to_lowercase};
use crate::tools::handlers::{follow_up_reminder, reminder_text};

verus! {

/// The chat input of a notebook page, highest priority first.
pub const CHAT_INPUT_SELECTORS: [&'static str; 2] = [
    "textarea.query-box-input",
    "textarea[aria-label=\"Feld für Anfragen\"]",
];

/// The lowercased message mentions a page, target, browser, context or
/// session that has been closed.
pub open spec fn page_closed_text(msg: Seq<char>) -> bool {
    let m = spec_to_lowercase(msg);
    ||| has_sub(m, "has been closed"@)
    ||| has_sub(m, "target closed"@)
    ||| has_sub(m, "browser has been closed"@)
    ||| has_sub(m, "context closed"@)
    ||| has_sub(m, "session closed"@)
}

/// Whether an error message of a page operation says that the page or its
/// browser was closed, so that the session must be opened again.
pub fn is_closed_error(message: &str) -> (r: bool)
    ensures
        r == page_closed_text(message@),
{
    let msg = lowercase(message);
    let m = msg.as_str();
    contains(m, "has been closed")
        || contains(m, "target closed")
        || contains(m, "browser has been closed")
        || contains(m, "context closed")
        || contains(m, "session closed")
}

/// Which attempt of an `ask` or `reset` failed.
#[derive(Debug, Clone, Copy, PartialEq, Eq, Structural)]
pub enum Attempt {
    First,
    AfterRecovery,
}

/// After a failed attempt: reopen the page and try once more when the first
/// attempt failed because the page was closed; otherwise the error stands.
pub fn should_recover(attempt: Attempt, message: &str) -> (r: bool)
    ensures
        r == (attempt == Attempt::First && page_closed_text(message@)),
{
    match attempt {
        Attempt::First => is_closed_error(message),
        Attempt::AfterRecovery => false,
    }
}

/// The text returned for an answer: the answer followed by the follow-up reminder.
pub fn answer_with_reminder(answer: &str) -> (r: String)
    ensures
        r@ == answer@ + reminder_text(),
{
    concat2(answer, follow_up_reminder())
}

} // verus!
