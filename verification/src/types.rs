//! Shared records: session information, question and tool results, and the
//! typing / waiting options.

use vstd::prelude::*;

verus! {

/// Session information returned by the API.
#[derive(Debug)]
pub struct SessionInfo {
    pub id: String,
    /// Unix timestamp (ms) when session was created
    pub created_at: i64,
    /// Unix timestamp (ms) of last activity
    pub last_activity: i64,
    pub age_seconds: u64,
    pub inactive_seconds: u64,
    pub message_count: u64,
    pub notebook_url: String,
}

/// Inline session snapshot embedded in `AskQuestionResult`.
#[derive(Debug, Clone, Copy)]
pub struct SessionInfoSnapshot {
    pub age_seconds: u64,
    pub message_count: u64,
    pub last_activity: i64,
}

#[derive(Debug, Clone, Copy, PartialEq, Eq, Structural)]
pub enum QueryStatus {
    Success,
    Error,
}

/// Result from asking a question.
#[derive(Debug)]
pub struct AskQuestionResult {
    pub status: QueryStatus,
    pub question: String,
    pub answer: Option<String>,
    pub error: Option<String>,
    pub notebook_url: String,
    pub session_id: Option<String>,
    pub session_info: Option<SessionInfoSnapshot>,
}

/// Options for human-like typing.
#[derive(Debug, Clone, Copy)]
pub struct TypingOptions {
    /// Words per minute (overrides config if set)
    pub wpm: Option<u32>,
    pub with_typos: bool,
}

impl Default for TypingOptions {
    fn default() -> (r: TypingOptions)
        ensures
            r.wpm.is_none(),
            !r.with_typos,
    {
        TypingOptions { wpm: None, with_typos: false }
    }
}

/// Options for waiting for a NotebookLM answer.
#[derive(Debug)]
pub struct WaitForAnswerOptions {
    pub question: Option<String>,
    pub timeout_ms: u64,
    pub poll_interval_ms: u64,
    pub ignore_texts: Vec<String>,
    pub debug: bool,
}

impl Default for WaitForAnswerOptions {
    fn default() -> (r: WaitForAnswerOptions)
        ensures
            r.question.is_none(),
            r.timeout_ms == 120000,
            r.poll_interval_ms == 1000,
            r.ignore_texts@.len() == 0,
            !r.debug,
    {
        WaitForAnswerOptions {
            question: None,
            timeout_ms: 120000,
            poll_interval_ms: 1000,
            ignore_texts: Vec::new(),
            debug: false,
        }
    }
}


/// The result of a tool: success with its data, or failure with an error message.
#[derive(Debug)]
pub struct ToolResult {
    pub success: bool,
    pub data: Option<serde_json::Value>,
    pub error: Option<String>,
}

impl ToolResult {
    pub fn ok(data: serde_json::Value) -> (r: ToolResult)
        ensures
            r.success,
            r.data == Some(data),
            r.error.is_none(),
    {
        ToolResult { success: true, data: Some(data), error: None }
    }

    pub fn err(msg: String) -> (r: ToolResult)
        ensures
            !r.success,
            r.data.is_none(),
            r.error == Some(msg),
    {
        ToolResult { success: false, data: None, error: Some(msg) }
    }
}

} // verus!
