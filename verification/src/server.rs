//! The routing of the MCP server: JSON-RPC methods and tool names to what
//! handles them, the error codes and the texts of routing failures. Reading and
//! writing the JSON lines is left to the server loop.

use vstd::prelude::*;
use crate::text::{concat2, str_eq};

verus! {

/// JSON-RPC code of a line that is not JSON.
pub const PARSE_ERROR_CODE: i32 = -32700;
/// JSON-RPC code of every failed request.
pub const INTERNAL_ERROR_CODE: i32 = -32603;
/// The protocol version the server announces.
pub const PROTOCOL_VERSION: &'static str = "2024-11-05";
/// The error of a `tools/call` without a tool name.
pub const MISSING_TOOL_NAME: &'static str = "Missing tool name in tools/call";

/// The tools listed by `tools/list`, in order, before the profile filter.
pub const TOOL_LIST: [&'static str; 17] = [
    "ask_question",
    "add_notebook",
    "list_notebooks",
    "get_notebook",
    "select_notebook",
    "update_notebook",
    "remove_notebook",
    "search_notebooks",
    "get_library_stats",
    "remove_source",
    "list_sessions",
    "close_session",
    "reset_session",
    "get_health",
    "setup_auth",
    "re_auth",
    "cleanup_data",
];

/// A JSON-RPC method the server answers.
#[derive(Debug, Clone, Copy, PartialEq, Eq, Structural)]
pub enum Method {
    Initialize,
    ListTools,
    CallTool,
    ListResources,
    ReadResource,
    ListResourceTemplates,
    Complete,
    Ping,
    /// Any other name: answered with `Method not found: <name>`.
    Unknown,
}

pub open spec fn method_of(m: Seq<char>) -> Method {
    if m == "initialize"@ {
        Method::Initialize
    } else if m == "tools/list"@ {
        Method::ListTools
    } else if m == "tools/call"@ {
        Method::CallTool
    } else if m == "resources/list"@ {
        Method::ListResources
    } else if m == "resources/read"@ {
        Method::ReadResource
    } else if m == "resources/templates/list"@ {
        Method::ListResourceTemplates
    } else if m == "completion/complete"@ {
        Method::Complete
    } else if m == "ping"@ {
        Method::Ping
    } else {
        Method::Unknown
    }
}

/// The handler of a request's method.
pub fn route_method(method: &str) -> (r: Method)
    ensures
        r == method_of(method@),
{
    if str_eq(method, "initialize") {
        Method::Initialize
    } else if str_eq(method, "tools/list") {
        Method::ListTools
    } else if str_eq(method, "tools/call") {
        Method::CallTool
    } else if str_eq(method, "resources/list") {
        Method::ListResources
    } else if str_eq(method, "resources/read") {
        Method::ReadResource
    } else if str_eq(method, "resources/templates/list") {
        Method::ListResourceTemplates
    } else if str_eq(method, "completion/complete") {
        Method::Complete
    } else if str_eq(method, "ping") {
        Method::Ping
    } else {
        Method::Unknown
    }
}

/// The error data of a request for an unknown method.
pub fn method_not_found(method: &str) -> (r: String)
    ensures
        r@ == "Method not found: "@ + method@,
{
    concat2("Method not found: ", method)
}

/// A tool that `tools/call` runs.
#[derive(Debug, Clone, Copy, PartialEq, Eq, Structural)]
pub enum ToolName {
    AskQuestion,
    AddNotebook,
    ListNotebooks,
    GetNotebook,
    SelectNotebook,
    UpdateNotebook,
    RemoveNotebook,
    SearchNotebooks,
    GetLibraryStats,
    ListSessions,
    CloseSession,
    ResetSession,
    GetHealth,
    SetupAuth,
    ReAuth,
    CleanupData,
}

pub open spec fn tool_of(n: Seq<char>) -> Option<ToolName> {
    if n == "ask_question"@ {
        Some(ToolName::AskQuestion)
    } else if n == "add_notebook"@ {
        Some(ToolName::AddNotebook)
    } else if n == "list_notebooks"@ {
        Some(ToolName::ListNotebooks)
    } else if n == "get_notebook"@ {
        Some(ToolName::GetNotebook)
    } else if n == "select_notebook"@ {
        Some(ToolName::SelectNotebook)
    } else if n == "update_notebook"@ {
        Some(ToolName::UpdateNotebook)
    } else if n == "remove_notebook"@ {
        Some(ToolName::RemoveNotebook)
    } else if n == "search_notebooks"@ {
        Some(ToolName::SearchNotebooks)
    } else if n == "get_library_stats"@ {
        Some(ToolName::GetLibraryStats)
    } else if n == "list_sessions"@ {
        Some(ToolName::ListSessions)
    } else if n == "close_session"@ {
        Some(ToolName::CloseSession)
    } else if n == "reset_session"@ {
        Some(ToolName::ResetSession)
    } else if n == "get_health"@ {
        Some(ToolName::GetHealth)
    } else if n == "setup_auth"@ {
        Some(ToolName::SetupAuth)
    } else if n == "re_auth"@ {
        Some(ToolName::ReAuth)
    } else if n == "cleanup_data"@ {
        Some(ToolName::CleanupData)
    } else {
        None
    }
}

/// The tool a `tools/call` names, if the server runs it.
pub fn tool_named(name: &str) -> (r: Option<ToolName>)
    ensures
        r == tool_of(name@),
{
    if str_eq(name, "ask_question") {
        Some(ToolName::AskQuestion)
    } else if str_eq(name, "add_notebook") {
        Some(ToolName::AddNotebook)
    } else if str_eq(name, "list_notebooks") {
        Some(ToolName::ListNotebooks)
    } else if str_eq(name, "get_notebook") {
        Some(ToolName::GetNotebook)
    } else if str_eq(name, "select_notebook") {
        Some(ToolName::SelectNotebook)
    } else if str_eq(name, "update_notebook") {
        Some(ToolName::UpdateNotebook)
    } else if str_eq(name, "remove_notebook") {
        Some(ToolName::RemoveNotebook)
    } else if str_eq(name, "search_notebooks") {
        Some(ToolName::SearchNotebooks)
    } else if str_eq(name, "get_library_stats") {
        Some(ToolName::GetLibraryStats)
    } else if str_eq(name, "list_sessions") {
        Some(ToolName::ListSessions)
    } else if str_eq(name, "close_session") {
        Some(ToolName::CloseSession)
    } else if str_eq(name, "reset_session") {
        Some(ToolName::ResetSession)
    } else if str_eq(name, "get_health") {
        Some(ToolName::GetHealth)
    } else if str_eq(name, "setup_auth") {
        Some(ToolName::SetupAuth)
    } else if str_eq(name, "re_auth") {
        Some(ToolName::ReAuth)
    } else if str_eq(name, "cleanup_data") {
        Some(ToolName::CleanupData)
    } else {
        None
    }
}

/// The error of a `tools/call` for a tool the server does not run.
pub fn unknown_tool(name: &str) -> (r: String)
    ensures
        r@ == "Unknown tool: "@ + name@,
{
    concat2("Unknown tool: ", name)
}

/// The name under which a client asks for each handled method.
pub open spec fn method_name(m: Method) -> Seq<char> {
    match m {
        Method::Initialize => "initialize"@,
        Method::ListTools => "tools/list"@,
        Method::CallTool => "tools/call"@,
        Method::ListResources => "resources/list"@,
        Method::ReadResource => "resources/read"@,
        Method::ListResourceTemplates => "resources/templates/list"@,
        Method::Complete => "completion/complete"@,
        Method::Ping => "ping"@,
        Method::Unknown => Seq::empty(),
    }
}

/// Each method the server serves is reached by its own name: routing the name
/// of a handled method gives that method.
pub proof fn law_method_names_route_home(m: Method)
    requires
        m != Method::Unknown,
    ensures
        method_of(method_name(m)) == m,
{
    reveal_strlit("initialize");
    reveal_strlit("tools/list");
    reveal_strlit("tools/call");
    reveal_strlit("resources/list");
    reveal_strlit("resources/read");
    reveal_strlit("resources/templates/list");
    reveal_strlit("completion/complete");
    reveal_strlit("ping");
    let names = seq![
        "initialize"@, "tools/list"@, "tools/call"@, "resources/list"@,
        "resources/read"@, "resources/templates/list"@, "completion/complete"@, "ping"@,
    ];
    // Distinct names differ in length or in one character.
    assert("initialize"@[0] != "tools/list"@[0]);
    assert("initialize"@[0] != "tools/call"@[0]);
    assert("tools/list"@[6] != "tools/call"@[6]);
    assert("resources/list"@[10] != "resources/read"@[10]);
    assert forall|i: int, j: int| 0 <= i < j < 8 implies #[trigger] names[i] != #[trigger] names[j] by {
        if names[i].len() == names[j].len() {
            if i == 0 && j == 1 {
                assert(names[i][0] != names[j][0]);
            } else if i == 0 && j == 2 {
                assert(names[i][0] != names[j][0]);
            } else if i == 1 && j == 2 {
                assert(names[i][6] != names[j][6]);
            } else {
                assert(names[i][10] != names[j][10]);
            }
        }
    }
    assert(names[0] != names[1]);
    assert(names[0] != names[2]);
    assert(names[1] != names[2]);
    assert(names[0] != names[3] && names[1] != names[3] && names[2] != names[3]);
    assert(names[0] != names[4] && names[1] != names[4] && names[2] != names[4] && names[3] != names[4]);
    assert(names[0] != names[5] && names[1] != names[5] && names[2] != names[5] && names[3] != names[5]
        && names[4] != names[5]);
    assert(names[0] != names[6] && names[1] != names[6] && names[2] != names[6] && names[3] != names[6]
        && names[4] != names[6] && names[5] != names[6]);
    assert(names[0] != names[7] && names[1] != names[7] && names[2] != names[7] && names[3] != names[7]
        && names[4] != names[7] && names[5] != names[7] && names[6] != names[7]);
}

/// No two method names share a handler: two names that reach the same known
/// method are the same name.
pub proof fn law_routing_is_one_to_one(a: Seq<char>, b: Seq<char>)
    requires
        method_of(a) != Method::Unknown,
        method_of(a) == method_of(b),
    ensures
        a == b,
{
}

} // verus!
