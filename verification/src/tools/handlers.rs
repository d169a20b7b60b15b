//! What the MCP tools decide and answer: the notebook an `ask_question` goes
//! to, and the messages of the library and session tools. The server turns
//! the replies into JSON.

use vstd::prelude::*;
use crate::text::{concat2, owned};
use crate::config::Config;
use crate::library::types::{NotebookEntry, NotebookView, LibraryView, AddNotebookInput, UpdateNotebookInput};
use crate::library::notebook_library::{
    NotebookLibrary, LibraryError, lookup, has_id, first_index, id_choice, id_base, new_entry,
    updated, without_id, active_after_remove,
};
use crate::library::laws::lemma_first_exists;
use crate::session::session_manager::{SessionManager, SessionView};

verus! {

/// Appended to every answer of `ask_question`.
pub const FOLLOW_UP_REMINDER: &'static str = "\n\n---\n\
💡 **Keep researching?** If this answer is incomplete or you need more details, \
ask a follow-up question in the same session (`session_id`). \
Great answers often require 2–4 targeted questions. \
Only reply to the user once you are **100% sure** the information is complete.";

/// Answer of the `setup_auth` tool, which this server does not perform.
pub const SETUP_AUTH_UNAVAILABLE: &'static str = "Interactive setup_auth is not available in this server. \
Use `npx notebooklm-mcp` for authentication setup, \
or set NOTEBOOKLM_EMAIL and NOTEBOOKLM_PASSWORD environment variables.";

/// Answer of the `re_auth` tool, which this server does not perform.
pub const RE_AUTH_UNAVAILABLE: &'static str = "Interactive re_auth is not available in this server. \
Use `npx notebooklm-mcp` for re-authentication.";

/// Answer of the `cleanup_data` tool, which this server does not perform.
pub const CLEANUP_UNAVAILABLE: &'static str = "cleanup_data is not available in this server.";

pub open spec fn reminder_text() -> Seq<char> {
    FOLLOW_UP_REMINDER@
}

/// The reminder appended to every answer.
pub fn follow_up_reminder() -> (r: &'static str)
    ensures
        r@ == reminder_text(),
{
    FOLLOW_UP_REMINDER
}

fn concat3(a: &str, b: &str, c: &str) -> (r: String)
    ensures
        r@ == a@ + b@ + c@,
{
    let ab = concat2(a, b);
    concat2(ab.as_str(), c)
}

fn concat5(a: &str, b: &str, c: &str, d: &str, e: &str) -> (r: String)
    ensures
        r@ == a@ + b@ + c@ + d@ + e@,
{
    let abc = concat3(a, b, c);
    concat3(abc.as_str(), d, e)
}

// ---------------------------------------------------------------------------
// Messages
// ---------------------------------------------------------------------------

pub open spec fn missing_parameter_text(name: Seq<char>) -> Seq<char> {
    "Missing required parameter '"@ + name + "'"@
}

/// The error of a tool called without a required parameter.
pub fn missing_parameter(name: &str) -> (r: String)
    ensures
        r@ == missing_parameter_text(name@),
{
    concat3("Missing required parameter '", name, "'")
}

pub open spec fn no_notebook_text() -> Seq<char> {
    "No notebook selected. Use add_notebook + select_notebook first, or pass notebook_url directly to ask_question."@
}

pub open spec fn notebook_not_found_text(id: Seq<char>) -> Seq<char> {
    "Notebook not found: "@ + id
}

pub open spec fn added_text(name: Seq<char>, id: Seq<char>) -> Seq<char> {
    "Notebook '"@ + name + "' added to library (id: "@ + id + ")"@
}

pub open spec fn selected_text(name: Seq<char>) -> Seq<char> {
    "Active notebook set to '"@ + name + "'"@
}

pub open spec fn updated_text(id: Seq<char>) -> Seq<char> {
    "Notebook '"@ + id + "' updated"@
}

pub open spec fn removed_text(id: Seq<char>) -> Seq<char> {
    "Notebook '"@ + id + "' removed from library"@
}

pub open spec fn session_not_found_text(id: Seq<char>) -> Seq<char> {
    "Session not found: "@ + id
}

pub open spec fn session_closed_text(id: Seq<char>) -> Seq<char> {
    "Session '"@ + id + "' closed"@
}

pub open spec fn session_reset_text(id: Seq<char>) -> Seq<char> {
    "Session '"@ + id + "' chat history reset"@
}

// ---------------------------------------------------------------------------
// ask_question
// ---------------------------------------------------------------------------

/// The active notebook of a library, if it names one that exists.
pub open spec fn active_entry(lib: LibraryView) -> Option<NotebookView> {
    match lib.active_notebook_id {
        Some(id) => lookup(lib.notebooks, id),
        None => None,
    }
}

pub open spec fn opt_view(s: Option<&str>) -> Option<Seq<char>> {
    match s {
        Some(x) => Some(x@),
        None => None,
    }
}

/// The notebook a question goes to: a non-empty `notebook_url` argument, else
/// the URL of the active notebook, else the configured `NOTEBOOK_URL` when it
/// is set (non-empty).
pub open spec fn ask_url(arg: Option<Seq<char>>, active: Option<NotebookView>, configured: Seq<char>) -> Option<Seq<char>> {
    match arg {
        Some(u) if u.len() > 0 => Some(u),
        _ => match active {
            Some(nb) => Some(nb.url),
            None => if configured.len() > 0 { Some(configured) } else { None },
        },
    }
}

/// A question and the notebook it is asked of.
pub struct AskTarget {
    pub question: String,
    pub notebook_url: String,
}

/// Resolves the arguments of `ask_question`: the question is required, and
/// the notebook comes from `notebook_url`, the library's active notebook or
/// the configured `NOTEBOOK_URL`, in that order.
pub fn ask_target(question: Option<&str>, notebook_url: Option<&str>, library: &NotebookLibrary, cfg: &Config) -> (r: Result<AskTarget, String>)
    ensures
        match question {
            None => (r matches Err(e) && e@ == missing_parameter_text("question"@)),
            Some(q) => match ask_url(opt_view(notebook_url), active_entry(library@), cfg@.notebook_url) {
                Some(u) => (r matches Ok(t) && t.question@ == q@ && t.notebook_url@ == u),
                None => (r matches Err(e) && e@ == no_notebook_text()),
            },
        },
{
    let q = match question {
        Some(q) => q,
        None => {
            return Err(missing_parameter("question"));
        },
    };
    let url = match notebook_url {
        Some(u) if !u.is_empty() => Some(owned(u)),
        _ => match library.get_active_notebook() {
            Some(nb) => Some(nb.url),
            None => if cfg.notebook_url.as_str().is_empty() {
                None
            } else {
                Some(owned(cfg.notebook_url.as_str()))
            },
        },
    };
    match url {
        Some(u) => Ok(AskTarget { question: owned(q), notebook_url: u }),
        None => Err(owned(
            "No notebook selected. Use add_notebook + select_notebook first, or pass notebook_url directly to ask_question.",
        )),
    }
}

/// Counts a question against the active notebook, when there is one whose
/// count can still grow; the updated notebook.
pub fn count_active_use(library: &mut NotebookLibrary) -> (r: Option<NotebookEntry>)
    ensures
        match active_entry(old(library)@) {
            Some(nb) if nb.use_count < u64::MAX => {
                let k = first_index(old(library)@.notebooks, nb.id);
                &&& r matches Some(e)
                &&& e@ == NotebookView {
                    use_count: (nb.use_count + 1) as u64,
                    last_used: e@.last_used,
                    ..nb
                }
                &&& final(library)@.notebooks == old(library)@.notebooks.update(k, e@)
                &&& final(library)@.active_notebook_id == old(library)@.active_notebook_id
            },
            _ => r.is_none() && final(library)@ == old(library)@,
        },
{
    let active = match library.get_active_notebook() {
        Some(nb) => nb,
        None => {
            return None;
        },
    };
    if active.use_count == u64::MAX {
        return None;
    }
    proof {
        lemma_active_is_first(library@);
    }
    library.increment_use_count(active.id.as_str())
}

/// The active notebook, when there is one, sits at the first index of its id,
/// and that id is its own.
proof fn lemma_active_is_first(lib: LibraryView)
    ensures
        active_entry(lib) matches Some(nb) ==> {
            &&& lib.active_notebook_id matches Some(id)
            &&& nb.id == id
            &&& has_id(lib.notebooks, id)
            &&& lib.notebooks[first_index(lib.notebooks, id)] == nb
        },
{
    if let Some(id) = lib.active_notebook_id {
        if has_id(lib.notebooks, id) {
            let w = choose|k: int| 0 <= k < lib.notebooks.len() && #[trigger] lib.notebooks[k].id == id;
            lemma_first_exists(lib.notebooks, id, w);
        }
    }
}

// ---------------------------------------------------------------------------
// Library tools
// ---------------------------------------------------------------------------

/// `add_notebook`: the added notebook and `Notebook '<name>' added to library (id: <id>)`.
pub fn add_notebook_reply(library: &mut NotebookLibrary, input: AddNotebookInput) -> (r: (NotebookEntry, String))
    requires
        old(library)@.notebooks.len() < u32::MAX,
    ensures
        id_choice(old(library)@.notebooks, id_base(input@.name), r.0@.id),
        r.0@ == new_entry(input@, r.0@.id, r.0@.added_at),
        final(library)@.notebooks == old(library)@.notebooks.push(r.0@),
        final(library)@.active_notebook_id == (if old(library)@.notebooks.len() == 0 {
            Some(r.0@.id)
        } else {
            old(library)@.active_notebook_id
        }),
        r.1@ == added_text(r.0@.name, r.0@.id),
{
    let nb = library.add_notebook(input);
    let msg = concat5("Notebook '", nb.name.as_str(), "' added to library (id: ", nb.id.as_str(), ")");
    (nb, msg)
}

/// `get_notebook`: the notebook, or `Notebook not found: <id>`.
pub fn get_notebook_reply(library: &NotebookLibrary, id: &str) -> (r: Result<NotebookEntry, String>)
    ensures
        match r {
            Ok(e) => lookup(library@.notebooks, id@) == Some(e@),
            Err(m) => lookup(library@.notebooks, id@).is_none() && m@ == notebook_not_found_text(id@),
        },
{
    match library.get_notebook(id) {
        Some(nb) => Ok(nb),
        None => Err(concat2("Notebook not found: ", id)),
    }
}

/// `select_notebook`: the selected notebook and `Active notebook set to '<name>'`,
/// or `Notebook not found: <id>`.
pub fn select_notebook_reply(library: &mut NotebookLibrary, id: &str) -> (r: Result<(NotebookEntry, String), String>)
    ensures
        r is Ok <==> has_id(old(library)@.notebooks, id@),
        match r {
            Ok((e, m)) => {
                let k = first_index(old(library)@.notebooks, id@);
                &&& final(library)@.notebooks == old(library)@.notebooks.update(
                    k,
                    NotebookView { last_used: e@.last_used, ..old(library)@.notebooks[k] },
                )
                &&& e@ == final(library)@.notebooks[k]
                &&& final(library)@.active_notebook_id == Some(id@)
                &&& m@ == selected_text(e@.name)
            },
            Err(m) => final(library)@ == old(library)@ && m@ == notebook_not_found_text(id@),
        },
{
    match library.select_notebook(id) {
        Ok(nb) => {
            let msg = concat3("Active notebook set to '", nb.name.as_str(), "'");
            Ok((nb, msg))
        },
        Err(e) => Err(e.message()),
    }
}

/// `update_notebook`: the updated notebook and `Notebook '<id>' updated`, or
/// `Notebook not found: <id>`.
pub fn update_notebook_reply(library: &mut NotebookLibrary, input: UpdateNotebookInput) -> (r: Result<(NotebookEntry, String), String>)
    ensures
        r is Ok <==> has_id(old(library)@.notebooks, input@.id),
        match r {
            Ok((e, m)) => {
                let k = first_index(old(library)@.notebooks, input@.id);
                &&& e@ == updated(old(library)@.notebooks[k], input@)
                &&& final(library)@.notebooks == old(library)@.notebooks.update(k, e@)
                &&& final(library)@.active_notebook_id == old(library)@.active_notebook_id
                &&& m@ == updated_text(e@.id)
            },
            Err(m) => final(library)@ == old(library)@ && m@ == notebook_not_found_text(input@.id),
        },
{
    match library.update_notebook(input) {
        Ok(nb) => {
            let msg = concat3("Notebook '", nb.id.as_str(), "' updated");
            Ok((nb, msg))
        },
        Err(e) => Err(e.message()),
    }
}

/// `remove_notebook`: `Notebook '<id>' removed from library`, or
/// `Notebook not found: <id>`.
pub fn remove_notebook_reply(library: &mut NotebookLibrary, id: &str) -> (r: Result<String, String>)
    ensures
        r is Ok <==> has_id(old(library)@.notebooks, id@),
        match r {
            Ok(m) => {
                &&& final(library)@.notebooks == without_id(old(library)@.notebooks, id@)
                &&& final(library)@.active_notebook_id == active_after_remove(
                    old(library)@.active_notebook_id,
                    without_id(old(library)@.notebooks, id@),
                    id@,
                )
                &&& m@ == removed_text(id@)
            },
            Err(m) => final(library)@ == old(library)@ && m@ == notebook_not_found_text(id@),
        },
{
    if library.remove_notebook(id) {
        Ok(concat3("Notebook '", id, "' removed from library"))
    } else {
        Err(concat2("Notebook not found: ", id))
    }
}

// ---------------------------------------------------------------------------
// Session tools
// ---------------------------------------------------------------------------

/// `close_session`: `Session '<id>' closed`, or `Session not found: <id>`.
pub fn close_session_reply(sessions: &mut SessionManager, session_id: &str) -> (r: Result<String, String>)
    requires
        old(sessions).wf(),
    ensures
        final(sessions).wf(),
        r is Ok <==> old(sessions)@.contains_key(session_id@),
        final(sessions)@ == old(sessions)@.remove(session_id@),
        match r {
            Ok(m) => m@ == session_closed_text(session_id@),
            Err(m) => m@ == session_not_found_text(session_id@),
        },
{
    if sessions.close_session(session_id) {
        Ok(concat3("Session '", session_id, "' closed"))
    } else {
        Err(concat2("Session not found: ", session_id))
    }
}

/// `reset_session`, after the page was reloaded: the session's message count
/// starts again at zero; `Session '<id>' chat history reset`, or
/// `Session not found: <id>`.
pub fn reset_session_reply(sessions: &mut SessionManager, session_id: &str, now_ms: u64) -> (r: Result<String, String>)
    requires
        old(sessions).wf(),
    ensures
        final(sessions).wf(),
        r is Ok <==> old(sessions)@.contains_key(session_id@),
        match r {
            Ok(m) => {
                &&& m@ == session_reset_text(session_id@)
                &&& final(sessions)@ == old(sessions)@.insert(
                    session_id@,
                    SessionView { last_activity_ms: now_ms, message_count: 0, ..old(sessions)@[session_id@] },
                )
            },
            Err(m) => final(sessions)@ == old(sessions)@ && m@ == session_not_found_text(session_id@),
        },
{
    if sessions.reset_messages(session_id, now_ms) {
        Ok(concat3("Session '", session_id, "' chat history reset"))
    } else {
        Err(concat2("Session not found: ", session_id))
    }
}

} // verus!
