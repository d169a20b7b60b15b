//! The text of the `ask_question` tool description, which names the active
//! notebook. The JSON schemas of the tools are plain data and live with the server.

use vstd::prelude::*;
use crate::text::{concat2, join, joined_with, owned, push_str};
use crate::library::types::{NotebookView, strs};
use crate::library::notebook_library::NotebookLibrary;
use crate::tools::handlers::active_entry;

verus! {

pub const DESCRIPTION_HEAD: &'static str = "# Conversational Research Partner (NotebookLM • Gemini 2.5 • Session RAG)\n\n**Active Notebook:** ";
pub const DESCRIPTION_CONTENT: &'static str = "\n**Content:** ";
pub const DESCRIPTION_TOPICS: &'static str = "\n**Topics:** ";
pub const DESCRIPTION_USE_CASES: &'static str = "\n\n> Auth tip: If login is required, use the prompt 'notebooklm.auth-setup' and then verify with the 'get_health' tool. If authentication later fails (e.g., expired cookies), use the prompt 'notebooklm.auth-repair'.\n\n## What This Tool Is\n- Full conversational research with Gemini (LLM) grounded on your notebook sources\n- Session-based: each follow-up uses prior context for deeper, more precise answers\n- Source-cited responses designed to minimize hallucinations\n\n## When To Use\n";
pub const DESCRIPTION_RULES: &'static str = "\n\n## Rules (Important)\n- Always prefer continuing an existing session for the same task\n- If you start a new thread, create a new session and keep its session_id\n- Ask clarifying questions before implementing; do not guess missing details\n- If multiple notebooks could apply, propose the top 1–2 and ask which to use\n- If task context changes, ask to reset the session or switch notebooks\n- If authentication fails, use the prompts 'notebooklm.auth-repair' (or 'notebooklm.auth-setup') and verify with 'get_health'\n- After every NotebookLM answer: pause, compare with the user's goal, and only respond if you are 100% sure the information is complete. Otherwise, plan the next NotebookLM question in the same session.\n\n## Session Flow (Recommended)\n```javascript\n// 1) Start broad (no session_id → creates one)\nask_question({ question: \"Give me an overview of [topic]\" })\n// ← Save: result.session_id\n\n// 2) Go specific (same session)\nask_question({ question: \"Key APIs/methods?\", session_id })\n\n// 3) Cover pitfalls (same session)\nask_question({ question: \"Common edge cases + gotchas?\", session_id })\n\n// 4) Ask for production example (same session)\nask_question({ question: \"Show a production-ready example\", session_id })\n```\n\n## Automatic Multi-Pass Strategy (Host-driven)\n- Simple prompts return once-and-done answers.\n- For complex prompts, the host should issue follow-up calls:\n  1. Implementation plan (APIs, dependencies, configuration, authentication).\n  2. Pitfalls, gaps, validation steps, missing prerequisites.\n- Keep the same session_id for all follow-ups, review NotebookLM's answer, and ask more questions until the problem is fully resolved.\n- Before replying to the user, double-check: do you truly have everything? If not, queue another ask_question immediately.\n\n## Notebook Selection\n- Default: active notebook (";
pub const DESCRIPTION_END: &'static str = ")\n- Or set notebook_id to use a library notebook\n- Or set notebook_url for ad-hoc notebooks (not in library)\n- If ambiguous which notebook fits, ASK the user which to use";
pub const DESCRIPTION_NO_ACTIVE: &'static str = "# Conversational Research Partner (NotebookLM • Gemini 2.5 • Session RAG)\n\n## No Active Notebook\n- Visit https://notebooklm.google to create a notebook and get a share link\n- Use **add_notebook** to add it to your library (explains how to get the link)\n- Use **list_notebooks** to show available sources\n- Use **select_notebook** to set one active\n\n> Auth tip: If login is required, use the prompt 'notebooklm.auth-setup' and then verify with the 'get_health' tool. If authentication later fails (e.g., expired cookies), use the prompt 'notebooklm.auth-repair'.\n\nTip: Tell the user you can manage NotebookLM library and ask which notebook to use for the current task.";

/// The use cases as a Markdown list: one `  - ` line each.
pub open spec fn bullet_lines(use_cases: Seq<Seq<char>>) -> Seq<char> {
    joined_with(use_cases.map_values(|u: Seq<char>| "  - "@ + u), "\n"@)
}

/// The description for the active notebook, or the guide to adding one when
/// there is none.
pub open spec fn description_text(active: Option<NotebookView>) -> Seq<char> {
    match active {
        Some(nb) => DESCRIPTION_HEAD@ + nb.name + DESCRIPTION_CONTENT@ + nb.description
            + DESCRIPTION_TOPICS@ + joined_with(nb.topics, ", "@) + DESCRIPTION_USE_CASES@
            + bullet_lines(nb.use_cases) + DESCRIPTION_RULES@ + nb.id + DESCRIPTION_END@,
        None => DESCRIPTION_NO_ACTIVE@,
    }
}

fn bullets(use_cases: &Vec<String>) -> (r: Vec<String>)
    ensures
        strs(r@) == strs(use_cases@).map_values(|u: Seq<char>| "  - "@ + u),
{
    let mut r: Vec<String> = Vec::new();
    let mut i: usize = 0;
    while i < use_cases.len()
        invariant
            i <= use_cases.len(),
            r@.len() == i,
            forall|j: int| 0 <= j < i ==> #[trigger] r@[j]@ == "  - "@ + use_cases@[j]@,
        decreases use_cases.len() - i,
    {
        r.push(concat2("  - ", use_cases[i].as_str()));
        i = i + 1;
    }
    assert(strs(r@) =~= strs(use_cases@).map_values(|u: Seq<char>| "  - "@ + u));
    r
}

/// The description of the `ask_question` tool: with an active notebook, its
/// name, content, topics, use cases and id set into the research guide;
/// without one, how to add and select a notebook.
pub fn build_ask_question_description(library: &NotebookLibrary) -> (r: String)
    ensures
        r@ == description_text(active_entry(library@)),
{
    match library.get_active_notebook() {
        Some(active) => {
            let topics = join(&active.topics, ", ");
            let use_cases = join(&bullets(&active.use_cases), "\n");
            let mut s = owned(DESCRIPTION_HEAD);
            push_str(&mut s, active.name.as_str());
            push_str(&mut s, DESCRIPTION_CONTENT);
            push_str(&mut s, active.description.as_str());
            push_str(&mut s, DESCRIPTION_TOPICS);
            push_str(&mut s, topics.as_str());
            push_str(&mut s, DESCRIPTION_USE_CASES);
            push_str(&mut s, use_cases.as_str());
            push_str(&mut s, DESCRIPTION_RULES);
            push_str(&mut s, active.id.as_str());
            push_str(&mut s, DESCRIPTION_END);
            s
        },
        None => owned(DESCRIPTION_NO_ACTIVE),
    }
}

} // verus!
