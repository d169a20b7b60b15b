//! Extraction of NotebookLM answers from the web UI: selectors, the
//! stable-poll constant, the text hash, and the decision logic of the answer
//! watcher. The browser polling itself is the caller's part: it feeds each
//! poll's response texts to `AnswerWatcher::observe` and sleeps, stops or
//! returns the answer as told.

use vstd::prelude::*;
use crate::text::{trim, trimmed, lowercase, spec_to_lowercase, str_eq, owned};
use crate::library::types::{strs, copy_strs};
use std::collections::HashSet;

verus! {

broadcast use vstd::std_specs::hash::group_hash_axioms;

/// CSS selectors to find assistant response elements, most specific first.
pub const RESPONSE_SELECTORS: [&'static str; 13] = [
    ".to-user-container .message-text-content",
    "[data-message-author='bot']",
    "[data-message-author='assistant']",
    "[data-message-role='assistant']",
    "[data-author='assistant']",
    "[data-renderer*='assistant']",
    "[data-automation-id='response-text']",
    "[data-automation-id='assistant-response']",
    "[data-automation-id='chat-response']",
    "[data-testid*='assistant']",
    "[data-testid*='response']",
    "[aria-live='polite']",
    "[role='listitem'][data-message-author]",
];

/// Primary container selector (most specific for NotebookLM).
pub const PRIMARY_CONTAINER_SELECTOR: &'static str = ".to-user-container";

/// Inner text-content selector within a primary container.
pub const MESSAGE_TEXT_SELECTOR: &'static str = ".message-text-content";

/// Spinner / "thinking" indicator selector.
pub const THINKING_SELECTOR: &'static str = "div.thinking-message";

/// Number of consecutive identical polls required before a response counts as
/// fully streamed.
pub const REQUIRED_STABLE_POLLS: usize = 3;

/// The hash that `std::collections::hash_map::DefaultHasher` (created with
/// `new`, fed the string through `Hash`, then `finish`) gives a string.
pub uninterp spec fn spec_hash_string(s: Seq<char>) -> u64;

/// Calls `DefaultHasher::new`, `str::hash` and `Hasher::finish`. `DefaultHasher::new`
/// uses fixed keys, so the result is a function of the string.
#[verifier::external_body]
fn default_hash(s: &str) -> (r: u64)
    ensures
        r == spec_hash_string(s@),
{
    let mut h = std::collections::hash_map::DefaultHasher::new();
    std::hash::Hash::hash(s, &mut h);
    std::hash::Hasher::finish(&h)
}

/// Deterministic hash of a string, used to compare known and new response texts
/// without keeping the texts.
pub fn hash_string(s: &str) -> (r: u64)
    ensures
        r == spec_hash_string(s@),
{
    default_hash(s)
}

/// Options for waiting for the latest answer.
#[derive(Debug)]
pub struct WaitOptions {
    /// The question text that was just submitted (used to skip echoes).
    pub question: String,
    /// Maximum wait time in milliseconds (default: 120 000).
    pub timeout_ms: u64,
    /// How often to poll the DOM (default: 1 000).
    pub poll_interval_ms: u64,
    /// Response texts that already existed before the question was asked.
    pub ignore_texts: Vec<String>,
    /// Enable verbose debug logging.
    pub debug: bool,
}

impl Default for WaitOptions {
    fn default() -> (r: WaitOptions)
        ensures
            r.question@.len() == 0,
            r.timeout_ms == 120000,
            r.poll_interval_ms == 1000,
            r.ignore_texts@.len() == 0,
            !r.debug,
    {
        WaitOptions {
            question: String::new(),
            timeout_ms: 120000,
            poll_interval_ms: 1000,
            ignore_texts: Vec::new(),
            debug: false,
        }
    }
}

// ---------------------------------------------------------------------------
// Answer watcher
// ---------------------------------------------------------------------------

/// The hashes of the trimmed, non-empty ignored texts.
pub open spec fn ignored_hashes(texts: Seq<Seq<char>>) -> Set<u64>
    decreases texts.len(),
{
    if texts.len() == 0 {
        Set::empty()
    } else {
        let rest = ignored_hashes(texts.drop_last());
        let t = trimmed(texts.last());
        if t.len() > 0 {
            rest.insert(spec_hash_string(t))
        } else {
            rest
        }
    }
}

/// The first text whose hash is not known.
pub open spec fn first_new(texts: Seq<Seq<char>>, known: Set<u64>) -> Option<Seq<char>>
    decreases texts.len(),
{
    if texts.len() == 0 {
        None
    } else if !known.contains(spec_hash_string(texts[0])) {
        Some(texts[0])
    } else {
        first_new(texts.drop_first(), known)
    }
}

/// Model of the watcher state.
#[verifier::ext_equal]
pub struct WatchView {
    pub known: Set<u64>,
    pub question: Seq<char>,
    pub last: Option<Seq<char>>,
    pub stable: nat,
}

/// What the poll loop does next.
#[derive(Debug)]
pub enum WaitStep {
    /// Sleep for the poll interval and poll again.
    Continue,
    /// The answer is complete.
    Answer(String),
}

/// The watcher state after one poll that saw `texts`, and whether it produced an answer.
pub open spec fn watch_next(st: WatchView, texts: Seq<Seq<char>>) -> (WatchView, Option<Seq<char>>) {
    match first_new(texts, st.known) {
        None => (st, None),
        Some(c) => {
            let n = trimmed(c);
            if n.len() == 0 {
                (st, None)
            } else if spec_to_lowercase(n) == st.question {
                (WatchView { known: st.known.insert(spec_hash_string(n)), ..st }, None)
            } else {
                let stable = if st.last == Some(n) { st.stable + 1 } else { 1nat };
                let next = WatchView { last: Some(n), stable, ..st };
                (next, if stable >= REQUIRED_STABLE_POLLS { Some(n) } else { None })
            }
        },
    }
}

/// State of the wait for the latest new answer: the hashes of texts to skip,
/// the lowercased question, and the streaming detection counters.
pub struct AnswerWatcher {
    known_hashes: HashSet<u64>,
    sanitized_question: String,
    last_candidate: Option<String>,
    stable_count: usize,
}

impl View for AnswerWatcher {
    type V = WatchView;

    closed spec fn view(&self) -> WatchView {
        WatchView {
            known: self.known_hashes@,
            question: self.sanitized_question@,
            last: match self.last_candidate {
                Some(s) => Some(s@),
                None => None,
            },
            stable: self.stable_count as nat,
        }
    }
}

impl AnswerWatcher {
    /// The watcher is still waiting: fewer stable polls than required.
    pub open spec fn waiting(&self) -> bool {
        self@.stable < REQUIRED_STABLE_POLLS
    }

    /// A watcher for a question just asked, skipping the responses present before.
    pub fn new(opts: &WaitOptions) -> (r: AnswerWatcher)
        ensures
            r@.known == ignored_hashes(strs(opts.ignore_texts@)),
            r@.question == spec_to_lowercase(trimmed(opts.question@)),
            r@.last.is_none(),
            r@.stable == 0,
            r.waiting(),
    {
        let ghost ts = strs(opts.ignore_texts@);
        let mut known: HashSet<u64> = HashSet::new();
        let mut i: usize = 0;
        while i < opts.ignore_texts.len()
            invariant
                ts == strs(opts.ignore_texts@),
                i <= opts.ignore_texts.len(),
                known@ == ignored_hashes(ts.subrange(0, i as int)),
            decreases opts.ignore_texts.len() - i,
        {
            let ghost nxt = ts.subrange(0, i + 1);
            assert(nxt.drop_last() =~= ts.subrange(0, i as int));
            assert(nxt.last() == opts.ignore_texts@[i as int]@);
            let t = trim(opts.ignore_texts[i].as_str());
            if !t.as_str().is_empty() {
                known.insert(hash_string(t.as_str()));
            }
            i = i + 1;
        }
        assert(ts.subrange(0, opts.ignore_texts.len() as int) =~= ts);
        let q = trim(opts.question.as_str());
        AnswerWatcher {
            known_hashes: known,
            sanitized_question: lowercase(q.as_str()),
            last_candidate: None,
            stable_count: 0,
        }
    }

    fn is_known(&self, h: u64) -> (r: bool)
        ensures
            r == self@.known.contains(h),
    {
        self.known_hashes.contains(&h)
    }

    /// The first response text whose hash is not known.
    fn latest_new_text(&self, texts: &Vec<String>) -> (r: Option<String>)
        ensures
            match r {
                Some(t) => first_new(strs(texts@), self@.known) == Some(t@),
                None => first_new(strs(texts@), self@.known).is_none(),
            },
    {
        let ghost ts = strs(texts@);
        let mut i: usize = 0;
        assert(ts.subrange(0, ts.len() as int) =~= ts);
        while i < texts.len()
            invariant
                ts == strs(texts@),
                i <= texts.len(),
                first_new(ts, self@.known) == first_new(ts.subrange(i as int, ts.len() as int), self@.known),
            decreases texts.len() - i,
        {
            let ghost rest = ts.subrange(i as int, ts.len() as int);
            assert(rest.drop_first() =~= ts.subrange(i + 1, ts.len() as int));
            assert(rest[0] == texts@[i as int]@);
            let h = hash_string(texts[i].as_str());
            if !self.is_known(h) {
                return Some(texts[i].clone());
            }
            i = i + 1;
        }
        None
    }

    /// Takes one poll's response texts (empty when the page could not be read)
    /// and tells whether the latest new answer is complete. A candidate equal to
    /// the question (ignoring case) is an echo: it is remembered and skipped. A
    /// candidate is the answer once it has been seen on the required number of
    /// consecutive polls.
    pub fn observe(&mut self, texts: &Vec<String>) -> (r: WaitStep)
        requires
            old(self).waiting(),
        ensures
            final(self)@ == watch_next(old(self)@, strs(texts@)).0,
            match r {
                WaitStep::Continue => watch_next(old(self)@, strs(texts@)).1.is_none() && final(self).waiting(),
                WaitStep::Answer(a) => watch_next(old(self)@, strs(texts@)).1 == Some(a@),
            },
    {
        let candidate = match self.latest_new_text(texts) {
            Some(c) => c,
            None => return WaitStep::Continue,
        };
        let normalized = trim(candidate.as_str());
        if normalized.as_str().is_empty() {
            return WaitStep::Continue;
        }
        let lower = lowercase(normalized.as_str());
        if str_eq(lower.as_str(), self.sanitized_question.as_str()) {
            let h = hash_string(normalized.as_str());
            self.known_hashes.insert(h);
            return WaitStep::Continue;
        }
        let same = match &self.last_candidate {
            Some(last) => str_eq(last.as_str(), normalized.as_str()),
            None => false,
        };
        if same {
            self.stable_count = self.stable_count + 1;
        } else {
            self.stable_count = 1;
            self.last_candidate = Some(normalized.clone());
        }
        if self.stable_count >= REQUIRED_STABLE_POLLS {
            WaitStep::Answer(normalized)
        } else {
            WaitStep::Continue
        }
    }
}

/// Once a text has been skipped as an echo (its hash is known), no later poll
/// picks that text as a candidate again.
pub proof fn law_echo_never_candidate_again(texts: Seq<Seq<char>>, known: Set<u64>, echo: Seq<char>)
    ensures
        first_new(texts, known.insert(spec_hash_string(echo))) != Some(echo),
    decreases texts.len(),
{
    if texts.len() > 0 {
        law_echo_never_candidate_again(texts.drop_first(), known, echo);
    }
}

/// An answer is given only when the same candidate text was already the
/// candidate of the previous polls (enough of them to reach the required
/// number of consecutive stable polls), and it is never the question's echo.
pub proof fn law_answer_needs_stable_polls(st: WatchView, texts: Seq<Seq<char>>)
    requires
        watch_next(st, texts).1.is_some(),
    ensures
        watch_next(st, texts).0.stable >= REQUIRED_STABLE_POLLS,
        watch_next(st, texts).0.last == watch_next(st, texts).1,
        spec_to_lowercase(watch_next(st, texts).1.unwrap()) != st.question,
        st.stable + 1 >= REQUIRED_STABLE_POLLS,
        st.last == watch_next(st, texts).1,
{
}

/// The stable count counts consecutive polls with the same candidate: a poll
/// whose candidate differs from the previous one starts the count again at
/// one, a poll that repeats the candidate adds exactly one, and a poll without
/// a new candidate leaves the count as it was.
pub proof fn law_stable_count_restarts_on_change(st: WatchView, texts: Seq<Seq<char>>)
    ensures
        watch_next(st, texts).0.last != st.last ==> watch_next(st, texts).0.stable == 1,
        watch_next(st, texts).0.last == st.last ==> (watch_next(st, texts).0.stable == st.stable
            || watch_next(st, texts).0.stable == st.stable + 1),
        watch_next(st, texts).0.stable <= st.stable + 1,
{
}

/// An answer is a text that was already the candidate, with a stable count of
/// at least two, before the poll that returns it; so a text that has just
/// changed (a count of one) is never returned on the next poll.
pub proof fn law_answer_after_repeats(st: WatchView, texts: Seq<Seq<char>>)
    requires
        watch_next(st, texts).1.is_some(),
    ensures
        st.last == watch_next(st, texts).1,
        st.stable >= REQUIRED_STABLE_POLLS - 1,
        REQUIRED_STABLE_POLLS - 1 >= 2,
{
}

} // verus!
