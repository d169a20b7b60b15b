use notebooklm_core::utils::page_utils::{
    hash_string, AnswerWatcher, WaitOptions, WaitStep, PRIMARY_CONTAINER_SELECTOR, REQUIRED_STABLE_POLLS,
    RESPONSE_SELECTORS,
};

#[test]
fn hash_deterministic_within_run() {
    let s = "Hello, NotebookLM!";
    assert_eq!(hash_string(s), hash_string(s));
}

#[test]
fn hash_distinct_strings_differ() {
    assert_ne!(hash_string("foo"), hash_string("bar"));
}

#[test]
fn hash_empty_string() {
    let _ = hash_string("");
}

#[test]
fn selectors_non_empty() {
    assert!(!RESPONSE_SELECTORS.is_empty());
    assert!(
        RESPONSE_SELECTORS.iter().any(|s| s.contains("to-user-container")),
        "primary selector missing from RESPONSE_SELECTORS"
    );
}

#[test]
fn required_stable_polls_is_three() {
    assert_eq!(REQUIRED_STABLE_POLLS, 3);
}

#[test]
fn wait_options_defaults() {
    let opts = WaitOptions::default();
    assert_eq!(opts.timeout_ms, 120_000);
    assert_eq!(opts.poll_interval_ms, 1_000);
    assert!(!opts.debug);
}

#[test]
fn primary_container_is_first_selector() {
    assert!(RESPONSE_SELECTORS[0].starts_with(PRIMARY_CONTAINER_SELECTOR));
}

fn texts(v: &[&str]) -> Vec<String> {
    v.iter().map(|s| s.to_string()).collect()
}

#[test]
fn answer_after_three_stable_polls() {
    let opts = WaitOptions { question: "What is X?".into(), ignore_texts: texts(&["old answer"]), ..WaitOptions::default() };
    let mut w = AnswerWatcher::new(&opts);
    let polls = texts(&["  new answer  ", "old answer"]);
    assert!(matches!(w.observe(&polls), WaitStep::Continue));
    assert!(matches!(w.observe(&polls), WaitStep::Continue));
    match w.observe(&polls) {
        WaitStep::Answer(a) => assert_eq!(a, "new answer"),
        WaitStep::Continue => panic!("expected the answer on the third stable poll"),
    }
}

#[test]
fn changing_text_restarts_the_count() {
    let opts = WaitOptions::default();
    let mut w = AnswerWatcher::new(&opts);
    assert!(matches!(w.observe(&texts(&["part"])), WaitStep::Continue));
    assert!(matches!(w.observe(&texts(&["part two"])), WaitStep::Continue));
    assert!(matches!(w.observe(&texts(&["part two"])), WaitStep::Continue));
    assert!(matches!(w.observe(&texts(&["part two"])), WaitStep::Answer(_)));
}

#[test]
fn echo_of_question_is_skipped() {
    let opts = WaitOptions { question: "Hello There".into(), ..WaitOptions::default() };
    let mut w = AnswerWatcher::new(&opts);
    for _ in 0..5 {
        assert!(matches!(w.observe(&texts(&["hello there"])), WaitStep::Continue));
    }
    assert!(matches!(w.observe(&texts(&["hello there", "reply"])), WaitStep::Continue));
}

#[test]
fn old_responses_never_answer() {
    let opts = WaitOptions { ignore_texts: texts(&["a", "b"]), ..WaitOptions::default() };
    let mut w = AnswerWatcher::new(&opts);
    for _ in 0..5 {
        assert!(matches!(w.observe(&texts(&["a", "b"])), WaitStep::Continue));
    }
    assert!(matches!(w.observe(&Vec::new()), WaitStep::Continue));
}
