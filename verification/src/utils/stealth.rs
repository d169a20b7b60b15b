//! Human-like timing: the integer choices behind typing speed and simulated
//! typos, and the class of delay a typed character gets. The delays themselves
//! are floating-point and are computed by the server.

use vstd::prelude::*;
use crate::config::Config;

verus! {

/// Calls `rand::thread_rng().gen_range(min..=max)`: a random integer of the
/// inclusive range, which its documentation promises. It panics on an empty
/// range, which `requires` leaves out.
#[verifier::external_body]
pub fn random_int(min: i64, max: i64) -> (r: i64)
    requires
        min <= max,
    ensures
        min <= r <= max,
{
    rand::Rng::gen_range(&mut rand::thread_rng(), min..=max)
}

/// The keys a simulated typo may hit.
pub const TYPO_KEYS: [char; 26] = [
    'q', 'w', 'e', 'r', 't', 'y', 'u', 'i', 'o', 'p', 'a', 's', 'd', 'f', 'g', 'h', 'j', 'k', 'l',
    'z', 'x', 'c', 'v', 'b', 'n', 'm',
];

/// A random lowercase letter of the keyboard, for typo simulation.
pub fn random_char() -> (r: char)
    ensures
        TYPO_KEYS@.contains(r),
{
    let k = random_int(0, 25);
    let c = TYPO_KEYS[k as usize];
    assert(TYPO_KEYS@[k as int] == c);
    c
}

/// The words per minute of one typing operation: the override when given,
/// else a random value in the configured range.
pub fn effective_wpm(override_wpm: Option<u32>, cfg: &Config) -> (r: u32)
    requires
        override_wpm.is_none() ==> cfg.typing_wpm_min <= cfg.typing_wpm_max,
    ensures
        match override_wpm {
            Some(w) => r == w,
            None => cfg.typing_wpm_min <= r <= cfg.typing_wpm_max,
        },
{
    match override_wpm {
        Some(w) => w,
        None => {
            let v = random_int(cfg.typing_wpm_min as i64, cfg.typing_wpm_max as i64);
            v as u32
        },
    }
}

/// How long the pause after a typed character is, relative to the average.
#[derive(Debug, Clone, Copy, PartialEq, Eq, Structural)]
pub enum DelayClass {
    /// `.`, `!` or `?`: 1.05 to 1.4 times the average.
    SentenceEnd,
    /// A space: 0.5 to 0.9 times the average.
    Space,
    /// A comma: 0.9 to 1.2 times the average.
    Comma,
    /// Any other character: 0.5 to 0.9 times the average.
    Other,
}

pub fn char_delay_class(ch: char) -> (r: DelayClass)
    ensures
        (ch == '.' || ch == '!' || ch == '?') <==> r == DelayClass::SentenceEnd,
        ch == ' ' <==> r == DelayClass::Space,
        ch == ',' <==> r == DelayClass::Comma,
{
    match ch {
        '.' | '!' | '?' => DelayClass::SentenceEnd,
        ' ' => DelayClass::Space,
        ',' => DelayClass::Comma,
        _ => DelayClass::Other,
    }
}

} // verus!
