//! Removing a source from a notebook page: the name as it is embedded in the
//! page script, and what to do after the script looked for the source's menu.

use vstd::prelude::*;
use crate::text::{chars_of, string_from_chars, concat2};

verus! {

/// `s` with a backslash before each `'`, as `replace('\'', "\\'")` gives it.
pub open spec fn escaped_quotes(s: Seq<char>) -> Seq<char>
    decreases s.len(),
{
    if s.len() == 0 {
        Seq::empty()
    } else if s.last() == '\'' {
        escaped_quotes(s.drop_last()) + seq!['\\', '\'']
    } else {
        escaped_quotes(s.drop_last()).push(s.last())
    }
}

/// Escapes the single quotes of a source name for a single-quoted script string.
pub fn escape_single_quotes(name: &str) -> (r: String)
    ensures
        r@ == escaped_quotes(name@),
{
    let cs = chars_of(name);
    let mut out: Vec<char> = Vec::new();
    let mut i: usize = 0;
    while i < cs.len()
        invariant
            i <= cs.len(),
            out@ == escaped_quotes(cs@.subrange(0, i as int)),
        decreases cs.len() - i,
    {
        let ghost pre = cs@.subrange(0, i as int);
        assert(cs@.subrange(0, i + 1).drop_last() =~= pre);
        if cs[i] == '\'' {
            out.push('\\');
            out.push('\'');
            assert(out@ =~= escaped_quotes(pre) + seq!['\\', '\'']);
        } else {
            out.push(cs[i]);
        }
        i = i + 1;
    }
    assert(cs@.subrange(0, cs.len() as int) =~= cs@);
    string_from_chars(&out)
}

/// What follows the script that looks for a source row and clicks its menu button.
#[derive(Debug, Clone, Copy, PartialEq, Eq, Structural)]
pub enum MenuStep {
    /// No row shows the name: nothing is removed.
    NotFound,
    /// The menu is open: click its delete entry.
    Opened,
    /// The row is there but its button was not yet shown: wait and click again.
    RetryClick,
}

pub fn menu_step(found: bool, clicked: bool) -> (r: MenuStep)
    ensures
        !found ==> r == MenuStep::NotFound,
        found && clicked ==> r == MenuStep::Opened,
        found && !clicked ==> r == MenuStep::RetryClick,
{
    if !found {
        MenuStep::NotFound
    } else if clicked {
        MenuStep::Opened
    } else {
        MenuStep::RetryClick
    }
}

/// The error when the menu button of a found source could not be clicked.
pub fn menu_button_error(name: &str) -> (r: String)
    ensures
        r@ == "Source '"@ + name@ + "' found but its 3-dots menu button could not be clicked. NotebookLM's UI may have changed."@,
{
    let a = concat2("Source '", name);
    concat2(a.as_str(), "' found but its 3-dots menu button could not be clicked. NotebookLM's UI may have changed.")
}

/// The error when the opened menu offered no delete entry to click.
pub fn delete_button_error(name: &str) -> (r: String)
    ensures
        r@ == "Opened context menu for '"@ + name@ + "' but could not click the delete button. NotebookLM's UI may have changed."@,
{
    let a = concat2("Opened context menu for '", name);
    concat2(a.as_str(), "' but could not click the delete button. NotebookLM's UI may have changed.")
}

} // verus!
