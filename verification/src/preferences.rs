//! Client-owned preferences: recognising the mouse-sensitivity console
//! command. The multiplier itself is a float and lives with the caller.

use vstd::prelude::*;

use crate::text::{chars_eq_str, chars_of, split_words, string_of, views, words};

verus! {

/// What a `mousesens` / `mouse.sens` console line asks for.
#[derive(Debug)]
pub enum MouseSensCommand {
    /// Print the current multiplier.
    Show,
    /// Set the multiplier from this argument text.
    Assign(String),
}

/// The abstract command: `None` when the line is not a mouse-sensitivity
/// command, `Some(None)` to show the value, `Some(Some(arg))` to set it.
pub open spec fn spec_mouse_sens_command(line: Seq<char>) -> Option<Option<Seq<char>>> {
    let w = words(line);
    if w.len() == 0 || !(w[0] == "mousesens"@ || w[0] == "mouse.sens"@) {
        None
    } else if w.len() == 1 {
        Some(None)
    } else {
        Some(Some(w[1]))
    }
}

/// Recognises `mousesens [value]` and `mouse.sens [value]`; any further words
/// after the value are ignored.
pub fn mouse_sens_command(line: &str) -> (r: Option<MouseSensCommand>)
    ensures
        match spec_mouse_sens_command(line@) {
            None => r is None,
            Some(None) => r matches Some(MouseSensCommand::Show),
            Some(Some(a)) => r matches Some(MouseSensCommand::Assign(s)) && s@ == a,
        },
{
    let chars = chars_of(line);
    let ws = split_words(&chars);
    if ws.len() == 0 {
        return None;
    }
    assert(ws@[0]@ == views(ws@)[0]);
    if !(chars_eq_str(&ws[0], "mousesens") || chars_eq_str(&ws[0], "mouse.sens")) {
        return None;
    }
    if ws.len() == 1 {
        Some(MouseSensCommand::Show)
    } else {
        assert(ws@[1]@ == views(ws@)[1]);
        Some(MouseSensCommand::Assign(string_of(&ws[1])))
    }
}

} // verus!
