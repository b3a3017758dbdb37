//! Character-kit tables: blaster letters, animation channel paths and the
//! pose a kit is built for.

use vstd::prelude::*;

use crate::text::{push_char, string_from};

verus! {

/// glTF animation path on a node.
#[derive(Debug, Clone, Copy, PartialEq, Eq, Structural)]
pub enum AnimPath {
    Translation,
    Rotation,
    Scale,
}

/// Which channels feed a character kit pose.
///
/// One sim drive builds both: `Look` for mount and aim, `Present` for the
/// drawn body.
#[derive(Debug, Clone, Copy, PartialEq, Eq, Structural)]
pub enum KitPose {
    /// Root and look; locomotion held at stand. Look origin and aim.
    Look,
    /// Full drive including the walk phase. Drawn body.
    Present,
}

/// Blaster kit letters run from `a` to `r`.
pub open spec fn is_kit_letter(letter: u8) -> bool {
    0x61 <= letter <= 0x72
}

/// The message for a byte that names no kit letter.
pub open spec fn letter_error(letter: u8) -> Seq<char> {
    "kit letter out of range: "@.push(letter as char)
}

/// Index of a blaster kit letter: `a` is 0, `r` is 17; any other byte is
/// refused with a message naming it as a character.
pub fn letter_index(letter: u8) -> (r: Result<usize, String>)
    ensures
        is_kit_letter(letter) ==> r == Ok::<usize, String>((letter - 0x61) as usize),
        !is_kit_letter(letter) ==> r is Err && r->Err_0@ == letter_error(letter),
{
    if 0x61 <= letter && letter <= 0x72 {
        Ok((letter - 0x61) as usize)
    } else {
        let mut msg = string_from("kit letter out of range: ");
        push_char(&mut msg, letter as char);
        Err(msg)
    }
}

} // verus!
