//! Held WASD, sprint and jump edges, weapon-cycle steps, fire and emote-wheel
//! keys for mounted play.

use vstd::prelude::*;

use crate::text::{chars_eq_str, chars_of};

verus! {

/// The abstract state of the movement input.
pub struct MoveModel {
    pub forward: bool,
    pub back: bool,
    pub left: bool,
    pub right: bool,
    pub jump_edge: bool,
    pub sprint_edge: bool,
    pub weapon_cycle: i8,
    pub fire_held: bool,
    pub emote_held: bool,
    pub emote_press: bool,
    pub emote_release: bool,
}

/// Held WASD + sprint edge + jump edge + weapon-cycle edge + fire for
/// mounted play.
#[derive(Debug, Clone)]
pub struct MoveInput {
    pub forward: bool,
    pub back: bool,
    pub left: bool,
    pub right: bool,
    jump_edge: bool,
    sprint_edge: bool,
    /// Accumulated wheel steps: +1 next weapon, -1 previous.
    weapon_cycle: i8,
    /// Fire button held.
    fire_held: bool,
    /// Emote-wheel key held.
    emote_held: bool,
    /// Emote key went down since the last take.
    emote_press: bool,
    /// Emote key went up since the last take.
    emote_release: bool,
}

impl View for MoveInput {
    type V = MoveModel;

    closed spec fn view(&self) -> MoveModel {
        MoveModel {
            forward: self.forward,
            back: self.back,
            left: self.left,
            right: self.right,
            jump_edge: self.jump_edge,
            sprint_edge: self.sprint_edge,
            weapon_cycle: self.weapon_cycle,
            fire_held: self.fire_held,
            emote_held: self.emote_held,
            emote_press: self.emote_press,
            emote_release: self.emote_release,
        }
    }
}

/// Nothing held, no pending edges.
pub open spec fn idle_model() -> MoveModel {
    MoveModel {
        forward: false,
        back: false,
        left: false,
        right: false,
        jump_edge: false,
        sprint_edge: false,
        weapon_cycle: 0,
        fire_held: false,
        emote_held: false,
        emote_press: false,
        emote_release: false,
    }
}

/// The sign of a held pair as a step: `+1`, `-1` or `0`.
pub open spec fn axis(pos: bool, neg: bool) -> i8 {
    if pos && !neg {
        1
    } else if neg && !pos {
        -1i8
    } else {
        0
    }
}

impl MoveInput {
    pub fn new() -> (r: Self)
        ensures
            r@ == idle_model(),
    {
        MoveInput {
            forward: false,
            back: false,
            left: false,
            right: false,
            jump_edge: false,
            sprint_edge: false,
            weapon_cycle: 0,
            fire_held: false,
            emote_held: false,
            emote_press: false,
            emote_release: false,
        }
    }

    /// Presses or releases a movement key by its `KeyboardEvent.code`
    /// (`KeyW`, `KeyS`, `KeyA`, `KeyD`); other codes change nothing.
    pub fn set_key(&mut self, code: &str, pressed: bool)
        ensures
            final(self)@ == if code@ == "KeyW"@ {
                MoveModel { forward: pressed, ..old(self)@ }
            } else if code@ == "KeyS"@ {
                MoveModel { back: pressed, ..old(self)@ }
            } else if code@ == "KeyA"@ {
                MoveModel { left: pressed, ..old(self)@ }
            } else if code@ == "KeyD"@ {
                MoveModel { right: pressed, ..old(self)@ }
            } else {
                old(self)@
            },
    {
        let c = chars_of(code);
        if chars_eq_str(&c, "KeyW") {
            self.forward = pressed;
        } else if chars_eq_str(&c, "KeyS") {
            self.back = pressed;
        } else if chars_eq_str(&c, "KeyA") {
            self.left = pressed;
        } else if chars_eq_str(&c, "KeyD") {
            self.right = pressed;
        }
    }

    pub fn note_jump_press(&mut self)
        ensures
            final(self)@ == (MoveModel { jump_edge: true, ..old(self)@ }),
    {
        self.jump_edge = true;
    }

    /// Whether jump was pressed since the last take.
    pub fn take_jump(&mut self) -> (j: bool)
        ensures
            j == old(self)@.jump_edge,
            final(self)@ == (MoveModel { jump_edge: false, ..old(self)@ }),
    {
        let j = self.jump_edge;
        self.jump_edge = false;
        j
    }

    pub fn note_sprint_press(&mut self)
        ensures
            final(self)@ == (MoveModel { sprint_edge: true, ..old(self)@ }),
    {
        self.sprint_edge = true;
    }

    /// Whether sprint was pressed since the last take.
    pub fn take_sprint(&mut self) -> (s: bool)
        ensures
            s == old(self)@.sprint_edge,
            final(self)@ == (MoveModel { sprint_edge: false, ..old(self)@ }),
    {
        let s = self.sprint_edge;
        self.sprint_edge = false;
        s
    }

    /// One wheel notch in the direction of the sign of the wheel delta
    /// (`direction > 0`: scroll down, next weapon; `< 0`: previous); the
    /// count saturates at the `i8` range.
    pub fn note_weapon_wheel(&mut self, direction: i8)
        ensures
            final(self)@ == (MoveModel {
                weapon_cycle: if direction > 0 {
                    if old(self)@.weapon_cycle < i8::MAX {
                        (old(self)@.weapon_cycle + 1) as i8
                    } else {
                        i8::MAX
                    }
                } else if direction < 0 {
                    if old(self)@.weapon_cycle > i8::MIN {
                        (old(self)@.weapon_cycle - 1) as i8
                    } else {
                        i8::MIN
                    }
                } else {
                    old(self)@.weapon_cycle
                },
                ..old(self)@
            }),
    {
        if direction > 0 {
            if self.weapon_cycle < i8::MAX {
                self.weapon_cycle = self.weapon_cycle + 1;
            }
        } else if direction < 0 {
            if self.weapon_cycle > i8::MIN {
                self.weapon_cycle = self.weapon_cycle - 1;
            }
        }
    }

    /// Signed cycle steps since the last take (+ next, - previous).
    pub fn take_weapon_cycle(&mut self) -> (c: i8)
        ensures
            c == old(self)@.weapon_cycle,
            final(self)@ == (MoveModel { weapon_cycle: 0, ..old(self)@ }),
    {
        let c = self.weapon_cycle;
        self.weapon_cycle = 0;
        c
    }

    pub fn set_fire_held(&mut self, held: bool)
        ensures
            final(self)@ == (MoveModel { fire_held: held, ..old(self)@ }),
    {
        self.fire_held = held;
    }

    pub fn fire_held(&self) -> (r: bool)
        ensures
            r == self@.fire_held,
    {
        self.fire_held
    }

    /// Holds or releases the emote key, noting a press or release edge when
    /// the held state changes.
    pub fn set_emote_held(&mut self, held: bool)
        ensures
            final(self)@ == (MoveModel {
                emote_held: held,
                emote_press: old(self)@.emote_press || (held && !old(self)@.emote_held),
                emote_release: old(self)@.emote_release || (!held && old(self)@.emote_held),
                ..old(self)@
            }),
    {
        if held && !self.emote_held {
            self.emote_press = true;
        }
        if !held && self.emote_held {
            self.emote_release = true;
        }
        self.emote_held = held;
    }

    pub fn emote_held(&self) -> (r: bool)
        ensures
            r == self@.emote_held,
    {
        self.emote_held
    }

    pub fn take_emote_press(&mut self) -> (v: bool)
        ensures
            v == old(self)@.emote_press,
            final(self)@ == (MoveModel { emote_press: false, ..old(self)@ }),
    {
        let v = self.emote_press;
        self.emote_press = false;
        v
    }

    pub fn take_emote_release(&mut self) -> (v: bool)
        ensures
            v == old(self)@.emote_release,
            final(self)@ == (MoveModel { emote_release: false, ..old(self)@ }),
    {
        let v = self.emote_release;
        self.emote_release = false;
        v
    }

    pub fn is_move_key(code: &str) -> (r: bool)
        ensures
            r == (code@ == "KeyW"@ || code@ == "KeyA"@ || code@ == "KeyS"@ || code@ == "KeyD"@),
    {
        let c = chars_of(code);
        chars_eq_str(&c, "KeyW") || chars_eq_str(&c, "KeyA") || chars_eq_str(&c, "KeyS")
            || chars_eq_str(&c, "KeyD")
    }

    pub fn is_sprint_key(code: &str) -> (r: bool)
        ensures
            r == (code@ == "ShiftLeft"@ || code@ == "ShiftRight"@),
    {
        let c = chars_of(code);
        chars_eq_str(&c, "ShiftLeft") || chars_eq_str(&c, "ShiftRight")
    }

    pub fn is_emote_key(code: &str) -> (r: bool)
        ensures
            r == (code@ == "KeyB"@),
    {
        let c = chars_of(code);
        chars_eq_str(&c, "KeyB")
    }

    /// Releases everything and drops pending edges.
    pub fn clear_keys(&mut self)
        ensures
            final(self)@ == idle_model(),
    {
        *self = Self::new();
    }

    /// Digital forward (W/S) and strafe (D/A) steps, each -1, 0 or 1.
    pub fn axes(&self) -> (r: (i8, i8))
        ensures
            r == (axis(self@.forward, self@.back), axis(self@.right, self@.left)),
    {
        let forward = (if self.forward {
            1i8
        } else {
            0i8
        }) - (if self.back {
            1i8
        } else {
            0i8
        });
        let strafe = (if self.right {
            1i8
        } else {
            0i8
        }) - (if self.left {
            1i8
        } else {
            0i8
        });
        (forward, strafe)
    }
}

} // verus!
