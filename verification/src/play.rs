//! One frame of mounted-play controls: how the emote wheel, fire, look,
//! movement wishes, sprint, jump, reload and weapon cycling decide from the
//! frame's input edges. Applying the plan (look angles, movement, the
//! wheel's pointer selection) is the caller's.

use vstd::prelude::*;

verus! {

/// What the frame's controls start from.
#[derive(Debug, Clone, Copy, PartialEq, Eq, Structural)]
pub struct PlayInputs {
    /// Play input is accepted this frame (no UI or console in the way).
    pub play_ok: bool,
    /// The fire button is held.
    pub fire_held: bool,
    /// The emote key went down since the last frame.
    pub emote_press: bool,
    /// The emote key went up since the last frame.
    pub emote_release: bool,
    /// The emote key is held now.
    pub emote_held: bool,
    /// The emote wheel is open at the start of the frame.
    pub wheel_open: bool,
    /// The body stands on the ground.
    pub grounded: bool,
    /// A burst holds the weapon side (no sprint, swap, reload or emote).
    pub weapon_side_blocked: bool,
    /// Digital forward step.
    pub forward: i8,
    /// Digital strafe step.
    pub strafe: i8,
    pub sprint_tap: bool,
    pub jump: bool,
    pub reload: bool,
    /// Signed weapon-cycle notches.
    pub weapon_steps: i8,
}

/// What the frame's controls do.
#[derive(Debug, Clone, Copy, PartialEq, Eq, Structural)]
pub struct PlayPlan {
    /// Close the wheel before anything else (fire pressed while it is open,
    /// or play input not accepted).
    pub close_wheel: bool,
    /// Open the wheel (fresh selection).
    pub open_wheel: bool,
    /// Feed the look into the wheel's selection.
    pub select: bool,
    /// Commit the highlighted emote, if any, and close the wheel.
    pub commit: bool,
    /// The fire button counts as held.
    pub fire: bool,
    /// Turn the view by the look.
    pub apply_look: bool,
    /// Movement wish, forward and strafe.
    pub wish_forward: i8,
    pub wish_strafe: i8,
    pub sprint: bool,
    pub jump: bool,
    pub reload: bool,
    /// Weapon-cycle notches to apply, and their direction (-1, 0 or 1).
    pub cycle_count: u8,
    pub cycle_dir: i8,
    /// Release every held key, fire and emote (play input not accepted).
    pub clear_inputs: bool,
}

/// The sign of a notch count.
pub open spec fn signum(n: i8) -> i8 {
    if n > 0 {
        1
    } else if n < 0 {
        -1i8
    } else {
        0
    }
}

/// The number of notches of a count.
pub open spec fn notches(n: i8) -> u8 {
    if n >= 0 {
        n as u8
    } else {
        (-(n as int)) as u8
    }
}

/// The plan of one frame. Fire while the wheel is open closes it; the
/// emote press opens it on the ground when the weapon side is free; while
/// it is open the look selects, and the release (or the key no longer held)
/// commits. With the wheel open after that, nothing fires, looks, moves,
/// sprints, jumps, reloads or cycles.
pub open spec fn play_plan(i: PlayInputs) -> PlayPlan {
    if !i.play_ok {
        PlayPlan {
            close_wheel: true,
            open_wheel: false,
            select: false,
            commit: false,
            fire: false,
            apply_look: false,
            wish_forward: 0,
            wish_strafe: 0,
            sprint: false,
            jump: false,
            reload: false,
            cycle_count: 0,
            cycle_dir: 0,
            clear_inputs: true,
        }
    } else {
        let close_for_fire = i.fire_held && i.wheel_open;
        let open1 = i.wheel_open && !close_for_fire;
        let open_wheel = i.emote_press && !open1 && i.grounded && !i.weapon_side_blocked;
        let open2 = open1 || open_wheel;
        let commit = open2 && (i.emote_release || !i.emote_held);
        let open3 = open2 && !commit;
        let free = !open3;
        let cycle = !i.weapon_side_blocked && free;
        PlayPlan {
            close_wheel: close_for_fire,
            open_wheel,
            select: open2,
            commit,
            fire: i.fire_held && free,
            apply_look: free,
            wish_forward: if free {
                i.forward
            } else {
                0
            },
            wish_strafe: if free {
                i.strafe
            } else {
                0
            },
            sprint: i.sprint_tap && !i.weapon_side_blocked && free,
            jump: i.jump && free,
            reload: i.reload && free && !i.weapon_side_blocked,
            cycle_count: if cycle {
                notches(i.weapon_steps)
            } else {
                0
            },
            cycle_dir: signum(i.weapon_steps),
            clear_inputs: false,
        }
    }
}

/// Plans one frame of mounted-play controls.
pub fn plan_play_controls(i: PlayInputs) -> (p: PlayPlan)
    ensures
        p == play_plan(i),
{
    let dir: i8 = if i.weapon_steps > 0 {
        1
    } else if i.weapon_steps < 0 {
        -1i8
    } else {
        0
    };
    if !i.play_ok {
        return PlayPlan {
            close_wheel: true,
            open_wheel: false,
            select: false,
            commit: false,
            fire: false,
            apply_look: false,
            wish_forward: 0,
            wish_strafe: 0,
            sprint: false,
            jump: false,
            reload: false,
            cycle_count: 0,
            cycle_dir: 0,
            clear_inputs: true,
        };
    }
    let close_for_fire = i.fire_held && i.wheel_open;
    let open1 = i.wheel_open && !close_for_fire;
    let open_wheel = i.emote_press && !open1 && i.grounded && !i.weapon_side_blocked;
    let open2 = open1 || open_wheel;
    let commit = open2 && (i.emote_release || !i.emote_held);
    let open3 = open2 && !commit;
    let free = !open3;
    let cycle = !i.weapon_side_blocked && free;
    let count: u8 = if !cycle {
        0
    } else if i.weapon_steps >= 0 {
        i.weapon_steps as u8
    } else {
        let m = -(i.weapon_steps as i16);
        m as u8
    };
    PlayPlan {
        close_wheel: close_for_fire,
        open_wheel,
        select: open2,
        commit,
        fire: i.fire_held && free,
        apply_look: free,
        wish_forward: if free {
            i.forward
        } else {
            0
        },
        wish_strafe: if free {
            i.strafe
        } else {
            0
        },
        sprint: i.sprint_tap && !i.weapon_side_blocked && free,
        jump: i.jump && free,
        reload: i.reload && free && !i.weapon_side_blocked,
        cycle_count: count,
        cycle_dir: dir,
        clear_inputs: false,
    }
}

/// While the wheel stays open through a frame, the body holds still: no
/// fire, look, movement, sprint, jump, reload or weapon cycling; and a burst
/// always holds sprint, reload and weapon cycling.
pub proof fn law_open_wheel_freezes_play(i: PlayInputs)
    ensures
        ({
            let p = play_plan(i);
            (p.select && !p.commit) ==> (!p.fire && !p.apply_look && p.wish_forward == 0 && p.wish_strafe == 0
                && !p.sprint && !p.jump && !p.reload && p.cycle_count == 0)
        }),
        i.weapon_side_blocked ==> ({
            let p = play_plan(i);
            !p.sprint && !p.reload && p.cycle_count == 0 && !p.open_wheel
        }),
{
}

} // verus!
