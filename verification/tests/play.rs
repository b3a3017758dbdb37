use game_client::play::{plan_play_controls, PlayInputs};

fn base() -> PlayInputs {
    PlayInputs {
        play_ok: true,
        fire_held: false,
        emote_press: false,
        emote_release: false,
        emote_held: false,
        wheel_open: false,
        grounded: true,
        weapon_side_blocked: false,
        forward: 1,
        strafe: -1,
        sprint_tap: true,
        jump: true,
        reload: true,
        weapon_steps: -2,
    }
}

#[test]
fn free_play_passes_everything() {
    let p = plan_play_controls(PlayInputs { fire_held: true, ..base() });
    assert!(p.fire && p.apply_look && p.sprint && p.jump && p.reload);
    assert_eq!((p.wish_forward, p.wish_strafe), (1, -1));
    assert_eq!((p.cycle_count, p.cycle_dir), (2, -1));
    assert!(!p.open_wheel && !p.select && !p.commit && !p.clear_inputs);
}

#[test]
fn emote_press_opens_and_freezes() {
    let p = plan_play_controls(PlayInputs { emote_press: true, emote_held: true, ..base() });
    assert!(p.open_wheel && p.select && !p.commit);
    assert!(!p.fire && !p.apply_look && !p.sprint && !p.jump && !p.reload);
    assert_eq!((p.wish_forward, p.wish_strafe, p.cycle_count), (0, 0, 0));
    let airborne = plan_play_controls(PlayInputs { emote_press: true, emote_held: true, grounded: false, ..base() });
    assert!(!airborne.open_wheel);
}

#[test]
fn release_commits_and_fire_closes() {
    let p = plan_play_controls(PlayInputs { wheel_open: true, emote_release: true, ..base() });
    assert!(p.select && p.commit && p.apply_look);
    let p = plan_play_controls(PlayInputs { wheel_open: true, emote_held: true, fire_held: true, ..base() });
    assert!(p.close_wheel && !p.select && p.fire);
}

#[test]
fn burst_blocks_weapon_side_and_no_play_clears() {
    let p = plan_play_controls(PlayInputs { weapon_side_blocked: true, emote_press: true, emote_held: true, ..base() });
    assert!(!p.sprint && !p.reload && p.cycle_count == 0 && !p.open_wheel && p.jump);
    let p = plan_play_controls(PlayInputs { play_ok: false, fire_held: true, ..base() });
    assert!(p.clear_inputs && p.close_wheel && !p.fire && !p.jump);
    assert_eq!(p.cycle_count, 0);
    let p = plan_play_controls(PlayInputs { weapon_steps: i8::MIN, ..base() });
    assert_eq!((p.cycle_count, p.cycle_dir), (128, -1));
}
