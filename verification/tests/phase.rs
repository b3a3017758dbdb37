use game_client::mp::phase::{CamIntent, MpPhase};

#[test]
fn phase_helpers() {
    assert!(MpPhase::Role.in_room());
    assert!(MpPhase::Character.in_room());
    assert!(MpPhase::Ready.in_room());
    assert!(MpPhase::Spectating.in_room());
    assert!(MpPhase::Living.in_room());
    assert!(!MpPhase::Lobby.in_room());
    assert!(MpPhase::Ready.blocks_play());
    assert!(MpPhase::Ready.forces_free_cursor());
    assert!(MpPhase::Spectating.blocks_play());
    assert!(!MpPhase::Spectating.forces_free_cursor());
    assert!(!MpPhase::Living.blocks_play());
    assert_eq!(CamIntent::derive(MpPhase::Ready, false), CamIntent::Overview);
    assert_eq!(
        CamIntent::derive(MpPhase::Spectating, false),
        CamIntent::ProductFly
    );
}

#[test]
fn transition_graph_core_paths() {
    assert!(MpPhase::Lobby.can_go(MpPhase::Connecting));
    assert!(MpPhase::Connecting.can_go(MpPhase::Role));
    assert!(MpPhase::Role.can_go(MpPhase::Character));
    assert!(MpPhase::Role.can_go(MpPhase::Spectating));
    assert!(MpPhase::Character.can_go(MpPhase::Ready));
    assert!(MpPhase::Ready.can_go(MpPhase::Living));
    assert!(MpPhase::Spectating.can_go(MpPhase::Character));
    assert!(MpPhase::Living.can_go(MpPhase::Spectating));
    assert!(MpPhase::Living.can_go(MpPhase::Ready));
    assert!(!MpPhase::Lobby.can_go(MpPhase::Living));
    assert!(!MpPhase::Spectating.can_go(MpPhase::Living));
    assert!(!MpPhase::Ready.can_go(MpPhase::Character));
}

#[test]
fn cam_intent_derives() {
    assert_eq!(CamIntent::derive(MpPhase::Role, false), CamIntent::Overview);
    assert_eq!(
        CamIntent::derive(MpPhase::Spectating, true),
        CamIntent::ProductFly
    );
    assert_eq!(CamIntent::derive(MpPhase::Living, false), CamIntent::Mounted);
    assert_eq!(CamIntent::derive(MpPhase::Living, true), CamIntent::DebugFly);
}

#[test]
fn no_phase_goes_to_itself() {
    let all = [
        MpPhase::Lobby,
        MpPhase::Connecting,
        MpPhase::Role,
        MpPhase::Character,
        MpPhase::Ready,
        MpPhase::Spectating,
        MpPhase::Living,
    ];
    for p in all {
        assert!(!p.can_go(p));
    }
    assert!(MpPhase::Spectating.is_spectating());
    assert!(!MpPhase::Living.is_spectating());
    assert!(CamIntent::DebugFly.is_fly());
    assert!(CamIntent::ProductFly.is_fly());
    assert!(!CamIntent::Mounted.is_fly());
}
