use game_client::mp::apply::{NetRole, RosterEntry};
use game_client::mp::lobby::{ClientMessage, SessionState};
use game_client::mp::phase::{ActiveWeapon, MpPhase};

fn row(id: u64, character: u8, role: NetRole, living: bool, leader: bool) -> RosterEntry {
    RosterEntry {
        id,
        display_name: format!("p{id}"),
        score: 0,
        living,
        role,
        character,
        room_leader: leader,
    }
}

#[derive(Debug, Clone, Copy, PartialEq)]
struct Spawn {
    facing: f32,
}

#[test]
fn lobby_happy_path_to_living() {
    let mut s: SessionState<u32, Spawn> = SessionState::new(b'a');
    assert_eq!(s.phase, MpPhase::Lobby);
    assert!(s.begin_join_with("ROOM", Ok("Ace".to_string())));
    assert_eq!(s.phase, MpPhase::Connecting);
    assert_eq!(s.join_room, "ROOM");
    assert_eq!(s.join_name, "Ace");
    assert!(!s.begin_join_with("ROOM", Ok("Ace".to_string())));
    s.welcomed(7, "Ace".to_string());
    assert_eq!(s.phase, MpPhase::Role);
    assert_eq!(s.player_id, Some(7));
    assert_eq!(s.choose_play(), Some(ClientMessage::SetRole { role: NetRole::Player }));
    assert_eq!(s.phase, MpPhase::Character);
    assert_eq!(s.confirm_character(b'c', false), None);
    assert_eq!(s.phase, MpPhase::Character);
    assert_eq!(s.confirm_character(b'c', true), Some(b'c'));
    assert_eq!(s.phase, MpPhase::Ready);
    assert_eq!(s.character, b'c');
    assert!(!s.stage_primary(Some(b'z'), false, ActiveWeapon::Primary));
    assert!(s.stage_primary(Some(b'd'), true, ActiveWeapon::Primary));
    assert!(s.stage_secondary(Some(b'e'), true, ActiveWeapon::Primary));
    s.stage_active(ActiveWeapon::Secondary);
    let l = s.staged_loadout();
    assert_eq!(l.primary, Some(b'd'));
    assert_eq!(l.secondary, Some(b'e'));
    assert_eq!(l.active, ActiveWeapon::Secondary);
    assert_eq!(
        s.request_spawn(),
        Some(ClientMessage::Spawn { primary: Some(b'd'), secondary: Some(b'e'), active: ActiveWeapon::Secondary })
    );
    assert!(s.spawn_requested);
    assert!(s.you_spawned(Spawn { facing: 1.5 }));
    assert_eq!(s.phase, MpPhase::Living);
    assert!(!s.spawn_requested);
    assert_eq!(s.take_pending_spawn(), Some(Spawn { facing: 1.5 }));
    assert_eq!(s.take_pending_spawn(), None);
    assert_eq!(s.request_spawn(), None);
    s.return_to_bench_after_death();
    assert_eq!(s.phase, MpPhase::Ready);
    s.leave();
    assert_eq!(s.phase, MpPhase::Lobby);
    assert_eq!(s.player_id, None);
    assert_eq!(s.character, b'a');
}

#[test]
fn lobby_refused_name_and_failure() {
    let mut s: SessionState<u32, Spawn> = SessionState::new(b'a');
    assert!(!s.begin_join_with("R", Err("name too long".to_string())));
    assert_eq!(s.phase, MpPhase::Lobby);
    assert_eq!(s.last_error.as_deref(), Some("mp: name too long"));
    assert!(s.begin_join_with("R", Ok("Bo".to_string())));
    assert_eq!(s.last_error, None);
    s.join_failed("timeout");
    assert_eq!(s.phase, MpPhase::Lobby);
    assert_eq!(s.last_error.as_deref(), Some("mp: join failed: timeout"));
}

#[test]
fn lobby_roster_reconciles_self_and_remotes() {
    let mut s: SessionState<u32, Spawn> = SessionState::new(b'a');
    s.begin_join_with("R", Ok("Me".to_string()));
    s.welcomed(1, "Me".to_string());
    s.on_roster(vec![
        row(1, b'f', NetRole::Player, false, true),
        row(2, b'b', NetRole::Player, true, false),
        row(3, b'c', NetRole::Spectator, false, false),
        row(4, b'd', NetRole::Player, false, false),
    ]);
    assert_eq!(s.character, b'f');
    assert!(s.room_leader);
    assert_eq!(s.remotes.ids(), vec![2, 4]);
    assert!(s.peer_living(2));
    assert!(!s.peer_living(3));
    assert_eq!(s.living_remote_ids(), vec![2]);
    assert!(!s.peer_living(9));
    s.on_peer_drive(1, 5, 11);
    assert!(s.remotes.samples().is_empty());
    s.on_peer_drive(2, 5, 12);
    assert_eq!(s.remotes.samples()[0].1.tick, 5);
    assert_eq!(s.leader_setup_action(), Some(ClientMessage::PickMap));
    assert_eq!(s.leader_setup_action(), None);
    s.match_map = Some(0);
    assert_eq!(s.leader_setup_action(), Some(ClientMessage::StartMatch));
    assert_eq!(s.leader_setup_action(), None);
}

#[test]
fn lobby_spectate_and_back() {
    let mut s: SessionState<u32, Spawn> = SessionState::new(b'a');
    assert_eq!(s.choose_spectate(), None);
    s.begin_join_with("R", Ok("Me".to_string()));
    s.welcomed(1, "Me".to_string());
    assert_eq!(s.choose_spectate(), Some(ClientMessage::SetRole { role: NetRole::Spectator }));
    assert_eq!(s.phase, MpPhase::Spectating);
    s.back_to_role();
    assert_eq!(s.phase, MpPhase::Role);
    assert!(!s.you_spawned(Spawn { facing: 0.0 }));
    assert_eq!(s.phase, MpPhase::Role);
    s.match_map = Some(1);
    s.match_started = true;
    s.reconcile_match_setup();
    assert!(s.pick_map_sent);
    assert!(s.start_match_sent);
}

#[test]
fn debug_join_uses_prefill() {
    let (room, name) = game_client::mp::lobby::debug_join_target(None);
    assert_eq!(room, game_client::mp::JOIN_ROOM_PREFILL);
    assert_eq!(name, "dev");
    let (room, name) = game_client::mp::lobby::debug_join_target(Some("Ace".to_string()));
    assert_eq!(room, "dev");
    assert_eq!(name, "Ace");
}
