use game_client::mp::apply::{NetRole, RosterEntry};
use game_client::mp::claims::{ammo_kind_from_wire, ammo_kind_to_wire, should_claim, AmmoKind};
use game_client::mp::lag::SendStamps;
use game_client::mp::lobby::SessionState;
use game_client::mp::phase::{ActiveWeapon, CamIntent, MpPhase};
use game_client::mp::remotes::RemoteKitKey;
use game_client::mp::queues::{should_discard_content, InboundQueue, OutboundQueue};

#[test]
fn ammo_wire_mapping() {
    assert_eq!(ammo_kind_from_wire(0), Some(AmmoKind::LightFoam));
    assert_eq!(ammo_kind_from_wire(1), Some(AmmoKind::ThickFoam));
    assert_eq!(ammo_kind_from_wire(2), Some(AmmoKind::Grenade));
    assert_eq!(ammo_kind_from_wire(3), None);
    for k in [AmmoKind::LightFoam, AmmoKind::ThickFoam, AmmoKind::Grenade] {
        assert_eq!(ammo_kind_from_wire(ammo_kind_to_wire(k).unwrap()), Some(k));
    }
    assert!(should_claim(MpPhase::Living, 2, true));
    assert!(!should_claim(MpPhase::Living, 0, true));
    assert!(!should_claim(MpPhase::Ready, 2, true));
    assert!(!should_claim(MpPhase::Living, 2, false));
}

#[test]
fn inbound_counts_and_order() {
    let mut q: InboundQueue<&'static str> = InboundQueue::new();
    q.push_decoded(Some(("a", None)), 7);
    q.push_decoded(None, 7);
    q.push_decoded(Some(("welcome-old", Some(6))), 7);
    q.push_decoded(Some(("welcome", Some(7))), 7);
    assert_eq!(q.decoded, 2);
    assert_eq!(q.discarded, 2);
    assert_eq!(q.pop(), Some("a"));
    assert_eq!(q.pop(), Some("welcome"));
    assert_eq!(q.pop(), None);
    assert!(should_discard_content(Some(1), 2));
    assert!(!should_discard_content(Some(2), 2));
    assert!(!should_discard_content(None, 2));
    q.discarded = u32::MAX;
    q.push_decoded(None, 7);
    assert_eq!(q.discarded, 0);
}

#[test]
fn outbound_drain_stops_at_first_error() {
    let mut q: OutboundQueue<u8> = OutboundQueue::new();
    assert!(q.is_empty());
    for m in [1u8, 2, 3] {
        q.push(m);
    }
    assert_eq!(q.len(), 3);
    let out = q.drain_encoded(|m: &u8| -> Result<Vec<u8>, String> { Ok(vec![*m, *m]) });
    assert_eq!(out, Ok(vec![vec![1, 1], vec![2, 2], vec![3, 3]]));
    assert!(q.is_empty());
    for m in [1u8, 9, 3, 4] {
        q.push(m);
    }
    let out = q.drain_encoded(|m: &u8| -> Result<Vec<u8>, String> {
        if *m == 9 {
            Err("too big".to_string())
        } else {
            Ok(vec![*m])
        }
    });
    assert_eq!(out, Err("too big".to_string()));
    assert_eq!(q.len(), 2);
    assert!(q.pop_discard());
    assert!(q.pop_discard());
    assert!(!q.pop_discard());
}

#[test]
fn send_stamps_ack() {
    let mut s: SendStamps<f64> = SendStamps::new();
    s.note_sent(1, 0.10);
    s.note_sent(2, 0.20);
    s.note_sent(3, 0.30);
    assert_eq!(s.ack(2), Some(0.20));
    assert_eq!(s.ack(2), None);
    assert_eq!(s.ack(99), None);
    s.note_sent(100, 1.0);
    assert_eq!(s.ack(3), None);
    assert_eq!(s.ack(100), Some(1.0));
    for i in 0..300u64 {
        s.note_sent(i, i as f64);
    }
    assert_eq!(s.ack(43), None);
    assert_eq!(s.ack(44), Some(44.0));
    s.clear();
    assert_eq!(s.ack(299), None);
}

fn row(id: u64, score: u32) -> RosterEntry {
    RosterEntry {
        id,
        display_name: format!("p{id}"),
        score,
        living: true,
        role: NetRole::Player,
        character: b'a',
        room_leader: false,
    }
}

#[test]
fn status_lines_per_phase() {
    let mut s: SessionState<u8, u8> = SessionState::new(b'a');
    assert_eq!(s.status_line(None, None, None, 0), "mp: lobby");
    assert_eq!(s.hud_tick_field(Some(5)), None);
    s.begin_join_with("R", Ok("Ace".to_string()));
    assert_eq!(s.status_line(None, None, None, 0), "mp: connecting…");
    s.welcomed(7, "Ace".to_string());
    assert_eq!(s.status_line(None, None, None, 0), "mp: role name=Ace");
    assert_eq!(s.hud_tick_field(Some(5)), Some("tick 5".to_string()));
    assert_eq!(s.hud_tick_field(None), Some("tick —".to_string()));
    s.room_leader = true;
    s.choose_play();
    assert_eq!(s.status_line(None, None, None, 0), "mp: character a lead");
    s.room_leader = false;
    s.confirm_character(b'c', true);
    s.stage_primary(Some(b'd'), true, ActiveWeapon::Secondary);
    assert_eq!(
        s.status_line(None, None, None, 0),
        "mp: loadout kit=c p=d s=· act=Secondary"
    );
    s.on_roster(vec![row(7, 12), row(8, 3)]);
    s.you_spawned(1);
    assert_eq!(
        s.status_line(Some(900), Some("1.5ms"), None, 4),
        "mp: living id=7 tick=900 score=12 remotes=1 offset=1.5ms delay=— samples=4"
    );
    s.last_error = Some("boom".to_string());
    let fx = s.drain_frame_effects();
    assert_eq!(fx.pending_spawn, Some(1));
    assert_eq!(fx.error.as_deref(), Some("boom"));
    let fx = s.drain_frame_effects();
    assert_eq!(fx.pending_spawn, None);
    assert_eq!(fx.error, None);
    assert!(s.is_living());
    assert!(!s.is_connecting());
    assert_eq!(s.cam_intent(false), CamIntent::Mounted);
    assert_eq!(s.cam_intent(true), CamIntent::DebugFly);
    assert!(!s.accept_peer_event(7, true));
    assert!(s.accept_peer_event(8, true));
    assert!(!s.accept_peer_event(8, false));
    s.choose_spectate();
    assert_eq!(s.status_line(None, None, None, 0), "mp: spectating");
}

#[test]
fn inbound_push_bytes_decodes_first() {
    let mut q: InboundQueue<u8> = InboundQueue::new();
    let decode = |b: &[u8]| -> Option<(u8, Option<u32>)> {
        match b {
            [0x57, rev] => Some((0x57, Some(*rev as u32))),
            [m] => Some((*m, None)),
            _ => None,
        }
    };
    q.push_bytes(&[5], decode, 3);
    q.push_bytes(&[0x57, 2], decode, 3);
    q.push_bytes(&[0x57, 3], decode, 3);
    q.push_bytes(&[1, 2, 3], decode, 3);
    assert_eq!(q.decoded, 2);
    assert_eq!(q.discarded, 2);
    assert_eq!(q.pop(), Some(5));
    assert_eq!(q.pop(), Some(0x57));
    let key = RemoteKitKey::from_drive(b'a', Some(b'c'), None);
    assert_eq!(key, RemoteKitKey { character: b'a', primary: Some(b'c'), secondary: None });
}

#[test]
fn send_stamps_drop_through_ack() {
    let mut s: SendStamps<f64> = SendStamps::new();
    s.note_sent(1, 0.0);
    s.note_sent(2, 0.01);
    s.note_sent(3, 0.02);
    assert_eq!(s.ack(2), Some(0.01));
    assert_eq!(s.len(), 1);
    assert_eq!(s.seqs(), vec![3]);
}

#[test]
fn send_stamps_clear_resets() {
    let mut s: SendStamps<f64> = SendStamps::new();
    s.note_sent(1, 0.0);
    assert_eq!(s.ack(1), Some(0.0));
    s.note_sent(2, 0.5);
    s.clear();
    assert_eq!(s.len(), 0);
    assert!(s.seqs().is_empty());
    assert_eq!(s.ack(2), None);
}

#[test]
fn send_stamps_keep_newest_under_cap() {
    let mut s: SendStamps<u64> = SendStamps::new();
    for i in 0..300u64 {
        s.note_sent(i, i);
    }
    assert_eq!(s.len(), 256);
    assert_eq!(s.seqs()[0], 44);
    assert_eq!(s.seqs()[255], 299);
}
