use game_client::mp::apply::{apply_roster, apply_you_spawned, NetRole, PendingSpawnLoadout, RosterEntry};
use game_client::mp::phase::{ActiveWeapon, MpPhase};
use game_client::mp::remotes::RemoteTable;

fn entry(id: u64, name: &str, score: u32, living: bool, role: NetRole, character: u8) -> RosterEntry {
    RosterEntry {
        id,
        display_name: name.to_string(),
        score,
        living,
        role,
        character,
        room_leader: false,
    }
}

#[derive(Debug, Clone, Copy, PartialEq)]
struct Drive {
    facing: f32,
}

#[derive(Debug, Clone, Copy, PartialEq)]
struct PendingSpawn {
    x: f32,
    y: f32,
    z: f32,
    facing: f32,
    loadout: PendingSpawnLoadout,
}

#[test]
fn apply_roster_is_sole_membership_writer() {
    let mut roster = vec![entry(1, "Old", 9, true, NetRole::Player, b'a')];
    let mut remotes: RemoteTable<Drive> = RemoteTable::new();
    remotes.note_joined(1);
    remotes.note_joined(99);

    apply_roster(
        &mut roster,
        &mut remotes,
        Some(1),
        vec![
            entry(1, "Ace", 0, false, NetRole::Player, b'a'),
            entry(2, "Bee", 3, true, NetRole::Player, b'b'),
            entry(3, "Cam", 0, false, NetRole::Spectator, b'c'),
        ],
    );

    assert_eq!(roster.len(), 3);
    assert_eq!(roster[0].display_name, "Ace");
    assert!(!roster[0].living);
    assert!(roster[1].living);
    assert_eq!(roster[1].score, 3);
    assert_eq!(roster[2].role, NetRole::Spectator);
    assert_eq!(remotes.count(), 1);
    assert!(remotes.ids().iter().any(|&id| id == 2));
    assert!(!remotes.ids().iter().any(|&id| id == 1));
    assert!(!remotes.ids().iter().any(|&id| id == 3));
    assert!(!remotes.ids().iter().any(|&id| id == 99));
}

#[test]
fn you_spawned_only_from_ready() {
    let mut phase = MpPhase::Lobby;
    let mut spawn_requested = true;
    let mut pending: Option<PendingSpawn> = None;
    let empty = PendingSpawnLoadout {
        primary: None,
        secondary: None,
        active: ActiveWeapon::Primary,
    };
    assert!(!apply_you_spawned(
        &mut phase,
        &mut spawn_requested,
        &mut pending,
        PendingSpawn { x: 1.0, y: 0.0, z: 2.0, facing: 0.5, loadout: empty },
    ));
    assert_eq!(phase, MpPhase::Lobby);
    assert!(pending.is_none());

    phase = MpPhase::Ready;
    let loadout = PendingSpawnLoadout {
        primary: Some(b'p'),
        secondary: Some(b'b'),
        active: ActiveWeapon::Primary,
    };
    assert!(apply_you_spawned(
        &mut phase,
        &mut spawn_requested,
        &mut pending,
        PendingSpawn { x: 1.0, y: 0.0, z: 2.0, facing: 0.5, loadout },
    ));
    assert_eq!(phase, MpPhase::Living);
    assert!(!spawn_requested);
    {
        let p = pending.as_ref().expect("pose");
        assert!((p.x - 1.0).abs() < 1e-5);
        assert!((p.facing - 0.5).abs() < 1e-5);
        assert_eq!(p.loadout.primary, Some(b'p'));
        assert_eq!(p.loadout.secondary, Some(b'b'));
    }

    assert!(!apply_you_spawned(
        &mut phase,
        &mut spawn_requested,
        &mut pending,
        PendingSpawn { x: 0.0, y: 0.0, z: 0.0, facing: 0.0, loadout },
    ));
}

#[test]
fn upsert_stores_tick() {
    let mut table: RemoteTable<Drive> = RemoteTable::new();
    table.upsert_drive(7, 42, Drive { facing: 0.0 });
    let samples = table.samples();
    let sample = samples.first().expect("sample");
    assert_eq!(sample.0, 7);
    assert_eq!(sample.1.tick, 42);
}

#[test]
fn upsert_replaces_sample_and_keeps_order() {
    let mut table: RemoteTable<Drive> = RemoteTable::new();
    table.note_joined(5);
    table.note_joined(6);
    table.note_joined(5);
    assert_eq!(table.count(), 2);
    table.upsert_drive(6, 1, Drive { facing: 1.0 });
    table.upsert_drive(6, 2, Drive { facing: 2.0 });
    table.upsert_drive(8, 3, Drive { facing: 3.0 });
    assert_eq!(table.ids(), vec![5, 6, 8]);
    let samples = table.samples();
    assert_eq!(samples.len(), 2);
    assert_eq!(samples[0].0, 6);
    assert_eq!(samples[0].1.tick, 2);
    assert_eq!(samples[0].1.drive, Drive { facing: 2.0 });
    assert_eq!(samples[1].0, 8);
    table.retain(|id| id != 6);
    assert_eq!(table.ids(), vec![5, 8]);
    table.clear();
    assert_eq!(table.count(), 0);
}

#[test]
fn roster_keeps_existing_samples() {
    let mut roster = Vec::new();
    let mut remotes: RemoteTable<Drive> = RemoteTable::new();
    remotes.upsert_drive(4, 10, Drive { facing: 0.25 });
    apply_roster(
        &mut roster,
        &mut remotes,
        None,
        vec![entry(4, "Dee", 0, true, NetRole::Player, b'd'), entry(5, "Eve", 0, true, NetRole::Player, b'e')],
    );
    assert_eq!(remotes.ids(), vec![4, 5]);
    let samples = remotes.samples();
    assert_eq!(samples.len(), 1);
    assert_eq!(samples[0].1.tick, 10);
}
