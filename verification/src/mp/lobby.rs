//! The client's multiplayer session state and the decisions of the lobby,
//! role, character, loadout-bench and spawn steps.
//!
//! The transport, timers and wire encoding belong to the caller; each
//! decision here says what changes and which message, if any, to send.
//! Where a decision rests on game rules kept elsewhere (which characters and
//! weapon letters exist, which slot to hold), the caller passes their answer.

use vstd::prelude::*;

use super::apply::{apply_roster, apply_you_spawned, roster_remotes, NetRole, RosterEntry};
use super::phase::{spec_can_go, spec_derive, spec_in_room, ActiveWeapon, CamIntent, MpPhase, StagedLoadout};
use super::remotes::{upserted, PlayerId, RemoteSample, RemoteTable};
use crate::text::{decimal, push_char, push_decimal, push_str, string_from};

verus! {

/// The room the debug-console join goes to (and the name it uses when no
/// display name is stored).
pub const JOIN_ROOM_PREFILL: &'static str = "dev";

/// The room and display name of a debug-console join: the prefill room,
/// as the stored display name or, without one, the prefill.
pub fn debug_join_target(stored_name: Option<String>) -> (r: (String, String))
    ensures
        r.0@ == JOIN_ROOM_PREFILL@,
        r.1@ == match stored_name {
            Some(n) => n@,
            None => JOIN_ROOM_PREFILL@,
        },
{
    let name = match stored_name {
        Some(n) => n,
        None => string_from(JOIN_ROOM_PREFILL),
    };
    (string_from(JOIN_ROOM_PREFILL), name)
}

/// A message the lobby asks the caller to send to the server.
#[derive(Debug, Clone, Copy, PartialEq, Eq, Structural)]
pub enum ClientMessage {
    SetRole { role: NetRole },
    SetCharacter { character: u8 },
    Spawn { primary: Option<u8>, secondary: Option<u8>, active: ActiveWeapon },
    PickMap,
    StartMatch,
}

/// Session state shared by the join task and the frame loop. `D` is the
/// remote drive payload, `P` the pending spawn handed to the frame.
pub struct SessionState<D, P> {
    pub phase: MpPhase,
    pub player_id: Option<PlayerId>,
    pub display_name: Option<String>,
    pub last_error: Option<String>,
    pub remotes: RemoteTable<D>,
    pub roster: Vec<RosterEntry>,
    pub pending_spawn: Option<P>,
    pub spawn_requested: bool,
    pub join_room: String,
    pub join_name: String,
    pub character: u8,
    pub default_character: u8,
    pub role: NetRole,
    pub staged_primary: Option<u8>,
    pub staged_secondary: Option<u8>,
    pub staged_active: ActiveWeapon,
    pub match_map: Option<u8>,
    pub match_started: bool,
    pub room_leader: bool,
    pub pick_map_sent: bool,
    pub start_match_sent: bool,
}

/// A session's phase either stays or follows an edge of the phase graph.
pub open spec fn phase_step(from: MpPhase, to: MpPhase) -> bool {
    from == to || spec_can_go(from, to)
}

/// The session events that can change the phase.
pub enum SessionEvent {
    /// Join asked for; `name_ok` tells whether the typed name was accepted.
    BeginJoin { name_ok: bool },
    JoinFailed,
    Welcomed,
    ChoosePlay,
    ChooseSpectate,
    BackToRole,
    /// Kit confirmed; `known` tells whether the kit exists.
    ConfirmCharacter { known: bool },
    ReturnToBench,
    YouSpawned,
    Leave,
}

/// The phase after an event.
pub open spec fn phase_after(p: MpPhase, e: SessionEvent) -> MpPhase {
    match e {
        SessionEvent::BeginJoin { name_ok } => if spec_can_go(p, MpPhase::Connecting) && name_ok {
            MpPhase::Connecting
        } else {
            p
        },
        SessionEvent::JoinFailed => MpPhase::Lobby,
        SessionEvent::Welcomed => MpPhase::Role,
        SessionEvent::ChoosePlay => if spec_can_go(p, MpPhase::Character) {
            MpPhase::Character
        } else {
            p
        },
        SessionEvent::ChooseSpectate => if spec_can_go(p, MpPhase::Spectating) {
            MpPhase::Spectating
        } else {
            p
        },
        SessionEvent::BackToRole => if spec_can_go(p, MpPhase::Role) {
            MpPhase::Role
        } else {
            p
        },
        SessionEvent::ConfirmCharacter { known } => if known && p == MpPhase::Character {
            MpPhase::Ready
        } else {
            p
        },
        SessionEvent::ReturnToBench => if p == MpPhase::Living {
            MpPhase::Ready
        } else {
            p
        },
        SessionEvent::YouSpawned => if p == MpPhase::Ready {
            MpPhase::Living
        } else {
            p
        },
        SessionEvent::Leave => MpPhase::Lobby,
    }
}

/// Every session event keeps the product phase on the transition graph:
/// it stays, or moves along an edge. The welcome is the one event that is
/// only on the graph from `Connecting` (where the join task delivers it).
pub proof fn law_session_phase_on_graph(p: MpPhase, e: SessionEvent)
    requires
        e is Welcomed ==> p == MpPhase::Connecting,
    ensures
        phase_step(p, phase_after(p, e)),
{
}

impl<D, P> SessionState<D, P> {
    /// A fresh session in the lobby.
    pub fn new(default_character: u8) -> (s: Self)
        ensures
            s.phase == MpPhase::Lobby,
            s.player_id is None,
            s.display_name is None,
            s.last_error is None,
            s.remotes@.len() == 0,
            s.roster@.len() == 0,
            s.pending_spawn is None,
            !s.spawn_requested,
            s.join_room@.len() == 0,
            s.join_name@.len() == 0,
            s.character == default_character,
            s.default_character == default_character,
            s.role == NetRole::Player,
            s.staged_primary is None,
            s.staged_secondary is None,
            s.staged_active == ActiveWeapon::Primary,
            s.match_map is None,
            !s.match_started,
            !s.room_leader,
            !s.pick_map_sent,
            !s.start_match_sent,
    {
        SessionState {
            phase: MpPhase::Lobby,
            player_id: None,
            display_name: None,
            last_error: None,
            remotes: RemoteTable::new(),
            roster: Vec::new(),
            pending_spawn: None,
            spawn_requested: false,
            join_room: String::new(),
            join_name: String::new(),
            character: default_character,
            default_character,
            role: NetRole::Player,
            staged_primary: None,
            staged_secondary: None,
            staged_active: ActiveWeapon::Primary,
            match_map: None,
            match_started: false,
            room_leader: false,
            pick_map_sent: false,
            start_match_sent: false,
        }
    }

    /// Back to the lobby: everything of the room is forgotten (the last error
    /// is kept).
    pub fn reset_session(&mut self)
        ensures
            final(self).phase == MpPhase::Lobby,
            final(self).player_id is None,
            final(self).display_name is None,
            final(self).last_error == old(self).last_error,
            final(self).remotes@.len() == 0,
            final(self).roster@.len() == 0,
            final(self).pending_spawn is None,
            !final(self).spawn_requested,
            final(self).join_room == old(self).join_room,
            final(self).join_name == old(self).join_name,
            final(self).character == old(self).default_character,
            final(self).default_character == old(self).default_character,
            final(self).role == NetRole::Player,
            final(self).staged_primary is None,
            final(self).staged_secondary is None,
            final(self).staged_active == ActiveWeapon::Primary,
            final(self).match_map is None,
            !final(self).match_started,
            !final(self).room_leader,
            !final(self).pick_map_sent,
            !final(self).start_match_sent,
    {
        self.phase = MpPhase::Lobby;
        self.player_id = None;
        self.display_name = None;
        self.remotes.clear();
        self.roster = Vec::new();
        self.pending_spawn = None;
        self.spawn_requested = false;
        self.character = self.default_character;
        self.role = NetRole::Player;
        self.staged_primary = None;
        self.staged_secondary = None;
        self.staged_active = ActiveWeapon::Primary;
        self.match_map = None;
        self.match_started = false;
        self.room_leader = false;
        self.pick_map_sent = false;
        self.start_match_sent = false;
    }

    /// Starts joining `room_code` as the normalised display name
    /// `normalized` (its `Err` is the reason the typed name was refused).
    /// Returns whether the connection should now be opened.
    pub fn begin_join_with(&mut self, room_code: &str, normalized: Result<String, String>) -> (started:
        bool)
        ensures
            started == (spec_can_go(old(self).phase, MpPhase::Connecting) && normalized is Ok),
            final(self).phase == phase_after(old(self).phase, SessionEvent::BeginJoin { name_ok: normalized is Ok }),
            !spec_can_go(old(self).phase, MpPhase::Connecting) ==> *final(self) == *old(self),
            spec_can_go(old(self).phase, MpPhase::Connecting) ==> match normalized {
                Err(reason) => final(self).last_error matches Some(e) && e@ == "mp: "@ + reason@
                    && *final(self) == (SessionState { last_error: final(self).last_error, ..*old(self) }),
                Ok(name) => {
                    &&& final(self).phase == MpPhase::Connecting
                    &&& final(self).player_id is None
                    &&& final(self).display_name is None
                    &&& final(self).last_error is None
                    &&& !final(self).spawn_requested
                    &&& final(self).remotes@.len() == 0
                    &&& final(self).roster@.len() == 0
                    &&& final(self).join_room@ == room_code@
                    &&& final(self).join_name@ == name@
                    &&& *final(self) == (SessionState {
                        phase: MpPhase::Connecting,
                        player_id: None,
                        display_name: None,
                        last_error: None,
                        spawn_requested: false,
                        remotes: final(self).remotes,
                        roster: final(self).roster,
                        join_room: final(self).join_room,
                        join_name: final(self).join_name,
                        ..*old(self)
                    })
                },
            },
    {
        if !self.phase.can_go(MpPhase::Connecting) {
            return false;
        }
        match normalized {
            Err(reason) => {
                let mut e = string_from("mp: ");
                push_str(&mut e, reason.as_str());
                self.last_error = Some(e);
                false
            },
            Ok(name) => {
                self.phase = MpPhase::Connecting;
                self.player_id = None;
                self.display_name = None;
                self.remotes.clear();
                self.roster = Vec::new();
                self.last_error = None;
                self.spawn_requested = false;
                self.join_room = string_from(room_code);
                self.join_name = name;
                true
            },
        }
    }

    /// The join failed: back to the lobby with the error shown.
    pub fn join_failed(&mut self, message: &str)
        ensures
            final(self).phase == MpPhase::Lobby,
            final(self).last_error matches Some(e) && e@ == "mp: join failed: "@ + message@,
            final(self).phase == phase_after(old(self).phase, SessionEvent::JoinFailed),
    {
        self.reset_session();
        let mut e = string_from("mp: join failed: ");
        push_str(&mut e, message);
        self.last_error = Some(e);
    }

    /// The server welcomed us as `player_id`: the role step begins.
    pub fn welcomed(&mut self, player_id: PlayerId, display_name: String)
        ensures
            *final(self) == (SessionState {
                phase: MpPhase::Role,
                player_id: Some(player_id),
                display_name: Some(display_name),
                spawn_requested: false,
                character: old(self).default_character,
                role: NetRole::Player,
                remotes: final(self).remotes,
                roster: final(self).roster,
                ..*old(self)
            }),
            final(self).remotes@.len() == 0,
            final(self).roster@.len() == 0,
            final(self).phase == phase_after(old(self).phase, SessionEvent::Welcomed),
    {
        self.player_id = Some(player_id);
        self.display_name = Some(display_name);
        self.phase = MpPhase::Role;
        self.spawn_requested = false;
        self.character = self.default_character;
        self.role = NetRole::Player;
        self.remotes.clear();
        self.roster = Vec::new();
    }

    /// Chooses to play: on to the character step.
    pub fn choose_play(&mut self) -> (msg: Option<ClientMessage>)
        ensures
            final(self).phase == phase_after(old(self).phase, SessionEvent::ChoosePlay),
            spec_can_go(old(self).phase, MpPhase::Character) ==> msg == Some(
                ClientMessage::SetRole { role: NetRole::Player },
            ) && *final(self) == (SessionState {
                role: NetRole::Player,
                phase: MpPhase::Character,
                spawn_requested: false,
                ..*old(self)
            }),
            !spec_can_go(old(self).phase, MpPhase::Character) ==> msg is None && *final(self)
                == *old(self),
    {
        if !self.phase.can_go(MpPhase::Character) {
            return None;
        }
        self.role = NetRole::Player;
        self.phase = MpPhase::Character;
        self.spawn_requested = false;
        Some(ClientMessage::SetRole { role: NetRole::Player })
    }

    /// Chooses to spectate.
    pub fn choose_spectate(&mut self) -> (msg: Option<ClientMessage>)
        ensures
            final(self).phase == phase_after(old(self).phase, SessionEvent::ChooseSpectate),
            spec_can_go(old(self).phase, MpPhase::Spectating) ==> msg == Some(
                ClientMessage::SetRole { role: NetRole::Spectator },
            ) && *final(self) == (SessionState {
                role: NetRole::Spectator,
                phase: MpPhase::Spectating,
                spawn_requested: false,
                ..*old(self)
            }),
            !spec_can_go(old(self).phase, MpPhase::Spectating) ==> msg is None && *final(self)
                == *old(self),
    {
        if !self.phase.can_go(MpPhase::Spectating) {
            return None;
        }
        self.role = NetRole::Spectator;
        self.phase = MpPhase::Spectating;
        self.spawn_requested = false;
        Some(ClientMessage::SetRole { role: NetRole::Spectator })
    }

    /// UI back to the role step; the role is not resent.
    pub fn back_to_role(&mut self)
        ensures
            final(self).phase == phase_after(old(self).phase, SessionEvent::BackToRole),
            spec_can_go(old(self).phase, MpPhase::Role) ==> *final(self) == (SessionState {
                phase: MpPhase::Role,
                spawn_requested: false,
                ..*old(self)
            }),
            !spec_can_go(old(self).phase, MpPhase::Role) ==> *final(self) == *old(self),
    {
        if !self.phase.can_go(MpPhase::Role) {
            return;
        }
        self.phase = MpPhase::Role;
        self.spawn_requested = false;
    }

    /// Commits the kit `character` (when `known` says it exists) and moves to
    /// the loadout bench with an empty staged loadout. The caller then sends
    /// `SetCharacter { character }`.
    pub fn confirm_character(&mut self, character: u8, known: bool) -> (r: Option<u8>)
        ensures
            final(self).phase == phase_after(old(self).phase, SessionEvent::ConfirmCharacter { known }),
            (known && old(self).phase == MpPhase::Character) ==> r == Some(character)
                && *final(self) == (SessionState {
                character: character,
                role: NetRole::Player,
                phase: MpPhase::Ready,
                spawn_requested: false,
                staged_primary: None,
                staged_secondary: None,
                staged_active: ActiveWeapon::Primary,
                ..*old(self)
            }),
            !(known && old(self).phase == MpPhase::Character) ==> r is None && *final(self)
                == *old(self),
    {
        if !known {
            return None;
        }
        if self.phase != MpPhase::Character || !self.phase.can_go(MpPhase::Ready) {
            return None;
        }
        self.character = character;
        self.role = NetRole::Player;
        self.phase = MpPhase::Ready;
        self.spawn_requested = false;
        self.staged_primary = None;
        self.staged_secondary = None;
        self.staged_active = ActiveWeapon::Primary;
        Some(character)
    }

    /// Stages the primary (`letter_ok`: the letter, if any, names a weapon)
    /// on the bench; `active` is the slot to hold with the new loadout. Any
    /// in-flight spawn request is cancelled.
    pub fn stage_primary(&mut self, letter: Option<u8>, letter_ok: bool, active: ActiveWeapon) -> (r:
        bool)
        ensures
            r == ((letter is None || letter_ok) && old(self).phase == MpPhase::Ready),
            r ==> *final(self) == (SessionState {
                staged_primary: letter,
                staged_active: active,
                spawn_requested: false,
                ..*old(self)
            }),
            !r ==> *final(self) == *old(self),
    {
        if letter.is_some() && !letter_ok {
            return false;
        }
        if self.phase != MpPhase::Ready {
            return false;
        }
        self.staged_primary = letter;
        self.staged_active = active;
        self.spawn_requested = false;
        true
    }

    /// Stages the secondary (`letter_ok`: the letter, if any, names a weapon
    /// allowed in the secondary slot); otherwise as `stage_primary`.
    pub fn stage_secondary(&mut self, letter: Option<u8>, letter_ok: bool, active: ActiveWeapon) -> (r:
        bool)
        ensures
            r == ((letter is None || letter_ok) && old(self).phase == MpPhase::Ready),
            r ==> *final(self) == (SessionState {
                staged_secondary: letter,
                staged_active: active,
                spawn_requested: false,
                ..*old(self)
            }),
            !r ==> *final(self) == *old(self),
    {
        if letter.is_some() && !letter_ok {
            return false;
        }
        if self.phase != MpPhase::Ready {
            return false;
        }
        self.staged_secondary = letter;
        self.staged_active = active;
        self.spawn_requested = false;
        true
    }

    /// Chooses which staged slot to hold (bench only).
    pub fn stage_active(&mut self, active: ActiveWeapon)
        ensures
            old(self).phase == MpPhase::Ready ==> *final(self) == (SessionState {
                staged_active: active,
                spawn_requested: false,
                ..*old(self)
            }),
            old(self).phase != MpPhase::Ready ==> *final(self) == *old(self),
    {
        if self.phase != MpPhase::Ready {
            return;
        }
        self.staged_active = active;
        self.spawn_requested = false;
    }

    /// Death accepted: back to the loadout bench with the staged loadout.
    pub fn return_to_bench_after_death(&mut self)
        ensures
            final(self).phase == phase_after(old(self).phase, SessionEvent::ReturnToBench),
            old(self).phase == MpPhase::Living ==> *final(self) == (SessionState {
                phase: MpPhase::Ready,
                spawn_requested: false,
                ..*old(self)
            }),
            old(self).phase != MpPhase::Living ==> *final(self) == *old(self),
    {
        if self.phase != MpPhase::Living || !self.phase.can_go(MpPhase::Ready) {
            return;
        }
        self.phase = MpPhase::Ready;
        self.spawn_requested = false;
    }

    /// Asks to spawn with the staged loadout (bench only); the returned
    /// message is sent now and resent until the spawn is acknowledged.
    pub fn request_spawn(&mut self) -> (msg: Option<ClientMessage>)
        ensures
            old(self).phase == MpPhase::Ready ==> msg == Some(
                ClientMessage::Spawn {
                    primary: old(self).staged_primary,
                    secondary: old(self).staged_secondary,
                    active: old(self).staged_active,
                },
            ) && *final(self) == (SessionState { spawn_requested: true, ..*old(self) }),
            old(self).phase != MpPhase::Ready ==> msg is None && *final(self) == *old(self),
    {
        if self.phase != MpPhase::Ready {
            return None;
        }
        self.spawn_requested = true;
        Some(self.spawn_message())
    }

    /// The spawn message for the staged loadout.
    pub fn spawn_message(&self) -> (msg: ClientMessage)
        ensures
            msg == (ClientMessage::Spawn {
                primary: self.staged_primary,
                secondary: self.staged_secondary,
                active: self.staged_active,
            }),
    {
        ClientMessage::Spawn {
            primary: self.staged_primary,
            secondary: self.staged_secondary,
            active: self.staged_active,
        }
    }

    /// The staged bench loadout.
    pub fn staged_loadout(&self) -> (l: StagedLoadout)
        ensures
            l == (StagedLoadout {
                primary: self.staged_primary,
                secondary: self.staged_secondary,
                active: self.staged_active,
            }),
    {
        StagedLoadout {
            primary: self.staged_primary,
            secondary: self.staged_secondary,
            active: self.staged_active,
        }
    }

    /// The server acknowledged our spawn with `spawn` (pose and loadout).
    pub fn you_spawned(&mut self, spawn: P) -> (accepted: bool)
        ensures
            final(self).phase == phase_after(old(self).phase, SessionEvent::YouSpawned),
            accepted == (old(self).phase == MpPhase::Ready),
            accepted ==> *final(self) == (SessionState {
                phase: MpPhase::Living,
                spawn_requested: false,
                pending_spawn: Some(spawn),
                ..*old(self)
            }),
            !accepted ==> *final(self) == *old(self),
    {
        apply_you_spawned(&mut self.phase, &mut self.spawn_requested, &mut self.pending_spawn, spawn)
    }

    /// The spawn handed to the frame, once.
    pub fn take_pending_spawn(&mut self) -> (r: Option<P>)
        ensures
            r == old(self).pending_spawn,
            *final(self) == (SessionState { pending_spawn: None, ..*old(self) }),
    {
        self.pending_spawn.take()
    }

    /// A new roster: membership of remotes follows it, and our own row (if
    /// listed) sets our character, role and leadership.
    pub fn on_roster(&mut self, entries: Vec<RosterEntry>)
        ensures
            final(self).roster@ == entries@,
            final(self).remotes@ == roster_remotes(old(self).remotes@, entries@, old(self).player_id),
            match (old(self).player_id, own_row(entries@, old(self).player_id)) {
                (Some(_), Some(k)) => final(self).character == entries@[k].character
                    && final(self).role == entries@[k].role && final(self).room_leader
                    == entries@[k].room_leader,
                _ => final(self).character == old(self).character && final(self).role == old(
                    self,
                ).role && final(self).room_leader == old(self).room_leader,
            },
            final(self).phase == old(self).phase,
    {
        let me = self.player_id;
        apply_roster(&mut self.roster, &mut self.remotes, me, entries);
        self.reconcile_self_from_roster();
    }

    /// Roster is kit/role authority; the product phase stays client-side.
    fn reconcile_self_from_roster(&mut self)
        ensures
            *final(self) == (SessionState {
                character: final(self).character,
                role: final(self).role,
                room_leader: final(self).room_leader,
                ..*old(self)
            }),
            match (old(self).player_id, own_row(old(self).roster@, old(self).player_id)) {
                (Some(_), Some(k)) => final(self).character == old(self).roster@[k].character
                    && final(self).role == old(self).roster@[k].role && final(self).room_leader
                    == old(self).roster@[k].room_leader,
                _ => final(self).character == old(self).character && final(self).role == old(
                    self,
                ).role && final(self).room_leader == old(self).room_leader,
            },
    {
        if let Some((character, role, leader)) = self.own_row_fields() {
            self.character = character;
            self.role = role;
            self.room_leader = leader;
        }
    }

    /// Character, role and leadership of our own roster row.
    #[verifier::loop_isolation(false)]
    fn own_row_fields(&self) -> (r: Option<(u8, NetRole, bool)>)
        ensures
            match (self.player_id, own_row(self.roster@, self.player_id)) {
                (Some(_), Some(k)) => r == Some(
                    (self.roster@[k].character, self.roster@[k].role, self.roster@[k].room_leader),
                ),
                _ => r is None,
            },
    {
        let id = match self.player_id {
            Some(id) => id,
            None => return None,
        };
        let n = self.roster.len();
        let mut i: usize = 0;
        while i < n
            invariant
                n == self.roster@.len(),
                i <= n,
                self.player_id == Some(id),
                own_row(self.roster@, Some(id)) == own_row_from(self.roster@, id, i as int),
            decreases n - i,
        {
            if self.roster[i].id == id {
                return Some((self.roster[i].character, self.roster[i].role, self.roster[i].room_leader));
            }
            i = i + 1;
        }
        None
    }

    /// A remote's drive sample (our own echo is ignored).
    pub fn on_peer_drive(&mut self, id: PlayerId, tick: u64, drive: D)
        ensures
            old(self).player_id == Some(id) ==> *final(self) == *old(self),
            old(self).player_id != Some(id) ==> final(self).remotes@ == upserted(
                old(self).remotes@,
                id,
                RemoteSample { tick, drive },
            ) && *final(self) == (SessionState { remotes: final(self).remotes, ..*old(self) }),
    {
        if self.player_id == Some(id) {
            return;
        }
        self.remotes.upsert_drive(id, tick, drive);
    }

    /// Whether roster player `id` is alive.
    #[verifier::loop_isolation(false)]
    pub fn peer_living(&self, id: PlayerId) -> (r: bool)
        ensures
            r == listed_living(self.roster@, id),
    {
        let n = self.roster.len();
        let mut i: usize = 0;
        while i < n
            invariant
                n == self.roster@.len(),
                i <= n,
                own_row(self.roster@, Some(id)) == own_row_from(self.roster@, id, i as int),
            decreases n - i,
        {
            if self.roster[i].id == id {
                return self.roster[i].living;
            }
            i = i + 1;
        }
        false
    }

    /// Aligns the local setup flags with the server's match state.
    pub fn reconcile_match_setup(&mut self)
        ensures
            *final(self) == (SessionState {
                pick_map_sent: old(self).pick_map_sent || old(self).match_map is Some,
                start_match_sent: old(self).start_match_sent || old(self).match_started,
                ..*old(self)
            }),
    {
        if self.match_map.is_some() {
            self.pick_map_sent = true;
        }
        if self.match_started {
            self.start_match_sent = true;
        }
    }

    /// Per frame in a room, the room leader picks the map once, then starts
    /// the match once.
    pub fn leader_setup_action(&mut self) -> (msg: Option<ClientMessage>)
        ensures
            (spec_in_room(old(self).phase) && old(self).room_leader && old(self).match_map is None
                && !old(self).pick_map_sent) ==> msg == Some(ClientMessage::PickMap) && *final(self)
                == (SessionState { pick_map_sent: true, ..*old(self) }),
            (spec_in_room(old(self).phase) && old(self).room_leader && old(self).match_map is Some
                && !old(self).match_started && !old(self).start_match_sent) ==> msg == Some(
                ClientMessage::StartMatch,
            ) && *final(self) == (SessionState { start_match_sent: true, ..*old(self) }),
            msg is None ==> *final(self) == *old(self),
            msg is None <==> !(spec_in_room(old(self).phase) && old(self).room_leader && ((old(
                self,
            ).match_map is None && !old(self).pick_map_sent) || (old(self).match_map is Some
                && !old(self).match_started && !old(self).start_match_sent))),
    {
        if !self.phase.in_room() || !self.room_leader {
            return None;
        }
        if self.match_map.is_none() && !self.pick_map_sent {
            self.pick_map_sent = true;
            Some(ClientMessage::PickMap)
        } else if self.match_map.is_some() && !self.match_started && !self.start_match_sent {
            self.start_match_sent = true;
            Some(ClientMessage::StartMatch)
        } else {
            None
        }
    }

    /// Leaves the room (the caller closes the transport).
    pub fn leave(&mut self)
        ensures
            final(self).phase == MpPhase::Lobby,
            final(self).remotes@.len() == 0,
            final(self).roster@.len() == 0,
            final(self).player_id is None,
            final(self).phase == phase_after(old(self).phase, SessionEvent::Leave),
    {
        self.reset_session();
    }
}

/// Index of the first roster row for `id` at or after `i`.
pub open spec fn own_row_from(roster: Seq<RosterEntry>, id: PlayerId, i: int) -> Option<int>
    decreases roster.len() - i,
{
    if i < 0 || i >= roster.len() {
        None
    } else if roster[i].id == id {
        Some(i)
    } else {
        own_row_from(roster, id, i + 1)
    }
}

pub proof fn lemma_own_row_from(roster: Seq<RosterEntry>, id: PlayerId, i: int)
    requires
        0 <= i,
    ensures
        own_row_from(roster, id, i) matches Some(k) ==> i <= k < roster.len() && roster[k].id == id,
        own_row_from(roster, id, i) is None ==> forall|k: int| i <= k < roster.len() ==> roster[k].id != id,
    decreases roster.len() - i,
{
    if i < roster.len() && roster[i].id != id {
        lemma_own_row_from(roster, id, i + 1);
    }
}

/// Index of the roster row of `me`, if listed.
pub open spec fn own_row(roster: Seq<RosterEntry>, me: Option<PlayerId>) -> Option<int> {
    match me {
        Some(id) => own_row_from(roster, id, 0),
        None => None,
    }
}

/// Whether the first roster row of `id` says the player is alive (no row:
/// not alive).
pub open spec fn listed_living(roster: Seq<RosterEntry>, id: PlayerId) -> bool {
    match own_row(roster, Some(id)) {
        Some(k) => roster[k].living,
        None => false,
    }
}

/// What the frame loop takes from the session each frame.
pub struct FrameEffects<P> {
    pub pending_spawn: Option<P>,
    pub error: Option<String>,
}

/// The text of an optional value, or an em dash when there is none.
pub open spec fn or_dash(v: Option<Seq<char>>) -> Seq<char> {
    match v {
        Some(t) => t,
        None => "\u{2014}"@,
    }
}

/// A staged weapon letter, or a middle dot for an empty slot.
pub open spec fn letter_or_dot(l: Option<u8>) -> char {
    match l {
        Some(c) => c as char,
        None => '\u{b7}',
    }
}

/// The held slot as `Debug` names it.
pub open spec fn active_name(a: ActiveWeapon) -> Seq<char> {
    match a {
        ActiveWeapon::Primary => "Primary"@,
        ActiveWeapon::Secondary => "Secondary"@,
    }
}

/// The score of the own roster row, or 0.
pub open spec fn own_score(roster: Seq<RosterEntry>, me: Option<PlayerId>) -> nat {
    match (me, own_row(roster, me)) {
        (Some(_), Some(k)) => roster[k].score as nat,
        _ => 0,
    }
}

/// The debug status line of a session. While living, `tick` is the
/// estimated server tick, `offset` and `delay` the clock's offset and last
/// round trip already formatted, and `samples` the clock's sample count.
pub open spec fn status_text<D, P>(
    s: SessionState<D, P>,
    tick: Option<u64>,
    offset: Option<Seq<char>>,
    delay: Option<Seq<char>>,
    samples: u32,
) -> Seq<char> {
    let lead = if s.room_leader {
        " lead"@
    } else {
        ""@
    };
    match s.phase {
        MpPhase::Lobby => "mp: lobby"@,
        MpPhase::Connecting => "mp: connecting\u{2026}"@,
        MpPhase::Role => "mp: role name="@ + or_dash(
            match s.display_name {
                Some(n) => Some(n@),
                None => None,
            },
        ) + lead,
        MpPhase::Character => "mp: character "@ + seq![s.character as char] + lead,
        MpPhase::Ready => "mp: loadout kit="@ + seq![s.character as char] + " p="@ + seq![
            letter_or_dot(s.staged_primary),
        ] + " s="@ + seq![letter_or_dot(s.staged_secondary)] + " act="@ + active_name(
            s.staged_active,
        ) + lead,
        MpPhase::Spectating => "mp: spectating"@ + lead,
        MpPhase::Living => "mp: living id="@ + or_dash(
            match s.player_id {
                Some(id) => Some(decimal(id as nat)),
                None => None,
            },
        ) + " tick="@ + or_dash(
            match tick {
                Some(t) => Some(decimal(t as nat)),
                None => None,
            },
        ) + " score="@ + decimal(own_score(s.roster@, s.player_id)) + " remotes="@ + decimal(
            s.remotes@.len(),
        ) + " offset="@ + or_dash(offset) + " delay="@ + or_dash(delay) + " samples="@ + decimal(
            samples as nat,
        ) + lead,
    }
}

fn push_or_dash(out: &mut String, v: Option<&str>)
    ensures
        final(out)@ == old(out)@ + or_dash(
            match v {
                Some(t) => Some(t@),
                None => None,
            },
        ),
{
    match v {
        Some(t) => push_str(out, t),
        None => push_str(out, "\u{2014}"),
    }
}

fn push_letter_or_dot(out: &mut String, l: Option<u8>)
    ensures
        final(out)@ == old(out)@.push(letter_or_dot(l)),
{
    match l {
        Some(c) => push_char(out, c as char),
        None => push_char(out, '\u{b7}'),
    }
}

fn decimal_string(n: u64) -> (r: String)
    ensures
        r@ == decimal(n as nat),
{
    let mut r = String::new();
    push_decimal(&mut r, n);
    r
}

impl<D, P> SessionState<D, P> {
    /// The score of the own roster row, or 0.
    #[verifier::loop_isolation(false)]
    fn own_score(&self) -> (r: u32)
        ensures
            r == own_score(self.roster@, self.player_id),
    {
        let id = match self.player_id {
            Some(id) => id,
            None => return 0,
        };
        let n = self.roster.len();
        let mut i: usize = 0;
        while i < n
            invariant
                n == self.roster@.len(),
                i <= n,
                self.player_id == Some(id),
                own_row(self.roster@, Some(id)) == own_row_from(self.roster@, id, i as int),
            decreases n - i,
        {
            if self.roster[i].id == id {
                return self.roster[i].score;
            }
            i = i + 1;
        }
        0
    }

    /// The debug status line: the phase and what matters in it. While
    /// living, `tick` is the estimated server tick, `offset` and `delay` the
    /// clock's offset and last round trip already formatted, and `samples`
    /// the clock's sample count.
    pub fn status_line(
        &self,
        tick: Option<u64>,
        offset: Option<&str>,
        delay: Option<&str>,
        samples: u32,
    ) -> (r: String)
        ensures
            r@ == status_text(
                *self,
                tick,
                match offset {
                    Some(t) => Some(t@),
                    None => None,
                },
                match delay {
                    Some(t) => Some(t@),
                    None => None,
                },
                samples,
            ),
    {
        let lead = if self.room_leader {
            " lead"
        } else {
            ""
        };
        let mut out = String::new();
        match self.phase {
            MpPhase::Lobby => push_str(&mut out, "mp: lobby"),
            MpPhase::Connecting => push_str(&mut out, "mp: connecting\u{2026}"),
            MpPhase::Role => {
                push_str(&mut out, "mp: role name=");
                match &self.display_name {
                    Some(n) => push_or_dash(&mut out, Some(n.as_str())),
                    None => push_or_dash(&mut out, None),
                }
                push_str(&mut out, lead);
            },
            MpPhase::Character => {
                push_str(&mut out, "mp: character ");
                push_char(&mut out, self.character as char);
                push_str(&mut out, lead);
            },
            MpPhase::Ready => {
                push_str(&mut out, "mp: loadout kit=");
                push_char(&mut out, self.character as char);
                push_str(&mut out, " p=");
                push_letter_or_dot(&mut out, self.staged_primary);
                push_str(&mut out, " s=");
                push_letter_or_dot(&mut out, self.staged_secondary);
                push_str(&mut out, " act=");
                match self.staged_active {
                    ActiveWeapon::Primary => push_str(&mut out, "Primary"),
                    ActiveWeapon::Secondary => push_str(&mut out, "Secondary"),
                }
                push_str(&mut out, lead);
            },
            MpPhase::Spectating => {
                push_str(&mut out, "mp: spectating");
                push_str(&mut out, lead);
            },
            MpPhase::Living => {
                push_str(&mut out, "mp: living id=");
                match self.player_id {
                    Some(id) => {
                        let t = decimal_string(id);
                        push_or_dash(&mut out, Some(t.as_str()));
                    },
                    None => push_or_dash(&mut out, None),
                }
                push_str(&mut out, " tick=");
                match tick {
                    Some(t) => {
                        let ts = decimal_string(t);
                        push_or_dash(&mut out, Some(ts.as_str()));
                    },
                    None => push_or_dash(&mut out, None),
                }
                push_str(&mut out, " score=");
                push_decimal(&mut out, self.own_score() as u64);
                push_str(&mut out, " remotes=");
                push_decimal(&mut out, self.remotes.count() as u64);
                push_str(&mut out, " offset=");
                push_or_dash(&mut out, offset);
                push_str(&mut out, " delay=");
                push_or_dash(&mut out, delay);
                push_str(&mut out, " samples=");
                push_decimal(&mut out, samples as u64);
                push_str(&mut out, lead);
            },
        }
        out
    }

    /// The HUD tick field while in a room: the estimated tick, or a dash
    /// before the clock has one.
    pub fn hud_tick_field(&self, tick: Option<u64>) -> (r: Option<String>)
        ensures
            !spec_in_room(self.phase) ==> r is None,
            spec_in_room(self.phase) ==> (r matches Some(t) && t@ == "tick "@ + or_dash(
                match tick {
                    Some(v) => Some(decimal(v as nat)),
                    None => None,
                },
            )),
    {
        if !self.phase.in_room() {
            return None;
        }
        let mut out = string_from("tick ");
        match tick {
            Some(v) => {
                let t = decimal_string(v);
                push_or_dash(&mut out, Some(t.as_str()));
            },
            None => push_or_dash(&mut out, None),
        }
        Some(out)
    }

    /// Hands the frame loop the pending spawn and the last error, clearing
    /// both.
    pub fn drain_frame_effects(&mut self) -> (r: FrameEffects<P>)
        ensures
            r == (FrameEffects { pending_spawn: old(self).pending_spawn, error: old(self).last_error }),
            *final(self) == (SessionState { pending_spawn: None, last_error: None, ..*old(self) }),
    {
        FrameEffects { pending_spawn: self.pending_spawn.take(), error: self.last_error.take() }
    }

    /// The remote ids whose players are alive, in join order: the ones
    /// whose bodies are presented.
    pub fn living_remote_ids(&self) -> (r: Vec<PlayerId>)
        ensures
            r@ == crate::mp::remotes::ids_of(self.remotes@).filter(|id: PlayerId| listed_living(self.roster@, id)),
    {
        let ids = self.remotes.ids();
        let ghost all = ids@;
        let mut r: Vec<PlayerId> = Vec::new();
        let n = ids.len();
        let mut i: usize = 0;
        proof {
            reveal_with_fuel(Seq::<_>::filter, 1);
            assert(all.take(0) =~= Seq::<PlayerId>::empty());
        }
        while i < n
            invariant
                n == all.len(),
                ids@ == all,
                i <= n,
                r@ == all.take(i as int).filter(|id: PlayerId| listed_living(self.roster@, id)),
            decreases n - i,
        {
            let id = ids[i];
            proof {
                reveal_with_fuel(Seq::<_>::filter, 1);
                assert(all.take(i + 1).drop_last() =~= all.take(i as int));
            }
            if self.peer_living(id) {
                r.push(id);
            }
            i = i + 1;
        }
        assert(all.take(n as int) =~= all);
        r
    }

    pub fn is_living(&self) -> (r: bool)
        ensures
            r == (self.phase == MpPhase::Living),
    {
        self.phase == MpPhase::Living
    }

    pub fn is_connecting(&self) -> (r: bool)
        ensures
            r == (self.phase == MpPhase::Connecting),
    {
        self.phase == MpPhase::Connecting
    }

    /// The camera the phase asks for, given whether the debug flycam is
    /// wanted.
    pub fn cam_intent(&self, debug_fly_wanted: bool) -> (r: CamIntent)
        ensures
            r == spec_derive(self.phase, debug_fly_wanted),
    {
        CamIntent::derive(self.phase, debug_fly_wanted)
    }

    /// Whether a peer's projectile or hit event is queued for the frame:
    /// never our own echo, and never an empty batch.
    pub fn accept_peer_event(&self, id: PlayerId, nonempty: bool) -> (r: bool)
        ensures
            r == (self.player_id != Some(id) && nonempty),
    {
        self.player_id != Some(id) && nonempty
    }
}

} // verus!
