//! Client product phase and camera intent.

use vstd::prelude::*;

verus! {

/// Client product phase (UI/play gates). Server role/living is separate.
#[derive(Debug, Clone, Copy, PartialEq, Eq, Structural)]
pub enum MpPhase {
    Lobby,
    Connecting,
    Role,
    Character,
    /// Loadout + spawn bench. First entry and post-death.
    Ready,
    Spectating,
    Living,
}

/// The phases in which the client holds a room seat.
pub open spec fn spec_in_room(p: MpPhase) -> bool {
    match p {
        MpPhase::Role | MpPhase::Character | MpPhase::Ready | MpPhase::Spectating
        | MpPhase::Living => true,
        _ => false,
    }
}

/// The phases that draw the cursor free of the game.
pub open spec fn spec_forces_free_cursor(p: MpPhase) -> bool {
    match p {
        MpPhase::Lobby | MpPhase::Connecting | MpPhase::Role | MpPhase::Character
        | MpPhase::Ready => true,
        _ => false,
    }
}

/// The transition graph of the product phase.
pub open spec fn spec_can_go(from: MpPhase, to: MpPhase) -> bool {
    match (from, to) {
        (MpPhase::Lobby, MpPhase::Connecting) => true,
        (MpPhase::Connecting, MpPhase::Role) => true,
        (MpPhase::Connecting, MpPhase::Lobby) => true,
        (MpPhase::Role, MpPhase::Character) => true,
        (MpPhase::Role, MpPhase::Spectating) => true,
        (MpPhase::Role, MpPhase::Lobby) => true,
        (MpPhase::Character, MpPhase::Ready) => true,
        (MpPhase::Character, MpPhase::Role) => true,
        (MpPhase::Character, MpPhase::Spectating) => true,
        (MpPhase::Character, MpPhase::Lobby) => true,
        (MpPhase::Ready, MpPhase::Living) => true,
        (MpPhase::Ready, MpPhase::Spectating) => true,
        (MpPhase::Ready, MpPhase::Role) => true,
        (MpPhase::Ready, MpPhase::Lobby) => true,
        (MpPhase::Spectating, MpPhase::Character) => true,
        (MpPhase::Spectating, MpPhase::Role) => true,
        (MpPhase::Spectating, MpPhase::Lobby) => true,
        (MpPhase::Living, MpPhase::Ready) => true,
        (MpPhase::Living, MpPhase::Spectating) => true,
        (MpPhase::Living, MpPhase::Lobby) => true,
        _ => false,
    }
}

impl MpPhase {
    pub fn in_room(self) -> (r: bool)
        ensures
            r == spec_in_room(self),
    {
        match self {
            MpPhase::Role | MpPhase::Character | MpPhase::Ready | MpPhase::Spectating
            | MpPhase::Living => true,
            _ => false,
        }
    }

    pub fn blocks_play(self) -> (r: bool)
        ensures
            r == (self != MpPhase::Living),
    {
        !matches!(self, MpPhase::Living)
    }

    pub fn forces_free_cursor(self) -> (r: bool)
        ensures
            r == spec_forces_free_cursor(self),
    {
        match self {
            MpPhase::Lobby | MpPhase::Connecting | MpPhase::Role | MpPhase::Character
            | MpPhase::Ready => true,
            _ => false,
        }
    }

    pub fn is_spectating(self) -> (r: bool)
        ensures
            r == (self == MpPhase::Spectating),
    {
        self == MpPhase::Spectating
    }

    /// Whether the phase may move from `self` to `to`.
    pub fn can_go(self, to: Self) -> (r: bool)
        ensures
            r == spec_can_go(self, to),
    {
        match (self, to) {
            (MpPhase::Lobby, MpPhase::Connecting)
            | (MpPhase::Connecting, MpPhase::Role)
            | (MpPhase::Connecting, MpPhase::Lobby)
            | (MpPhase::Role, MpPhase::Character)
            | (MpPhase::Role, MpPhase::Spectating)
            | (MpPhase::Role, MpPhase::Lobby)
            | (MpPhase::Character, MpPhase::Ready)
            | (MpPhase::Character, MpPhase::Role)
            | (MpPhase::Character, MpPhase::Spectating)
            | (MpPhase::Character, MpPhase::Lobby)
            | (MpPhase::Ready, MpPhase::Living)
            | (MpPhase::Ready, MpPhase::Spectating)
            | (MpPhase::Ready, MpPhase::Role)
            | (MpPhase::Ready, MpPhase::Lobby)
            | (MpPhase::Spectating, MpPhase::Character)
            | (MpPhase::Spectating, MpPhase::Role)
            | (MpPhase::Spectating, MpPhase::Lobby)
            | (MpPhase::Living, MpPhase::Ready)
            | (MpPhase::Living, MpPhase::Spectating)
            | (MpPhase::Living, MpPhase::Lobby) => true,
            _ => false,
        }
    }
}

/// Per-frame camera intent (product phase + optional debug fly).
#[derive(Debug, Clone, Copy, PartialEq, Eq, Structural)]
pub enum CamIntent {
    Overview,
    ProductFly,
    DebugFly,
    Mounted,
}

/// The camera intent for a phase.
pub open spec fn spec_derive(phase: MpPhase, debug_fly_wanted: bool) -> CamIntent {
    match phase {
        MpPhase::Spectating => CamIntent::ProductFly,
        MpPhase::Living => if debug_fly_wanted {
            CamIntent::DebugFly
        } else {
            CamIntent::Mounted
        },
        _ => CamIntent::Overview,
    }
}

impl CamIntent {
    pub fn derive(phase: MpPhase, debug_fly_wanted: bool) -> (r: Self)
        ensures
            r == spec_derive(phase, debug_fly_wanted),
    {
        match phase {
            MpPhase::Spectating => CamIntent::ProductFly,
            MpPhase::Living if debug_fly_wanted => CamIntent::DebugFly,
            MpPhase::Living => CamIntent::Mounted,
            _ => CamIntent::Overview,
        }
    }

    pub fn is_fly(self) -> (r: bool)
        ensures
            r == (self == CamIntent::ProductFly || self == CamIntent::DebugFly),
    {
        matches!(self, CamIntent::ProductFly | CamIntent::DebugFly)
    }
}

/// Which loadout slot is in hand.
#[derive(Debug, Clone, Copy, PartialEq, Eq, Structural)]
pub enum ActiveWeapon {
    Primary,
    Secondary,
}

/// Staged bench loadout (empty until the player chooses; no defaults).
#[derive(Debug, Clone, Copy, PartialEq, Eq, Structural)]
pub struct StagedLoadout {
    pub primary: Option<u8>,
    pub secondary: Option<u8>,
    pub active: ActiveWeapon,
}

// ---------------------------------------------------------------------------
// Laws of the phase graph
// ---------------------------------------------------------------------------

/// No phase moves to itself.
pub proof fn law_no_self_transition(p: MpPhase)
    ensures
        !spec_can_go(p, p),
{
}

/// Play (the living phase) is entered only from the loadout bench.
pub proof fn law_living_only_from_ready(p: MpPhase)
    ensures
        spec_can_go(p, MpPhase::Living) <==> p == MpPhase::Ready,
{
}

/// Every phase with a room seat can leave to the lobby, and leaving is the
/// only way back to the lobby.
pub proof fn law_leave_from_room(p: MpPhase)
    ensures
        spec_can_go(p, MpPhase::Lobby) <==> (spec_in_room(p) || p == MpPhase::Connecting),
{
}

/// A room is entered only through connecting, and connecting only from the
/// lobby.
pub proof fn law_room_entered_through_connecting(p: MpPhase, q: MpPhase)
    ensures
        !spec_in_room(p) && spec_in_room(q) && spec_can_go(p, q) ==> p == MpPhase::Connecting
            && q == MpPhase::Role,
        spec_can_go(p, MpPhase::Connecting) <==> p == MpPhase::Lobby,
{
}

/// A phase that frees the cursor blocks play, and only the living phase
/// does not block play.
pub proof fn law_free_cursor_blocks_play(p: MpPhase)
    ensures
        spec_forces_free_cursor(p) ==> p != MpPhase::Living,
        p == MpPhase::Living ==> spec_in_room(p),
{
}

/// The camera flies exactly while spectating, or while living with the debug
/// fly wanted; it is mounted exactly while living without it.
pub proof fn law_cam_intent(p: MpPhase, fly: bool)
    ensures
        (spec_derive(p, fly) == CamIntent::ProductFly || spec_derive(p, fly)
            == CamIntent::DebugFly) <==> (p == MpPhase::Spectating || (p == MpPhase::Living
            && fly)),
        spec_derive(p, fly) == CamIntent::Mounted <==> (p == MpPhase::Living && !fly),
{
}

/// The transition graph by destination: the lobby connects; a connection
/// reaches the role step; the character step is reached from the role step
/// and from spectating; the bench from the character step and after a
/// death; play only from the bench; spectating from every other in-room
/// phase; the role step back from the character step, the bench and
/// spectating; and every phase but the lobby itself may fall back to the
/// lobby.
pub proof fn law_phase_graph_by_destination(p: MpPhase)
    ensures
        spec_can_go(p, MpPhase::Lobby) <==> p != MpPhase::Lobby,
        spec_can_go(p, MpPhase::Connecting) <==> p == MpPhase::Lobby,
        spec_can_go(p, MpPhase::Role) <==> (p == MpPhase::Connecting || p == MpPhase::Character
            || p == MpPhase::Ready || p == MpPhase::Spectating),
        spec_can_go(p, MpPhase::Character) <==> (p == MpPhase::Role || p == MpPhase::Spectating),
        spec_can_go(p, MpPhase::Ready) <==> (p == MpPhase::Character || p == MpPhase::Living),
        spec_can_go(p, MpPhase::Living) <==> p == MpPhase::Ready,
        spec_can_go(p, MpPhase::Spectating) <==> (p == MpPhase::Role || p == MpPhase::Character
            || p == MpPhase::Ready || p == MpPhase::Living),
{
}

} // verus!
