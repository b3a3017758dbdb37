//! Ammo kinds on the wire, and when the client claims projectiles and hits.

use vstd::prelude::*;

use super::phase::MpPhase;

verus! {

/// The ammo a projectile or drop carries.
#[derive(Debug, Clone, Copy, PartialEq, Eq, Structural)]
pub enum AmmoKind {
    LightFoam,
    ThickFoam,
    Grenade,
}

/// The wire byte of each ammo kind.
pub open spec fn ammo_wire(a: AmmoKind) -> u8 {
    match a {
        AmmoKind::LightFoam => 0,
        AmmoKind::ThickFoam => 1,
        AmmoKind::Grenade => 2,
    }
}

/// The ammo kind of a wire byte: 0, 1 and 2 name the three kinds.
pub fn ammo_kind_from_wire(ammo: u8) -> (r: Option<AmmoKind>)
    ensures
        ammo <= 2 ==> (r matches Some(a) && ammo_wire(a) == ammo),
        ammo > 2 ==> r is None,
{
    if ammo == 0 {
        Some(AmmoKind::LightFoam)
    } else if ammo == 1 {
        Some(AmmoKind::ThickFoam)
    } else if ammo == 2 {
        Some(AmmoKind::Grenade)
    } else {
        None
    }
}

/// The wire byte of an ammo kind (every kind has one).
pub fn ammo_kind_to_wire(ammo: AmmoKind) -> (r: Option<u8>)
    ensures
        r == Some(ammo_wire(ammo)),
{
    Some(
        match ammo {
            AmmoKind::LightFoam => 0,
            AmmoKind::ThickFoam => 1,
            AmmoKind::Grenade => 2,
        },
    )
}

/// Sending a kind and reading it back gives the same kind, and the wire
/// bytes of different kinds differ.
pub proof fn law_ammo_wire_roundtrip(a: AmmoKind, b: AmmoKind)
    ensures
        ammo_wire(a) <= 2,
        ammo_wire(a) == ammo_wire(b) ==> a == b,
{
}

/// Claims (projectile spawns, impact hits) go out only while living, when
/// there is something to claim and a datagram writer is open.
pub fn should_claim(phase: MpPhase, count: usize, has_writer: bool) -> (r: bool)
    ensures
        r == (count > 0 && phase == MpPhase::Living && has_writer),
{
    count > 0 && phase == MpPhase::Living && has_writer
}

} // verus!
