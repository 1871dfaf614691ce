//! Projectile kinds and their one-byte wire encoding.
use vstd::prelude::*;

verus! {

/// Projectile kind discriminant. Existing primitives compose against
/// every kind — a Rocket with Ricochet bounces before exploding.
#[derive(Clone, Copy, PartialEq, Eq, Structural, Debug)]
pub enum ProjectileKind {
    /// Default fast bullet.
    Pulse,
    /// Heavy rocket — detonates on any impact.
    Rocket,
    /// Lobbed grenade — detonates on TTL expiry or on impact.
    Grenade,
}

impl Default for ProjectileKind {
    fn default() -> (k: Self)
        ensures
            k == ProjectileKind::Pulse,
    {
        ProjectileKind::Pulse
    }
}

impl ProjectileKind {
    pub open spec fn spec_from_byte(b: u8) -> ProjectileKind {
        if b == 1 {
            ProjectileKind::Rocket
        } else if b == 2 {
            ProjectileKind::Grenade
        } else {
            ProjectileKind::Pulse
        }
    }

    pub open spec fn spec_to_byte(self) -> u8 {
        match self {
            ProjectileKind::Pulse => 0,
            ProjectileKind::Rocket => 1,
            ProjectileKind::Grenade => 2,
        }
    }

    /// Unknown bytes decode as Pulse.
    pub fn from_byte(b: u8) -> (k: ProjectileKind)
        ensures
            k == ProjectileKind::spec_from_byte(b),
    {
        match b {
            1 => ProjectileKind::Rocket,
            2 => ProjectileKind::Grenade,
            _ => ProjectileKind::Pulse,
        }
    }

    pub fn to_byte(self) -> (b: u8)
        ensures
            b == self.spec_to_byte(),
    {
        match self {
            ProjectileKind::Pulse => 0,
            ProjectileKind::Rocket => 1,
            ProjectileKind::Grenade => 2,
        }
    }

    /// True if this kind explodes on any impact (wall, enemy, corpse).
    pub fn explodes_on_impact(self) -> (b: bool)
        ensures
            b == (self == ProjectileKind::Rocket || self == ProjectileKind::Grenade),
    {
        match self {
            ProjectileKind::Rocket | ProjectileKind::Grenade => true,
            ProjectileKind::Pulse => false,
        }
    }
}

/// Encoding then decoding a kind gives it back.
pub proof fn lemma_kind_byte_roundtrip(k: ProjectileKind)
    ensures
        ProjectileKind::spec_from_byte(k.spec_to_byte()) == k,
{
}

} // verus!
