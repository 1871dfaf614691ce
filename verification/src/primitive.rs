//! Universal effect primitives: small, well-defined modifiers that slot
//! into weapons (and later movement verbs, enemy modifiers, hazards).
//! A weapon carries a list of primitives; at fire time they are copied
//! onto the projectile and the hit handlers consult them.
use crate::fb::Pixel;
use crate::text::str_eq;
use vstd::prelude::*;

verus! {

#[derive(Clone, Copy, PartialEq, Eq, Structural, Debug, Hash)]
pub enum Primitive {
    /// Enemy hit applies a burning status for a short duration.
    Ignite,
    /// Wall hit damages the tile and a ring of adjacent tiles.
    Breach,
    /// Projectile reflects off walls instead of despawning.
    Ricochet,
    /// Enemy hit arcs to the nearest other enemies for splash damage.
    Chain,
    /// Projectile passes through enemies before despawning.
    Pierce,
    /// First shot fired after a kill deals bonus damage.
    Overdrive,
    /// Enemy hit leaves an acid pool on the ground that ticks DoT.
    Acid,
    /// Enemy hit slows target; 3 stacks shatter for a big crit.
    Cryo,
    /// On-hit status effects spread to adjacent enemies.
    Contagion,
    /// Hit point briefly pulls nearby enemies in.
    GravityWell,
    /// On-kill restores a chunk of sanity.
    Siphon,
    /// Bonus damage against armored / shielded enemies.
    ShieldBreak,
}

impl Primitive {
    pub open spec fn spec_glyph(self) -> char {
        match self {
            Primitive::Ignite => 'I',
            Primitive::Breach => 'B',
            Primitive::Ricochet => 'R',
            Primitive::Chain => 'C',
            Primitive::Pierce => 'P',
            Primitive::Overdrive => 'O',
            Primitive::Acid => 'A',
            Primitive::Cryo => 'F',
            Primitive::Contagion => 'T',
            Primitive::GravityWell => 'V',
            Primitive::Siphon => 'S',
            Primitive::ShieldBreak => 'X',
        }
    }

    pub open spec fn spec_from_name(name: Seq<char>) -> Option<Primitive> {
        if name == "ignite"@ {
            Some(Primitive::Ignite)
        } else if name == "breach"@ {
            Some(Primitive::Breach)
        } else if name == "ricochet"@ {
            Some(Primitive::Ricochet)
        } else if name == "chain"@ {
            Some(Primitive::Chain)
        } else if name == "pierce"@ {
            Some(Primitive::Pierce)
        } else if name == "overdrive"@ {
            Some(Primitive::Overdrive)
        } else if name == "acid"@ {
            Some(Primitive::Acid)
        } else if name == "cryo"@ {
            Some(Primitive::Cryo)
        } else if name == "contagion"@ {
            Some(Primitive::Contagion)
        } else if name == "gravity_well"@ {
            Some(Primitive::GravityWell)
        } else if name == "siphon"@ {
            Some(Primitive::Siphon)
        } else if name == "shield_break"@ {
            Some(Primitive::ShieldBreak)
        } else {
            None
        }
    }

    pub open spec fn spec_color(self) -> Pixel {
        match self {
            Primitive::Ignite => Pixel::rgb(255, 130, 40),
            Primitive::Breach => Pixel::rgb(255, 220, 80),
            Primitive::Ricochet => Pixel::rgb(120, 200, 255),
            Primitive::Chain => Pixel::rgb(180, 140, 255),
            Primitive::Pierce => Pixel::rgb(230, 230, 230),
            Primitive::Overdrive => Pixel::rgb(255, 80, 200),
            Primitive::Acid => Pixel::rgb(120, 255, 100),
            Primitive::Cryo => Pixel::rgb(140, 220, 255),
            Primitive::Contagion => Pixel::rgb(200, 255, 120),
            Primitive::GravityWell => Pixel::rgb(80, 60, 180),
            Primitive::Siphon => Pixel::rgb(255, 200, 220),
            Primitive::ShieldBreak => Pixel::rgb(255, 100, 80),
        }
    }

    pub fn glyph(self) -> (c: char)
        ensures
            c == self.spec_glyph(),
    {
        match self {
            Primitive::Ignite => 'I',
            Primitive::Breach => 'B',
            Primitive::Ricochet => 'R',
            Primitive::Chain => 'C',
            Primitive::Pierce => 'P',
            Primitive::Overdrive => 'O',
            Primitive::Acid => 'A',
            Primitive::Cryo => 'F',  // Freeze
            Primitive::Contagion => 'T',  // Transmit
            Primitive::GravityWell => 'V',  // Vortex
            Primitive::Siphon => 'S',
            Primitive::ShieldBreak => 'X',
        }
    }

    /// Snake-case content id → primitive. Used when reading the
    /// `signature_primitives` lists of archetypes.
    pub fn from_name(name: &str) -> (p: Option<Primitive>)
        ensures
            p == Primitive::spec_from_name(name@),
    {
        if str_eq(name, "ignite") {
            Some(Primitive::Ignite)
        } else if str_eq(name, "breach") {
            Some(Primitive::Breach)
        } else if str_eq(name, "ricochet") {
            Some(Primitive::Ricochet)
        } else if str_eq(name, "chain") {
            Some(Primitive::Chain)
        } else if str_eq(name, "pierce") {
            Some(Primitive::Pierce)
        } else if str_eq(name, "overdrive") {
            Some(Primitive::Overdrive)
        } else if str_eq(name, "acid") {
            Some(Primitive::Acid)
        } else if str_eq(name, "cryo") {
            Some(Primitive::Cryo)
        } else if str_eq(name, "contagion") {
            Some(Primitive::Contagion)
        } else if str_eq(name, "gravity_well") {
            Some(Primitive::GravityWell)
        } else if str_eq(name, "siphon") {
            Some(Primitive::Siphon)
        } else if str_eq(name, "shield_break") {
            Some(Primitive::ShieldBreak)
        } else {
            None
        }
    }

    /// Tint color used for pickup halos and in-world visual cues.
    pub fn color(self) -> (p: Pixel)
        ensures
            p == self.spec_color(),
    {
        match self {
            Primitive::Ignite => Pixel::rgb(255, 130, 40),
            Primitive::Breach => Pixel::rgb(255, 220, 80),
            Primitive::Ricochet => Pixel::rgb(120, 200, 255),
            Primitive::Chain => Pixel::rgb(180, 140, 255),
            Primitive::Pierce => Pixel::rgb(230, 230, 230),
            Primitive::Overdrive => Pixel::rgb(255, 80, 200),
            Primitive::Acid => Pixel::rgb(120, 255, 100),
            Primitive::Cryo => Pixel::rgb(140, 220, 255),
            Primitive::Contagion => Pixel::rgb(200, 255, 120),
            Primitive::GravityWell => Pixel::rgb(80, 60, 180),
            Primitive::Siphon => Pixel::rgb(255, 200, 220),
            Primitive::ShieldBreak => Pixel::rgb(255, 100, 80),
        }
    }
}

/// Drop-rarity tier. Controls the number of primitive slots a weapon
/// rolls with.
#[derive(Clone, Copy, PartialEq, Eq, Structural, Debug)]
pub enum Rarity {
    Common,
    Uncommon,
    Rare,
}

impl Rarity {
    pub open spec fn spec_slot_count(self) -> usize {
        match self {
            Rarity::Common => 1,
            Rarity::Uncommon => 2,
            Rarity::Rare => 3,
        }
    }

    pub open spec fn spec_color(self) -> Pixel {
        match self {
            Rarity::Common => Pixel::rgb(200, 200, 220),
            Rarity::Uncommon => Pixel::rgb(120, 200, 255),
            Rarity::Rare => Pixel::rgb(255, 200, 80),
        }
    }

    pub fn slot_count(self) -> (n: usize)
        ensures
            n == self.spec_slot_count(),
    {
        match self {
            Rarity::Common => 1,
            Rarity::Uncommon => 2,
            Rarity::Rare => 3,
        }
    }

    pub fn color(self) -> (p: Pixel)
        ensures
            p == self.spec_color(),
    {
        match self {
            Rarity::Common => Pixel::rgb(200, 200, 220),
            Rarity::Uncommon => Pixel::rgb(120, 200, 255),
            Rarity::Rare => Pixel::rgb(255, 200, 80),
        }
    }
}

} // verus!
