//! Gore tiers — how nasty a death looks — and their one-byte wire
//! encoding in the Blast message.
use crate::enemy::Archetype;
use crate::text::str_eq;
use vstd::prelude::*;

verus! {

/// Tier id packed into the Blast wire message. Unknown tiers fall back
/// to standard.
#[derive(Clone, Copy, Debug, PartialEq, Eq, Structural)]
pub enum GoreTier {
    Standard,
    Heavy,
    Extreme,
    /// Small directional burst for shooting a body.
    CorpseHit,
}

impl GoreTier {
    pub open spec fn spec_from_byte(b: u8) -> GoreTier {
        if b == 1 {
            GoreTier::Heavy
        } else if b == 2 {
            GoreTier::Extreme
        } else if b == 3 {
            GoreTier::CorpseHit
        } else {
            GoreTier::Standard
        }
    }

    pub open spec fn spec_to_byte(self) -> u8 {
        match self {
            GoreTier::Standard => 0,
            GoreTier::Heavy => 1,
            GoreTier::Extreme => 2,
            GoreTier::CorpseHit => 3,
        }
    }

    pub fn from_byte(b: u8) -> (t: GoreTier)
        ensures
            t == GoreTier::spec_from_byte(b),
    {
        match b {
            1 => GoreTier::Heavy,
            2 => GoreTier::Extreme,
            3 => GoreTier::CorpseHit,
            _ => GoreTier::Standard,
        }
    }

    pub fn to_byte(self) -> (b: u8)
        ensures
            b == self.spec_to_byte(),
    {
        match self {
            GoreTier::Standard => 0,
            GoreTier::Heavy => 1,
            GoreTier::Extreme => 2,
            GoreTier::CorpseHit => 3,
        }
    }
}

/// Encoding then decoding a tier gives it back.
pub proof fn lemma_tier_byte_roundtrip(t: GoreTier)
    ensures
        GoreTier::spec_from_byte(t.spec_to_byte()) == t,
{
}

/// Profile name for an archetype when the content pack pins none:
/// minibosses and eaters are cinematic, medium bodies heavy, small
/// things standard.
pub open spec fn spec_gore_profile_for(arch: Archetype) -> Seq<char> {
    match arch {
        Archetype::Miniboss | Archetype::Eater => "extreme"@,
        Archetype::Pinkie | Archetype::Pmc | Archetype::Orb | Archetype::Charger => "heavy"@,
        _ => "standard"@,
    }
}

pub fn gore_profile_for(arch: Archetype) -> (name: &'static str)
    ensures
        name@ == spec_gore_profile_for(arch),
{
    match arch {
        Archetype::Miniboss | Archetype::Eater => "extreme",
        Archetype::Pinkie | Archetype::Pmc | Archetype::Orb | Archetype::Charger => "heavy",
        _ => "standard",
    }
}

/// Profile name for an archetype given the name the content pack pins
/// for it, if any: a pinned `heavy` or `extreme` is kept, any other
/// pinned name reads as `standard`, and without a pin the fallback
/// above applies.
pub fn gore_profile_for_with_content(arch: Archetype, pinned: Option<&str>) -> (name: &'static str)
    ensures
        name@ == (match pinned {
            Some(p) => if p@ == "heavy"@ {
                "heavy"@
            } else if p@ == "extreme"@ {
                "extreme"@
            } else {
                "standard"@
            },
            None => spec_gore_profile_for(arch),
        }),
{
    match pinned {
        Some(p) => {
            if str_eq(p, "heavy") {
                "heavy"
            } else if str_eq(p, "extreme") {
                "extreme"
            } else {
                "standard"
            }
        },
        None => gore_profile_for(arch),
    }
}

} // verus!
