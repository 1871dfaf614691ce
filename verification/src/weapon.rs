//! Weapon fire modes — the single source of truth for how one pull of
//! the trigger emits projectiles (pulse / auto / burst / pump / rail).
use crate::text::str_eq;
use vstd::prelude::*;

verus! {

#[derive(Clone, Copy, PartialEq, Eq, Structural, Debug, Hash)]
pub enum FireMode {
    /// One fast round per click.
    Pulse,
    /// Faster cadence, lower per-shot damage.
    Auto,
    /// 3 rounds per click with tight spacing.
    Burst,
    /// 5-pellet shotgun cone, long cooldown.
    Pump,
    /// 1 high-damage pierce line, long cooldown.
    Rail,
}

impl Default for FireMode {
    fn default() -> (m: Self)
        ensures
            m == FireMode::Pulse,
    {
        FireMode::Pulse
    }
}

impl FireMode {
    pub open spec fn spec_glyph(self) -> char {
        match self {
            FireMode::Pulse => '·',
            FireMode::Auto => '»',
            FireMode::Burst => '⋯',
            FireMode::Pump => '◊',
            FireMode::Rail => '═',
        }
    }

    pub open spec fn spec_label(self) -> Seq<char> {
        match self {
            FireMode::Pulse => "pulse"@,
            FireMode::Auto => "auto"@,
            FireMode::Burst => "burst"@,
            FireMode::Pump => "pump"@,
            FireMode::Rail => "rail"@,
        }
    }

    pub open spec fn spec_from_name(name: Seq<char>) -> Option<FireMode> {
        if name == "pulse"@ {
            Some(FireMode::Pulse)
        } else if name == "auto"@ {
            Some(FireMode::Auto)
        } else if name == "burst"@ {
            Some(FireMode::Burst)
        } else if name == "pump"@ {
            Some(FireMode::Pump)
        } else if name == "rail"@ {
            Some(FireMode::Rail)
        } else {
            None
        }
    }

    pub fn glyph(self) -> (c: char)
        ensures
            c == self.spec_glyph(),
    {
        match self {
            FireMode::Pulse => '·',
            FireMode::Auto => '»',
            FireMode::Burst => '⋯',
            FireMode::Pump => '◊',
            FireMode::Rail => '═',
        }
    }

    pub fn label(self) -> (s: &'static str)
        ensures
            s@ == self.spec_label(),
    {
        match self {
            FireMode::Pulse => "pulse",
            FireMode::Auto => "auto",
            FireMode::Burst => "burst",
            FireMode::Pump => "pump",
            FireMode::Rail => "rail",
        }
    }

    pub fn from_name(name: &str) -> (m: Option<FireMode>)
        ensures
            m == FireMode::spec_from_name(name@),
    {
        if str_eq(name, "pulse") {
            Some(FireMode::Pulse)
        } else if str_eq(name, "auto") {
            Some(FireMode::Auto)
        } else if str_eq(name, "burst") {
            Some(FireMode::Burst)
        } else if str_eq(name, "pump") {
            Some(FireMode::Pump)
        } else if str_eq(name, "rail") {
            Some(FireMode::Rail)
        } else {
            None
        }
    }
}

/// A mode's label names it back: `from_name(label(m)) == Some(m)`.
pub proof fn lemma_label_roundtrip(m: FireMode)
    ensures
        FireMode::spec_from_name(m.spec_label()) == Some(m),
{
    reveal_strlit("pulse");
    reveal_strlit("auto");
    reveal_strlit("burst");
    reveal_strlit("pump");
    reveal_strlit("rail");
    assert("pulse"@.len() == 5 && "auto"@.len() == 4 && "burst"@.len() == 5 && "pump"@.len() == 4
        && "rail"@.len() == 4);
    assert("pulse"@[0] == 'p' && "auto"@[0] == 'a' && "burst"@[0] == 'b' && "pump"@[0] == 'p'
        && "rail"@[0] == 'r');
    assert("pump"@[1] == 'u');
    assert("pulse"@ != "auto"@ && "pulse"@ != "burst"@ && "pulse"@ != "pump"@ && "pulse"@
        != "rail"@);
    assert("auto"@ != "burst"@ && "auto"@ != "pump"@ && "auto"@ != "rail"@);
    assert("burst"@ != "pump"@ && "burst"@ != "rail"@ && "pump"@ != "rail"@);
}


/// The slot `cycle` moves to from `active_slot` (below 2), given which
/// of the two weapon slots hold a weapon: the next occupied slot round
/// the ring, or `active_slot` when no other slot holds one.
pub fn cycle_slot(active_slot: u8, occupied: [bool; 2]) -> (s: u8)
    requires
        active_slot < 2,
    ensures
        s == (if occupied[1 - active_slot] {
            1 - active_slot
        } else {
            active_slot as int
        }),
{
    let count: u8 = 2;
    let mut slot = active_slot;
    let mut n: u8 = 0;
    while n < count
        invariant
            n <= 2,
            count == 2,
            active_slot < 2,
            slot < 2,
            n == 0 ==> slot == active_slot,
            n == 1 ==> slot == 1 - active_slot && !occupied[slot as int],
            n == 2 ==> slot == active_slot && !occupied[1 - active_slot],
        decreases 2 - n,
    {
        slot = (slot + 1) % count;
        if occupied[slot as usize] {
            return slot;
        }
        n = n + 1;
    }
    slot
}

} // verus!
