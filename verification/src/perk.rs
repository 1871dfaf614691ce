//! Run-persistent passive modifiers. Perks drop from miniboss kills and
//! at wave milestones; picking one up stacks it into the player's perk
//! list for the rest of the run.
use crate::fb::Pixel;
use crate::rng::choose_copied;
use rand::rngs::SmallRng;
use crate::text::str_eq;
use vstd::prelude::*;

verus! {

#[derive(Clone, Copy, PartialEq, Eq, Structural, Hash, Debug)]
pub enum Perk {
    /// +4 HP on every enemy kill.
    CorpsePulse,
    /// Baseline sanity regen +1.5 / s.
    IronWill,
    /// +25% fire rate on every weapon.
    QuickHands,
    /// +50 max armor. Each new wave starts with +10 armor.
    Survivor,
    /// 3 kills within 4s → +30% outgoing damage for 8s.
    Rampage,
    /// When HP < 25% → 40% incoming damage resistance.
    LastStand,
    /// Standing on a blood pool regens +2 HP/s.
    Bloodhound,
    /// 2× chance of consumable drops on kills + miniboss loot.
    Butcher,
    /// Carcosa terrain drains sanity 60% slower.
    GloomShroud,
    /// Taking damage → 0.6s of +60% movement speed.
    Adrenaline,
}

/// Every perk, in declaration order.
pub open spec fn all_perks() -> Seq<Perk> {
    seq![
        Perk::CorpsePulse,
        Perk::IronWill,
        Perk::QuickHands,
        Perk::Survivor,
        Perk::Rampage,
        Perk::LastStand,
        Perk::Bloodhound,
        Perk::Butcher,
        Perk::GloomShroud,
        Perk::Adrenaline,
    ]
}

impl Perk {
    pub open spec fn spec_name(self) -> Seq<char> {
        match self {
            Perk::CorpsePulse => "Corpse Pulse"@,
            Perk::IronWill => "Iron Will"@,
            Perk::QuickHands => "Quick Hands"@,
            Perk::Survivor => "Survivor"@,
            Perk::Rampage => "Rampage"@,
            Perk::LastStand => "Last Stand"@,
            Perk::Bloodhound => "Bloodhound"@,
            Perk::Butcher => "Butcher"@,
            Perk::GloomShroud => "Gloom Shroud"@,
            Perk::Adrenaline => "Adrenaline"@,
        }
    }

    pub open spec fn spec_glyph(self) -> char {
        match self {
            Perk::CorpsePulse => '+',
            Perk::IronWill => 'I',
            Perk::QuickHands => 'Q',
            Perk::Survivor => 'S',
            Perk::Rampage => 'R',
            Perk::LastStand => 'L',
            Perk::Bloodhound => 'B',
            Perk::Butcher => 'U',
            Perk::GloomShroud => 'G',
            Perk::Adrenaline => 'A',
        }
    }

    pub open spec fn spec_color(self) -> Pixel {
        match self {
            Perk::CorpsePulse => Pixel::rgb(255, 100, 120),
            Perk::IronWill => Pixel::rgb(140, 200, 255),
            Perk::QuickHands => Pixel::rgb(255, 220, 100),
            Perk::Survivor => Pixel::rgb(200, 200, 240),
            Perk::Rampage => Pixel::rgb(255, 80, 40),
            Perk::LastStand => Pixel::rgb(200, 60, 180),
            Perk::Bloodhound => Pixel::rgb(180, 30, 60),
            Perk::Butcher => Pixel::rgb(255, 140, 40),
            Perk::GloomShroud => Pixel::rgb(120, 100, 180),
            Perk::Adrenaline => Pixel::rgb(80, 255, 180),
        }
    }

    pub open spec fn spec_flavor(self) -> Seq<char> {
        match self {
            Perk::CorpsePulse => "+4 HP per kill"@,
            Perk::IronWill => "+1.5 sanity regen"@,
            Perk::QuickHands => "+25% fire rate"@,
            Perk::Survivor => "+50 max armor"@,
            Perk::Rampage => "kill chains buff damage"@,
            Perk::LastStand => "low HP resists damage"@,
            Perk::Bloodhound => "blood pools heal you"@,
            Perk::Butcher => "2× loot drops"@,
            Perk::GloomShroud => "Carcosa drains slower"@,
            Perk::Adrenaline => "hits grant burst speed"@,
        }
    }

    /// The perk whose content id is `name`, if any.
    pub open spec fn spec_from_name(name: Seq<char>) -> Option<Perk> {
        if name == "corpse_pulse"@ {
            Some(Perk::CorpsePulse)
        } else if name == "iron_will"@ {
            Some(Perk::IronWill)
        } else if name == "quick_hands"@ {
            Some(Perk::QuickHands)
        } else if name == "survivor"@ {
            Some(Perk::Survivor)
        } else if name == "rampage"@ {
            Some(Perk::Rampage)
        } else if name == "last_stand"@ {
            Some(Perk::LastStand)
        } else if name == "bloodhound"@ {
            Some(Perk::Bloodhound)
        } else if name == "butcher"@ {
            Some(Perk::Butcher)
        } else if name == "gloom_shroud"@ {
            Some(Perk::GloomShroud)
        } else if name == "adrenaline"@ {
            Some(Perk::Adrenaline)
        } else {
            None
        }
    }

    pub fn all() -> (v: Vec<Perk>)
        ensures
            v@ == all_perks(),
    {
        let v = vec![
            Perk::CorpsePulse,
            Perk::IronWill,
            Perk::QuickHands,
            Perk::Survivor,
            Perk::Rampage,
            Perk::LastStand,
            Perk::Bloodhound,
            Perk::Butcher,
            Perk::GloomShroud,
            Perk::Adrenaline,
        ];
        assert(v@ =~= all_perks());
        v
    }

    pub fn name(self) -> (s: &'static str)
        ensures
            s@ == self.spec_name(),
    {
        match self {
            Perk::CorpsePulse => "Corpse Pulse",
            Perk::IronWill => "Iron Will",
            Perk::QuickHands => "Quick Hands",
            Perk::Survivor => "Survivor",
            Perk::Rampage => "Rampage",
            Perk::LastStand => "Last Stand",
            Perk::Bloodhound => "Bloodhound",
            Perk::Butcher => "Butcher",
            Perk::GloomShroud => "Gloom Shroud",
            Perk::Adrenaline => "Adrenaline",
        }
    }

    /// Single-letter glyph for HUD pickup + strip rendering.
    pub fn glyph(self) -> (c: char)
        ensures
            c == self.spec_glyph(),
    {
        match self {
            Perk::CorpsePulse => '+',
            Perk::IronWill => 'I',
            Perk::QuickHands => 'Q',
            Perk::Survivor => 'S',
            Perk::Rampage => 'R',
            Perk::LastStand => 'L',
            Perk::Bloodhound => 'B',
            Perk::Butcher => 'U',
            Perk::GloomShroud => 'G',
            Perk::Adrenaline => 'A',
        }
    }

    /// Signature color for HUD + pickup halo.
    pub fn color(self) -> (p: Pixel)
        ensures
            p == self.spec_color(),
    {
        match self {
            Perk::CorpsePulse => Pixel::rgb(255, 100, 120),
            Perk::IronWill => Pixel::rgb(140, 200, 255),
            Perk::QuickHands => Pixel::rgb(255, 220, 100),
            Perk::Survivor => Pixel::rgb(200, 200, 240),
            Perk::Rampage => Pixel::rgb(255, 80, 40),
            Perk::LastStand => Pixel::rgb(200, 60, 180),
            Perk::Bloodhound => Pixel::rgb(180, 30, 60),
            Perk::Butcher => Pixel::rgb(255, 140, 40),
            Perk::GloomShroud => Pixel::rgb(120, 100, 180),
            Perk::Adrenaline => Pixel::rgb(80, 255, 180),
        }
    }

    pub fn from_name(name: &str) -> (p: Option<Perk>)
        ensures
            p == Perk::spec_from_name(name@),
    {
        if str_eq(name, "corpse_pulse") {
            Some(Perk::CorpsePulse)
        } else if str_eq(name, "iron_will") {
            Some(Perk::IronWill)
        } else if str_eq(name, "quick_hands") {
            Some(Perk::QuickHands)
        } else if str_eq(name, "survivor") {
            Some(Perk::Survivor)
        } else if str_eq(name, "rampage") {
            Some(Perk::Rampage)
        } else if str_eq(name, "last_stand") {
            Some(Perk::LastStand)
        } else if str_eq(name, "bloodhound") {
            Some(Perk::Bloodhound)
        } else if str_eq(name, "butcher") {
            Some(Perk::Butcher)
        } else if str_eq(name, "gloom_shroud") {
            Some(Perk::GloomShroud)
        } else if str_eq(name, "adrenaline") {
            Some(Perk::Adrenaline)
        } else {
            None
        }
    }

    /// Short flavor line rendered at pickup.
    pub fn flavor(self) -> (s: &'static str)
        ensures
            s@ == self.spec_flavor(),
    {
        match self {
            Perk::CorpsePulse => "+4 HP per kill",
            Perk::IronWill => "+1.5 sanity regen",
            Perk::QuickHands => "+25% fire rate",
            Perk::Survivor => "+50 max armor",
            Perk::Rampage => "kill chains buff damage",
            Perk::LastStand => "low HP resists damage",
            Perk::Bloodhound => "blood pools heal you",
            Perk::Butcher => "2× loot drops",
            Perk::GloomShroud => "Carcosa drains slower",
            Perk::Adrenaline => "hits grant burst speed",
        }
    }
}

/// The perks of `all_perks()` that are not in `owned`, in order.
pub open spec fn unowned(owned: Seq<Perk>) -> Seq<Perk> {
    all_perks().filter(|p: Perk| !owned.contains(p))
}

/// Pick a random perk the player doesn't already have. Returns None if
/// they have every perk.
pub fn roll_new_perk(owned: &[Perk], rng: &mut SmallRng) -> (r: Option<Perk>)
    ensures
        r is None <==> unowned(owned@).len() == 0,
        r matches Some(p) ==> unowned(owned@).contains(p) && !owned@.contains(p),
{
    let all = Perk::all();
    let mut available: Vec<Perk> = Vec::new();
    let mut i: usize = 0;
    while i < all.len()
        invariant
            all@ == all_perks(),
            i <= all@.len(),
            available@ == all_perks().take(i as int).filter(|p: Perk| !owned@.contains(p)),
        decreases all.len() - i,
    {
        let p = all[i];
        let mut j: usize = 0;
        let mut found = false;
        while j < owned.len()
            invariant
                j <= owned@.len(),
                found == exists|k: int| 0 <= k < j && owned@[k] == p,
            decreases owned.len() - j,
        {
            if owned[j] == p {
                found = true;
            }
            j = j + 1;
        }
        proof {
            let pred = |p: Perk| !owned@.contains(p);
            assert(all_perks().take(i + 1).drop_last() =~= all_perks().take(i as int));
            reveal_with_fuel(Seq::<_>::filter, 1);
            assert(all_perks().take(i + 1).last() == p);
        }
        if !found {
            available.push(p);
        }
        i = i + 1;
    }
    assert(all_perks().take(all_perks().len() as int) =~= all_perks());
    let r = choose_copied(available.as_slice(), rng);
    proof {
        let pred = |p: Perk| !owned@.contains(p);
        all_perks().lemma_filter_len(pred);
        if let Some(p) = r {
            let k = choose|k: int| 0 <= k < available@.len() && available@[k] == p;
            all_perks().lemma_filter_pred(pred, k);
        }
    }
    r
}

} // verus!
