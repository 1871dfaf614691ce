//! Traversal verbs — movement primitives. Each verb gives the player a
//! distinctive mobility option: dash short, blink through a wall,
//! grapple toward aim, etc. One verb slot per player; pickups replace
//! the current verb.
use crate::fb::Pixel;
use crate::rng::choose_copied;
use crate::text::str_eq;
use rand::rngs::SmallRng;
use vstd::prelude::*;

verus! {

#[derive(Clone, Copy, PartialEq, Eq, Structural, Hash, Debug)]
pub enum TraversalVerb {
    /// Short directional burst in the movement direction + brief i-frames.
    Dash,
    /// Short teleport in the aim direction. Passes through walls.
    Blink,
    /// Hook in the aim direction — rapid pull toward the first hit.
    Grapple,
    /// Slide forward at speed, brief damage resistance.
    Slide,
    /// Pass through the next wall tile you walk into.
    Phase,
}

pub open spec fn all_verbs() -> Seq<TraversalVerb> {
    seq![
        TraversalVerb::Dash,
        TraversalVerb::Blink,
        TraversalVerb::Grapple,
        TraversalVerb::Slide,
        TraversalVerb::Phase,
    ]
}

impl TraversalVerb {
    pub open spec fn spec_name(self) -> Seq<char> {
        match self {
            TraversalVerb::Dash => "Dash"@,
            TraversalVerb::Blink => "Blink"@,
            TraversalVerb::Grapple => "Grapple"@,
            TraversalVerb::Slide => "Slide"@,
            TraversalVerb::Phase => "Phase"@,
        }
    }

    pub open spec fn spec_glyph(self) -> char {
        match self {
            TraversalVerb::Dash => 'D',
            TraversalVerb::Blink => 'B',
            TraversalVerb::Grapple => 'G',
            TraversalVerb::Slide => 'S',
            TraversalVerb::Phase => 'P',
        }
    }

    pub open spec fn spec_color(self) -> Pixel {
        match self {
            TraversalVerb::Dash => Pixel::rgb(80, 255, 200),
            TraversalVerb::Blink => Pixel::rgb(180, 140, 255),
            TraversalVerb::Grapple => Pixel::rgb(255, 180, 100),
            TraversalVerb::Slide => Pixel::rgb(160, 220, 255),
            TraversalVerb::Phase => Pixel::rgb(230, 230, 150),
        }
    }

    pub open spec fn spec_from_name(name: Seq<char>) -> Option<TraversalVerb> {
        if name == "dash"@ {
            Some(TraversalVerb::Dash)
        } else if name == "blink"@ {
            Some(TraversalVerb::Blink)
        } else if name == "grapple"@ {
            Some(TraversalVerb::Grapple)
        } else if name == "slide"@ {
            Some(TraversalVerb::Slide)
        } else if name == "phase"@ {
            Some(TraversalVerb::Phase)
        } else {
            None
        }
    }

    pub open spec fn spec_flavor(self) -> Seq<char> {
        match self {
            TraversalVerb::Dash => "quick dodge burst"@,
            TraversalVerb::Blink => "teleport through cover"@,
            TraversalVerb::Grapple => "hook + pull toward aim"@,
            TraversalVerb::Slide => "locked-in slide, brief resist"@,
            TraversalVerb::Phase => "walk through one wall tile"@,
        }
    }

    pub fn all() -> (v: Vec<TraversalVerb>)
        ensures
            v@ == all_verbs(),
    {
        let v = vec![
            TraversalVerb::Dash,
            TraversalVerb::Blink,
            TraversalVerb::Grapple,
            TraversalVerb::Slide,
            TraversalVerb::Phase,
        ];
        assert(v@ =~= all_verbs());
        v
    }

    pub fn name(self) -> (s: &'static str)
        ensures
            s@ == self.spec_name(),
    {
        match self {
            TraversalVerb::Dash => "Dash",
            TraversalVerb::Blink => "Blink",
            TraversalVerb::Grapple => "Grapple",
            TraversalVerb::Slide => "Slide",
            TraversalVerb::Phase => "Phase",
        }
    }

    pub fn glyph(self) -> (c: char)
        ensures
            c == self.spec_glyph(),
    {
        match self {
            TraversalVerb::Dash => 'D',
            TraversalVerb::Blink => 'B',
            TraversalVerb::Grapple => 'G',
            TraversalVerb::Slide => 'S',
            TraversalVerb::Phase => 'P',
        }
    }

    pub fn color(self) -> (p: Pixel)
        ensures
            p == self.spec_color(),
    {
        match self {
            TraversalVerb::Dash => Pixel::rgb(80, 255, 200),
            TraversalVerb::Blink => Pixel::rgb(180, 140, 255),
            TraversalVerb::Grapple => Pixel::rgb(255, 180, 100),
            TraversalVerb::Slide => Pixel::rgb(160, 220, 255),
            TraversalVerb::Phase => Pixel::rgb(230, 230, 150),
        }
    }

    pub fn from_name(name: &str) -> (v: Option<TraversalVerb>)
        ensures
            v == TraversalVerb::spec_from_name(name@),
    {
        if str_eq(name, "dash") {
            Some(TraversalVerb::Dash)
        } else if str_eq(name, "blink") {
            Some(TraversalVerb::Blink)
        } else if str_eq(name, "grapple") {
            Some(TraversalVerb::Grapple)
        } else if str_eq(name, "slide") {
            Some(TraversalVerb::Slide)
        } else if str_eq(name, "phase") {
            Some(TraversalVerb::Phase)
        } else {
            None
        }
    }

    pub fn flavor(self) -> (s: &'static str)
        ensures
            s@ == self.spec_flavor(),
    {
        match self {
            TraversalVerb::Dash => "quick dodge burst",
            TraversalVerb::Blink => "teleport through cover",
            TraversalVerb::Grapple => "hook + pull toward aim",
            TraversalVerb::Slide => "locked-in slide, brief resist",
            TraversalVerb::Phase => "walk through one wall tile",
        }
    }
}

/// A random verb for a pickup (Dash if the list were ever empty).
pub fn roll_verb(rng: &mut SmallRng) -> (v: TraversalVerb)
    ensures
        all_verbs().contains(v),
{
    let all = TraversalVerb::all();
    match choose_copied(all.as_slice(), rng) {
        Some(v) => v,
        None => TraversalVerb::Dash,
    }
}

} // verus!
