//! Enemy archetypes: the body plans the content packs build units from.
use vstd::prelude::*;

verus! {

#[derive(Clone, Copy, Debug, PartialEq, Eq, Structural, Hash)]
pub enum Archetype {
    Rusher,
    Pinkie,
    Charger,
    Revenant,
    Marksman,
    Pmc,
    Swarmling,
    Orb,
    Miniboss,
    Eater,
    Breacher,
    Rocketeer,
    Leaper,
    Sapper,
    Juggernaut,
    Howler,
    Sentinel,
    Splitter,
    Killa,
    Zergling,
    Floodling,
    Flood,
    FloodCarrier,
    Headcrab,
    Zombie,
    Rat,
    DireRat,
    PlayerTurret,
    Phaser,
}

} // verus!
