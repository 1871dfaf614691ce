//! Brand identity: the short tag and the signature color each content
//! brand shows in the HUD strip, on vote kiosks and on the arena floor.
use crate::fb::Pixel;
use crate::text::str_eq;
use vstd::prelude::*;

verus! {

/// Short HUD tag of a brand id; unknown ids show as themselves.
pub open spec fn spec_short_brand(id: Seq<char>) -> Seq<char> {
    if id == "doom_inferno"@ {
        "DOOM"@
    } else if id == "quake_arena"@ {
        "QUAKE"@
    } else if id == "serious_sam"@ {
        "SAM"@
    } else if id == "tarkov_scavs"@ {
        "TARKOV"@
    } else if id == "stalker_zone"@ {
        "STALKER"@
    } else if id == "vampire_survivors"@ {
        "VAMP"@
    } else if id == "risk_of_rain"@ {
        "RoR"@
    } else if id == "left_4_dead"@ {
        "L4D"@
    } else if id == "helldivers"@ {
        "HELL"@
    } else if id == "deep_rock"@ {
        "DRG"@
    } else if id == "resident_evil"@ {
        "RE"@
    } else if id == "dead_space"@ {
        "DS"@
    } else if id == "zerg_tide"@ {
        "ZERG"@
    } else if id == "halo_flood"@ {
        "FLOOD"@
    } else if id == "rimworld_mechs"@ {
        "MECH"@
    } else if id == "factorio_biters"@ {
        "BITER"@
    } else if id == "soulsborne_invader"@ {
        "SOULS"@
    } else {
        id
    }
}

pub fn short_brand<'a>(id: &'a str) -> (s: &'a str)
    ensures
        s@ == spec_short_brand(id@),
{
    if str_eq(id, "doom_inferno") {
        "DOOM"
    } else if str_eq(id, "quake_arena") {
        "QUAKE"
    } else if str_eq(id, "serious_sam") {
        "SAM"
    } else if str_eq(id, "tarkov_scavs") {
        "TARKOV"
    } else if str_eq(id, "stalker_zone") {
        "STALKER"
    } else if str_eq(id, "vampire_survivors") {
        "VAMP"
    } else if str_eq(id, "risk_of_rain") {
        "RoR"
    } else if str_eq(id, "left_4_dead") {
        "L4D"
    } else if str_eq(id, "helldivers") {
        "HELL"
    } else if str_eq(id, "deep_rock") {
        "DRG"
    } else if str_eq(id, "resident_evil") {
        "RE"
    } else if str_eq(id, "dead_space") {
        "DS"
    } else if str_eq(id, "zerg_tide") {
        "ZERG"
    } else if str_eq(id, "halo_flood") {
        "FLOOD"
    } else if str_eq(id, "rimworld_mechs") {
        "MECH"
    } else if str_eq(id, "factorio_biters") {
        "BITER"
    } else if str_eq(id, "soulsborne_invader") {
        "SOULS"
    } else {
        id
    }
}

/// Signature color of a brand id; unknown ids are light gray.
pub open spec fn spec_brand_rgb(id: Seq<char>) -> (u8, u8, u8) {
    if id == "doom_inferno"@ {
        (255, 100, 40)
    } else if id == "quake_arena"@ {
        (200, 80, 60)
    } else if id == "serious_sam"@ {
        (255, 180, 60)
    } else if id == "tarkov_scavs"@ {
        (150, 170, 100)
    } else if id == "stalker_zone"@ {
        (180, 160, 90)
    } else if id == "vampire_survivors"@ {
        (220, 140, 255)
    } else if id == "risk_of_rain"@ {
        (255, 120, 180)
    } else if id == "left_4_dead"@ {
        (120, 200, 80)
    } else if id == "helldivers"@ {
        (255, 210, 70)
    } else if id == "deep_rock"@ {
        (220, 150, 60)
    } else if id == "resident_evil"@ {
        (160, 80, 60)
    } else if id == "dead_space"@ {
        (180, 220, 180)
    } else if id == "zerg_tide"@ {
        (160, 80, 200)
    } else if id == "halo_flood"@ {
        (140, 240, 150)
    } else if id == "rimworld_mechs"@ {
        (180, 180, 200)
    } else if id == "factorio_biters"@ {
        (120, 200, 120)
    } else if id == "soulsborne_invader"@ {
        (220, 200, 160)
    } else {
        (220, 220, 220)
    }
}

pub fn brand_rgb(id: &str) -> (c: (u8, u8, u8))
    ensures
        c == spec_brand_rgb(id@),
{
    if str_eq(id, "doom_inferno") {
        (255, 100, 40)
    } else if str_eq(id, "quake_arena") {
        (200, 80, 60)
    } else if str_eq(id, "serious_sam") {
        (255, 180, 60)
    } else if str_eq(id, "tarkov_scavs") {
        (150, 170, 100)
    } else if str_eq(id, "stalker_zone") {
        (180, 160, 90)
    } else if str_eq(id, "vampire_survivors") {
        (220, 140, 255)
    } else if str_eq(id, "risk_of_rain") {
        (255, 120, 180)
    } else if str_eq(id, "left_4_dead") {
        (120, 200, 80)
    } else if str_eq(id, "helldivers") {
        (255, 210, 70)
    } else if str_eq(id, "deep_rock") {
        (220, 150, 60)
    } else if str_eq(id, "resident_evil") {
        (160, 80, 60)
    } else if str_eq(id, "dead_space") {
        (180, 220, 180)
    } else if str_eq(id, "zerg_tide") {
        (160, 80, 200)
    } else if str_eq(id, "halo_flood") {
        (140, 240, 150)
    } else if str_eq(id, "rimworld_mechs") {
        (180, 180, 200)
    } else if str_eq(id, "factorio_biters") {
        (120, 200, 120)
    } else if str_eq(id, "soulsborne_invader") {
        (220, 200, 160)
    } else {
        (220, 220, 220)
    }
}

/// The brand's signature color as a pixel (kiosk halos, floor): the
/// `brand_rgb` palette for known brands, white for an unknown id.
pub open spec fn spec_brand_color(id: Seq<char>) -> Pixel {
    if id == "doom_inferno"@ {
        Pixel { r: 255, g: 100, b: 40 }
    } else if id == "quake_arena"@ {
        Pixel { r: 200, g: 80, b: 60 }
    } else if id == "serious_sam"@ {
        Pixel { r: 255, g: 180, b: 60 }
    } else if id == "tarkov_scavs"@ {
        Pixel { r: 150, g: 170, b: 100 }
    } else if id == "stalker_zone"@ {
        Pixel { r: 180, g: 160, b: 90 }
    } else if id == "vampire_survivors"@ {
        Pixel { r: 220, g: 140, b: 255 }
    } else if id == "risk_of_rain"@ {
        Pixel { r: 255, g: 120, b: 180 }
    } else if id == "left_4_dead"@ {
        Pixel { r: 120, g: 200, b: 80 }
    } else if id == "helldivers"@ {
        Pixel { r: 255, g: 210, b: 70 }
    } else if id == "deep_rock"@ {
        Pixel { r: 220, g: 150, b: 60 }
    } else if id == "resident_evil"@ {
        Pixel { r: 160, g: 80, b: 60 }
    } else if id == "dead_space"@ {
        Pixel { r: 180, g: 220, b: 180 }
    } else if id == "zerg_tide"@ {
        Pixel { r: 160, g: 80, b: 200 }
    } else if id == "halo_flood"@ {
        Pixel { r: 140, g: 240, b: 150 }
    } else if id == "rimworld_mechs"@ {
        Pixel { r: 180, g: 180, b: 200 }
    } else if id == "factorio_biters"@ {
        Pixel { r: 120, g: 200, b: 120 }
    } else if id == "soulsborne_invader"@ {
        Pixel { r: 220, g: 200, b: 160 }
    } else {
        Pixel { r: 255, g: 255, b: 255 }
    }
}

pub fn brand_color(id: &str) -> (p: Pixel)
    ensures
        p == spec_brand_color(id@),
{
    if str_eq(id, "doom_inferno") {
        Pixel::rgb(255, 100, 40)
    } else if str_eq(id, "quake_arena") {
        Pixel::rgb(200, 80, 60)
    } else if str_eq(id, "serious_sam") {
        Pixel::rgb(255, 180, 60)
    } else if str_eq(id, "tarkov_scavs") {
        Pixel::rgb(150, 170, 100)
    } else if str_eq(id, "stalker_zone") {
        Pixel::rgb(180, 160, 90)
    } else if str_eq(id, "vampire_survivors") {
        Pixel::rgb(220, 140, 255)
    } else if str_eq(id, "risk_of_rain") {
        Pixel::rgb(255, 120, 180)
    } else if str_eq(id, "left_4_dead") {
        Pixel::rgb(120, 200, 80)
    } else if str_eq(id, "helldivers") {
        Pixel::rgb(255, 210, 70)
    } else if str_eq(id, "deep_rock") {
        Pixel::rgb(220, 150, 60)
    } else if str_eq(id, "resident_evil") {
        Pixel::rgb(160, 80, 60)
    } else if str_eq(id, "dead_space") {
        Pixel::rgb(180, 220, 180)
    } else if str_eq(id, "zerg_tide") {
        Pixel::rgb(160, 80, 200)
    } else if str_eq(id, "halo_flood") {
        Pixel::rgb(140, 240, 150)
    } else if str_eq(id, "rimworld_mechs") {
        Pixel::rgb(180, 180, 200)
    } else if str_eq(id, "factorio_biters") {
        Pixel::rgb(120, 200, 120)
    } else if str_eq(id, "soulsborne_invader") {
        Pixel::rgb(220, 200, 160)
    } else {
        Pixel::rgb(255, 255, 255)
    }
}

} // verus!
