//! The pictures the hardcoded sprites draw, one row of palette indices
//! per line of the sprite.
use crate::fb::Pixel;
use vstd::prelude::*;

verus! {

/// The picture `player_body` draws: 8 × 11, palette indices per row
/// (`0` transparent; 1 body, 2 dark, 3 head, 4 visor, 5 accent).
pub open spec fn player_body_art() -> Seq<Seq<u8>> {
    seq![
        seq![0, 0, 2, 2, 2, 2, 0, 0],
        seq![0, 0, 3, 3, 3, 3, 0, 0],
        seq![0, 0, 4, 5, 5, 4, 0, 0],
        seq![0, 0, 0, 2, 2, 0, 0, 0],
        seq![0, 2, 2, 2, 2, 2, 2, 0],
        seq![0, 2, 1, 5, 5, 1, 2, 2],
        seq![0, 2, 1, 2, 2, 1, 2, 1],
        seq![0, 2, 1, 1, 1, 1, 2, 0],
        seq![0, 2, 2, 2, 2, 2, 2, 0],
        seq![0, 2, 1, 0, 0, 1, 2, 0],
        seq![0, 2, 2, 0, 0, 2, 2, 0],
    ]
}

pub open spec fn player_body_palette() -> Seq<Pixel> {
    seq![Pixel::spec_rgb(90, 255, 230), Pixel::spec_rgb(40, 150, 130), Pixel::spec_rgb(130, 255, 245), Pixel::spec_rgb(20, 40, 60), Pixel::spec_rgb(200, 255, 250)]
}

/// The picture `rusher` draws: 8 × 10, palette indices per row
/// (`0` transparent; 1 body, 2 dark, 3 horn, 4 horn dark, 5 eye).
pub open spec fn rusher_art() -> Seq<Seq<u8>> {
    seq![
        seq![0, 3, 0, 0, 0, 0, 3, 0],
        seq![4, 3, 2, 2, 2, 2, 3, 4],
        seq![0, 0, 5, 5, 5, 5, 0, 0],
        seq![0, 0, 1, 2, 2, 1, 0, 0],
        seq![2, 2, 1, 1, 1, 1, 2, 2],
        seq![1, 1, 1, 1, 1, 1, 1, 1],
        seq![0, 2, 1, 2, 1, 1, 2, 0],
        seq![0, 1, 1, 1, 2, 1, 1, 0],
        seq![0, 2, 2, 0, 0, 2, 2, 0],
        seq![3, 0, 4, 0, 0, 4, 0, 3],
    ]
}

pub open spec fn rusher_palette() -> Seq<Pixel> {
    seq![Pixel::spec_rgb(255, 60, 60), Pixel::spec_rgb(130, 20, 30), Pixel::spec_rgb(230, 200, 170), Pixel::spec_rgb(140, 100, 80), Pixel::spec_rgb(255, 230, 120)]
}

/// The picture `pinkie` draws: 12 × 11, palette indices per row
/// (`0` transparent; 1 body, 2 dark, 3 accent, 4 eye, 5 tusk, 6 maw).
pub open spec fn pinkie_art() -> Seq<Seq<u8>> {
    seq![
        seq![0, 2, 2, 2, 2, 2, 2, 2, 2, 2, 2, 0],
        seq![0, 2, 1, 4, 1, 1, 1, 1, 4, 1, 2, 0],
        seq![0, 5, 6, 5, 6, 5, 5, 6, 5, 6, 5, 0],
        seq![0, 5, 6, 6, 6, 6, 6, 6, 6, 6, 5, 0],
        seq![0, 0, 5, 2, 2, 2, 2, 2, 2, 5, 0, 0],
        seq![2, 1, 1, 1, 1, 1, 1, 1, 1, 1, 1, 2],
        seq![1, 1, 1, 1, 1, 1, 1, 1, 1, 1, 1, 1],
        seq![0, 2, 1, 1, 3, 3, 3, 3, 1, 1, 2, 0],
        seq![0, 1, 1, 1, 1, 3, 3, 1, 1, 1, 1, 0],
        seq![0, 2, 2, 2, 0, 0, 0, 0, 2, 2, 2, 0],
        seq![0, 5, 2, 5, 0, 0, 0, 0, 5, 2, 5, 0],
    ]
}

pub open spec fn pinkie_palette() -> Seq<Pixel> {
    seq![Pixel::spec_rgb(255, 130, 170), Pixel::spec_rgb(160, 60, 90), Pixel::spec_rgb(255, 200, 220), Pixel::spec_rgb(255, 230, 100), Pixel::spec_rgb(240, 240, 230), Pixel::spec_rgb(60, 10, 30)]
}

/// The picture `charger` draws: 10 × 10, palette indices per row
/// (`0` transparent; 1 body, 2 dark, 3 horn, 4 horn dark, 5 eye, 6 hoof).
pub open spec fn charger_art() -> Seq<Seq<u8>> {
    seq![
        seq![0, 0, 0, 0, 0, 0, 0, 0, 0, 0],
        seq![0, 3, 4, 0, 0, 0, 0, 4, 3, 0],
        seq![3, 0, 2, 1, 1, 1, 1, 2, 0, 3],
        seq![0, 0, 2, 5, 2, 2, 5, 2, 0, 0],
        seq![0, 0, 2, 2, 4, 4, 2, 2, 0, 0],
        seq![0, 2, 1, 1, 1, 1, 1, 1, 2, 0],
        seq![0, 1, 1, 2, 2, 2, 2, 1, 1, 0],
        seq![0, 0, 2, 1, 1, 1, 1, 2, 0, 0],
        seq![2, 2, 2, 0, 0, 0, 0, 2, 2, 2],
        seq![6, 0, 6, 0, 0, 0, 0, 6, 0, 6],
    ]
}

pub open spec fn charger_palette() -> Seq<Pixel> {
    seq![Pixel::spec_rgb(255, 100, 80), Pixel::spec_rgb(150, 40, 30), Pixel::spec_rgb(255, 240, 210), Pixel::spec_rgb(170, 140, 100), Pixel::spec_rgb(255, 220, 100), Pixel::spec_rgb(80, 40, 30)]
}

/// The picture `revenant` draws: 8 × 12, palette indices per row
/// (`0` transparent; 1 bone, 2 bone shade, 3 dark, 4 glow, 5 eye, 6 tube).
pub open spec fn revenant_art() -> Seq<Seq<u8>> {
    seq![
        seq![0, 0, 2, 1, 1, 2, 0, 0],
        seq![0, 0, 1, 5, 5, 1, 0, 0],
        seq![0, 0, 3, 2, 2, 3, 0, 0],
        seq![0, 0, 0, 2, 2, 0, 0, 0],
        seq![4, 6, 1, 1, 1, 1, 6, 4],
        seq![6, 3, 3, 1, 1, 3, 3, 6],
        seq![0, 0, 1, 3, 3, 1, 0, 0],
        seq![0, 0, 3, 1, 1, 3, 0, 0],
        seq![0, 0, 1, 3, 3, 1, 0, 0],
        seq![0, 0, 3, 2, 2, 3, 0, 0],
        seq![0, 0, 1, 3, 3, 1, 0, 0],
        seq![0, 1, 2, 0, 0, 2, 1, 0],
    ]
}

pub open spec fn revenant_palette() -> Seq<Pixel> {
    seq![Pixel::spec_rgb(220, 230, 240), Pixel::spec_rgb(160, 170, 190), Pixel::spec_rgb(70, 90, 120), Pixel::spec_rgb(120, 200, 255), Pixel::spec_rgb(255, 160, 80), Pixel::spec_rgb(90, 100, 120)]
}

/// The picture `marksman` draws: 9 × 12, palette indices per row
/// (`0` transparent; 1 body, 2 dark, 3 helmet, 4 visor, 5 rifle, 6 muzzle).
pub open spec fn marksman_art() -> Seq<Seq<u8>> {
    seq![
        seq![0, 0, 2, 3, 3, 3, 2, 0, 0],
        seq![0, 0, 3, 3, 3, 3, 3, 0, 0],
        seq![0, 0, 2, 4, 4, 4, 2, 0, 0],
        seq![0, 2, 2, 2, 2, 2, 2, 2, 0],
        seq![0, 2, 1, 1, 1, 1, 1, 2, 0],
        seq![0, 5, 5, 2, 2, 2, 1, 1, 0],
        seq![0, 1, 1, 2, 1, 5, 5, 5, 0],
        seq![0, 2, 1, 2, 2, 2, 1, 2, 6],
        seq![0, 0, 2, 2, 2, 2, 2, 0, 0],
        seq![0, 0, 2, 1, 0, 1, 2, 0, 0],
        seq![0, 0, 1, 1, 0, 1, 1, 0, 0],
        seq![0, 0, 2, 2, 0, 2, 2, 0, 0],
    ]
}

pub open spec fn marksman_palette() -> Seq<Pixel> {
    seq![Pixel::spec_rgb(150, 170, 100), Pixel::spec_rgb(70, 90, 40), Pixel::spec_rgb(180, 200, 130), Pixel::spec_rgb(90, 180, 120), Pixel::spec_rgb(60, 55, 45), Pixel::spec_rgb(255, 240, 80)]
}

/// The picture `pmc` draws: 11 × 12, palette indices per row
/// (`0` transparent; 1 plate, 2 dark, 3 accent, 4 visor, 5 glow).
pub open spec fn pmc_art() -> Seq<Seq<u8>> {
    seq![
        seq![0, 0, 0, 1, 2, 2, 2, 1, 0, 0, 0],
        seq![0, 0, 0, 4, 5, 4, 5, 4, 0, 0, 0],
        seq![0, 0, 0, 2, 2, 2, 2, 2, 0, 0, 0],
        seq![2, 1, 1, 2, 2, 2, 2, 2, 1, 1, 2],
        seq![1, 1, 1, 2, 2, 2, 2, 2, 1, 1, 1],
        seq![0, 0, 2, 3, 3, 3, 3, 3, 2, 0, 0],
        seq![0, 0, 2, 3, 2, 2, 2, 3, 2, 0, 0],
        seq![0, 0, 2, 3, 2, 5, 2, 3, 2, 0, 0],
        seq![0, 0, 2, 3, 3, 3, 3, 3, 2, 0, 0],
        seq![0, 0, 2, 3, 2, 3, 2, 3, 2, 0, 0],
        seq![0, 0, 2, 2, 2, 0, 2, 2, 2, 0, 0],
        seq![0, 0, 2, 1, 2, 0, 2, 1, 2, 0, 0],
    ]
}

pub open spec fn pmc_palette() -> Seq<Pixel> {
    seq![Pixel::spec_rgb(120, 140, 170), Pixel::spec_rgb(50, 70, 100), Pixel::spec_rgb(160, 180, 210), Pixel::spec_rgb(70, 180, 255), Pixel::spec_rgb(180, 230, 255)]
}

/// The picture `swarmling` draws: 5 × 5, palette indices per row
/// (`0` transparent; 1 body, 2 dark, 3 eye, 4 fang).
pub open spec fn swarmling_art() -> Seq<Seq<u8>> {
    seq![
        seq![2, 2, 2, 2, 2],
        seq![2, 3, 1, 3, 2],
        seq![1, 1, 4, 1, 1],
        seq![0, 2, 2, 2, 0],
        seq![2, 0, 2, 0, 2],
    ]
}

pub open spec fn swarmling_palette() -> Seq<Pixel> {
    seq![Pixel::spec_rgb(255, 80, 40), Pixel::spec_rgb(140, 20, 10), Pixel::spec_rgb(255, 220, 80), Pixel::spec_rgb(255, 240, 200)]
}

/// The picture `orb` draws: 8 × 8, palette indices per row
/// (`0` transparent; 1 body, 2 core, 3 dark, 4 glow, 5 pupil).
pub open spec fn orb_art() -> Seq<Seq<u8>> {
    seq![
        seq![0, 0, 3, 3, 3, 3, 0, 0],
        seq![0, 3, 1, 4, 4, 1, 3, 0],
        seq![3, 1, 4, 2, 2, 2, 1, 3],
        seq![3, 4, 2, 5, 5, 2, 4, 3],
        seq![3, 4, 2, 5, 5, 2, 4, 3],
        seq![3, 1, 2, 2, 2, 2, 1, 3],
        seq![0, 3, 1, 4, 4, 1, 3, 0],
        seq![0, 0, 3, 3, 3, 3, 0, 0],
    ]
}

pub open spec fn orb_palette() -> Seq<Pixel> {
    seq![Pixel::spec_rgb(200, 120, 255), Pixel::spec_rgb(255, 200, 255), Pixel::spec_rgb(90, 40, 150), Pixel::spec_rgb(230, 180, 255), Pixel::spec_rgb(40, 10, 80)]
}

/// The picture `eater` draws: 12 × 14, palette indices per row
/// (`0` transparent; 1 flesh, 2 dark, 3 bone, 4 maw, 5 eye, 6 bone shade).
pub open spec fn eater_art() -> Seq<Seq<u8>> {
    seq![
        seq![0, 0, 0, 2, 0, 2, 2, 0, 2, 0, 0, 0],
        seq![0, 0, 2, 1, 1, 1, 1, 1, 1, 2, 0, 0],
        seq![0, 0, 1, 5, 5, 1, 1, 5, 5, 1, 0, 0],
        seq![0, 0, 3, 3, 4, 3, 3, 4, 3, 3, 0, 0],
        seq![0, 0, 3, 4, 4, 4, 4, 4, 4, 3, 0, 0],
        seq![0, 6, 0, 4, 6, 4, 4, 6, 4, 0, 6, 0],
        seq![2, 1, 1, 1, 1, 1, 1, 1, 1, 1, 1, 2],
        seq![2, 2, 1, 2, 2, 2, 2, 2, 2, 1, 2, 2],
        seq![2, 2, 1, 2, 2, 1, 1, 2, 2, 1, 2, 2],
        seq![2, 2, 1, 2, 2, 2, 2, 2, 2, 1, 2, 2],
        seq![2, 2, 1, 1, 1, 1, 1, 1, 1, 1, 2, 2],
        seq![2, 2, 2, 2, 2, 2, 2, 2, 2, 2, 2, 2],
        seq![3, 6, 2, 1, 2, 0, 0, 2, 1, 2, 6, 3],
        seq![0, 0, 3, 1, 3, 0, 0, 3, 1, 3, 0, 0],
    ]
}

pub open spec fn eater_palette() -> Seq<Pixel> {
    seq![Pixel::spec_rgb(140, 30, 180), Pixel::spec_rgb(60, 10, 80), Pixel::spec_rgb(230, 210, 240), Pixel::spec_rgb(40, 0, 30), Pixel::spec_rgb(255, 200, 80), Pixel::spec_rgb(170, 140, 180)]
}

/// The picture `breacher` draws: 10 × 12, palette indices per row
/// (`0` transparent; 1 body, 2 dark, 3 iron, 4 spark, 5 eye).
pub open spec fn breacher_art() -> Seq<Seq<u8>> {
    seq![
        seq![0, 0, 2, 3, 3, 3, 3, 2, 0, 0],
        seq![0, 0, 3, 4, 2, 2, 4, 3, 0, 0],
        seq![0, 0, 2, 5, 2, 2, 5, 2, 0, 0],
        seq![0, 0, 0, 2, 2, 2, 2, 0, 0, 0],
        seq![2, 3, 3, 3, 3, 3, 3, 3, 3, 3],
        seq![2, 2, 4, 1, 1, 1, 1, 3, 2, 2],
        seq![2, 2, 1, 2, 2, 2, 2, 3, 4, 2],
        seq![2, 2, 1, 2, 4, 2, 2, 3, 2, 4],
        seq![3, 3, 1, 1, 1, 1, 1, 3, 2, 2],
        seq![0, 0, 2, 2, 2, 2, 2, 2, 3, 2],
        seq![0, 0, 2, 2, 0, 0, 2, 2, 0, 0],
        seq![0, 0, 3, 3, 0, 0, 3, 3, 0, 0],
    ]
}

pub open spec fn breacher_palette() -> Seq<Pixel> {
    seq![Pixel::spec_rgb(160, 80, 40), Pixel::spec_rgb(80, 40, 20), Pixel::spec_rgb(60, 60, 70), Pixel::spec_rgb(255, 200, 120), Pixel::spec_rgb(255, 60, 40)]
}

/// The picture `leaper` draws: 8 × 7, palette indices per row
/// (`0` transparent; 1 body, 2 dark, 3 claw, 4 claw shade, 5 eye).
pub open spec fn leaper_art() -> Seq<Seq<u8>> {
    seq![
        seq![0, 0, 0, 2, 2, 0, 0, 0],
        seq![0, 0, 2, 1, 1, 2, 0, 0],
        seq![3, 0, 1, 5, 5, 1, 0, 3],
        seq![4, 3, 0, 0, 0, 0, 3, 4],
        seq![0, 2, 1, 2, 2, 1, 2, 0],
        seq![2, 1, 2, 0, 0, 2, 1, 2],
        seq![4, 0, 4, 0, 0, 4, 0, 4],
    ]
}

pub open spec fn leaper_palette() -> Seq<Pixel> {
    seq![Pixel::spec_rgb(180, 60, 100), Pixel::spec_rgb(80, 20, 50), Pixel::spec_rgb(230, 230, 230), Pixel::spec_rgb(170, 160, 170), Pixel::spec_rgb(255, 220, 80)]
}

/// The picture `rocketeer` draws: 11 × 11, palette indices per row
/// (`0` transparent; 1 body, 2 dark, 3 tube, 4 warn, 5 eye, 6 accent).
pub open spec fn rocketeer_art() -> Seq<Seq<u8>> {
    seq![
        seq![0, 0, 2, 1, 1, 2, 0, 0, 0, 0, 0],
        seq![0, 0, 1, 5, 5, 1, 0, 0, 0, 0, 0],
        seq![0, 0, 2, 2, 2, 2, 0, 0, 0, 0, 0],
        seq![0, 2, 2, 2, 2, 2, 2, 2, 2, 2, 4],
        seq![0, 2, 1, 3, 3, 3, 3, 4, 3, 4, 6],
        seq![0, 2, 1, 1, 1, 2, 0, 0, 0, 0, 0],
        seq![0, 1, 6, 6, 6, 1, 0, 0, 0, 0, 0],
        seq![0, 2, 2, 2, 2, 2, 0, 0, 0, 0, 0],
        seq![0, 0, 2, 0, 2, 0, 0, 0, 0, 0, 0],
        seq![0, 0, 1, 0, 1, 0, 0, 0, 0, 0, 0],
        seq![0, 0, 2, 0, 2, 0, 0, 0, 0, 0, 0],
    ]
}

pub open spec fn rocketeer_palette() -> Seq<Pixel> {
    seq![Pixel::spec_rgb(110, 160, 200), Pixel::spec_rgb(40, 70, 90), Pixel::spec_rgb(70, 80, 95), Pixel::spec_rgb(255, 200, 70), Pixel::spec_rgb(255, 100, 60), Pixel::spec_rgb(200, 230, 255)]
}

/// The picture `sapper` draws: 8 × 10, palette indices per row
/// (`0` transparent; 1 body, 2 dark, 3 fuse, 4 canister, 5 eye, 6 cloth).
pub open spec fn sapper_art() -> Seq<Seq<u8>> {
    seq![
        seq![0, 0, 0, 3, 5, 0, 0, 0],
        seq![0, 0, 2, 6, 6, 2, 0, 0],
        seq![0, 0, 6, 5, 5, 6, 0, 0],
        seq![0, 6, 3, 6, 3, 6, 3, 0],
        seq![0, 2, 4, 2, 4, 2, 2, 0],
        seq![0, 1, 2, 1, 2, 1, 2, 0],
        seq![0, 0, 6, 6, 6, 6, 0, 0],
        seq![0, 0, 6, 6, 6, 6, 0, 0],
        seq![0, 0, 6, 2, 2, 6, 0, 0],
        seq![0, 0, 2, 2, 2, 2, 0, 0],
    ]
}

pub open spec fn sapper_palette() -> Seq<Pixel> {
    seq![Pixel::spec_rgb(255, 120, 30), Pixel::spec_rgb(100, 40, 8), Pixel::spec_rgb(255, 230, 100), Pixel::spec_rgb(160, 60, 20), Pixel::spec_rgb(255, 255, 220), Pixel::spec_rgb(70, 45, 30)]
}

/// The picture `juggernaut` draws: 15 × 14, palette indices per row
/// (`0` transparent; 1 plate, 2 dark, 3 rivet, 4 eye, 5 shadow).
pub open spec fn juggernaut_art() -> Seq<Seq<u8>> {
    seq![
        seq![0, 0, 0, 0, 0, 5, 2, 2, 2, 5, 0, 0, 0, 0, 0],
        seq![0, 0, 0, 0, 0, 2, 4, 4, 4, 2, 0, 0, 0, 0, 0],
        seq![2, 1, 1, 1, 1, 1, 1, 1, 1, 1, 1, 1, 1, 1, 2],
        seq![1, 3, 1, 1, 3, 5, 5, 5, 5, 5, 3, 1, 1, 3, 1],
        seq![1, 1, 1, 1, 5, 2, 2, 2, 2, 2, 5, 1, 1, 1, 1],
        seq![2, 1, 1, 1, 5, 2, 2, 4, 2, 2, 5, 1, 1, 1, 2],
        seq![2, 2, 2, 1, 5, 2, 2, 2, 2, 2, 5, 1, 2, 2, 2],
        seq![2, 1, 2, 1, 3, 5, 5, 5, 5, 5, 3, 1, 2, 1, 2],
        seq![2, 3, 2, 1, 1, 1, 1, 1, 1, 1, 1, 1, 2, 3, 2],
        seq![2, 2, 2, 2, 2, 2, 2, 2, 2, 2, 2, 2, 2, 2, 2],
        seq![0, 0, 0, 1, 1, 1, 1, 0, 1, 1, 1, 1, 0, 0, 0],
        seq![0, 0, 0, 1, 2, 2, 1, 0, 1, 2, 2, 1, 0, 0, 0],
        seq![0, 0, 0, 1, 1, 1, 1, 0, 1, 1, 1, 1, 0, 0, 0],
        seq![0, 0, 0, 2, 2, 2, 2, 0, 2, 2, 2, 2, 0, 0, 0],
    ]
}

pub open spec fn juggernaut_palette() -> Seq<Pixel> {
    seq![Pixel::spec_rgb(120, 120, 140), Pixel::spec_rgb(40, 40, 55), Pixel::spec_rgb(220, 220, 220), Pixel::spec_rgb(255, 60, 40), Pixel::spec_rgb(75, 75, 95)]
}

/// The picture `howler` draws: 8 × 12, palette indices per row
/// (`0` transparent; 1 robe, 2 dark, 3 mouth, 4 eye, 5 sigil, 6 shadow).
pub open spec fn howler_art() -> Seq<Seq<u8>> {
    seq![
        seq![0, 0, 0, 2, 2, 0, 0, 0],
        seq![0, 0, 0, 2, 2, 0, 0, 0],
        seq![0, 0, 2, 2, 2, 2, 0, 0],
        seq![0, 2, 2, 6, 6, 2, 2, 0],
        seq![0, 0, 4, 2, 2, 4, 0, 0],
        seq![0, 0, 3, 3, 3, 3, 0, 0],
        seq![0, 0, 3, 4, 4, 3, 0, 0],
        seq![0, 1, 1, 1, 1, 1, 1, 0],
        seq![2, 1, 1, 1, 5, 1, 1, 2],
        seq![1, 1, 1, 5, 5, 1, 1, 1],
        seq![1, 1, 1, 5, 5, 1, 1, 1],
        seq![2, 1, 0, 2, 2, 0, 1, 2],
    ]
}

pub open spec fn howler_palette() -> Seq<Pixel> {
    seq![Pixel::spec_rgb(240, 180, 220), Pixel::spec_rgb(80, 20, 60), Pixel::spec_rgb(30, 10, 20), Pixel::spec_rgb(255, 255, 200), Pixel::spec_rgb(255, 220, 120), Pixel::spec_rgb(150, 90, 150)]
}

/// The picture `sentinel` draws: 10 × 11, palette indices per row
/// (`0` transparent; 1 shell, 2 dark, 3 lens, 4 tripod, 5 warn).
pub open spec fn sentinel_art() -> Seq<Seq<u8>> {
    seq![
        seq![0, 0, 2, 1, 1, 2, 0, 0, 0, 0],
        seq![0, 2, 1, 1, 1, 1, 2, 0, 0, 0],
        seq![0, 1, 5, 3, 2, 4, 4, 4, 5, 5],
        seq![0, 1, 2, 3, 2, 2, 2, 2, 2, 5],
        seq![0, 2, 1, 1, 1, 1, 2, 0, 0, 0],
        seq![0, 0, 2, 4, 4, 2, 0, 0, 0, 0],
        seq![0, 0, 2, 2, 2, 2, 0, 0, 0, 0],
        seq![0, 0, 0, 2, 2, 0, 0, 0, 0, 0],
        seq![0, 4, 0, 2, 4, 0, 0, 4, 0, 0],
        seq![4, 0, 0, 0, 4, 0, 0, 0, 4, 0],
        seq![2, 2, 0, 0, 2, 0, 0, 0, 2, 2],
    ]
}

pub open spec fn sentinel_palette() -> Seq<Pixel> {
    seq![Pixel::spec_rgb(80, 200, 180), Pixel::spec_rgb(20, 60, 70), Pixel::spec_rgb(255, 80, 80), Pixel::spec_rgb(120, 130, 140), Pixel::spec_rgb(255, 200, 60)]
}

/// The picture `splitter` draws: 8 × 8, palette indices per row
/// (`0` transparent; 1 body, 2 dark, 3 seam, 4 crack, 5 eye).
pub open spec fn splitter_art() -> Seq<Seq<u8>> {
    seq![
        seq![0, 0, 2, 1, 1, 2, 0, 0],
        seq![0, 2, 1, 1, 1, 1, 2, 0],
        seq![2, 1, 5, 2, 2, 5, 1, 2],
        seq![1, 4, 3, 1, 1, 3, 4, 1],
        seq![4, 3, 3, 3, 3, 3, 3, 4],
        seq![2, 1, 1, 4, 4, 1, 1, 2],
        seq![0, 2, 4, 1, 1, 4, 2, 0],
        seq![0, 0, 2, 1, 1, 2, 0, 0],
    ]
}

pub open spec fn splitter_palette() -> Seq<Pixel> {
    seq![Pixel::spec_rgb(170, 120, 60), Pixel::spec_rgb(70, 40, 10), Pixel::spec_rgb(255, 220, 100), Pixel::spec_rgb(40, 20, 0), Pixel::spec_rgb(255, 80, 40)]
}

/// The picture `killa` draws: 14 × 14, palette indices per row
/// (`0` transparent; 1 plate, 2 dark, 3 iron, 4 lmg, 5 muzzle, 6 visor, 7 strap, 8 brass).
pub open spec fn killa_art() -> Seq<Seq<u8>> {
    seq![
        seq![0, 0, 0, 0, 2, 8, 3, 3, 8, 2, 0, 0, 0, 0],
        seq![0, 0, 0, 0, 3, 3, 3, 3, 3, 3, 0, 0, 0, 0],
        seq![0, 0, 0, 0, 2, 6, 6, 6, 6, 2, 0, 0, 0, 0],
        seq![0, 2, 1, 1, 1, 2, 2, 2, 2, 1, 1, 1, 2, 0],
        seq![0, 1, 1, 1, 1, 1, 1, 1, 1, 1, 1, 1, 1, 0],
        seq![0, 2, 1, 1, 2, 2, 2, 2, 2, 2, 1, 1, 2, 0],
        seq![0, 2, 2, 7, 8, 7, 8, 7, 8, 7, 7, 0, 0, 0],
        seq![0, 2, 2, 1, 7, 2, 2, 2, 2, 7, 1, 2, 2, 0],
        seq![0, 2, 2, 1, 2, 8, 2, 2, 8, 2, 1, 2, 2, 0],
        seq![0, 2, 2, 1, 1, 4, 4, 4, 4, 4, 4, 2, 2, 5],
        seq![0, 0, 0, 0, 0, 4, 4, 4, 4, 4, 4, 4, 4, 5],
        seq![0, 0, 0, 2, 1, 2, 0, 4, 2, 1, 2, 0, 0, 0],
        seq![0, 0, 0, 1, 1, 1, 0, 0, 1, 1, 1, 0, 0, 0],
        seq![0, 0, 0, 2, 2, 2, 0, 0, 2, 2, 2, 0, 0, 0],
    ]
}

pub open spec fn killa_palette() -> Seq<Pixel> {
    seq![Pixel::spec_rgb(90, 130, 100), Pixel::spec_rgb(30, 55, 35), Pixel::spec_rgb(60, 60, 70), Pixel::spec_rgb(40, 40, 50), Pixel::spec_rgb(255, 200, 60), Pixel::spec_rgb(180, 40, 30), Pixel::spec_rgb(130, 90, 50), Pixel::spec_rgb(220, 180, 80)]
}

/// The picture `zergling` draws: 7 × 6, palette indices per row
/// (`0` transparent; 1 body, 2 dark, 3 claw, 4 claw shade, 5 eye).
pub open spec fn zergling_art() -> Seq<Seq<u8>> {
    seq![
        seq![3, 0, 0, 2, 0, 0, 3],
        seq![4, 3, 2, 2, 2, 3, 4],
        seq![0, 0, 1, 5, 1, 0, 0],
        seq![0, 2, 1, 2, 1, 2, 0],
        seq![2, 1, 2, 0, 2, 1, 2],
        seq![4, 0, 4, 0, 4, 0, 4],
    ]
}

pub open spec fn zergling_palette() -> Seq<Pixel> {
    seq![Pixel::spec_rgb(160, 80, 200), Pixel::spec_rgb(60, 20, 90), Pixel::spec_rgb(240, 220, 255), Pixel::spec_rgb(170, 150, 190), Pixel::spec_rgb(255, 200, 80)]
}

/// The picture `floodling` draws: 5 × 5, palette indices per row
/// (`0` transparent; 1 body, 2 dark, 3 vein, 4 eye).
pub open spec fn floodling_art() -> Seq<Seq<u8>> {
    seq![
        seq![0, 2, 1, 2, 0],
        seq![2, 4, 1, 4, 2],
        seq![3, 1, 3, 1, 3],
        seq![0, 1, 2, 1, 0],
        seq![2, 0, 3, 0, 2],
    ]
}

pub open spec fn floodling_palette() -> Seq<Pixel> {
    seq![Pixel::spec_rgb(180, 220, 120), Pixel::spec_rgb(60, 110, 40), Pixel::spec_rgb(240, 180, 200), Pixel::spec_rgb(255, 100, 80)]
}

/// The picture `flood` draws: 8 × 10, palette indices per row
/// (`0` transparent; 1 body, 2 dark, 3 vein, 4 eye, 5 claw).
pub open spec fn flood_art() -> Seq<Seq<u8>> {
    seq![
        seq![0, 0, 2, 3, 2, 0, 0, 0],
        seq![0, 0, 2, 4, 1, 4, 0, 0],
        seq![0, 0, 1, 2, 2, 1, 0, 0],
        seq![3, 1, 1, 1, 1, 1, 1, 3],
        seq![2, 1, 2, 3, 2, 2, 1, 2],
        seq![5, 5, 2, 2, 3, 2, 1, 3],
        seq![0, 1, 2, 2, 2, 2, 5, 2],
        seq![0, 0, 2, 1, 1, 2, 0, 5],
        seq![0, 0, 1, 2, 2, 1, 0, 0],
        seq![0, 0, 5, 1, 1, 5, 0, 0],
    ]
}

pub open spec fn flood_palette() -> Seq<Pixel> {
    seq![Pixel::spec_rgb(120, 255, 140), Pixel::spec_rgb(30, 90, 40), Pixel::spec_rgb(255, 180, 220), Pixel::spec_rgb(255, 40, 40), Pixel::spec_rgb(230, 255, 200)]
}

/// The picture `flood_carrier` draws: 10 × 11, palette indices per row
/// (`0` transparent; 1 sac, 2 dark, 3 vein, 4 pustule, 5 drip).
pub open spec fn flood_carrier_art() -> Seq<Seq<u8>> {
    seq![
        seq![0, 0, 0, 0, 2, 2, 0, 0, 0, 0],
        seq![0, 0, 0, 2, 1, 1, 2, 0, 0, 0],
        seq![0, 0, 2, 1, 1, 1, 1, 2, 0, 0],
        seq![0, 2, 1, 3, 4, 1, 3, 1, 2, 0],
        seq![0, 1, 4, 2, 2, 2, 2, 4, 1, 0],
        seq![0, 1, 3, 2, 2, 4, 2, 3, 1, 0],
        seq![0, 1, 1, 4, 3, 2, 4, 1, 1, 0],
        seq![0, 2, 1, 1, 4, 3, 1, 1, 2, 0],
        seq![0, 0, 2, 1, 1, 1, 1, 2, 0, 0],
        seq![0, 0, 0, 5, 0, 0, 5, 0, 0, 0],
        seq![0, 0, 0, 2, 5, 0, 2, 0, 0, 0],
    ]
}

pub open spec fn flood_carrier_palette() -> Seq<Pixel> {
    seq![Pixel::spec_rgb(200, 240, 150), Pixel::spec_rgb(90, 140, 60), Pixel::spec_rgb(255, 180, 220), Pixel::spec_rgb(255, 220, 120), Pixel::spec_rgb(180, 60, 100)]
}

/// The picture `miniboss` draws: 18 × 18, palette indices per row
/// (`0` transparent; 1 body, 2 dark, 3 armor, 4 spike, 5 eye).
pub open spec fn miniboss_art() -> Seq<Seq<u8>> {
    seq![
        seq![0, 0, 4, 4, 0, 0, 0, 0, 0, 0, 0, 0, 0, 0, 4, 4, 0, 0],
        seq![0, 4, 0, 0, 2, 2, 2, 2, 2, 2, 2, 2, 2, 2, 0, 0, 4, 0],
        seq![0, 0, 0, 0, 2, 3, 3, 3, 3, 3, 3, 3, 3, 2, 0, 0, 0, 0],
        seq![0, 0, 0, 0, 2, 3, 5, 5, 3, 3, 5, 5, 3, 2, 0, 0, 0, 0],
        seq![4, 3, 3, 3, 2, 2, 2, 2, 2, 2, 2, 2, 2, 2, 3, 3, 3, 4],
        seq![3, 2, 3, 1, 1, 1, 1, 1, 1, 1, 1, 1, 1, 1, 1, 3, 2, 3],
        seq![3, 3, 3, 1, 1, 4, 3, 3, 3, 3, 3, 3, 4, 1, 1, 3, 3, 3],
        seq![3, 3, 3, 1, 1, 3, 2, 2, 2, 2, 2, 2, 3, 1, 1, 3, 3, 3],
        seq![3, 3, 3, 1, 1, 3, 2, 2, 5, 5, 2, 2, 3, 1, 1, 3, 3, 3],
        seq![2, 2, 2, 1, 1, 3, 2, 2, 4, 4, 2, 2, 3, 1, 1, 2, 2, 2],
        seq![2, 3, 2, 1, 1, 3, 2, 2, 2, 2, 2, 2, 3, 1, 1, 2, 3, 2],
        seq![2, 2, 2, 1, 1, 4, 3, 3, 3, 3, 3, 3, 4, 1, 1, 2, 2, 2],
        seq![2, 2, 2, 1, 1, 1, 1, 1, 1, 1, 1, 1, 1, 1, 1, 2, 2, 2],
        seq![3, 3, 3, 2, 2, 2, 2, 2, 2, 2, 2, 2, 2, 2, 2, 3, 3, 3],
        seq![3, 3, 3, 3, 3, 3, 3, 3, 0, 0, 3, 3, 3, 3, 3, 3, 3, 3],
        seq![0, 0, 0, 3, 2, 2, 2, 3, 0, 0, 3, 2, 2, 2, 3, 0, 0, 0],
        seq![0, 0, 0, 3, 3, 3, 3, 3, 0, 0, 3, 3, 3, 3, 3, 0, 0, 0],
        seq![0, 0, 0, 4, 2, 3, 2, 4, 0, 0, 4, 2, 3, 2, 4, 0, 0, 0],
    ]
}

pub open spec fn miniboss_palette() -> Seq<Pixel> {
    seq![Pixel::spec_rgb(255, 190, 60), Pixel::spec_rgb(160, 90, 20), Pixel::spec_rgb(90, 50, 10), Pixel::spec_rgb(255, 245, 200), Pixel::spec_rgb(255, 80, 80)]
}

} // verus!
