use rand::rngs::SmallRng;
use rand::SeedableRng;
use terminal_hell::brand::{brand_color, brand_rgb, short_brand};
use terminal_hell::enemy::Archetype;
use terminal_hell::fb::Pixel;
use terminal_hell::gore::{gore_profile_for, gore_profile_for_with_content, GoreTier};
use terminal_hell::perk::{roll_new_perk, Perk};
use terminal_hell::primitive::{Primitive, Rarity};
use terminal_hell::projectile::ProjectileKind;
use terminal_hell::traversal::{roll_verb, TraversalVerb};
use terminal_hell::weapon::{cycle_slot, FireMode};

#[test]
fn perk_catalog() {
    let all = Perk::all();
    assert_eq!(all.len(), 10);
    assert_eq!(Perk::Butcher.name(), "Butcher");
    assert_eq!(Perk::Butcher.glyph(), 'U');
    assert_eq!(Perk::Butcher.flavor(), "2× loot drops");
    assert_eq!(Perk::IronWill.color(), Pixel::rgb(140, 200, 255));
    assert_eq!(Perk::from_name("gloom_shroud"), Some(Perk::GloomShroud));
    assert_eq!(Perk::from_name("Gloom Shroud"), None);
}

#[test]
fn rolled_perk_is_new() {
    let mut rng = SmallRng::seed_from_u64(7);
    let owned = [Perk::CorpsePulse, Perk::IronWill, Perk::QuickHands];
    for _ in 0..50 {
        let p = roll_new_perk(&owned, &mut rng).expect("seven perks remain");
        assert!(!owned.contains(&p));
    }
    let all = Perk::all();
    assert_eq!(roll_new_perk(&all, &mut rng), None);
    let mut but_one = all.clone();
    but_one.retain(|p| *p != Perk::Rampage);
    assert_eq!(roll_new_perk(&but_one, &mut rng), Some(Perk::Rampage));
}

#[test]
fn traversal_catalog() {
    assert_eq!(TraversalVerb::all().len(), 5);
    assert_eq!(TraversalVerb::Grapple.name(), "Grapple");
    assert_eq!(TraversalVerb::Grapple.glyph(), 'G');
    assert_eq!(TraversalVerb::Phase.color(), Pixel::rgb(230, 230, 150));
    assert_eq!(TraversalVerb::from_name("blink"), Some(TraversalVerb::Blink));
    assert_eq!(TraversalVerb::from_name("teleport"), None);
    assert_eq!(TraversalVerb::Slide.flavor(), "locked-in slide, brief resist");
    let mut rng = SmallRng::seed_from_u64(1);
    let v = roll_verb(&mut rng);
    assert!(TraversalVerb::all().contains(&v));
}

#[test]
fn fire_mode_names_round_trip() {
    for m in [FireMode::Pulse, FireMode::Auto, FireMode::Burst, FireMode::Pump, FireMode::Rail] {
        assert_eq!(FireMode::from_name(m.label()), Some(m));
    }
    assert_eq!(FireMode::Rail.glyph(), '═');
    assert_eq!(FireMode::from_name("laser"), None);
}

#[test]
fn primitive_and_rarity_tables() {
    assert_eq!(Primitive::from_name("gravity_well"), Some(Primitive::GravityWell));
    assert_eq!(Primitive::GravityWell.glyph(), 'V');
    assert_eq!(Primitive::Cryo.color(), Pixel::rgb(140, 220, 255));
    assert_eq!(Primitive::from_name("fire"), None);
    assert_eq!(Rarity::Common.slot_count(), 1);
    assert_eq!(Rarity::Rare.slot_count(), 3);
    assert_eq!(Rarity::Uncommon.color(), Pixel::rgb(120, 200, 255));
}

#[test]
fn projectile_bytes() {
    for k in [ProjectileKind::Pulse, ProjectileKind::Rocket, ProjectileKind::Grenade] {
        assert_eq!(ProjectileKind::from_byte(k.to_byte()), k);
    }
    assert_eq!(ProjectileKind::from_byte(200), ProjectileKind::Pulse);
    assert!(ProjectileKind::Rocket.explodes_on_impact());
    assert!(!ProjectileKind::Pulse.explodes_on_impact());
    assert_eq!(ProjectileKind::default(), ProjectileKind::Pulse);
}

#[test]
fn gore_bytes_and_profiles() {
    for t in [GoreTier::Standard, GoreTier::Heavy, GoreTier::Extreme, GoreTier::CorpseHit] {
        assert_eq!(GoreTier::from_byte(t.to_byte()), t);
    }
    assert_eq!(GoreTier::from_byte(9), GoreTier::Standard);
    assert_eq!(gore_profile_for(Archetype::Miniboss), "extreme");
    assert_eq!(gore_profile_for(Archetype::Charger), "heavy");
    assert_eq!(gore_profile_for(Archetype::Rusher), "standard");
    assert_eq!(gore_profile_for_with_content(Archetype::Rusher, Some("extreme")), "extreme");
    assert_eq!(gore_profile_for_with_content(Archetype::Miniboss, Some("weird")), "standard");
    assert_eq!(gore_profile_for_with_content(Archetype::Pinkie, None), "heavy");
}

#[test]
fn brand_tables() {
    assert_eq!(short_brand("doom_inferno"), "DOOM");
    assert_eq!(short_brand("risk_of_rain"), "RoR");
    assert_eq!(short_brand("my_mod"), "my_mod");
    assert_eq!(brand_rgb("helldivers"), (255, 210, 70));
    assert_eq!(brand_rgb("my_mod"), (220, 220, 220));
    assert_eq!(brand_color("zerg_tide"), Pixel::rgb(160, 80, 200));
    assert_eq!(brand_color("my_mod"), Pixel::rgb(255, 255, 255));
}

#[test]
fn cycling_moves_to_the_other_loaded_slot() {
    assert_eq!(cycle_slot(0, [true, true]), 1);
    assert_eq!(cycle_slot(1, [true, true]), 0);
    assert_eq!(cycle_slot(0, [true, false]), 0);
    assert_eq!(cycle_slot(1, [true, false]), 0);
    assert_eq!(cycle_slot(1, [false, false]), 1);
}
