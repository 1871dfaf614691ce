use terminal_hell::gamepad::{
    coalesce_rumble, hp_drop_rumble, merge_rumble, rumble_params, PadBinding, Rumble, RumbleRoute,
};

#[test]
fn fire_params_are_a_weak_tap() {
    assert_eq!(rumble_params(Rumble::Fire), (0x2800, 0x8800, 70));
}

#[test]
fn damage_params_scale_and_clamp() {
    assert_eq!(rumble_params(Rumble::Damage { dmg: 20 }), (43007, 36864, 340));
    assert_eq!(rumble_params(Rumble::Damage { dmg: 5 }), (26111, 21504, 220));
    assert_eq!(rumble_params(Rumble::Damage { dmg: 100 }), (65535, 57344, 500));
    assert_eq!(rumble_params(Rumble::Damage { dmg: -3 }), (21606, 17408, 188));
}

#[test]
fn damage_params_match_float_lerp() {
    for d in 1..=40i32 {
        let t = d as f32 / 40.0;
        let strong = (0x5000 as f32 + t * (0xFFFF - 0x5000) as f32) as u16;
        let weak = (0x4000 as f32 + t * (0xE000 - 0x4000) as f32) as u16;
        let ms = 180 + (t * 320.0) as u32;
        assert_eq!(rumble_params(Rumble::Damage { dmg: d }), (strong, weak, ms));
    }
}

#[test]
fn merge_prefers_damage_and_larger_hit() {
    assert_eq!(merge_rumble(None, Rumble::Fire), Rumble::Fire);
    assert_eq!(merge_rumble(Some(Rumble::Fire), Rumble::Damage { dmg: 3 }), Rumble::Damage { dmg: 3 });
    assert_eq!(merge_rumble(Some(Rumble::Damage { dmg: 9 }), Rumble::Fire), Rumble::Damage { dmg: 9 });
    assert_eq!(
        merge_rumble(Some(Rumble::Damage { dmg: 4 }), Rumble::Damage { dmg: 11 }),
        Rumble::Damage { dmg: 11 }
    );
}

#[test]
fn merge_is_order_free_on_values() {
    let a = Rumble::Damage { dmg: 7 };
    let b = Rumble::Fire;
    assert_eq!(merge_rumble(Some(a), b), merge_rumble(Some(b), a));
}

#[test]
fn coalesce_picks_strongest() {
    assert_eq!(coalesce_rumble(&[]), None);
    let q = [Rumble::Fire, Rumble::Damage { dmg: 12 }, Rumble::Fire, Rumble::Damage { dmg: 30 }, Rumble::Damage { dmg: 2 }];
    assert_eq!(coalesce_rumble(&q), Some(Rumble::Damage { dmg: 30 }));
    assert_eq!(coalesce_rumble(&[Rumble::Fire, Rumble::Fire]), Some(Rumble::Fire));
}

#[test]
fn binding_follows_connects_and_disconnects() {
    let mut b = PadBinding::new(None);
    assert_eq!(b.active, None);
    assert!(b.on_connected(3, true));
    assert_eq!(b, PadBinding { active: Some(3), ff_supported: true });
    assert!(!b.on_connected(4, false));
    assert!(!b.on_disconnected(4, None));
    assert!(b.on_disconnected(3, Some((4, false))));
    assert_eq!(b, PadBinding { active: Some(4), ff_supported: false });
    assert!(b.on_disconnected(4, None));
    assert_eq!(b.active, None);
}

#[test]
fn routes_by_ff_support() {
    let lib = PadBinding::new(Some((2, true)));
    assert_eq!(lib.route(Some(Rumble::Fire), true), RumbleRoute::Library { id: 2, kind: Rumble::Fire });
    let raw = PadBinding::new(Some((2, false)));
    assert_eq!(
        raw.route(Some(Rumble::Damage { dmg: 20 }), true),
        RumbleRoute::Evdev { strong: 43007, weak: 36864, ms: 340 }
    );
    assert_eq!(raw.route(Some(Rumble::Fire), false), RumbleRoute::Skip);
    assert_eq!(raw.route(None, true), RumbleRoute::Skip);
    assert_eq!(PadBinding::new(None).route(Some(Rumble::Fire), true), RumbleRoute::Skip);
}

#[test]
fn hp_drops_rumble_by_the_drop() {
    assert_eq!(hp_drop_rumble(None, 80), None);
    assert_eq!(hp_drop_rumble(Some(100), 80), Some(Rumble::Damage { dmg: 20 }));
    assert_eq!(hp_drop_rumble(Some(80), 90), None);
    assert_eq!(hp_drop_rumble(Some(80), 80), None);
}
