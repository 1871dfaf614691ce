use terminal_hell::enemy::Archetype;
use terminal_hell::fb::{Framebuffer, Pixel};
use terminal_hell::sprite::{
    enemy_sprite, enemy_sprite_branded, enemy_sprite_from_content, player_body, render_blob, rusher,
    ContentSprites, Sprite, SpriteOverlay,
};

#[test]
fn framebuffer_set_get() {
    let mut fb = Framebuffer::new(4, 3);
    assert_eq!((fb.width(), fb.height()), (4, 3));
    assert_eq!(fb.get(3, 2), Some(Pixel::black()));
    assert_eq!(fb.get(4, 0), None);
    fb.set(1, 2, Pixel::rgb(1, 2, 3));
    fb.set(9, 9, Pixel::rgb(1, 2, 3));
    assert_eq!(fb.get(1, 2), Some(Pixel::rgb(1, 2, 3)));
    assert_eq!(fb.get(2, 1), Some(Pixel::black()));
}

#[test]
fn blit_centers_opaque_pixels() {
    let red = Pixel::rgb(255, 0, 0);
    let blue = Pixel::rgb(0, 0, 255);
    let mut s = Sprite::new(3, 3);
    s.set(1, 1, red);
    s.fill_rect(0, 0, 3, 1, blue);
    let mut fb = Framebuffer::new(10, 10);
    s.blit(&mut fb, 5, 5);
    assert_eq!(fb.get(5, 5), Some(red));
    assert_eq!(fb.get(4, 4), Some(blue));
    assert_eq!(fb.get(6, 4), Some(blue));
    assert_eq!(fb.get(4, 5), Some(Pixel::black()));
    assert_eq!(fb.get(5, 6), Some(Pixel::black()));
}

#[test]
fn blit_clips_at_edges() {
    let red = Pixel::rgb(255, 0, 0);
    let mut s = Sprite::new(2, 2);
    s.fill_rect(0, 0, 5, 5, red);
    let mut fb = Framebuffer::new(3, 3);
    s.blit(&mut fb, 0, 0);
    assert_eq!(fb.get(0, 0), Some(red));
    assert_eq!(fb.get(1, 0), Some(Pixel::black()));
}

#[test]
fn blob_is_three_by_three() {
    let c = Pixel::rgb(9, 9, 9);
    let mut fb = Framebuffer::new(6, 6);
    render_blob(&mut fb, (2, 2), c);
    for y in 0..6u16 {
        for x in 0..6u16 {
            let inside = (1..=3).contains(&x) && (1..=3).contains(&y);
            assert_eq!(fb.get(x, y), Some(if inside { c } else { Pixel::black() }));
        }
    }
}

#[test]
fn overlay_holes() {
    let mut o = SpriteOverlay::new();
    o.punch(2, 3);
    o.stain(1, 1, Pixel::rgb(5, 5, 5));
    assert!(o.is_hole(2, 3));
    assert!(!o.is_hole(3, 2));
    assert_eq!(o.stains.len(), 1);
}

#[test]
fn builder_sizes() {
    let p = player_body();
    assert_eq!((p.w, p.h), (8, 11));
    let r = rusher();
    let e = enemy_sprite(Archetype::Rusher);
    assert_eq!((e.w, e.h), (r.w, r.h));
}

#[test]
fn rusher_picture_lands_centered() {
    let mut fb = Framebuffer::new(20, 20);
    rusher().blit(&mut fb, 10, 10);
    assert_eq!(fb.get(8, 7), Some(Pixel::rgb(255, 230, 120)));
    assert_eq!(fb.get(7, 5), Some(Pixel::rgb(230, 200, 170)));
    assert_eq!(fb.get(6, 5), Some(Pixel::black()));
    assert_eq!(fb.get(6, 9), Some(Pixel::rgb(130, 20, 30)));
}

#[test]
fn turret_is_tinted_sentinel() {
    let mut fb = Framebuffer::new(20, 20);
    enemy_sprite(Archetype::PlayerTurret).blit(&mut fb, 10, 10);
    assert_eq!(fb.get(7, 5), Some(Pixel::rgb(53, 148, 172)));
    assert_eq!(fb.get(8, 5), Some(Pixel::rgb(80, 211, 221)));
    assert_eq!(fb.get(5, 5), Some(Pixel::black()));
}

fn content_fixture() -> ContentSprites {
    let mut unit_art = Sprite::new(3, 3);
    unit_art.set(1, 1, Pixel::rgb(200, 10, 10));
    ContentSprites {
        brand_units: vec![("acme".to_string(), "scav".to_string(), unit_art)],
        brands: vec![("acme".to_string(), Archetype::Rusher, Sprite::new(4, 4))],
        archetypes: vec![
            (Archetype::Rusher, Sprite::new(5, 5)),
            (Archetype::Rusher, Sprite::new(6, 6)),
        ],
    }
}

#[test]
fn branded_art_takes_precedence() {
    let c = content_fixture();
    let s = enemy_sprite_branded(Archetype::Rusher, Some("acme"), Some("scav"), &c);
    assert_eq!((s.w, s.h), (3, 3));
    let mut fb = Framebuffer::new(10, 10);
    s.blit(&mut fb, 5, 5);
    assert_eq!(fb.get(5, 5), Some(Pixel::rgb(200, 10, 10)));
    assert_eq!(fb.get(4, 4), Some(Pixel::black()));
    let s = enemy_sprite_branded(Archetype::Rusher, Some("acme"), Some("other"), &c);
    assert_eq!((s.w, s.h), (4, 4));
    let s = enemy_sprite_branded(Archetype::Rusher, None, Some("scav"), &c);
    assert_eq!((s.w, s.h), (6, 6));
}

#[test]
fn content_art_falls_back_to_hardcoded() {
    let c = content_fixture();
    let s = enemy_sprite_from_content(Archetype::Rusher, &c);
    assert_eq!((s.w, s.h), (6, 6));
    let s = enemy_sprite_from_content(Archetype::Pinkie, &c);
    assert_eq!((s.w, s.h), (12, 11));
    let s = enemy_sprite_branded(Archetype::Charger, Some("acme"), Some("other"), &c);
    let h = enemy_sprite(Archetype::Charger);
    assert_eq!((s.w, s.h), (h.w, h.h));
}
