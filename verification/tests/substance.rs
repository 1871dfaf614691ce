use terminal_hell::fb::Pixel;
use terminal_hell::substance::{parse_hex, HexError, StateCurve, SubstanceId};

#[test]
fn fresh_to_dried_midpoints() {
    let fresh = Pixel::rgb(200, 10, 0);
    let dried = Pixel::rgb(40, 250, 255);
    let p = StateCurve::FreshToDried.resolve(128, fresh, dried);
    assert_eq!(p, Pixel::rgb(120, 130, 128));
    let q = StateCurve::FreshToDried.resolve(64, fresh, dried);
    assert_eq!(q, Pixel::rgb(160, 70, 64));
}

#[test]
fn curve_ends_are_palette_entries() {
    let fresh = Pixel::rgb(200, 10, 0);
    let dried = Pixel::rgb(40, 250, 255);
    assert_eq!(StateCurve::FreshToDried.resolve(0, fresh, dried), fresh);
    assert_eq!(StateCurve::FreshToDried.resolve(255, fresh, dried), dried);
    assert_eq!(StateCurve::FaintToIntense.resolve(0, fresh, dried), dried);
    assert_eq!(StateCurve::FaintToIntense.resolve(255, fresh, dried), fresh);
}

#[test]
fn hex_six_and_three_digits() {
    assert_eq!(parse_hex("#ff8000"), Ok(Pixel::rgb(255, 128, 0)));
    assert_eq!(parse_hex("  ##0a0B0c "), Ok(Pixel::rgb(10, 11, 12)));
    assert_eq!(parse_hex("#f80"), Ok(Pixel::rgb(255, 136, 0)));
}

#[test]
fn hex_errors() {
    assert_eq!(parse_hex("#ff80"), Err(HexError::BadLength));
    assert_eq!(parse_hex(""), Err(HexError::BadLength));
    assert_eq!(parse_hex("#gg0000"), Err(HexError::BadDigit));
    assert_eq!(parse_hex("#12x"), Err(HexError::BadDigit));
}

#[test]
fn none_substance_is_zero() {
    assert!(SubstanceId::none().is_none());
    assert!(!SubstanceId(3).is_none());
}

use terminal_hell::substance::{ColorField, SubstanceError, SubstanceFields, SubstanceRegistry};
use terminal_hell::tag::TagTable;

fn fields(id: &str, fresh: &str, dried: &str) -> SubstanceFields {
    SubstanceFields {
        id: id.to_string(),
        tags: vec!["wet".to_string(), "flammable".to_string()],
        fresh: fresh.to_string(),
        dried: dried.to_string(),
        state_curve: None,
        bloom_color: None,
        bloom_radius: None,
        jitter: None,
    }
}

#[test]
fn registry_assigns_sequential_ids() {
    let mut table = TagTable::new();
    let mut reg: SubstanceRegistry<u8> = SubstanceRegistry::new(0);
    assert!(reg.is_empty());
    let blood = reg.insert(&mut table, &fields("blood_pool", "#a01010", "#401010"), 1).unwrap();
    assert_eq!(blood, SubstanceId(1));
    let mut oil = fields("oil_pool", "503c78", "#28f");
    oil.state_curve = Some("faint_to_intense".to_string());
    oil.bloom_color = Some("#ff0".to_string());
    oil.bloom_radius = Some(3);
    oil.jitter = Some(4);
    let oil_id = reg.insert(&mut table, &oil, 2).unwrap();
    assert_eq!(oil_id, SubstanceId(2));
    assert_eq!(reg.len(), 3);
    assert!(!reg.is_empty());
    let d = reg.get(oil_id).unwrap();
    assert_eq!(d.name, "oil_pool");
    assert_eq!(d.fresh, Pixel::rgb(0x50, 0x3c, 0x78));
    assert_eq!(d.dried, Pixel::rgb(0x22, 0x88, 0xff));
    assert_eq!(d.state_curve, StateCurve::FaintToIntense);
    assert_eq!(d.bloom, Some((Pixel::rgb(255, 255, 0), 3)));
    assert_eq!(d.jitter, 4);
    assert_eq!(d.extra, 2);
    assert_eq!(d.tags.len(), 2);
    assert_eq!(d.tags.iter()[1].as_str(&table), "flammable");
    assert_eq!(reg.by_name("blood_pool"), Some(blood));
    assert_eq!(reg.by_name("lava"), None);
    assert_eq!(reg.by_name(""), None);
    assert!(reg.get(SubstanceId(9)).is_none());
    assert_eq!(reg.get(SubstanceId(0)).unwrap().name, "");
}

#[test]
fn registry_color_errors_add_nothing() {
    let mut table = TagTable::new();
    let mut reg: SubstanceRegistry<u8> = SubstanceRegistry::new(0);
    assert_eq!(
        reg.insert(&mut table, &fields("a", "#zz0000", "#000"), 1),
        Err(SubstanceError::Color { field: ColorField::Fresh, cause: HexError::BadDigit })
    );
    assert_eq!(
        reg.insert(&mut table, &fields("a", "#000", "#00"), 1),
        Err(SubstanceError::Color { field: ColorField::Dried, cause: HexError::BadLength })
    );
    let mut glow = fields("a", "#000", "#000");
    glow.bloom_color = Some("nope".to_string());
    glow.bloom_radius = Some(2);
    assert_eq!(
        reg.insert(&mut table, &glow, 1),
        Err(SubstanceError::Color { field: ColorField::Bloom, cause: HexError::BadLength })
    );
    glow.bloom_radius = None;
    assert!(reg.insert(&mut table, &glow, 1).is_ok());
    assert_eq!(reg.len(), 2);
}

#[test]
fn latest_name_wins_and_extra_updates() {
    let mut table = TagTable::new();
    let mut reg: SubstanceRegistry<u8> = SubstanceRegistry::new(0);
    reg.insert(&mut table, &fields("fire", "#f00", "#800"), 1).unwrap();
    let second = reg.insert(&mut table, &fields("fire", "#f80", "#840"), 1).unwrap();
    assert_eq!(reg.by_name("fire"), Some(second));
    reg.set_extra(second, 9);
    reg.set_extra(SubstanceId(40), 7);
    assert_eq!(reg.get(second).unwrap().extra, 9);
    assert_eq!(reg.get(SubstanceId(1)).unwrap().extra, 1);
}

#[test]
fn hex_fields_are_hex_digits_only() {
    assert_eq!(parse_hex("+f+f+f"), Err(HexError::BadDigit));
    assert_eq!(parse_hex("+ff"), Err(HexError::BadDigit));
    assert_eq!(parse_hex("#aé123"), Err(HexError::BadDigit));
    assert_eq!(parse_hex("é0"), Err(HexError::BadDigit));
    assert_eq!(parse_hex("#ff8000"), Ok(Pixel::rgb(255, 128, 0)));
    assert_eq!(parse_hex("  #f80 "), Ok(Pixel::rgb(255, 136, 0)));
}

#[test]
fn non_ascii_color_is_refused() {
    let mut table = TagTable::new();
    let mut reg: SubstanceRegistry<u8> = SubstanceRegistry::new(0);
    assert_eq!(
        reg.insert(&mut table, &fields("x", "é0", "#000"), 1),
        Err(SubstanceError::Color { field: ColorField::Fresh, cause: HexError::BadDigit })
    );
}
