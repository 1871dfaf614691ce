use terminal_hell::tag::{Tag, TagPair, TagTable};

#[test]
fn interning_returns_same_handle() {
    let mut table = TagTable::new();
    let a = Tag::new(&mut table, "flammable");
    let b = Tag::new(&mut table, "flammable");
    assert_eq!(a, b);
    assert_eq!(a.as_str(&table).as_ptr(), b.as_str(&table).as_ptr());
}

#[test]
fn pair_is_order_insensitive() {
    let mut table = TagTable::new();
    let a = Tag::new(&mut table, "blood");
    let b = Tag::new(&mut table, "on_fire");
    assert_eq!(TagPair::new(&table, a, b), TagPair::new(&table, b, a));
}

use terminal_hell::tag::TagSet;

#[test]
fn tag_names_and_lookup() {
    let mut table = TagTable::new();
    let a = Tag::new(&mut table, "acid");
    let b = Tag::new(&mut table, "ice");
    assert_ne!(a, b);
    assert_eq!(table.len(), 2);
    assert_eq!(a.as_str(&table), "acid");
    assert_eq!(table.lookup("ice"), Some(b));
    assert_eq!(table.lookup("lava"), None);
}

#[test]
fn tag_set_add_skips_present_tags() {
    let mut table = TagTable::new();
    let mut s = TagSet::from_strs(&mut table, &["wet", "blood"]);
    assert_eq!(s.len(), 2);
    let wet = Tag::new(&mut table, "wet");
    let fire = Tag::new(&mut table, "on_fire");
    assert!(s.has(wet));
    assert!(!s.has(fire));
    s.add(fire);
    s.add(fire);
    assert_eq!(s.len(), 3);
    assert_eq!(s.iter().len(), 3);
    assert!(TagSet::default().is_empty());
    assert_eq!(TagSet::from_iter(vec![wet, wet, fire]).len(), 3);
}
