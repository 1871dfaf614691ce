use terminal_hell::interaction::{DirtyTracker, MAX_CHAIN_HOPS};

#[test]
fn chain_cap_respected() {
    let mut d = DirtyTracker::default();
    for _ in 0..MAX_CHAIN_HOPS {
        assert!(d.can_chain());
        d.note_hop();
    }
    assert!(!d.can_chain());
}

use terminal_hell::interaction::{Event, InteractionBook};
use terminal_hell::tag::{Tag, TagSet, TagTable};

#[derive(Debug, PartialEq)]
struct Ignite {
    radius: f32,
    damage_per_sec: f32,
    ttl: f32,
}

#[test]
fn contact_rule_symmetric() {
    let mut table = TagTable::new();
    let mut book = InteractionBook::new();
    let a = Tag::new(&mut table, "flammable");
    let b = Tag::new(&mut table, "on_fire");
    book.on_contact(&table, a, b, Ignite { radius: 1.0, damage_per_sec: 4.0, ttl: 2.0 });
    assert_eq!(book.contact_rules(&table, a, b).len(), 1);
    assert_eq!(book.contact_rules(&table, b, a).len(), 1);
}

#[test]
fn rules_stack_in_order_and_events_are_separate() {
    let mut table = TagTable::new();
    let mut book: InteractionBook<u32> = InteractionBook::new();
    let a = Tag::new(&mut table, "blood");
    let b = Tag::new(&mut table, "acid");
    let c = Tag::new(&mut table, "ice");
    book.on_contact(&table, a, b, 1);
    book.on_contact(&table, b, a, 2);
    book.on_event(a, Event::OnDeath, 9);
    assert_eq!(book.contact_rules(&table, a, b), &[1, 2]);
    assert!(book.contact_rules(&table, a, c).is_empty());
    assert_eq!(book.event_rules(a, Event::OnDeath), &[9]);
    assert!(book.event_rules(b, Event::OnDeath).is_empty());
}

#[test]
fn collect_walks_both_tag_sets() {
    let mut table = TagTable::new();
    let mut book: InteractionBook<u32> = InteractionBook::new();
    let sa = TagSet::from_strs(&mut table, &["blood", "wet"]);
    let sb = TagSet::from_strs(&mut table, &["on_fire"]);
    let blood = Tag::new(&mut table, "blood");
    let wet = Tag::new(&mut table, "wet");
    let fire = Tag::new(&mut table, "on_fire");
    book.on_contact(&table, blood, fire, 5);
    book.on_contact(&table, fire, wet, 6);
    let mut out = Vec::new();
    book.collect_contact_rules(&table, &sa, &sb, &mut out);
    assert_eq!(out, vec![&5, &6]);
}

#[test]
fn dirty_sets_dedupe_and_chain_resets() {
    let mut d = DirtyTracker::default();
    d.dirty_tile(1, 1);
    d.dirty_tile(1, 1);
    assert_eq!(d.tiles.len(), 1);
    d.dirty_cross(5, 5);
    assert_eq!(d.tiles.len(), 6);
    d.dirty_entity(7);
    d.dirty_entity(7);
    assert_eq!(d.entities.len(), 1);
    d.note_hop();
    d.reset_chain();
    assert_eq!(d.chain_depth, 0);
    d.note_hop();
    d.reset_frame();
    assert!(d.tiles.is_empty() && d.entities.is_empty() && d.chain_depth == 0);
}

#[test]
fn dirty_tiles_are_listed_once() {
    let mut d = DirtyTracker::default();
    d.dirty_cross(3, 4);
    d.dirty_cross(4, 4);
    d.dirty_tile(3, 4);
    let mut t = d.tiles.clone();
    t.sort();
    t.dedup();
    assert_eq!(t.len(), d.tiles.len());
    assert_eq!(d.tiles.len(), 8);
}
