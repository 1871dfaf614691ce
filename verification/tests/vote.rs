use rand::rngs::SmallRng;
use rand::SeedableRng;
use terminal_hell::vote::{BrandStack, VoteBox};

fn brands() -> Vec<String> {
    vec!["doom_inferno".to_string(), "zerg_tide".to_string(), "halo_flood".to_string()]
}

#[test]
fn votes_move_with_the_player() {
    let mut vb = VoteBox::new(&brands());
    vb.register_vote(7, 0);
    vb.register_vote(8, 0);
    assert_eq!(vb.tally(0), ("doom_inferno", 2));
    vb.register_vote(7, 2);
    assert_eq!(vb.tally(0).1, 1);
    assert_eq!(vb.tally(2).1, 1);
    vb.register_vote(7, 2);
    assert_eq!(vb.tally(2).1, 1);
    vb.register_vote(8, 99);
    assert_eq!(vb.tally(0).1, 0);
    assert_eq!(vb.len(), 3);
}

#[test]
fn leader_is_first_with_most_votes() {
    let mut vb = VoteBox::new(&brands());
    assert_eq!(vb.leader(), None);
    vb.register_vote(1, 1);
    vb.register_vote(2, 2);
    assert_eq!(vb.leader(), Some(1));
    vb.register_vote(3, 2);
    assert_eq!(vb.leader(), Some(2));
    let mut rng = SmallRng::seed_from_u64(5);
    assert_eq!(vb.resolve(&mut rng), Some("halo_flood".to_string()));
}

#[test]
fn abstention_picks_an_offered_brand() {
    let vb = VoteBox::new(&brands());
    let mut rng = SmallRng::seed_from_u64(11);
    for _ in 0..20 {
        let b = vb.resolve(&mut rng).unwrap();
        assert!(brands().contains(&b));
    }
    assert_eq!(VoteBox::new(&[]).resolve(&mut rng), None);
}

#[test]
fn first_adoption_replaces_default() {
    let mut s = BrandStack::new("doom_inferno");
    assert_eq!(s.brands(), &vec!["doom_inferno".to_string()]);
    s.adopt("");
    assert_eq!(s.brands().len(), 1);
    s.adopt("zerg_tide");
    assert_eq!(s.brands(), &vec!["zerg_tide".to_string()]);
    s.adopt("halo_flood");
    s.adopt("zerg_tide");
    assert_eq!(s.brands(), &vec!["zerg_tide".to_string(), "halo_flood".to_string()]);
}

#[test]
fn adopting_the_default_keeps_it() {
    let mut s = BrandStack::new("doom_inferno");
    s.adopt("doom_inferno");
    s.adopt("quake_arena");
    assert_eq!(s.brands(), &vec!["quake_arena".to_string()]);
}
