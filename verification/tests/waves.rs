use rand::rngs::SmallRng;
use rand::SeedableRng;
use terminal_hell::waves::{
    decode_phase, next_spawn_index, pick_weighted, total_weight, wave_budget, IntermissionPhase,
};

#[test]
fn budget_ramps_with_wave_and_brands() {
    assert_eq!(wave_budget(0, 0), 12);
    assert_eq!(wave_budget(1, 1), 16);
    assert_eq!(wave_budget(3, 3), 32);
}

#[test]
fn phases_run_in_order() {
    let mut p = IntermissionPhase::Breathe;
    let mut labels = vec![p.label()];
    while let Some(n) = p.next() {
        p = n;
        labels.push(p.label());
    }
    assert_eq!(labels, vec!["BREATHE", "VOTE", "STOCK", "WARNING"]);
    assert_eq!(decode_phase(2), Some(IntermissionPhase::Stock));
    assert_eq!(decode_phase(4), None);
}

#[test]
fn weighted_pick_lands_on_running_total() {
    let w = [3, 0, 5];
    assert_eq!(pick_weighted(&w, 0), 0);
    assert_eq!(pick_weighted(&w, 2), 0);
    assert_eq!(pick_weighted(&w, 3), 2);
    assert_eq!(pick_weighted(&w, 7), 2);
    assert_eq!(total_weight(&w), Some(8));
    assert_eq!(total_weight(&[u32::MAX, 1]), None);
}

#[test]
fn spawn_index_edges() {
    let mut rng = SmallRng::seed_from_u64(3);
    assert_eq!(next_spawn_index(&[], &mut rng), None);
    assert_eq!(next_spawn_index(&[0, 0], &mut rng), Some(0));
    for _ in 0..20 {
        assert_eq!(next_spawn_index(&[0, 5, 0], &mut rng), Some(1));
    }
}
