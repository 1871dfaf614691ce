//! Wave scheduler pieces: the intermission phase machine, the wire
//! decoding of phases, the per-wave spawn budget and the weighted pick
//! from the spawn pool.
//!
//! Between waves the director walks four intermission phases
//! (Breathe → Vote → Stock → Warning); after Warning the next wave
//! starts.
use crate::rng::gen_below;
use rand::rngs::SmallRng;
use vstd::prelude::*;

verus! {

pub const WAVE_BUDGET_BASE: u32 = 12;
pub const WAVE_BUDGET_RAMP: u32 = 4;
pub const PER_EXTRA_BRAND_BONUS: u32 = 4;

#[derive(Clone, Copy, Debug, PartialEq, Eq, Structural)]
pub enum IntermissionPhase {
    Breathe,
    Vote,
    Stock,
    Warning,
}

impl IntermissionPhase {
    pub open spec fn spec_label(self) -> Seq<char> {
        match self {
            IntermissionPhase::Breathe => "BREATHE"@,
            IntermissionPhase::Vote => "VOTE"@,
            IntermissionPhase::Stock => "STOCK"@,
            IntermissionPhase::Warning => "WARNING"@,
        }
    }

    pub open spec fn spec_next(self) -> Option<IntermissionPhase> {
        match self {
            IntermissionPhase::Breathe => Some(IntermissionPhase::Vote),
            IntermissionPhase::Vote => Some(IntermissionPhase::Stock),
            IntermissionPhase::Stock => Some(IntermissionPhase::Warning),
            IntermissionPhase::Warning => None,
        }
    }

    /// Position of the phase in the intermission.
    pub open spec fn rank(self) -> nat {
        match self {
            IntermissionPhase::Breathe => 0,
            IntermissionPhase::Vote => 1,
            IntermissionPhase::Stock => 2,
            IntermissionPhase::Warning => 3,
        }
    }

    pub fn label(self) -> (s: &'static str)
        ensures
            s@ == self.spec_label(),
    {
        match self {
            IntermissionPhase::Breathe => "BREATHE",
            IntermissionPhase::Vote => "VOTE",
            IntermissionPhase::Stock => "STOCK",
            IntermissionPhase::Warning => "WARNING",
        }
    }

    pub fn next(self) -> (n: Option<IntermissionPhase>)
        ensures
            n == self.spec_next(),
    {
        match self {
            IntermissionPhase::Breathe => Some(IntermissionPhase::Vote),
            IntermissionPhase::Vote => Some(IntermissionPhase::Stock),
            IntermissionPhase::Stock => Some(IntermissionPhase::Warning),
            IntermissionPhase::Warning => None,
        }
    }
}

/// Every intermission runs through the four phases in order and ends:
/// `next` moves one rank forward, and only Warning has no successor.
pub proof fn lemma_phases_advance(p: IntermissionPhase)
    ensures
        p.spec_next() is None <==> p == IntermissionPhase::Warning,
        p.spec_next() matches Some(q) ==> q.rank() == p.rank() + 1,
{
}

/// Phase byte on the wire → phase. Bytes 0..=3 are the phases in order;
/// anything else is not a phase.
pub open spec fn spec_decode_phase(p: u8) -> Option<IntermissionPhase> {
    if p == 0 {
        Some(IntermissionPhase::Breathe)
    } else if p == 1 {
        Some(IntermissionPhase::Vote)
    } else if p == 2 {
        Some(IntermissionPhase::Stock)
    } else if p == 3 {
        Some(IntermissionPhase::Warning)
    } else {
        None
    }
}

pub fn decode_phase(p: u8) -> (r: Option<IntermissionPhase>)
    ensures
        r == spec_decode_phase(p),
{
    match p {
        0 => Some(IntermissionPhase::Breathe),
        1 => Some(IntermissionPhase::Vote),
        2 => Some(IntermissionPhase::Stock),
        3 => Some(IntermissionPhase::Warning),
        _ => None,
    }
}

/// The byte of each phase decodes to it.
pub proof fn lemma_decode_phase_rank(p: IntermissionPhase)
    ensures
        spec_decode_phase(p.rank() as u8) == Some(p),
{
}

pub enum WaveState {
    Spawning,
    Clearing,
    Intermission(IntermissionPhase),
}

#[derive(Clone, Copy, Debug)]
pub enum WaveEvent {
    EnterVote,
    ExitVote,
    WaveStart(u32),
}

/// Spawn budget of a wave: a base, a per-wave ramp, and a bonus per
/// active brand beyond the first.
pub open spec fn spec_wave_budget(wave: u32, active_brands: usize) -> int {
    let extra = if active_brands >= 1 {
        active_brands - 1
    } else {
        0
    };
    WAVE_BUDGET_BASE + wave * WAVE_BUDGET_RAMP + extra * PER_EXTRA_BRAND_BONUS
}

/// How the wave budget grows: wave 0 with one brand gets the base of
/// 12; each later wave adds 4; each active brand beyond the first adds 4;
/// no active brand counts as one.
pub proof fn lemma_wave_budget_growth(wave: u32, active_brands: usize)
    ensures
        spec_wave_budget(0, 1) == 12,
        wave < u32::MAX ==> spec_wave_budget((wave + 1) as u32, active_brands) == spec_wave_budget(wave, active_brands)
            + 4,
        active_brands >= 1 && active_brands < usize::MAX ==> spec_wave_budget(wave, (active_brands + 1) as usize)
            == spec_wave_budget(wave, active_brands) + 4,
        spec_wave_budget(wave, 0) == spec_wave_budget(wave, 1),
{
}

pub fn wave_budget(wave: u32, active_brands: usize) -> (b: u32)
    requires
        active_brands <= u32::MAX + 1,
        spec_wave_budget(wave, active_brands) <= u32::MAX,
    ensures
        b == spec_wave_budget(wave, active_brands),
{
    let extra = active_brands.saturating_sub(1) as u32;
    let brand_bonus = extra * PER_EXTRA_BRAND_BONUS;
    WAVE_BUDGET_BASE + wave * WAVE_BUDGET_RAMP + brand_bonus
}

pub open spec fn sum_weights(w: Seq<u32>) -> int
    decreases w.len(),
{
    if w.len() == 0 {
        0
    } else {
        sum_weights(w.drop_last()) + w.last()
    }
}

/// The pool entry a roll of `pick` lands on: the first entry whose
/// running weight total exceeds `pick`.
pub open spec fn weighted_index(w: Seq<u32>, pick: int) -> int
    decreases w.len(),
{
    if w.len() == 0 {
        0
    } else if pick < sum_weights(w.drop_last()) {
        weighted_index(w.drop_last(), pick)
    } else {
        w.len() - 1
    }
}

proof fn lemma_sum_prefix(w: Seq<u32>, i: int)
    requires
        0 <= i <= w.len(),
    ensures
        sum_weights(w.take(i)) <= sum_weights(w),
        0 <= sum_weights(w.take(i)),
    decreases w.len(),
{
    if i < w.len() {
        assert(w.drop_last().take(i) =~= w.take(i));
        lemma_sum_prefix(w.drop_last(), i);
    } else {
        assert(w.take(i) =~= w);
        if w.len() > 0 {
            lemma_sum_prefix(w.drop_last(), 0);
        } else {
        }
    }
}

proof fn lemma_weighted_index_in_prefix(w: Seq<u32>, i: int, pick: int)
    requires
        0 <= i <= w.len(),
        0 <= pick < sum_weights(w.take(i)),
    ensures
        weighted_index(w, pick) == weighted_index(w.take(i), pick),
    decreases w.len(),
{
    if i < w.len() {
        assert(w.drop_last().take(i) =~= w.take(i));
        lemma_sum_prefix(w.drop_last(), i);
        lemma_weighted_index_in_prefix(w.drop_last(), i, pick);
    } else {
        assert(w.take(i) =~= w);
    }
}

/// Index into the weighted pool for a roll `pick < total`.
pub fn pick_weighted(weights: &[u32], pick: u32) -> (i: usize)
    requires
        weights@.len() > 0,
        sum_weights(weights@) <= u32::MAX,
        pick < sum_weights(weights@),
    ensures
        i < weights@.len(),
        i == weighted_index(weights@, pick as int),
        sum_weights(weights@.take(i as int)) <= pick < sum_weights(weights@.take(i + 1)),
{
    let mut acc: u32 = 0;
    let mut i: usize = 0;
    assert(weights@.take(0) =~= Seq::<u32>::empty());
    while i < weights.len()
        invariant
            i <= weights@.len(),
            acc == sum_weights(weights@.take(i as int)),
            acc <= pick,
            sum_weights(weights@) <= u32::MAX,
            pick < sum_weights(weights@),
        decreases weights.len() - i,
    {
        proof {
            assert(weights@.take(i + 1).drop_last() =~= weights@.take(i as int));
            lemma_sum_prefix(weights@, i + 1);
        }
        acc = acc + weights[i];
        if pick < acc {
            proof {
                lemma_weighted_index_in_prefix(weights@, i + 1, pick as int);
                let t = weights@.take(i + 1);
                assert(t.drop_last() =~= weights@.take(i as int));
            }
            return i;
        }
        i = i + 1;
    }
    assert(weights@.take(weights@.len() as int) =~= weights@);
    i
}

/// Sum of the pool's weights, or `None` when it overflows a `u32`.
pub fn total_weight(weights: &[u32]) -> (t: Option<u32>)
    ensures
        match t {
            Some(s) => s == sum_weights(weights@),
            None => sum_weights(weights@) > u32::MAX,
        },
{
    let mut acc: u32 = 0;
    let mut i: usize = 0;
    assert(weights@.take(0) =~= Seq::<u32>::empty());
    while i < weights.len()
        invariant
            i <= weights@.len(),
            acc == sum_weights(weights@.take(i as int)),
        decreases weights.len() - i,
    {
        assert(weights@.take(i + 1).drop_last() =~= weights@.take(i as int));
        match acc.checked_add(weights[i]) {
            Some(a) => acc = a,
            None => {
                proof {
                    lemma_sum_prefix(weights@, i + 1);
                }
                return None;
            },
        }
        i = i + 1;
    }
    assert(weights@.take(weights@.len() as int) =~= weights@);
    Some(acc)
}

/// Pick the next spawn from the weighted pool: `None` for an empty pool,
/// the first entry when every weight is zero, otherwise a random entry
/// chosen with probability proportional to its weight.
pub fn next_spawn_index(weights: &[u32], rng: &mut SmallRng) -> (r: Option<usize>)
    requires
        sum_weights(weights@) <= u32::MAX,
    ensures
        weights@.len() == 0 <==> r is None,
        sum_weights(weights@) == 0 && weights@.len() > 0 ==> r == Some(0usize),
        r matches Some(i) ==> i < weights@.len(),
        r matches Some(i) ==> (sum_weights(weights@) > 0 ==> weights@[i as int] > 0),
{
    if weights.len() == 0 {
        return None;
    }
    let total = match total_weight(weights) {
        Some(t) => t,
        None => 0,
    };
    if total == 0 {
        return Some(0);
    }
    let pick = gen_below(rng, total);
    let i = pick_weighted(weights, pick);
    proof {
        let t = weights@.take(i + 1);
        assert(t.drop_last() =~= weights@.take(i as int));
    }
    Some(i)
}

} // verus!
