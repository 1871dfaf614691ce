//! The game's seeded random number generator and the one sampling call
//! the library makes through it.
use rand::seq::SliceRandom;
use rand::Rng;
use vstd::prelude::*;

verus! {

/// `rand::rngs::SmallRng`, carried through the library as is.
#[verifier::external_type_specification]
#[verifier::external_body]
pub struct ExSmallRng(rand::rngs::SmallRng);

/// `SliceRandom::choose` on a slice: one random element of the slice
/// (copied out), or `None` if the slice is empty. Which element comes
/// back depends on the generator's state and is not stated.
#[verifier::external_body]
pub(crate) fn choose_copied<T: Copy>(items: &[T], rng: &mut rand::rngs::SmallRng) -> (r: Option<T>)
    ensures
        r is None <==> items@.len() == 0,
        r matches Some(x) ==> items@.contains(x),
{
    items.choose(rng).copied()
}

/// `Rng::gen_range(0..bound)`: a random value below `bound` (the range
/// must not be empty). Which value depends on the generator's state.
#[verifier::external_body]
pub(crate) fn gen_below(rng: &mut rand::rngs::SmallRng, bound: u32) -> (r: u32)
    requires
        bound > 0,
    ensures
        r < bound,
{
    rng.gen_range(0..bound)
}

} // verus!
