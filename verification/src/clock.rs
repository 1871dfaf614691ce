//! Monotonic time, read through std's `Instant`.
use vstd::prelude::*;

verus! {

/// `std::time::Instant`, carried through the library as is.
#[verifier::external_type_specification]
#[verifier::external_body]
pub struct ExInstant(std::time::Instant);

/// `Instant::now()`. The reading depends on the clock; nothing is stated.
#[verifier::external_body]
pub(crate) fn now() -> std::time::Instant {
    std::time::Instant::now()
}

/// `Instant::elapsed`, in nanoseconds. Depends on the clock; nothing is
/// stated.
#[verifier::external_body]
pub(crate) fn elapsed_nanos(since: &std::time::Instant) -> u128 {
    since.elapsed().as_nanos()
}

/// `Instant::duration_since` (saturating at zero), in nanoseconds.
/// Depends on the two readings; nothing is stated.
#[verifier::external_body]
pub(crate) fn nanos_between(later: &std::time::Instant, earlier: &std::time::Instant) -> u128 {
    later.duration_since(*earlier).as_nanos()
}

} // verus!
