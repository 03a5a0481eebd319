//! The source of randomness: a seedable generator handed in by the caller.
use rand::Rng;
use rand::rngs::StdRng;
use vstd::prelude::*;

verus! {

/// rand's standard seedable generator, carried through as an opaque value.
#[verifier::external_type_specification]
#[verifier::external_body]
pub struct ExStdRng(StdRng);

/// Relies on rand's `Rng::gen_range` over `0..bound`: a value below `bound`
/// (it panics on an empty range, hence `bound > 0`).
#[verifier::external_body]
pub(crate) fn roll_below(rng: &mut StdRng, bound: u64) -> (r: u64)
    requires
        bound > 0,
    ensures
        r < bound,
{
    rng.gen_range(0..bound)
}

} // verus!
