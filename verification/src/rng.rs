use vstd::prelude::*;
use rand::rngs::SmallRng;
use rand::Rng;

verus! {

/// rand's small, fast, non-cryptographic generator, used for every random
/// choice of the aquarium.
#[verifier::external_type_specification]
#[verifier::external_body]
pub struct ExSmallRng(SmallRng);

/// Calls rand's `Rng::gen_range(0..n)` on `rng`: a number drawn uniformly
/// from `0..n`.  The contract claims only that the number lies in `0..n`
/// (which one is chance); rand panics on an empty range, hence `n > 0`.
#[verifier::external_body]
pub(crate) fn random_below(rng: &mut SmallRng, n: usize) -> (r: usize)
    requires
        n > 0,
    ensures
        r < n,
{
    rng.gen_range(0..n)
}

} // verus!
