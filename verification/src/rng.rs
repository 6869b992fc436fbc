use vstd::prelude::*;

verus! {

/// rand's standard generator, opaque to verification. A value of it carries
/// the generator state between draws; nothing is known of that state.
#[verifier::external_type_specification]
#[verifier::external_body]
pub struct ExStdRng(rand::rngs::StdRng);

/// Relies on rand's `SeedableRng::seed_from_u64` for `StdRng`: builds a
/// generator whose stream is a function of the seed alone, so a run can be
/// replayed. Nothing is promised of the values it will yield.
#[verifier::external_body]
pub(crate) fn rng_from_seed(seed: u64) -> rand::rngs::StdRng {
    <rand::rngs::StdRng as rand::SeedableRng>::seed_from_u64(seed)
}

/// Relies on rand's `Rng::gen_range` over `0..bound`: it returns a value of
/// that range and panics only when the range is empty, which the precondition
/// rules out. Which value comes back is not promised.
#[verifier::external_body]
pub(crate) fn rng_below(rng: &mut rand::rngs::StdRng, bound: usize) -> (r: usize)
    requires
        bound >= 1,
    ensures
        r < bound,
{
    rand::Rng::gen_range(rng, 0..bound)
}

} // verus!
