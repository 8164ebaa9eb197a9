//! Trusted boundary to the `rand` crate: the thread-local generator and
//! the two draws the spawning logic makes. Nothing downstream depends on
//! *which* value comes back, only on the stated range, so every caller is
//! verified for every possible outcome.

use vstd::prelude::*;

verus! {

/// Declares rand's thread-local generator handle so that it can stand in
/// signatures; the value is opaque here.
#[verifier::external_type_specification]
#[verifier::external_body]
pub struct ExThreadRng(rand::rngs::ThreadRng);

/// Relies on rand::Rng::gen_range over `0..n`: the result is always below
/// `n`. The call panics on an empty range; the precondition excludes that.
#[verifier::external_body]
pub(crate) fn rand_below(rng: &mut rand::rngs::ThreadRng, n: usize) -> (r: usize)
    requires
        n > 0,
    ensures
        r < n,
{
    rand::Rng::gen_range(rng, 0..n)
}

/// Relies on rand::Rng::gen for `bool`: a coin flip. Nothing is promised
/// of the outcome.
#[verifier::external_body]
pub(crate) fn rand_bool(rng: &mut rand::rngs::ThreadRng) -> bool {
    rand::Rng::gen(rng)
}

} // verus!
