//! Trusted boundary to the `rand` crate.
//!
//! Every stochastic decision of the library draws from one explicitly
//! threaded `rand::rngs::StdRng`. Nothing can be promised of a random
//! value, so the wrappers state only range facts that `rand` documents.

use vstd::prelude::*;
use rand::Rng;

verus! {

#[verifier::external_type_specification]
#[verifier::external_body]
pub struct ExStdRng(rand::rngs::StdRng);

/// Relies on rand's `Rng::gen::<bool>`: a fair coin.
#[verifier::external_body]
pub fn rand_bool(rng: &mut rand::rngs::StdRng) -> (r: bool) {
    rng.gen()
}

/// Relies on rand's `Rng::gen::<u32>`: uniform over all 32-bit values.
#[verifier::external_body]
pub fn rand_u32(rng: &mut rand::rngs::StdRng) -> (r: u32) {
    rng.gen()
}

/// Relies on rand's `Rng::gen_range` over `0..n`: uniform below `n`.
/// It panics on an empty range, which the `requires` keeps out.
#[verifier::external_body]
pub fn rand_below(rng: &mut rand::rngs::StdRng, n: u64) -> (r: u64)
    requires
        n > 0,
    ensures
        r < n,
{
    rng.gen_range(0..n)
}

/// Relies on rand's `Rng::gen_range` over `0..n`: uniform below `n`.
/// It panics on an empty range, which the `requires` keeps out.
#[verifier::external_body]
pub fn rand_index(rng: &mut rand::rngs::StdRng, n: usize) -> (r: usize)
    requires
        n > 0,
    ensures
        r < n,
{
    rng.gen_range(0..n)
}

} // verus!
