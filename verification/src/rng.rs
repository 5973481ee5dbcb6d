//! The random draws that the game and the agents make, taken from `rand`.
//!
//! Nothing here is proved: these are the contracts that the rest of the crate
//! trusts of the generator.

use vstd::prelude::*;

verus! {

/// `rand::rngs::ThreadRng`, the handle to the thread-local generator.
/// Its state is hidden from the proofs.
#[verifier::external_type_specification]
#[verifier::external_body]
pub struct ExThreadRng(rand::rngs::ThreadRng);

/// `rand::thread_rng` hands out the thread-local generator. Nothing is
/// claimed of the handle. The call fails only when the system has no
/// randomness to seed the generator with, which no argument decides.
pub assume_specification[ rand::thread_rng ]() -> (rng: rand::rngs::ThreadRng);

/// Draws an index from `0..n` with `rand::Rng::gen_range`. The only claim is
/// that the draw lies in the range; `gen_range` panics on an empty range,
/// which `n > 0` rules out.
#[verifier::external_body]
pub(crate) fn gen_below(rng: &mut rand::rngs::ThreadRng, n: usize) -> (r: usize)
    requires
        n > 0,
    ensures
        r < n,
{
    rand::Rng::gen_range(rng, 0..n)
}

} // verus!
