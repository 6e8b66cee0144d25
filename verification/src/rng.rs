//! The random stream. Nothing here is proved: each function hands one call to
//! the `rand` crates and states what their documentation promises of it.

use vstd::prelude::*;
use rand::seq::SliceRandom;
use rand::Rng;
use rand::RngCore;
use rand::SeedableRng;
use rand_chacha::ChaCha8Rng;

verus! {

/// The seed of the stream that every pass draws from.
pub const SEED: u64 = 0;

/// `rand_chacha::ChaCha8Rng`, the generator behind every draw. Its state is
/// hidden from the proofs.
#[verifier::external_type_specification]
#[verifier::external_body]
pub struct ExChaCha8Rng(rand_chacha::ChaCha8Rng);

/// `ChaCha8Rng::seed_from_u64`: a generator at the start of the stream that
/// `seed` selects. Nothing is claimed of the generator.
#[verifier::external_body]
pub(crate) fn seeded_rng(seed: u64) -> ChaCha8Rng {
    ChaCha8Rng::seed_from_u64(seed)
}

/// `Rng::gen_range` on `0..bound`: some number below `bound`. The call
/// panics on an empty range, so `bound` must be positive.
#[verifier::external_body]
pub(crate) fn draw_below(rng: &mut ChaCha8Rng, bound: usize) -> (n: usize)
    requires
        bound > 0,
    ensures
        n < bound,
{
    rng.gen_range(0..bound)
}

/// `RngCore::next_u32`: the next 32 bits of the stream. Nothing is claimed
/// of them.
#[verifier::external_body]
pub(crate) fn draw_word(rng: &mut ChaCha8Rng) -> u32 {
    rng.next_u32()
}

/// `SliceRandom::choose`: one of `options`, or nothing when there are none.
#[verifier::external_body]
pub(crate) fn pick_one(rng: &mut ChaCha8Rng, options: &Vec<isize>) -> (picked: Option<isize>)
    ensures
        options.len() == 0 ==> picked is None,
        options.len() > 0 ==> picked is Some && options@.contains(picked->0),
{
    options.choose(rng).copied()
}

} // verus!
