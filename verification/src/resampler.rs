//! Drawing historical periods at random, with replacement.

use vstd::prelude::*;
use rand::Rng;
use rand::SeedableRng;

verus! {

/// `rand::rngs::StdRng`, the generator that a `Resampler` owns. Nothing is
/// known of its state.
#[verifier::external_type_specification]
#[verifier::external_body]
pub struct ExStdRng(rand::rngs::StdRng);

/// Calls `rand::SeedableRng::seed_from_u64` for `StdRng`. Nothing is claimed
/// of the generator that comes back.
#[verifier::external_body]
fn generator_from_seed(seed: u64) -> (rng: rand::rngs::StdRng) {
    rand::rngs::StdRng::seed_from_u64(seed)
}

/// Calls `rand::random::<u64>`, which reads the thread's generator. Nothing
/// is claimed of the number that comes back.
#[verifier::external_body]
fn fresh_seed() -> (seed: u64) {
    rand::random::<u64>()
}

/// Calls `rand::Rng::gen_range(0, bound)` on the generator. The documentation
/// of `gen_range` gives the range as `[low, high)` and says that it panics
/// when `low >= high`: so `bound` must be positive and the result is below
/// it. That the draws are uniform and independent is not stated here.
#[verifier::external_body]
fn uniform_below(rng: &mut rand::rngs::StdRng, bound: usize) -> (index: usize)
    requires
        bound > 0,
    ensures
        index < bound,
{
    rng.gen_range(0, bound)
}

/// Every entry of `draws` is an index into a sample space of `periods` entries.
pub open spec fn valid_draws(draws: Seq<usize>, periods: nat) -> bool {
    forall|i: int| 0 <= i < draws.len() ==> #[trigger] draws[i] < periods
}

/// A source of uniformly drawn period indices. It keeps no memory of earlier
/// draws: the same period may be drawn any number of times.
pub struct Resampler {
    rng: rand::rngs::StdRng,
}

impl Resampler {
    /// A resampler whose draws are fixed by `seed`.
    pub fn seeded(seed: u64) -> (r: Resampler) {
        Resampler { rng: generator_from_seed(seed) }
    }

    /// A resampler seeded from the thread's generator.
    pub fn new() -> (r: Resampler) {
        Resampler { rng: generator_from_seed(fresh_seed()) }
    }

    /// Draws one index into a sample space of `sample_space_size` entries.
    pub fn draw_period_index(&mut self, sample_space_size: usize) -> (index: usize)
        requires
            sample_space_size > 0,
        ensures
            index < sample_space_size,
    {
        uniform_below(&mut self.rng, sample_space_size)
    }

    /// Draws `count` indices into a sample space of `sample_space_size`
    /// entries, one after the other.
    pub fn draw_indices(&mut self, sample_space_size: usize, count: usize) -> (draws: Vec<usize>)
        requires
            sample_space_size > 0,
        ensures
            draws@.len() == count,
            valid_draws(draws@, sample_space_size as nat),
    {
        let mut draws: Vec<usize> = Vec::new();
        let mut k: usize = 0;
        while k < count
            invariant
                sample_space_size > 0,
                k <= count,
                draws@.len() == k,
                valid_draws(draws@, sample_space_size as nat),
            decreases count - k,
        {
            let index: usize = self.draw_period_index(sample_space_size);
            draws.push(index);
            k = k + 1;
        }
        draws
    }
}

} // verus!
