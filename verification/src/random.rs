//! The source of the random draws that the searches consume.

use rand::rngs::StdRng;
use rand::{Rng, RngCore, SeedableRng};
use vstd::prelude::*;

verus! {

/// `rand::rngs::StdRng`, the generator behind a `RandomSource`. Nothing is
/// known of its state.
#[verifier::external_type_specification]
#[verifier::external_body]
pub struct ExStdRng(rand::rngs::StdRng);

/// A pseudo-random generator set up from a seed. Two sources set up from
/// one seed and asked the same questions in the same order give the same
/// answers; nothing else is known of an answer but its range.
pub struct RandomSource {
    rng: StdRng,
}

/// `SeedableRng::seed_from_u64` for `StdRng`: a generator whose state is
/// derived from `seed`. It takes every seed.
#[verifier::external_body]
fn std_rng_from_seed(seed: u64) -> StdRng {
    StdRng::seed_from_u64(seed)
}

/// `RngCore::fill_bytes`: overwrites every byte of `dest` and leaves its
/// length as it is.
#[verifier::external_body]
fn std_rng_fill(rng: &mut StdRng, dest: &mut Vec<u8>)
    ensures
        final(dest)@.len() == old(dest)@.len(),
{
    rng.fill_bytes(dest.as_mut_slice());
}

/// `Rng::gen_range` on `0..bound`: a number below `bound`. The range must
/// not be empty.
#[verifier::external_body]
fn std_rng_below(rng: &mut StdRng, bound: usize) -> (r: usize)
    requires
        bound > 0,
    ensures
        r < bound,
{
    rng.gen_range(0..bound)
}

/// `Rng::gen` for a byte: any byte.
#[verifier::external_body]
fn std_rng_byte(rng: &mut StdRng) -> u8 {
    rng.gen()
}

/// `Rng::gen_ratio`: `true` with a chance of `numerator` in `denominator`;
/// always `true` where the two are equal, never where `numerator` is zero.
/// The denominator must not be zero nor smaller than the numerator.
#[verifier::external_body]
fn std_rng_ratio(rng: &mut StdRng, numerator: u32, denominator: u32) -> (r: bool)
    requires
        denominator > 0,
        numerator <= denominator,
    ensures
        numerator == denominator ==> r,
        numerator == 0 ==> !r,
{
    rng.gen_ratio(numerator, denominator)
}

impl RandomSource {
    /// A source set up from `seed`.
    pub fn seeded(seed: u64) -> RandomSource {
        RandomSource { rng: std_rng_from_seed(seed) }
    }

    /// `len` random bytes.
    pub fn bytes(&mut self, len: usize) -> (r: Vec<u8>)
        ensures
            r@.len() == len,
    {
        let mut r: Vec<u8> = vec![0u8; len];
        std_rng_fill(&mut self.rng, &mut r);
        r
    }

    /// A random number below `bound`.
    pub fn index_below(&mut self, bound: usize) -> (r: usize)
        requires
            bound > 0,
        ensures
            r < bound,
    {
        std_rng_below(&mut self.rng, bound)
    }

    /// A random byte.
    pub fn byte(&mut self) -> u8 {
        std_rng_byte(&mut self.rng)
    }

    /// `true` with a chance of `numerator` in `denominator`.
    pub fn chance(&mut self, numerator: u32, denominator: u32) -> (r: bool)
        requires
            denominator > 0,
            numerator <= denominator,
        ensures
            numerator == denominator ==> r,
            numerator == 0 ==> !r,
    {
        std_rng_ratio(&mut self.rng, numerator, denominator)
    }
}

} // verus!
