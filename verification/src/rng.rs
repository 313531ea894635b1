//! Per-tile random sources.
//!
//! A tile owns exactly one source, never shared: either the operating
//! system's entropy through rand's standard generator, or a verified
//! xorshift generator whose whole behavior is stated, for reproducible
//! renders and for tests.

use vstd::prelude::*;

verus! {

#[verifier::external_type_specification]
#[verifier::external_body]
pub struct ExStdRng(rand::rngs::StdRng);

/// Relies on rand::make_rng: seeds a fresh StdRng from the thread-local
/// entropy source.  Nothing can be promised of the state it returns.
#[verifier::external_body]
fn std_rng_from_entropy() -> rand::rngs::StdRng {
    rand::make_rng()
}

/// Relies on rand::RngExt::random_range over `lo..hi`: a sample inside
/// the half-open range.  It panics only on an empty range, which the
/// precondition rules out.
#[verifier::external_body]
fn std_rng_range(rng: &mut rand::rngs::StdRng, lo: i64, hi: i64) -> (r: i64)
    requires
        lo < hi,
    ensures
        lo <= r < hi,
{
    rand::RngExt::random_range(rng, lo..hi)
}

/// One step of the xorshift generator.
pub open spec fn xorshift_next_s(s: u64) -> u64 {
    let a = s ^ (s << 13);
    let b = a ^ (a >> 7);
    b ^ (b << 17)
}

/// The sample a state yields in `[lo, hi)`.
pub open spec fn xorshift_sample_s(x: u64, lo: i64, hi: i64) -> int {
    lo + (x as int) % (hi - lo)
}

/// An exclusively owned source of pseudo-random numbers.
pub enum RandomSource {
    /// A verified xorshift generator: deterministic in its seed.
    Xorshift { state: u64 },
    /// rand's standard generator, seeded from entropy.
    Std { rng: rand::rngs::StdRng },
}

impl RandomSource {
    /// A source seeded from the thread-local entropy source.
    pub fn from_entropy() -> (r: RandomSource)
        ensures
            r is Std,
    {
        RandomSource::Std { rng: std_rng_from_entropy() }
    }

    /// A deterministic source from a seed (a zero seed is displaced so
    /// the generator cannot start in its fixed point).
    pub fn from_seed(seed: u64) -> (r: RandomSource)
        ensures
            r == (RandomSource::Xorshift { state: if seed == 0 { 0x9e3779b97f4a7c15u64 } else { seed } }),
    {
        let state: u64 = if seed == 0 {
            0x9e3779b97f4a7c15
        } else {
            seed
        };
        RandomSource::Xorshift { state }
    }

    /// A sample in `[lo, hi)`.  For the deterministic source both the
    /// sample and the next state are functions of the current state.
    pub fn next_in_range(&mut self, lo: i64, hi: i64) -> (r: i64)
        requires
            lo < hi,
        ensures
            lo <= r < hi,
            (*old(self)) matches RandomSource::Xorshift { state } ==> {
                &&& *final(self) == (RandomSource::Xorshift { state: xorshift_next_s(state) })
                &&& r == xorshift_sample_s(xorshift_next_s(state), lo, hi)
            },
            (*old(self)) is Std ==> (*final(self)) is Std,
    {
        match self {
            RandomSource::Xorshift { state } => {
                let s0: u64 = *state;
                let a: u64 = s0 ^ (s0 << 13);
                let b: u64 = a ^ (a >> 7);
                let x: u64 = b ^ (b << 17);
                *state = x;
                let range: u128 = (hi as i128 - lo as i128) as u128;
                let m: u128 = (x as u128) % range;
                let r: i64 = (lo as i128 + m as i128) as i64;
                assert((x as int) % (hi - lo) == (x as u128) as int % (range as int));
                r
            },
            RandomSource::Std { rng } => std_rng_range(rng, lo, hi),
        }
    }
}

} // verus!
