//! The library's only source of randomness: thin trusted wrappers around the
//! `rand` crate. Every other function takes the drawn values as plain data
//! and is verified for all of them.
use vstd::prelude::*;
use rand::Rng;
use rand::seq::SliceRandom;

verus! {

/// Relies on rand's `Rng::gen_range(0..n)`: a value uniform in `[0, n)`;
/// the range must be non-empty or the call panics.
#[verifier::external_body]
pub fn random_below(n: usize) -> (r: usize)
    requires
        n >= 1,
    ensures
        r < n,
{
    rand::thread_rng().gen_range(0..n)
}

/// Relies on rand's `Rng::gen::<u8>()`: an arbitrary byte.
#[verifier::external_body]
pub fn random_u8() -> u8 {
    rand::thread_rng().gen()
}

/// Relies on rand's `Rng::gen::<i16>()`: an arbitrary 16-bit value.
#[verifier::external_body]
pub fn random_i16() -> i16 {
    rand::thread_rng().gen()
}

/// Relies on rand's `Rng::gen_range`: a fixed-point signal drawn from
/// `[-10000, 10000)`, i.e. from [-1, 1) at scale 10000.
#[verifier::external_body]
pub fn random_signal() -> (r: i64)
    ensures
        -10000 <= r < 10000,
{
    rand::thread_rng().gen_range(-10000i64..10000i64)
}

/// Relies on rand's `SliceRandom::shuffle`: an in-place Fisher-Yates
/// permutation, so the elements are rearranged and none is added, dropped or
/// changed.
#[verifier::external_body]
pub fn shuffle(v: &mut Vec<usize>)
    ensures
        final(v)@.len() == old(v)@.len(),
        final(v)@.to_multiset() == old(v)@.to_multiset(),
{
    v.shuffle(&mut rand::thread_rng())
}

} // verus!
