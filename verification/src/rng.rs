//! Randomness, drawn through the `rand` re-export of the `secp256k1` crate.
//!
//! Nothing can be promised about a random value beyond its range, so the
//! wrappers state ranges only, and every caller's contract holds for every
//! outcome.

use vstd::prelude::*;

verus! {

/// Relies on `rand::Rng::gen_range` over `thread_rng`: a uniformly drawn
/// value in the half-open range; panics only on an empty range, which the
/// precondition rules out.
#[verifier::external_body]
pub(crate) fn rng_u32_range(lo: u32, hi: u32) -> (r: u32)
    requires
        lo < hi,
    ensures
        lo <= r < hi,
{
    secp256k1::rand::Rng::gen_range(&mut secp256k1::rand::thread_rng(), lo..hi)
}

/// Relies on `rand::Rng::gen_range` over `thread_rng`: a uniformly drawn
/// value in the half-open range; panics only on an empty range, which the
/// precondition rules out.
#[verifier::external_body]
pub(crate) fn rng_u64_range(lo: u64, hi: u64) -> (r: u64)
    requires
        lo < hi,
    ensures
        lo <= r < hi,
{
    secp256k1::rand::Rng::gen_range(&mut secp256k1::rand::thread_rng(), lo..hi)
}

/// Relies on `rand::Rng::gen` over `thread_rng`: one random byte.
#[verifier::external_body]
pub(crate) fn rng_u8() -> u8 {
    secp256k1::rand::Rng::gen(&mut secp256k1::rand::thread_rng())
}

/// `n` random bytes.
pub fn random_bytes(n: usize) -> (r: Vec<u8>)
    ensures
        r@.len() == n,
{
    let mut out: Vec<u8> = Vec::new();
    let mut i: usize = 0;
    while i < n
        invariant
            i <= n,
            out@.len() == i,
        decreases n - i,
    {
        out.push(rng_u8());
        i = i + 1;
    }
    out
}

} // verus!
