//! Cryptographic digests, taken on trust from the `bitcoin` crate.
//!
//! Only plain SHA-256 and HASH160 are trusted; the double-SHA-256 used for
//! transaction ids, block hashes and merkle nodes is computed here from the
//! single digest.

use bitcoin::hashes::Hash as BitcoinHashTrait;
use crate::encoding::enc_bytes;
use vstd::prelude::*;

verus! {

/// The SHA-256 digest of a byte string: a function of the input alone.
pub uninterp spec fn sha256_of(b: Seq<u8>) -> Seq<u8>;

/// The RIPEMD-160 of the SHA-256 of a byte string ("HASH160"): a function of
/// the input alone.
pub uninterp spec fn hash160_of(b: Seq<u8>) -> Seq<u8>;

/// The double SHA-256 digest used for txids, block hashes, merkle nodes and
/// witness commitments.
pub open spec fn sha256d_of(b: Seq<u8>) -> Seq<u8> {
    sha256_of(sha256_of(b))
}

/// Relies on `bitcoin::hashes::sha256::Hash::hash`: the 32-byte SHA-256
/// digest of the input bytes, and nothing else.
#[verifier::external_body]
pub(crate) fn sha256(b: &Vec<u8>) -> (r: Vec<u8>)
    ensures
        r@ == sha256_of(b@),
        r@.len() == 32,
{
    let h = bitcoin::hashes::sha256::Hash::hash(b.as_slice());
    h.to_byte_array().to_vec()
}

/// Relies on `bitcoin::hashes::hash160::Hash::hash`: the 20-byte
/// RIPEMD-160-of-SHA-256 digest of the input bytes, and nothing else.
#[verifier::external_body]
pub(crate) fn hash160(b: &Vec<u8>) -> (r: Vec<u8>)
    ensures
        r@ == hash160_of(b@),
        r@.len() == 20,
{
    let h = bitcoin::hashes::hash160::Hash::hash(b.as_slice());
    h.to_byte_array().to_vec()
}

/// Double SHA-256, computed from the trusted single digest.
pub fn sha256d(b: &Vec<u8>) -> (r: Vec<u8>)
    ensures
        r@ == sha256d_of(b@),
        r@.len() == 32,
{
    let h1 = sha256(b);
    sha256(&h1)
}

/// The BIP340 tagged hash: `SHA256(SHA256(tag) || SHA256(tag) || msg)`.
pub open spec fn spec_tagged_hash(tag: Seq<u8>, msg: Seq<u8>) -> Seq<u8> {
    sha256_of(sha256_of(tag) + sha256_of(tag) + msg)
}

/// Computes the BIP340 tagged hash of `msg` under `tag`.
pub fn tagged_hash(tag: &Vec<u8>, msg: &Vec<u8>) -> (r: Vec<u8>)
    ensures
        r@ == spec_tagged_hash(tag@, msg@),
        r@.len() == 32,
{
    let th = sha256(tag);
    let mut buf: Vec<u8> = Vec::new();
    enc_bytes(&mut buf, &th);
    enc_bytes(&mut buf, &th);
    enc_bytes(&mut buf, msg);
    proof {
        assert(buf@ =~= sha256_of(tag@) + sha256_of(tag@) + msg@);
    }
    sha256(&buf)
}

} // verus!
