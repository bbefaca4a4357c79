//! Transaction ids and their display form.
//!
//! The txid is the double SHA-256 of the legacy serialization; the wtxid
//! hashes the full serialization including witnesses. Ids are displayed as
//! lowercase hex of the byte-reversed digest.

use crate::hashes::{sha256d, sha256d_of};
use crate::hexstr::{encode_hex, spec_hex_of};
use crate::transaction::{encode_tx, encode_tx_legacy, spec_enc_tx, spec_enc_tx_legacy,
    spec_wf_tx, Transaction, TransactionV};
use vstd::prelude::*;

verus! {

/// The transaction id: double SHA-256 over the legacy serialization.
pub open spec fn spec_txid(t: TransactionV) -> Seq<u8> {
    sha256d_of(spec_enc_tx_legacy(t))
}

/// The witness transaction id: double SHA-256 over the full serialization.
pub open spec fn spec_wtxid(t: TransactionV) -> Seq<u8> {
    sha256d_of(spec_enc_tx(t))
}

/// The display form of an id: hex of the reversed digest bytes.
pub open spec fn spec_txid_hex(t: TransactionV) -> Seq<char> {
    spec_hex_of(spec_txid(t).reverse())
}

pub fn compute_txid(tx: &Transaction) -> (r: Vec<u8>)
    requires
        spec_wf_tx(tx@),
    ensures
        r@ == spec_txid(tx@),
        r@.len() == 32,
{
    let legacy = encode_tx_legacy(tx);
    sha256d(&legacy)
}

pub fn compute_wtxid(tx: &Transaction) -> (r: Vec<u8>)
    requires
        spec_wf_tx(tx@),
    ensures
        r@ == spec_wtxid(tx@),
        r@.len() == 32,
{
    let full = encode_tx(tx);
    sha256d(&full)
}

/// The bytes of `b` in reverse order.
pub fn reverse_bytes(b: &Vec<u8>) -> (r: Vec<u8>)
    ensures
        r@ == b@.reverse(),
{
    let mut out: Vec<u8> = Vec::new();
    let n = b.len();
    let mut i: usize = 0;
    while i < n
        invariant
            0 <= i <= n,
            n == b@.len(),
            out@.len() == i,
            forall|j: int| 0 <= j < i ==> #[trigger] out@[j] == b@[n - 1 - j],
        decreases n - i,
    {
        out.push(b[n - 1 - i]);
        i = i + 1;
    }
    proof {
        assert(out@ =~= b@.reverse());
    }
    out
}

/// The id of a transaction as displayed: lowercase hex, byte-reversed.
pub fn txid_hex(tx: &Transaction) -> (r: String)
    requires
        spec_wf_tx(tx@),
    ensures
        r@ == spec_txid_hex(tx@),
{
    let id = compute_txid(tx);
    let rev = reverse_bytes(&id);
    encode_hex(&rev)
}

} // verus!
