//! Random header and block assembly: merkle roots over transaction ids, the
//! BIP141 witness commitment, BIP34 coinbase heights, and the recursive
//! default for an unset previous-block hash, bounded by an explicit all-zero
//! base case.

use crate::block::{block_hash, spec_wf_block, Block};
use crate::encoding::{copy_bytes, enc_bytes};
use crate::generator::{GenError, GenerateTx, InputParams, TxParams};
use crate::hashes::{sha256d, sha256d_of};
use crate::header::{spec_wf_header, Header};
use crate::merkle::{merkle_root, spec_merkle_root};
use crate::rng::rng_u32_range;
use crate::script::spec_prepend_bip34;
use crate::transaction::{spec_has_witness, spec_wf_tx, Transaction, TransactionV, TxOutput,
    TxOutputV, MAX_LEN};
use crate::txid::{compute_txid, compute_wtxid, spec_txid, spec_wtxid};
use vstd::prelude::*;

verus! {

// ---------------------------------------------------------------------------
// Merkle roots over transactions
// ---------------------------------------------------------------------------

/// Options for computing a merkle root.
pub struct MerkleRootParams {
    /// The transactions to commit to; fresh random ones when unset.
    pub txs: Option<Vec<Transaction>>,
}

impl Default for MerkleRootParams {
    fn default() -> (r: Self)
        ensures
            r.txs is None,
    {
        MerkleRootParams { txs: None }
    }
}

/// The merkle root over the txids of a non-empty transaction list.
pub open spec fn spec_merkle_txids(ts: Seq<TransactionV>) -> Seq<u8> {
    spec_merkle_root(Seq::new(ts.len(), |i: int| spec_txid(ts[i])))
}

/// The witness merkle root: the coinbase's leaf is all zeros, every other
/// leaf is the transaction's wtxid.
pub open spec fn spec_witness_merkle_txids(ts: Seq<TransactionV>) -> Seq<u8> {
    spec_merkle_root(Seq::new(ts.len(), |i: int| if i == 0 {
        Seq::new(32, |j: int| 0u8)
    } else {
        spec_wtxid(ts[i])
    }))
}

/// Whether every transaction in the list is well-formed.
pub fn txs_all_wf(ts: &Vec<Transaction>) -> (r: bool)
    ensures
        r == forall|k: int| 0 <= k < ts@.len() ==> spec_wf_tx(#[trigger] ts.deep_view()[k]),
{
    let mut k: usize = 0;
    while k < ts.len()
        invariant
            k <= ts@.len(),
            forall|j: int| 0 <= j < k ==> spec_wf_tx(#[trigger] ts.deep_view()[j]),
        decreases ts@.len() - k,
    {
        if !tx_is_wf(&ts[k]) {
            proof {
                assert(!spec_wf_tx(ts.deep_view()[k as int]));
            }
            return false;
        }
        proof {
            assert(spec_wf_tx(ts.deep_view()[k as int]));
        }
        k = k + 1;
    }
    true
}

/// Whether one transaction is well-formed.
pub fn tx_is_wf(t: &Transaction) -> (r: bool)
    ensures
        r == spec_wf_tx(t@),
{
    if t.input.len() < 1 || t.input.len() > MAX_LEN || t.output.len() > MAX_LEN {
        return false;
    }
    let mut k: usize = 0;
    while k < t.input.len()
        invariant
            k <= t.input@.len(),
            t@.input.len() == t.input@.len(),
            forall|j: int| 0 <= j < k ==> crate::transaction::spec_wf_input(
                #[trigger] t@.input[j],
            ),
        decreases t.input@.len() - k,
    {
        proof {
            assert(t@.input[k as int] == t.input@[k as int]@);
        }
        if t.input[k].prev_txid.len() != 32 || t.input[k].script_sig.len() > MAX_LEN
            || t.input[k].witness.len() > MAX_LEN {
            return false;
        }
        let mut m: usize = 0;
        while m < t.input[k].witness.len()
            invariant
                k < t.input@.len(),
                t@.input.len() == t.input@.len(),
                t@.input[k as int] == t.input@[k as int]@,
                m <= t.input@[k as int].witness@.len(),
                t@.input[k as int].witness.len() == t.input@[k as int].witness@.len(),
                forall|j: int| 0 <= j < m ==> #[trigger] t@.input[k as int].witness[j].len()
                    <= MAX_LEN,
            decreases t.input@[k as int].witness@.len() - m,
        {
            if t.input[k].witness[m].len() > MAX_LEN {
                proof {
                    assert(t@.input[k as int].witness[m as int].len() > MAX_LEN);
                }
                return false;
            }
            proof {
                assert(t@.input[k as int].witness[m as int] == t.input@[k as int].witness@[
                    m as int
                ]@);
            }
            m = m + 1;
        }
        proof {
            assert(crate::transaction::spec_wf_input(t@.input[k as int]));
        }
        k = k + 1;
    }
    let mut k2: usize = 0;
    while k2 < t.output.len()
        invariant
            k2 <= t.output@.len(),
            t@.output.len() == t.output@.len(),
            forall|j: int| 0 <= j < k2 ==> crate::transaction::spec_wf_output(
                #[trigger] t@.output[j],
            ),
        decreases t.output@.len() - k2,
    {
        proof {
            assert(t@.output[k2 as int] == t.output@[k2 as int]@);
        }
        if t.output[k2].script_pubkey.len() > MAX_LEN {
            return false;
        }
        k2 = k2 + 1;
    }
    true
}

/// The merkle-root computer over transaction ids.
pub struct TxMerkleNode {}

impl TxMerkleNode {
    /// The merkle root of the txids of a non-empty transaction list.
    pub fn from_transactions(txs: &Vec<Transaction>) -> (r: Vec<u8>)
        requires
            txs@.len() >= 1,
            forall|k: int| 0 <= k < txs@.len() ==> spec_wf_tx(#[trigger] txs.deep_view()[k]),
        ensures
            r@ == spec_merkle_txids(txs.deep_view()),
    {
        let mut hashes: Vec<Vec<u8>> = Vec::new();
        let mut k: usize = 0;
        while k < txs.len()
            invariant
                k <= txs@.len(),
                hashes@.len() == k,
                forall|j: int| 0 <= j < txs@.len() ==> spec_wf_tx(#[trigger] txs.deep_view()[j]),
                forall|j: int| 0 <= j < k ==> #[trigger] hashes.deep_view()[j] == spec_txid(
                    txs.deep_view()[j],
                ),
            decreases txs@.len() - k,
        {
            let ghost pre = hashes.deep_view();
            proof {
                assert(txs.deep_view()[k as int] == txs@[k as int]@);
            }
            let id = compute_txid(&txs[k]);
            let ghost idv = id@;
            hashes.push(id);
            proof {
                assert(hashes.deep_view() =~~= pre.push(idv));
            }
            k = k + 1;
        }
        proof {
            assert(hashes.deep_view() =~= Seq::new(txs.deep_view().len(), |i: int| spec_txid(
                txs.deep_view()[i],
            )));
        }
        merkle_root(&hashes)
    }

    /// The merkle root over the supplied transactions, or over a fresh
    /// random batch when none are supplied.
    pub fn random(params: MerkleRootParams) -> (r: Result<Vec<u8>, GenError>)
        ensures
            match r {
                Ok(root) => {
                    &&& (params.txs matches Some(ts) ==> (ts.deep_view().len() >= 1 && root@
                        == spec_merkle_txids(ts.deep_view())))
                    &&& (params.txs is None ==> exists|ts: Seq<TransactionV>|
                        1 <= ts.len() < 10 && (forall|k: int|
                            0 <= k < ts.len() ==> spec_wf_tx(#[trigger] ts[k])) && root@ == (
                        #[trigger] spec_merkle_txids(ts)))
                },
                Err(e) => params.txs is None ==> e == GenError::KeyGeneration,
            },
            (params.txs matches Some(ts) && ts.deep_view().len() >= 1 && (forall|k: int|
                0 <= k < ts.deep_view().len() ==> spec_wf_tx(#[trigger] ts.deep_view()[k])))
                ==> r is Ok,
    {
        match params.txs {
            Some(ts) => {
                if ts.len() == 0 {
                    return Err(GenError::Signing);
                }
                if !txs_all_wf(&ts) {
                    return Err(GenError::Signing);
                }
                Ok(Self::from_transactions(&ts))
            },
            None => {
                let ts = random_tx_batch(None)?;
                let root = Self::from_transactions(&ts);
                proof {
                    assert(root@ == spec_merkle_txids(ts.deep_view()));
                }
                Ok(root)
            },
        }
    }
}

/// Whether a transaction's first input unlocks with the BIP34 height push
/// in front of its script.
pub open spec fn spec_has_bip34_prefix(t: TransactionV, h: u32) -> bool {
    exists|rest: Seq<u8>| t.input[0].script_sig == spec_prepend_bip34(rest, h)
}

/// A fresh batch of one to nine random transactions, each carrying the
/// given block height in its BIP34 scriptSig prefix when one is supplied.
fn random_tx_batch(height: Option<u32>) -> (r: Result<Vec<Transaction>, GenError>)
    ensures
        match r {
            Ok(ts) => {
                &&& 1 <= ts@.len() < 10
                &&& forall|k: int|
                    0 <= k < ts@.len() ==> spec_wf_tx(#[trigger] ts.deep_view()[k]) && (
                    #[trigger] ts.deep_view()[k]).output.len() == 1
                &&& (height matches Some(hh) ==> forall|k: int|
                    0 <= k < ts@.len() ==> spec_has_bip34_prefix(
                        #[trigger] ts.deep_view()[k],
                        hh,
                    ))
            },
            Err(e) => e == GenError::KeyGeneration,
        },
{
    let n = rng_u32_range(1, 10);
    let mut ts: Vec<Transaction> = Vec::new();
    let mut k: u32 = 0;
    while k < n
        invariant
            k <= n,
            1 <= n < 10,
            ts@.len() == k,
            forall|j: int| 0 <= j < k ==> spec_wf_tx(#[trigger] ts.deep_view()[j]) && (
            #[trigger] ts.deep_view()[j]).output.len() == 1,
            height matches Some(hh) ==> forall|j: int|
                0 <= j < k ==> spec_has_bip34_prefix(#[trigger] ts.deep_view()[j], hh),
        decreases n - k,
    {
        let mut p = TxParams::default();
        p.block_height = height;
        let tx = match GenerateTx::valid_random(p) {
            Ok(t) => t,
            Err(e) => { return Err(e); },
        };
        let ghost pre = ts.deep_view();
        let ghost txv = tx@;
        ts.push(tx);
        proof {
            assert(ts.deep_view() =~~= pre.push(txv));
            match height {
                Some(hh) => {
                    assert(ts.deep_view()[k as int] == txv);
                    assert(spec_has_bip34_prefix(txv, hh));
                },
                None => {},
            }
        }
        k = k + 1;
    }
    Ok(ts)
}

// ---------------------------------------------------------------------------
// Headers
// ---------------------------------------------------------------------------

/// Options for building one header.
pub struct HeaderParams {
    /// Version as the consensus value; random non-negative when unset.
    pub version: Option<u32>,
    /// Previous block hash (32 bytes, wire order); when unset, derived by
    /// synthesizing a parent header whose own previous hash is all zeros.
    pub prev_blockhash: Option<Vec<u8>>,
    /// Merkle root (32 bytes, wire order); when unset, computed from `txs`.
    pub merkle_root: Option<Vec<u8>>,
    /// Timestamp; random positive when unset.
    pub time: Option<u32>,
    /// Compact difficulty target; random positive when unset.
    pub bits: Option<u32>,
    /// Nonce; random positive when unset.
    pub nonce: Option<u32>,
    /// Transactions the merkle root commits to when it is not supplied.
    pub txs: Option<Vec<Transaction>>,
}

impl Default for HeaderParams {
    fn default() -> (r: Self)
        ensures
            r.version is None,
            r.prev_blockhash is None,
            r.merkle_root is None,
            r.time is None,
            r.bits is None,
            r.nonce is None,
            r.txs is None,
    {
        HeaderParams {
            version: None,
            prev_blockhash: None,
            merkle_root: None,
            time: None,
            bits: None,
            nonce: None,
            txs: None,
        }
    }
}

/// A random non-negative header version.
pub fn random_header_version() -> (r: u32)
    ensures
        r < 0x8000_0000,
{
    rng_u32_range(0, 0x8000_0000)
}

/// A random positive compact difficulty target.
pub fn random_bits() -> (r: u32)
    ensures
        r >= 1,
{
    rng_u32_range(1, 0xffff_ffff)
}

/// A 32-byte vector of zeros: the null hash.
pub fn zero_hash32() -> (r: Vec<u8>)
    ensures
        r@ == Seq::new(32, |j: int| 0u8),
{
    let mut v: Vec<u8> = Vec::new();
    let mut k: usize = 0;
    while k < 32
        invariant
            k <= 32,
            v@.len() == k,
            forall|j: int| 0 <= j < k ==> #[trigger] v@[j] == 0u8,
        decreases 32 - k,
    {
        v.push(0u8);
        k = k + 1;
    }
    proof {
        assert(v@ =~= Seq::new(32, |j: int| 0u8));
    }
    v
}

/// The hash of a freshly synthesized parent header whose own previous hash
/// is all zeros: the explicit base case of the recursive default.
fn random_parent_hash() -> (r: Result<Vec<u8>, GenError>)
    ensures
        r matches Ok(v) ==> v@.len() == 32,
        r matches Err(e) ==> e == GenError::KeyGeneration,
{
    let root = match TxMerkleNode::random(MerkleRootParams { txs: None }) {
        Ok(v) => v,
        Err(e) => { return Err(e); },
    };
    if root.len() != 32 {
        return Err(GenError::KeyGeneration);
    }
    let parent = Header {
        version: random_header_version(),
        prev_blockhash: zero_hash32(),
        merkle_root: root,
        time: rng_u32_range(1, 0xffff_ffff),
        bits: random_bits(),
        nonce: rng_u32_range(1, 0xffff_ffff),
    };
    Ok(block_hash(&parent))
}

impl Header {
    /// Builds a header: unset fields are randomized; an unset merkle root is
    /// computed from the supplied transactions; an unset previous hash comes
    /// from a synthesized parent whose previous hash is all zeros.
    pub fn random(params: HeaderParams) -> (r: Result<Header, GenError>)
        ensures
            match r {
                Ok(h) => {
                    &&& spec_wf_header(h@)
                    &&& (params.version matches Some(v) ==> h@.version == v)
                    &&& (params.version is None ==> h@.version < 0x8000_0000)
                    &&& (params.prev_blockhash matches Some(p) ==> h@.prev_blockhash == p@)
                    &&& (params.merkle_root matches Some(m) ==> h@.merkle_root == m@)
                    &&& (params.time matches Some(t) ==> h@.time == t)
                    &&& (params.time is None ==> h@.time >= 1)
                    &&& (params.bits matches Some(b) ==> h@.bits == b)
                    &&& (params.bits is None ==> h@.bits >= 1)
                    &&& (params.nonce matches Some(n) ==> h@.nonce == n)
                    &&& (params.nonce is None ==> h@.nonce >= 1)
                    &&& (params.merkle_root is None ==> (params.txs matches Some(ts) ==> (
                    ts.deep_view().len() >= 1 ==> h@.merkle_root == spec_merkle_txids(
                        ts.deep_view(),
                    ))))
                },
                Err(e) => true,
            },
            (params.prev_blockhash matches Some(p) && p@.len() == 32 && (params.merkle_root
                matches Some(m) && m@.len() == 32)) ==> r is Ok,
    {
        let prev: Vec<u8> = match params.prev_blockhash {
            Some(p) => {
                if p.len() != 32 {
                    return Err(GenError::Signing);
                }
                p
            },
            None => {
                match random_parent_hash() {
                    Ok(v) => v,
                    Err(e) => { return Err(e); },
                }
            },
        };
        let root: Vec<u8> = match params.merkle_root {
            Some(m) => {
                if m.len() != 32 {
                    return Err(GenError::Signing);
                }
                m
            },
            None => {
                match params.txs {
                    Some(ts) => {
                        if ts.len() == 0 {
                            zero_hash32()
                        } else {
                            if !txs_all_wf(&ts) {
                                return Err(GenError::Signing);
                            }
                            let m = TxMerkleNode::from_transactions(&ts);
                            if m.len() != 32 {
                                return Err(GenError::KeyGeneration);
                            }
                            m
                        }
                    },
                    None => {
                        match TxMerkleNode::random(MerkleRootParams { txs: None }) {
                            Ok(m) => {
                                if m.len() != 32 {
                                    return Err(GenError::KeyGeneration);
                                }
                                m
                            },
                            Err(e) => { return Err(e); },
                        }
                    },
                }
            },
        };
        let h = Header {
            version: match params.version {
                Some(v) => v,
                None => random_header_version(),
            },
            prev_blockhash: prev,
            merkle_root: root,
            time: match params.time {
                Some(t) => t,
                None => rng_u32_range(1, 0xffff_ffff),
            },
            bits: match params.bits {
                Some(b) => b,
                None => random_bits(),
            },
            nonce: match params.nonce {
                Some(n) => n,
                None => rng_u32_range(1, 0xffff_ffff),
            },
        };
        Ok(h)
    }
}

// ---------------------------------------------------------------------------
// Blocks
// ---------------------------------------------------------------------------

/// Options for assembling one block.
pub struct BlockParams {
    /// A ready-made header, used verbatim.
    pub header: Option<Header>,
    /// The transaction list, the coinbase first; a fresh random batch when
    /// unset.
    pub txs: Option<Vec<Transaction>>,
    /// Block height; random in `[1, 10000000)` when unset.
    pub height: Option<u32>,
}

impl Default for BlockParams {
    fn default() -> (r: Self)
        ensures
            r.header is None,
            r.txs is None,
            r.height is None,
    {
        BlockParams { header: None, txs: None, height: None }
    }
}

/// Whether some non-coinbase transaction carries witness data.
pub open spec fn spec_block_segwit(ts: Seq<TransactionV>) -> bool {
    exists|k: int| 1 <= k < ts.len() && spec_has_witness(#[trigger] ts[k])
}

/// The 38-byte BIP141 witness-commitment output shape.
pub open spec fn spec_is_commitment_output(o: TxOutputV) -> bool {
    &&& o.script_pubkey.len() == 38
    &&& o.script_pubkey[0] == 0x6au8
    &&& o.script_pubkey[1] == 0x24u8
    &&& o.script_pubkey[2] == 0xaau8
    &&& o.script_pubkey[3] == 0x21u8
    &&& o.script_pubkey[4] == 0xa9u8
    &&& o.script_pubkey[5] == 0xedu8
}

/// Whether a transaction carries a commitment-shaped output.
pub open spec fn spec_has_commitment_output(t: TransactionV) -> bool {
    exists|j: int| 0 <= j < t.output.len() && spec_is_commitment_output(#[trigger] t.output[j])
}

/// The coinbase state the BIP141 rules ask for, together with the exact
/// commitment output this assembler appends: a 32-byte reserved value as the
/// first witness element, and a final output committing to the witness root
/// and that value.
pub open spec fn spec_commitment_ok(ts: Seq<TransactionV>) -> bool {
    &&& ts.len() >= 1
    &&& ts[0].input.len() >= 1
    &&& ts[0].input[0].witness.len() >= 1
    &&& ts[0].input[0].witness[0].len() == 32
    &&& ts[0].output.len() >= 1
    &&& ts[0].output[ts[0].output.len() - 1].script_pubkey.len() == 38
    &&& ts[0].output[ts[0].output.len() - 1] == TxOutputV {
        value: 0,
        script_pubkey: seq![0x6au8, 0x24u8, 0xaau8, 0x21u8, 0xa9u8, 0xedu8] + sha256d_of(
            spec_witness_merkle_txids(ts) + ts[0].input[0].witness[0],
        ),
    }
}

/// Whether a non-empty list of transactions carries witness data among the
/// non-coinbase entries.
fn block_txs_segwit(ts: &Vec<Transaction>) -> (r: bool)
    ensures
        r == spec_block_segwit(ts.deep_view()),
{
    let mut k: usize = 1;
    let mut found: bool = false;
    if ts.len() == 0 {
        proof {
            assert(!spec_block_segwit(ts.deep_view()));
        }
        return false;
    }
    while k < ts.len()
        invariant
            ts@.len() >= 1,
            1 <= k <= ts@.len(),
            found ==> spec_block_segwit(ts.deep_view()),
            !found ==> forall|j: int| 1 <= j < k ==> !spec_has_witness(
                #[trigger] ts.deep_view()[j],
            ),
        decreases ts@.len() - k,
    {
        proof {
            assert(ts.deep_view()[k as int] == ts@[k as int]@);
        }
        if crate::transaction::tx_has_witness(&ts[k]) {
            proof {
                assert(1 <= k < ts.deep_view().len() && spec_has_witness(
                    ts.deep_view()[k as int],
                ));
            }
            found = true;
        }
        k = k + 1;
    }
    proof {
        if !found {
            assert forall|j: int| 1 <= j < ts.deep_view().len() implies !spec_has_witness(
                #[trigger] ts.deep_view()[j],
            ) by {}
            assert(!spec_block_segwit(ts.deep_view()));
        }
    }
    found
}

/// The witness merkle root of a non-empty transaction list: the coinbase
/// leaf is all zeros, the rest are wtxids.
fn witness_root(txdata: &Vec<Transaction>) -> (r: Vec<u8>)
    requires
        txdata@.len() >= 1,
        forall|k: int| 0 <= k < txdata@.len() ==> spec_wf_tx(#[trigger] txdata.deep_view()[k]),
    ensures
        r@ == spec_witness_merkle_txids(txdata.deep_view()),
{
    let mut leaves: Vec<Vec<u8>> = Vec::new();
    leaves.push(zero_hash32());
    let mut k: usize = 1;
    while k < txdata.len()
        invariant
            txdata@.len() >= 1,
            1 <= k <= txdata@.len(),
            leaves@.len() == k,
            forall|j: int| 0 <= j < txdata@.len() ==> spec_wf_tx(
                #[trigger] txdata.deep_view()[j],
            ),
            leaves.deep_view()[0] == Seq::new(32, |j: int| 0u8),
            forall|j: int| 1 <= j < k ==> #[trigger] leaves.deep_view()[j] == spec_wtxid(
                txdata.deep_view()[j],
            ),
        decreases txdata@.len() - k,
    {
        let ghost pre = leaves.deep_view();
        proof {
            assert(txdata.deep_view()[k as int] == txdata@[k as int]@);
        }
        let id = compute_wtxid(&txdata[k]);
        let ghost idv = id@;
        leaves.push(id);
        proof {
            assert(leaves.deep_view() =~~= pre.push(idv));
        }
        k = k + 1;
    }
    proof {
        assert(k == txdata@.len());
        assert(leaves.deep_view() =~~= Seq::new(txdata.deep_view().len(), |i: int| if i == 0 {
            Seq::new(32, |j: int| 0u8)
        } else {
            spec_wtxid(txdata.deep_view()[i])
        }));
    }
    merkle_root(&leaves)
}

/// Establishes the 32-byte witness reserved value on the coinbase's first
/// input: absent or wrong-sized stacks are replaced with a single all-zero
/// element, a correctly sized one is kept.
fn fix_coinbase(cb: Transaction) -> (c: Transaction)
    requires
        spec_wf_tx(cb@),
    ensures
        spec_wf_tx(c@),
        c@.version == cb@.version,
        c@.lock_time == cb@.lock_time,
        c@.output == cb@.output,
        c@.input.len() == cb@.input.len(),
        forall|k: int| 1 <= k < c@.input.len() ==> #[trigger] c@.input[k] == cb@.input[k],
        c@.input[0].witness.len() >= 1,
        c@.input[0].witness[0].len() == 32,
        c@.input[0].prev_txid == cb@.input[0].prev_txid,
        c@.input[0].prev_vout == cb@.input[0].prev_vout,
        c@.input[0].script_sig == cb@.input[0].script_sig,
        c@.input[0].sequence == cb@.input[0].sequence,
        (cb@.input[0].witness.len() >= 1 && cb@.input[0].witness[0].len() == 32) ==> c@ == cb@,
{
    let ghost cbv = cb@;
    let mut c = cb;
    let ghost ins_pre = c.input.deep_view();
    let mut in0 = c.input.remove(0);
    let ghost in0v = in0@;
    let untouched: bool = in0.witness.len() >= 1 && in0.witness[0].len() == 32;
    if !untouched {
        if in0.witness.len() == 0 {
            let ghost wpre = in0.witness.deep_view();
            in0.witness.push(zero_hash32());
            proof {
                assert(in0.witness.deep_view() =~~= wpre.push(Seq::new(32, |j: int| 0u8)));
            }
        } else {
            let mut w: Vec<Vec<u8>> = Vec::new();
            w.push(zero_hash32());
            in0.witness = w;
            proof {
                assert(in0.witness.deep_view() =~~= seq![Seq::new(32, |j: int| 0u8)]);
            }
        }
    }
    let ghost in0v2 = in0@;
    let ghost ins_mid = c.input.deep_view();
    c.input.insert(0, in0);
    proof {
        assert(c.input.deep_view() =~~= seq![in0v2] + ins_mid);
        assert(ins_mid =~= ins_pre.skip(1));
        assert(c@.input =~= seq![in0v2] + cbv.input.skip(1));
        assert(crate::transaction::spec_wf_input(in0v2));
        assert forall|k: int| 0 <= k < c@.input.len() implies crate::transaction::spec_wf_input(
            #[trigger] c@.input[k],
        ) by {
            if k >= 1 {
                assert(c@.input[k] == cbv.input[k]);
            }
        }
        assert(spec_wf_tx(c@));
        if cbv.input[0].witness.len() >= 1 && cbv.input[0].witness[0].len() == 32 {
            assert(in0v2 == cbv.input[0]);
            assert(c@.input =~= cbv.input);
            assert(c@ == cbv);
        }
    }
    c
}

/// Whether a supplied transaction list is one the assembler accepts
/// outright: bounded, well-formed throughout, and with room in the
/// coinbase's outputs for the commitment when witness data is present.
pub open spec fn spec_block_txs_ok(ts: Seq<TransactionV>) -> bool {
    &&& ts.len() <= MAX_LEN
    &&& forall|k: int| 0 <= k < ts.len() ==> spec_wf_tx(#[trigger] ts[k])
    &&& (spec_block_segwit(ts) ==> ts[0].output.len() < MAX_LEN)
}

/// Whether a supplied header carries hashes of the right size.
pub open spec fn spec_block_header_ok(p: BlockParams) -> bool {
    p.header matches Some(hd) ==> (hd@.prev_blockhash.len() == 32 && hd@.merkle_root.len() == 32)
}

impl Block {
    /// Assembles a block: resolves height and transaction list, establishes
    /// the BIP141 witness commitment when any non-coinbase transaction
    /// carries witness data, and fills the header (computing its merkle root
    /// from the final transaction list) unless one was supplied.
    pub fn random(params: BlockParams) -> (r: Result<(Block, u32), GenError>)
        ensures
            match r {
                Ok((b, h)) => {
                    &&& spec_wf_block(b@)
                    &&& (params.height matches Some(x) ==> h == x)
                    &&& (params.height is None ==> 1 <= h < 10_000_000)
                    &&& (params.header matches Some(hd) ==> b@.header == hd@)
                    &&& (params.header is None && b@.txdata.len() >= 1 ==> b@.header.merkle_root
                        == spec_merkle_txids(b@.txdata))
                    &&& (params.txs matches Some(ts) ==> b@.txdata.len() == ts.deep_view().len()
                        && b@.txdata.skip(1) == ts.deep_view().skip(1))
                    &&& (params.txs matches Some(ts) ==> ((ts.deep_view().len() >= 1
                        && ts.deep_view()[0].input.len() >= 1) ==> {
                        &&& b@.txdata[0].input.len() == ts.deep_view()[0].input.len()
                        &&& b@.txdata[0].input[0].prev_txid
                            == ts.deep_view()[0].input[0].prev_txid
                        &&& b@.txdata[0].input[0].prev_vout
                            == ts.deep_view()[0].input[0].prev_vout
                        &&& b@.txdata[0].input[0].script_sig
                            == ts.deep_view()[0].input[0].script_sig
                        &&& b@.txdata[0].input[0].sequence
                            == ts.deep_view()[0].input[0].sequence
                        &&& b@.txdata[0].version == ts.deep_view()[0].version
                        &&& b@.txdata[0].output.len() == ts.deep_view()[0].output.len() + (
                        if spec_block_segwit(b@.txdata) {
                            1int
                        } else {
                            0int
                        })
                        &&& forall|j: int| 0 <= j < ts.deep_view()[0].output.len()
                            ==> #[trigger] b@.txdata[0].output[j]
                                == ts.deep_view()[0].output[j]
                    }))
                    &&& (params.txs is None ==> 1 <= b@.txdata.len() < 10)
                    &&& (params.txs is None ==> forall|k: int|
                        0 <= k < b@.txdata.len() ==> spec_has_bip34_prefix(
                            #[trigger] b@.txdata[k],
                            h,
                        ))
                    &&& (b@.txdata.len() >= 1 && spec_block_segwit(b@.txdata)
                        ==> spec_commitment_ok(b@.txdata))
                    &&& (b@.txdata.len() >= 1 && !spec_block_segwit(b@.txdata) ==> (params.txs
                        matches Some(ts) ==> b@.txdata == ts.deep_view()))
                    &&& (!spec_block_segwit(b@.txdata) && params.txs is None && b@.txdata.len()
                        >= 1 ==> b@.txdata[0].output.len() == 1)
                },
                Err(e) => {
                    &&& (e == GenError::Signing ==> !((params.txs matches Some(ts)
                        ==> spec_block_txs_ok(ts.deep_view())) && spec_block_header_ok(params)))
                    &&& (e == GenError::KeyGeneration ==> (params.txs is None || params.header
                        is None))
                },
            },
            ((params.header matches Some(hd) && hd@.prev_blockhash.len() == 32
                && hd@.merkle_root.len() == 32) && (params.txs matches Some(ts)
                && spec_block_txs_ok(ts.deep_view()))) ==> r is Ok,
    {
        let height: u32 = match params.height {
            Some(x) => x,
            None => rng_u32_range(1, 10_000_000),
        };
        let txs: Vec<Transaction> = match params.txs {
            Some(ts) => {
                if ts.len() > MAX_LEN {
                    proof {
                        assert(!spec_block_txs_ok(ts.deep_view()));
                    }
                    return Err(GenError::Signing);
                }
                if !txs_all_wf(&ts) {
                    proof {
                        assert(!spec_block_txs_ok(ts.deep_view()));
                    }
                    return Err(GenError::Signing);
                }
                ts
            },
            None => {
                match random_tx_batch(Some(height)) {
                    Ok(ts) => ts,
                    Err(e) => { return Err(e); },
                }
            },
        };
        let ghost txs0 = txs.deep_view();
        if txs.len() == 0 {
            let header: Header = match params.header {
                Some(hd) => {
                    if hd.prev_blockhash.len() != 32 || hd.merkle_root.len() != 32 {
                        return Err(GenError::Signing);
                    }
                    hd
                },
                None => {
                    let prev = match random_parent_hash() {
                        Ok(v) => v,
                        Err(e) => { return Err(e); },
                    };
                    Header {
                        version: random_header_version(),
                        prev_blockhash: prev,
                        merkle_root: zero_hash32(),
                        time: rng_u32_range(1, 0xffff_ffff),
                        bits: random_bits(),
                        nonce: rng_u32_range(1, 0xffff_ffff),
                    }
                },
            };
            let b = Block { header: header, txdata: txs };
            proof {
                assert(b@.txdata =~~= txs0);
                assert(spec_wf_block(b@));
            }
            return Ok((b, height));
        }
        let segwit = block_txs_segwit(&txs);
        let txdata: Vec<Transaction> = if segwit {
            let mut txs_m = txs;
            let ghost pre_all = txs_m.deep_view();
            let cb0 = txs_m.remove(0);
            let ghost cb0v = cb0@;
            let ghost tail = txs_m.deep_view();
            proof {
                assert(tail =~= pre_all.skip(1));
                assert(pre_all =~~= txs0);
                assert(cb0v == txs0[0]);
                assert(spec_wf_tx(txs0[0]));
            }
            let cb = fix_coinbase(cb0);
            let ghost cbfixv = cb@;
            if cb.output.len() >= MAX_LEN {
                proof {
                    assert(cbfixv.output == txs0[0].output);
                    assert(spec_block_segwit(txs0));
                    if params.txs is None {
                        // The generated batch keeps every coinbase to a
                        // single output, so this bound cannot trip.
                        assert(txs0[0].output.len() == 1);
                        assert(false);
                    }
                }
                return Err(GenError::Signing);
            }
            // The witness root: zero leaf for the coinbase, wtxids for the
            // rest. The coinbase's own contents do not enter it.
            let mut with_cb: Vec<Transaction> = txs_m;
            with_cb.insert(0, cb);
            let ghost mid_all = with_cb.deep_view();
            proof {
                assert(mid_all =~~= seq![cbfixv] + tail);
                assert forall|k: int| 0 <= k < mid_all.len() implies spec_wf_tx(
                    #[trigger] mid_all[k],
                ) by {
                    if k >= 1 {
                        assert(mid_all[k] == pre_all[k]);
                    }
                }
            }
            let wroot = witness_root(&with_cb);
            let mut wc = with_cb;
            let cb1 = wc.remove(0);
            let ghost cb1v = cb1@;
            proof {
                assert(cb1v == cbfixv);
                assert(wc.deep_view() =~~= tail);
            }
            let reserved = copy_bytes(&cb1.input[0].witness[0]);
            let mut pre: Vec<u8> = copy_bytes(&wroot);
            enc_bytes(&mut pre, &reserved);
            let commitment = sha256d(&pre);
            let mut script: Vec<u8> = Vec::new();
            script.push(0x6au8);
            script.push(0x24u8);
            script.push(0xaau8);
            script.push(0x21u8);
            script.push(0xa9u8);
            script.push(0xedu8);
            enc_bytes(&mut script, &commitment);
            let ghost scriptv = script@;
            let mut cb2 = cb1;
            let ghost outs_pre = cb2.output.deep_view();
            let newout = TxOutput { value: 0, script_pubkey: script };
            let ghost newoutv = newout@;
            cb2.output.push(newout);
            proof {
                assert(cb2.output.deep_view() =~~= outs_pre.push(newoutv));
            }
            let ghost cb2v = cb2@;
            let mut final_txs = wc;
            final_txs.insert(0, cb2);
            let ghost finv = final_txs.deep_view();
            proof {
                assert(finv =~~= seq![cb2v] + tail);
                assert(reserved@ == cb1v.input[0].witness[0]);
                assert(pre@ =~= spec_witness_merkle_txids(mid_all) + cb1v.input[0].witness[0]);
                assert(scriptv =~= seq![0x6au8, 0x24u8, 0xaau8, 0x21u8, 0xa9u8, 0xedu8]
                    + sha256d_of(pre@));
                assert(cb2v.input == cb1v.input);
                // The witness root over the final list equals the computed
                // one: leaf 0 is zeros either way, the rest are unchanged.
                assert(Seq::new(finv.len(), |i: int| if i == 0 {
                    Seq::new(32, |j: int| 0u8)
                } else {
                    spec_wtxid(finv[i])
                }) =~~= Seq::new(mid_all.len(), |i: int| if i == 0 {
                    Seq::new(32, |j: int| 0u8)
                } else {
                    spec_wtxid(mid_all[i])
                }));
                assert(spec_witness_merkle_txids(finv) == spec_witness_merkle_txids(mid_all));
                assert(cb2v.output[cb2v.output.len() - 1] == TxOutputV {
                    value: 0,
                    script_pubkey: seq![0x6au8, 0x24u8, 0xaau8, 0x21u8, 0xa9u8, 0xedu8]
                        + sha256d_of(spec_witness_merkle_txids(finv) + cb2v.input[0].witness[0]),
                });
                assert(spec_commitment_ok(finv));
                assert(spec_block_segwit(finv)) by {
                    let j = choose|j: int|
                        1 <= j < txs0.len() && spec_has_witness(#[trigger] txs0[j]);
                    assert(finv[j] == pre_all[j]);
                    assert(spec_has_witness(finv[j]));
                }
                assert forall|k: int| 0 <= k < finv.len() implies spec_wf_tx(
                    #[trigger] finv[k],
                ) by {
                    if k >= 1 {
                        assert(finv[k] == pre_all[k]);
                    } else {
                        assert(finv[0] == cb2v);
                        assert(crate::transaction::spec_wf_output(newoutv));
                        assert forall|j: int| 0 <= j < cb2v.output.len() implies
                            crate::transaction::spec_wf_output(#[trigger] cb2v.output[j]) by {
                            if j < cb2v.output.len() - 1 {
                                assert(cb2v.output[j] == cb1v.output[j]);
                            }
                        }
                        assert(spec_wf_tx(cb2v));
                    }
                }
                // The commitment adds exactly one output to the coinbase,
                // and the BIP34 prefix on every generated transaction's
                // unlocking script survives the coinbase fixes.
                assert(finv[0].output.len() == txs0[0].output.len() + 1);
                if params.txs is None {
                    assert forall|k: int| 0 <= k < finv.len() implies spec_has_bip34_prefix(
                        #[trigger] finv[k],
                        height,
                    ) by {
                        assert(spec_has_bip34_prefix(txs0[k], height));
                        if k == 0 {
                            let rest = choose|rest: Seq<u8>|
                                txs0[0].input[0].script_sig == spec_prepend_bip34(rest, height);
                            assert(finv[0].input[0].script_sig == txs0[0].input[0].script_sig);
                            assert(finv[0].input[0].script_sig == spec_prepend_bip34(
                                rest,
                                height,
                            ));
                        } else {
                            assert(finv[k] == pre_all[k]);
                        }
                    }
                }
            }
            final_txs
        } else {
            txs
        };
        let ghost txdv = txdata.deep_view();
        let header: Header = match params.header {
            Some(hd) => {
                if hd.prev_blockhash.len() != 32 || hd.merkle_root.len() != 32 {
                    return Err(GenError::Signing);
                }
                hd
            },
            None => {
                let prev = match random_parent_hash() {
                    Ok(v) => v,
                    Err(e) => { return Err(e); },
                };
                let root = TxMerkleNode::from_transactions(&txdata);
                if root.len() != 32 {
                    return Err(GenError::KeyGeneration);
                }
                Header {
                    version: random_header_version(),
                    prev_blockhash: prev,
                    merkle_root: root,
                    time: rng_u32_range(1, 0xffff_ffff),
                    bits: random_bits(),
                    nonce: rng_u32_range(1, 0xffff_ffff),
                }
            },
        };
        let b = Block { header: header, txdata: txdata };
        proof {
            assert(b@.txdata == txdv);
            assert(crate::block::spec_wf_block(b@));
            if !segwit {
                assert(txdv =~~= txs0);
            }
            if !spec_block_segwit(b@.txdata) {
                assert(!segwit);
                assert(b@.txdata =~~= txs0);
            }
            if params.txs is None {
                assert forall|k: int| 0 <= k < b@.txdata.len() implies spec_has_bip34_prefix(
                    #[trigger] b@.txdata[k],
                    height,
                ) by {
                    if segwit {
                    } else {
                        assert(b@.txdata[k] == txs0[k]);
                        assert(spec_has_bip34_prefix(txs0[k], height));
                    }
                }
            }
        }
        Ok((b, height))
    }
}

/// Whether the supplied pieces pass the block generator's own checks: the
/// transaction list leaves room for the coinbase and is well-formed
/// throughout, and a supplied header carries 32-byte hashes.
pub open spec fn spec_generate_block_supplies_ok(p: BlockParams) -> bool {
    &&& (p.txs matches Some(ts) ==> (ts.deep_view().len() < MAX_LEN && forall|k: int|
        0 <= k < ts.deep_view().len() ==> spec_wf_tx(#[trigger] ts.deep_view()[k])))
    &&& spec_block_header_ok(p)
}

/// The block generator: a coinbase with the BIP34 height, the supplied (or
/// no) additional transactions, the BIP141 commitment when needed, and a
/// header whose merkle root matches the final transaction list.
pub struct GenerateBlock {}

impl GenerateBlock {
    /// Generates a valid random block and reports the height it was built
    /// for. The coinbase spends the null outpoint and carries the BIP34
    /// height push; a witness commitment output is present in the coinbase
    /// exactly when some non-coinbase transaction carries witness data.
    pub fn valid_random(params: BlockParams) -> (r: Result<(Block, u32), GenError>)
        ensures
            match r {
                Ok((b, h)) => {
                    &&& spec_wf_block(b@)
                    &&& b@.txdata.len() >= 1
                    &&& (params.height matches Some(x) ==> h == x)
                    &&& (params.height is None ==> 1 <= h < 10_000_000)
                    &&& (params.header matches Some(hd) ==> b@.header == hd@)
                    &&& (params.header is None ==> b@.header.merkle_root == spec_merkle_txids(
                        b@.txdata,
                    ))
                    &&& (params.txs matches Some(ts) ==> b@.txdata.len() == 1
                        + ts.deep_view().len() && b@.txdata.skip(1) == ts.deep_view())
                    &&& (params.txs is None ==> b@.txdata.len() == 1)
                    &&& (spec_block_segwit(b@.txdata) <==> spec_has_commitment_output(
                        b@.txdata[0],
                    ))
                    &&& b@.txdata[0].input.len() == 1
                    &&& b@.txdata[0].input[0].prev_txid == Seq::new(32, |j: int| 0u8)
                    &&& b@.txdata[0].input[0].prev_vout == 0xffffffffu32
                    &&& (exists|rest: Seq<u8>| b@.txdata[0].input[0].script_sig
                        == crate::script::spec_prepend_bip34(rest, h))
                    &&& (spec_block_segwit(b@.txdata) ==> spec_commitment_ok(b@.txdata))
                },
                Err(e) => e == GenError::Signing ==> !spec_generate_block_supplies_ok(params),
            },
            !spec_generate_block_supplies_ok(params) ==> (r matches Err(e) && e == GenError::Signing),
    {
        let header_ok: bool = match &params.header {
            Some(hd) => hd.prev_blockhash.len() == 32 && hd.merkle_root.len() == 32,
            None => true,
        };
        if !header_ok {
            return Err(GenError::Signing);
        }
        let mut txs: Vec<Transaction> = match params.txs {
            Some(ts) => {
                if ts.len() >= MAX_LEN {
                    return Err(GenError::Signing);
                }
                if !txs_all_wf(&ts) {
                    return Err(GenError::Signing);
                }
                ts
            },
            None => Vec::new(),
        };
        let height: u32 = match params.height {
            Some(x) => x,
            None => rng_u32_range(1, 10_000_000),
        };
        let mut cb_params = TxParams::default();
        cb_params.block_height = Some(height);
        cb_params.input = Some(
            InputParams {
                outpoint: Some((zero_hash32(), 0xffffffffu32)),
                script: None,
                sequence: None,
                witness: None,
                script_params: None,
                private_key: None,
            },
        );
        let coinbase = match GenerateTx::valid_random(cb_params) {
            Ok(t) => t,
            Err(e) => {
                proof {
                    assert(crate::generator::spec_tx_overrides_ok(cb_params));
                    assert(e != GenError::Signing);
                    assert(spec_generate_block_supplies_ok(params));
                }
                return Err(e);
            },
        };
        let ghost cbv = coinbase@;
        let ghost tsv = txs.deep_view();
        txs.insert(0, coinbase);
        proof {
            assert(txs.deep_view() =~~= seq![cbv] + tsv);
        }
        let ghost all = seq![cbv] + tsv;
        proof {
            assert(spec_block_txs_ok(all)) by {
                assert forall|k: int| 0 <= k < all.len() implies spec_wf_tx(
                    #[trigger] all[k],
                ) by {
                    if k >= 1 {
                        assert(all[k] == tsv[k - 1]);
                    }
                }
                if spec_block_segwit(all) {
                    assert(all[0].output.len() == 1);
                }
            }
        }
        let r = Block::random(
            BlockParams { header: params.header, txs: Some(txs), height: Some(height) },
        );
        match r {
            Ok((b, h)) => {
                proof {
                    let all = seq![cbv] + tsv;
                    assert(b@.txdata.len() == all.len());
                    assert(b@.txdata.skip(1) == all.skip(1));
                    assert(all.skip(1) =~~= tsv);
                    // The coinbase has one input, spending the null outpoint
                    // with the BIP34 prefix; its fields other than witness
                    // and outputs are never changed by the assembler.
                    if spec_block_segwit(b@.txdata) {
                        assert(spec_commitment_ok(b@.txdata));
                        let last = b@.txdata[0].output.len() - 1;
                        assert(spec_is_commitment_output(b@.txdata[0].output[last]));
                        assert(spec_has_commitment_output(b@.txdata[0]));
                    } else {
                        assert(b@.txdata =~~= all);
                        assert(b@.txdata[0] == cbv);
                        assert(cbv.output.len() == 1);
                        assert(cbv.output[0].script_pubkey.len() <= 35);
                        assert forall|j: int| 0 <= j < b@.txdata[0].output.len() implies
                            !spec_is_commitment_output(#[trigger] b@.txdata[0].output[j]) by {
                        }
                        assert(!spec_has_commitment_output(b@.txdata[0]));
                    }
                    assert(b@.txdata[0].input[0].prev_txid == cbv.input[0].prev_txid);
                }
                Ok((b, h))
            },
            Err(e) => {
                proof {
                    assert(e != GenError::Signing);
                    assert(spec_generate_block_supplies_ok(params));
                }
                Err(e)
            },
        }
    }
}

} // verus!
