//! Blocks: a header and a transaction list, with their serialization.

use crate::encoding::{enc_varint, lemma_parse_varint_enc, read_varint, spec_enc_varint,
    DecodeError};
use crate::hashes::{sha256d, sha256d_of};
use crate::header::{encode_header, lemma_parse_header_enc, read_header, spec_enc_header,
    spec_parse_header, spec_wf_header, Header, HeaderV};
use crate::transaction::{encode_tx, spec_enc_tx, spec_wf_tx, Transaction, TransactionV, MAX_LEN};
use crate::tx_parse::{lemma_parse_tx_enc, read_tx, spec_parse_tx};
use vstd::prelude::*;

verus! {

/// A block: header plus ordered transaction list, the coinbase first.
#[derive(Clone, Debug, PartialEq, Eq)]
pub struct Block {
    pub header: Header,
    pub txdata: Vec<Transaction>,
}

/// Mathematical image of [`Block`].
pub ghost struct BlockV {
    pub header: HeaderV,
    pub txdata: Seq<TransactionV>,
}

impl View for Block {
    type V = BlockV;

    open spec fn view(&self) -> BlockV {
        BlockV { header: self.header@, txdata: self.txdata.deep_view() }
    }
}

pub open spec fn spec_wf_block(b: BlockV) -> bool {
    &&& spec_wf_header(b.header)
    &&& b.txdata.len() <= MAX_LEN
    &&& forall|k: int| 0 <= k < b.txdata.len() ==> spec_wf_tx(#[trigger] b.txdata[k])
}

pub open spec fn spec_enc_txs(s: Seq<TransactionV>) -> Seq<u8>
    decreases s.len(),
{
    if s.len() == 0 {
        Seq::empty()
    } else {
        spec_enc_tx(s[0]) + spec_enc_txs(s.skip(1))
    }
}

/// The wire serialization of a block: header, transaction count, transactions.
pub open spec fn spec_enc_block(b: BlockV) -> Seq<u8> {
    spec_enc_header(b.header) + spec_enc_varint(b.txdata.len() as u64) + spec_enc_txs(b.txdata)
}

pub open spec fn spec_parse_txs(s: Seq<u8>, n: nat) -> Option<(Seq<TransactionV>, Seq<u8>)>
    decreases n,
{
    if n == 0 {
        Some((Seq::empty(), s))
    } else {
        match spec_parse_tx(s) {
            None => None,
            Some((t, r)) => match spec_parse_txs(r, (n - 1) as nat) {
                None => None,
                Some((tail, r2)) => Some((seq![t] + tail, r2)),
            },
        }
    }
}

pub open spec fn spec_parse_block(s: Seq<u8>) -> Option<(BlockV, Seq<u8>)> {
    match spec_parse_header(s) {
        None => None,
        Some((h, s1)) => match crate::encoding::spec_parse_varint(s1) {
            None => None,
            Some((n, s2)) => if n > MAX_LEN as u64 {
                None
            } else {
                match spec_parse_txs(s2, n as nat) {
                    None => None,
                    Some((txs, s3)) => Some((BlockV { header: h, txdata: txs }, s3)),
                }
            },
        },
    }
}

pub open spec fn spec_decode_block(b: Seq<u8>) -> Option<BlockV> {
    match spec_parse_block(b) {
        None => None,
        Some((blk, rest)) => if rest.len() == 0 {
            Some(blk)
        } else {
            None
        },
    }
}

/// The block hash: double SHA-256 over the 80 header bytes.
pub open spec fn spec_block_hash(h: HeaderV) -> Seq<u8> {
    sha256d_of(spec_enc_header(h))
}

pub fn block_hash(h: &Header) -> (r: Vec<u8>)
    requires
        spec_wf_header(h@),
    ensures
        r@ == spec_block_hash(h@),
        r@.len() == 32,
{
    let bytes = encode_header(h);
    sha256d(&bytes)
}

// ---------------------------------------------------------------------------
// Round trip
// ---------------------------------------------------------------------------

proof fn lemma_parse_txs_enc(s: Seq<TransactionV>, rest: Seq<u8>)
    requires
        forall|k: int| 0 <= k < s.len() ==> spec_wf_tx(#[trigger] s[k]),
    ensures
        spec_parse_txs(spec_enc_txs(s) + rest, s.len()) == Some((s, rest)),
    decreases s.len(),
{
    if s.len() == 0 {
        assert(spec_enc_txs(s) + rest =~= rest);
    } else {
        let tail = spec_enc_txs(s.skip(1)) + rest;
        assert(spec_enc_txs(s) == spec_enc_tx(s[0]) + spec_enc_txs(s.skip(1)));
        assert(spec_enc_txs(s) + rest =~= spec_enc_tx(s[0]) + tail);
        lemma_parse_tx_enc(s[0], tail);
        assert(forall|j: int| 0 <= j < s.skip(1).len() ==> #[trigger] s.skip(1)[j] == s[j + 1]);
        lemma_parse_txs_enc(s.skip(1), rest);
        assert(seq![s[0]] + s.skip(1) =~= s);
    }
}

/// Parsing the serialization of a well-formed block yields it back.
pub proof fn lemma_parse_block_enc(b: BlockV, rest: Seq<u8>)
    requires
        spec_wf_block(b),
    ensures
        spec_parse_block(spec_enc_block(b) + rest) == Some((b, rest)),
{
    let t2 = spec_enc_txs(b.txdata) + rest;
    let t1 = spec_enc_varint(b.txdata.len() as u64) + t2;
    assert(spec_enc_block(b) + rest =~= spec_enc_header(b.header) + t1);
    lemma_parse_header_enc(b.header, t1);
    lemma_parse_varint_enc(b.txdata.len() as u64, t2);
    lemma_parse_txs_enc(b.txdata, rest);
    assert((b.txdata.len() as u64) as nat == b.txdata.len());
    let parsed = BlockV { header: b.header, txdata: b.txdata };
    assert(parsed == b);
}

/// Decoding the serialization of a well-formed block gives it back.
pub proof fn lemma_block_round_trip(b: BlockV)
    requires
        spec_wf_block(b),
    ensures
        spec_decode_block(spec_enc_block(b)) == Some(b),
{
    lemma_parse_block_enc(b, Seq::empty());
    assert(spec_enc_block(b) + Seq::<u8>::empty() =~= spec_enc_block(b));
}

// ---------------------------------------------------------------------------
// Executable encoder and decoder
// ---------------------------------------------------------------------------

proof fn lemma_enc_txs_snoc(s: Seq<TransactionV>, t: TransactionV)
    ensures
        spec_enc_txs(s.push(t)) == spec_enc_txs(s) + spec_enc_tx(t),
    decreases s.len(),
{
    let sp = s.push(t);
    if s.len() == 0 {
        assert(sp[0] == t);
        assert(sp.skip(1) =~= Seq::<TransactionV>::empty());
        assert(spec_enc_txs(Seq::<TransactionV>::empty()) == Seq::<u8>::empty());
        assert(spec_enc_txs(sp) =~= spec_enc_txs(s) + spec_enc_tx(t));
    } else {
        assert(sp[0] == s[0]);
        assert(sp.skip(1) =~= s.skip(1).push(t));
        lemma_enc_txs_snoc(s.skip(1), t);
        assert(spec_enc_txs(sp) == spec_enc_tx(s[0]) + spec_enc_txs(s.skip(1).push(t)));
        assert(spec_enc_txs(sp) =~= spec_enc_txs(s) + spec_enc_tx(t));
    }
}

/// Serializes a block in the consensus wire format.
pub fn encode_block(b: &Block) -> (r: Vec<u8>)
    requires
        spec_wf_block(b@),
    ensures
        r@ == spec_enc_block(b@),
{
    let ghost bv = b@;
    let mut out = encode_header(&b.header);
    enc_varint(&mut out, b.txdata.len() as u64);
    let mut k: usize = 0;
    proof {
        assert(spec_enc_txs(bv.txdata.take(0)) =~= Seq::<u8>::empty());
        assert(out@ =~= spec_enc_header(bv.header) + spec_enc_varint(bv.txdata.len() as u64)
            + spec_enc_txs(bv.txdata.take(0)));
    }
    while k < b.txdata.len()
        invariant
            k <= b.txdata@.len(),
            bv == b@,
            bv.txdata.len() == b.txdata@.len(),
            spec_wf_block(bv),
            out@ == spec_enc_header(bv.header) + spec_enc_varint(bv.txdata.len() as u64)
                + spec_enc_txs(bv.txdata.take(k as int)),
        decreases b.txdata@.len() - k,
    {
        proof {
            assert(bv.txdata[k as int] == b.txdata@[k as int]@);
            assert(spec_wf_tx(bv.txdata[k as int]));
        }
        let enc = encode_tx(&b.txdata[k]);
        let mut enc_m = enc;
        out.append(&mut enc_m);
        proof {
            lemma_enc_txs_snoc(bv.txdata.take(k as int), bv.txdata[k as int]);
            assert(bv.txdata.take(k as int).push(bv.txdata[k as int]) =~= bv.txdata.take(
                k as int + 1,
            ));
            assert(out@ =~= spec_enc_header(bv.header) + spec_enc_varint(bv.txdata.len() as u64)
                + spec_enc_txs(bv.txdata.take(k as int + 1)));
        }
        k = k + 1;
    }
    proof {
        assert(bv.txdata.take(bv.txdata.len() as int) =~= bv.txdata);
    }
    out
}

fn read_txs(b: &[u8], pos: usize, n: u64) -> (r: Option<(Vec<Transaction>, usize)>)
    requires
        pos <= b@.len(),
        n <= MAX_LEN as u64,
    ensures
        match r {
            Some((v, p2)) => pos <= p2 <= b@.len() && spec_parse_txs(
                b@.skip(pos as int),
                n as nat,
            ) == Some((v.deep_view(), b@.skip(p2 as int))) && v@.len() == n && forall|j: int|
                0 <= j < v@.len() ==> spec_wf_tx(#[trigger] v.deep_view()[j]),
            None => spec_parse_txs(b@.skip(pos as int), n as nat) is None,
        },
{
    let mut acc: Vec<Transaction> = Vec::new();
    let mut cur: usize = pos;
    let mut k: u64 = 0;
    while k < n
        invariant
            pos <= cur <= b@.len(),
            k <= n,
            n <= MAX_LEN as u64,
            acc@.len() == k,
            forall|j: int| 0 <= j < acc@.len() ==> spec_wf_tx(#[trigger] acc.deep_view()[j]),
            ({
                let full = spec_parse_txs(b@.skip(pos as int), n as nat);
                let part = spec_parse_txs(b@.skip(cur as int), (n - k) as nat);
                match part {
                    Some(pr) => full == Some((acc.deep_view() + pr.0, pr.1)),
                    None => full is None,
                }
            }),
        decreases n - k,
    {
        let ghost acc0 = acc.deep_view();
        let ghost part0 = spec_parse_txs(b@.skip(cur as int), (n - k) as nat);
        match read_tx(b, cur) {
            None => {
                proof {
                    assert(part0 is None);
                }
                return None;
            },
            Some((t, p2)) => {
                proof {
                    let part1 = spec_parse_txs(b@.skip(p2 as int), (n - k - 1) as nat);
                    match part1 {
                        Some(pr1) => {
                            assert(part0 == Some((seq![t@] + pr1.0, pr1.1)));
                            assert(acc0.push(t@) + pr1.0 =~= acc0 + (seq![t@] + pr1.0));
                        },
                        None => {
                            assert(part0 is None);
                        },
                    }
                }
                acc.push(t);
                proof {
                    assert(acc.deep_view() =~= acc0.push(t@));
                }
                cur = p2;
                k = k + 1;
            },
        }
    }
    proof {
        assert(spec_parse_txs(b@.skip(cur as int), 0) == Some(
            (Seq::<TransactionV>::empty(), b@.skip(cur as int)),
        ));
        assert(acc.deep_view() + Seq::<TransactionV>::empty() =~= acc.deep_view());
    }
    Some((acc, cur))
}

/// Parses a block and requires the whole input to be consumed, exactly as
/// `spec_decode_block` states.
pub fn decode_block(b: &[u8]) -> (r: Result<Block, DecodeError>)
    ensures
        match r {
            Ok(blk) => spec_decode_block(b@) == Some(blk@) && spec_wf_block(blk@),
            Err(e) => spec_decode_block(b@) is None && e == DecodeError::Malformed,
        },
{
    proof {
        assert(b@.skip(0) =~= b@);
    }
    let (h, p1) = match read_header(b, 0) {
        None => { return Err(DecodeError::Malformed); },
        Some(v) => v,
    };
    let (n, p2) = match read_varint(b, p1) {
        None => { return Err(DecodeError::Malformed); },
        Some(v) => v,
    };
    if n > MAX_LEN as u64 {
        return Err(DecodeError::Malformed);
    }
    let (txs, p3) = match read_txs(b, p2, n) {
        None => { return Err(DecodeError::Malformed); },
        Some(v) => v,
    };
    if p3 != b.len() {
        proof {
            assert(b@.skip(p3 as int).len() > 0);
        }
        return Err(DecodeError::Malformed);
    }
    let blk = Block { header: h, txdata: txs };
    proof {
        assert(b@.skip(p3 as int).len() == 0);
        assert(spec_parse_block(b@) == Some((blk@, b@.skip(p3 as int))));
        assert(spec_wf_block(blk@));
    }
    Ok(blk)
}

} // verus!
