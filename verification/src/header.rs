//! The 80-byte block header and its fixed-width serialization.

use crate::encoding::{enc_bytes, enc_u32, lemma_parse_bytes_enc, lemma_parse_u32_enc, read_bytes,
    read_u32, spec_enc_u32, spec_parse_bytes, spec_parse_u32, DecodeError};
use vstd::prelude::*;

verus! {

/// A block header held as plain values: consensus integers and 32-byte
/// hashes in wire order.
#[derive(Clone, Debug, PartialEq, Eq)]
pub struct Header {
    /// Version as the unsigned consensus value (`i32` two's complement).
    pub version: u32,
    /// Hash of the previous block, 32 bytes in wire order.
    pub prev_blockhash: Vec<u8>,
    /// Merkle root over the block's transaction ids, 32 bytes in wire order.
    pub merkle_root: Vec<u8>,
    /// Block timestamp.
    pub time: u32,
    /// Compact difficulty target.
    pub bits: u32,
    /// Proof-of-work nonce.
    pub nonce: u32,
}

/// Mathematical image of [`Header`].
pub ghost struct HeaderV {
    pub version: u32,
    pub prev_blockhash: Seq<u8>,
    pub merkle_root: Seq<u8>,
    pub time: u32,
    pub bits: u32,
    pub nonce: u32,
}

impl View for Header {
    type V = HeaderV;

    open spec fn view(&self) -> HeaderV {
        HeaderV {
            version: self.version,
            prev_blockhash: self.prev_blockhash@,
            merkle_root: self.merkle_root@,
            time: self.time,
            bits: self.bits,
            nonce: self.nonce,
        }
    }
}

impl DeepView for Header {
    type V = HeaderV;

    open spec fn deep_view(&self) -> HeaderV {
        self.view()
    }
}

pub open spec fn spec_wf_header(h: HeaderV) -> bool {
    &&& h.prev_blockhash.len() == 32
    &&& h.merkle_root.len() == 32
}

/// The 80-byte wire serialization of a header.
pub open spec fn spec_enc_header(h: HeaderV) -> Seq<u8> {
    spec_enc_u32(h.version) + h.prev_blockhash + h.merkle_root + spec_enc_u32(h.time)
        + spec_enc_u32(h.bits) + spec_enc_u32(h.nonce)
}

pub open spec fn spec_parse_header(s: Seq<u8>) -> Option<(HeaderV, Seq<u8>)> {
    match spec_parse_u32(s) {
        None => None,
        Some((version, s1)) => match spec_parse_bytes(s1, 32) {
            None => None,
            Some((prev, s2)) => match spec_parse_bytes(s2, 32) {
                None => None,
                Some((root, s3)) => match spec_parse_u32(s3) {
                    None => None,
                    Some((time, s4)) => match spec_parse_u32(s4) {
                        None => None,
                        Some((bits, s5)) => match spec_parse_u32(s5) {
                            None => None,
                            Some((nonce, s6)) => Some(
                                (
                                    HeaderV {
                                        version: version,
                                        prev_blockhash: prev,
                                        merkle_root: root,
                                        time: time,
                                        bits: bits,
                                        nonce: nonce,
                                    },
                                    s6,
                                ),
                            ),
                        },
                    },
                },
            },
        },
    }
}

/// A byte string is a header exactly when it is one 80-byte serialization.
pub open spec fn spec_decode_header(b: Seq<u8>) -> Option<HeaderV> {
    match spec_parse_header(b) {
        None => None,
        Some((h, rest)) => if rest.len() == 0 {
            Some(h)
        } else {
            None
        },
    }
}

pub proof fn lemma_enc_header_len(h: HeaderV)
    requires
        spec_wf_header(h),
    ensures
        spec_enc_header(h).len() == 80,
{
    vstd::bytes::lemma_auto_spec_u32_to_from_le_bytes();
}

/// Parsing the serialization of a well-formed header yields it back.
pub proof fn lemma_parse_header_enc(h: HeaderV, rest: Seq<u8>)
    requires
        spec_wf_header(h),
    ensures
        spec_parse_header(spec_enc_header(h) + rest) == Some((h, rest)),
{
    let t5 = spec_enc_u32(h.nonce) + rest;
    let t4 = spec_enc_u32(h.bits) + t5;
    let t3 = spec_enc_u32(h.time) + t4;
    let t2 = h.merkle_root + t3;
    let t1 = h.prev_blockhash + t2;
    assert(spec_enc_header(h) + rest =~= spec_enc_u32(h.version) + t1);
    lemma_parse_u32_enc(h.version, t1);
    lemma_parse_bytes_enc(h.prev_blockhash, t2);
    lemma_parse_bytes_enc(h.merkle_root, t3);
    lemma_parse_u32_enc(h.time, t4);
    lemma_parse_u32_enc(h.bits, t5);
    lemma_parse_u32_enc(h.nonce, rest);
    let parsed = HeaderV {
        version: h.version,
        prev_blockhash: h.prev_blockhash,
        merkle_root: h.merkle_root,
        time: h.time,
        bits: h.bits,
        nonce: h.nonce,
    };
    assert(parsed == h);
}

/// Decoding the 80-byte serialization of a well-formed header gives it back.
pub proof fn lemma_header_round_trip(h: HeaderV)
    requires
        spec_wf_header(h),
    ensures
        spec_decode_header(spec_enc_header(h)) == Some(h),
{
    lemma_parse_header_enc(h, Seq::empty());
    assert(spec_enc_header(h) + Seq::<u8>::empty() =~= spec_enc_header(h));
}

/// Any 80-byte string parses as a header, consuming every byte.
pub proof fn lemma_parse_header_total(b: Seq<u8>)
    requires
        b.len() == 80,
    ensures
        spec_decode_header(b) is Some,
{
    vstd::bytes::lemma_auto_spec_u32_to_from_le_bytes();
    let s1 = b.skip(4);
    let s2 = s1.skip(32);
    let s3 = s2.skip(32);
    let s4 = s3.skip(4);
    let s5 = s4.skip(4);
    let s6 = s5.skip(4);
    assert(s6.len() == 0);
}

/// Serializes a header into its 80 wire bytes.
pub fn encode_header(h: &Header) -> (r: Vec<u8>)
    requires
        spec_wf_header(h@),
    ensures
        r@ == spec_enc_header(h@),
        r@.len() == 80,
{
    let mut out: Vec<u8> = Vec::new();
    enc_u32(&mut out, h.version);
    enc_bytes(&mut out, &h.prev_blockhash);
    enc_bytes(&mut out, &h.merkle_root);
    enc_u32(&mut out, h.time);
    enc_u32(&mut out, h.bits);
    enc_u32(&mut out, h.nonce);
    proof {
        assert(out@ =~= spec_enc_header(h@));
        lemma_enc_header_len(h@);
    }
    out
}

/// Parses a header starting at position `pos`, mirroring `spec_parse_header`
/// on the unread suffix.
pub fn read_header(b: &[u8], pos: usize) -> (r: Option<(Header, usize)>)
    requires
        pos <= b@.len(),
    ensures
        match r {
            Some((h, p2)) => pos <= p2 <= b@.len() && spec_parse_header(b@.skip(pos as int))
                == Some((h@, b@.skip(p2 as int))) && spec_wf_header(h@),
            None => spec_parse_header(b@.skip(pos as int)) is None,
        },
{
    let (version, p1) = match read_u32(b, pos) {
        None => { return None; },
        Some(v) => v,
    };
    let (prev, p2) = match read_bytes(b, p1, 32) {
        None => { return None; },
        Some(v) => v,
    };
    let (root, p3) = match read_bytes(b, p2, 32) {
        None => { return None; },
        Some(v) => v,
    };
    let (time, p4) = match read_u32(b, p3) {
        None => { return None; },
        Some(v) => v,
    };
    let (bits, p5) = match read_u32(b, p4) {
        None => { return None; },
        Some(v) => v,
    };
    let (nonce, p6) = match read_u32(b, p5) {
        None => { return None; },
        Some(v) => v,
    };
    let h = Header {
        version: version,
        prev_blockhash: prev,
        merkle_root: root,
        time: time,
        bits: bits,
        nonce: nonce,
    };
    proof {
        assert(spec_parse_header(b@.skip(pos as int)) == Some((h@, b@.skip(p6 as int))));
    }
    Some((h, p6))
}

/// Parses a header; the input must hold exactly the 80 header bytes.
pub fn decode_header(b: &[u8]) -> (r: Result<Header, DecodeError>)
    ensures
        match r {
            Ok(h) => spec_decode_header(b@) == Some(h@) && spec_wf_header(h@),
            Err(e) => spec_decode_header(b@) is None && e == DecodeError::Malformed,
        },
{
    proof {
        assert(b@.skip(0) =~= b@);
    }
    match read_header(b, 0) {
        None => Err(DecodeError::Malformed),
        Some((h, p)) => {
            if p != b.len() {
                proof {
                    assert(b@.skip(p as int).len() > 0);
                }
                Err(DecodeError::Malformed)
            } else {
                proof {
                    assert(b@.skip(p as int).len() == 0);
                }
                Ok(h)
            }
        },
    }
}

} // verus!
