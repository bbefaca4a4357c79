//! Consensus wire-format primitives: little-endian integers, CompactSize
//! ("VarInt") lengths, and raw byte runs.
//!
//! Every value has a specification-level encoder, a specification-level
//! parser over the remaining input, an executable encoder and an executable
//! reader, plus a lemma showing the parser inverts the encoder.

use vstd::bytes::*;
use vstd::prelude::*;

verus! {

/// Parse failure marker distinguishing the decode errors of this crate.
#[derive(Clone, Copy, Debug, PartialEq, Eq, Structural)]
pub enum DecodeError {
    /// Input held a character that is not a hexadecimal digit, or had odd length.
    InvalidHex,
    /// A block header was not exactly 80 bytes long.
    InvalidLength,
    /// The byte stream does not follow the consensus serialization format.
    Malformed,
}

// ---------------------------------------------------------------------------
// Specification-level encoders
// ---------------------------------------------------------------------------

pub open spec fn spec_enc_u32(x: u32) -> Seq<u8> {
    spec_u32_to_le_bytes(x)
}

pub open spec fn spec_enc_u64(x: u64) -> Seq<u8> {
    spec_u64_to_le_bytes(x)
}

/// Minimal CompactSize encoding of a length or height.
pub open spec fn spec_enc_varint(n: u64) -> Seq<u8> {
    if n < 0xfd {
        seq![n as u8]
    } else if n < 0x10000 {
        seq![0xfdu8] + spec_u16_to_le_bytes(n as u16)
    } else if n < 0x1_0000_0000 {
        seq![0xfeu8] + spec_u32_to_le_bytes(n as u32)
    } else {
        seq![0xffu8] + spec_u64_to_le_bytes(n)
    }
}

// ---------------------------------------------------------------------------
// Specification-level parsers
//
// A parser consumes a prefix of the remaining input `s` and yields the value
// together with the unread suffix, or `None` when the input is exhausted or
// breaks a format rule.
// ---------------------------------------------------------------------------

pub open spec fn spec_parse_u8(s: Seq<u8>) -> Option<(u8, Seq<u8>)> {
    if s.len() >= 1 {
        Some((s[0], s.skip(1)))
    } else {
        None
    }
}

pub open spec fn spec_parse_u16(s: Seq<u8>) -> Option<(u16, Seq<u8>)> {
    if s.len() >= 2 {
        Some((spec_u16_from_le_bytes(s.take(2)), s.skip(2)))
    } else {
        None
    }
}

pub open spec fn spec_parse_u32(s: Seq<u8>) -> Option<(u32, Seq<u8>)> {
    if s.len() >= 4 {
        Some((spec_u32_from_le_bytes(s.take(4)), s.skip(4)))
    } else {
        None
    }
}

pub open spec fn spec_parse_u64(s: Seq<u8>) -> Option<(u64, Seq<u8>)> {
    if s.len() >= 8 {
        Some((spec_u64_from_le_bytes(s.take(8)), s.skip(8)))
    } else {
        None
    }
}

pub open spec fn spec_parse_bytes(s: Seq<u8>, n: int) -> Option<(Seq<u8>, Seq<u8>)> {
    if 0 <= n <= s.len() {
        Some((s.take(n), s.skip(n)))
    } else {
        None
    }
}

/// CompactSize parser; rejects non-minimal encodings, as consensus decoding does.
pub open spec fn spec_parse_varint(s: Seq<u8>) -> Option<(u64, Seq<u8>)> {
    match spec_parse_u8(s) {
        None => None,
        Some((b0, r)) => {
            if b0 == 0xfd {
                match spec_parse_u16(r) {
                    None => None,
                    Some((x, r2)) => if x < 0xfd {
                        None
                    } else {
                        Some((x as u64, r2))
                    },
                }
            } else if b0 == 0xfe {
                match spec_parse_u32(r) {
                    None => None,
                    Some((x, r2)) => if x < 0x10000 {
                        None
                    } else {
                        Some((x as u64, r2))
                    },
                }
            } else if b0 == 0xff {
                match spec_parse_u64(r) {
                    None => None,
                    Some((x, r2)) => if x < 0x1_0000_0000 {
                        None
                    } else {
                        Some((x, r2))
                    },
                }
            } else {
                Some((b0 as u64, r))
            }
        },
    }
}

// ---------------------------------------------------------------------------
// Round-trip lemmas: parsing an encoding yields the value and the rest
// ---------------------------------------------------------------------------

pub proof fn lemma_parse_u8_enc(x: u8, rest: Seq<u8>)
    ensures
        spec_parse_u8(seq![x] + rest) == Some((x, rest)),
{
    let s = seq![x] + rest;
    assert(s[0] == x);
    assert(s.skip(1) =~= rest);
}

pub proof fn lemma_parse_u16_enc(x: u16, rest: Seq<u8>)
    ensures
        spec_parse_u16(spec_u16_to_le_bytes(x) + rest) == Some((x, rest)),
{
    lemma_auto_spec_u16_to_from_le_bytes();
    let e = spec_u16_to_le_bytes(x);
    let s = e + rest;
    assert(s.take(2) =~= e);
    assert(s.skip(2) =~= rest);
}

pub proof fn lemma_parse_u32_enc(x: u32, rest: Seq<u8>)
    ensures
        spec_parse_u32(spec_enc_u32(x) + rest) == Some((x, rest)),
{
    lemma_auto_spec_u32_to_from_le_bytes();
    let e = spec_enc_u32(x);
    let s = e + rest;
    assert(s.take(4) =~= e);
    assert(s.skip(4) =~= rest);
}

pub proof fn lemma_parse_u64_enc(x: u64, rest: Seq<u8>)
    ensures
        spec_parse_u64(spec_enc_u64(x) + rest) == Some((x, rest)),
{
    lemma_auto_spec_u64_to_from_le_bytes();
    let e = spec_enc_u64(x);
    let s = e + rest;
    assert(s.take(8) =~= e);
    assert(s.skip(8) =~= rest);
}

pub proof fn lemma_parse_bytes_enc(b: Seq<u8>, rest: Seq<u8>)
    ensures
        spec_parse_bytes(b + rest, b.len() as int) == Some((b, rest)),
{
    let s = b + rest;
    assert(s.take(b.len() as int) =~= b);
    assert(s.skip(b.len() as int) =~= rest);
}

pub proof fn lemma_parse_varint_enc(n: u64, rest: Seq<u8>)
    ensures
        spec_parse_varint(spec_enc_varint(n) + rest) == Some((n, rest)),
{
    if n < 0xfd {
        lemma_parse_u8_enc(n as u8, rest);
        assert(spec_enc_varint(n) + rest =~= seq![n as u8] + rest);
    } else if n < 0x10000 {
        let tail = spec_u16_to_le_bytes(n as u16) + rest;
        assert(spec_enc_varint(n) + rest =~= seq![0xfdu8] + tail);
        lemma_parse_u8_enc(0xfdu8, tail);
        lemma_parse_u16_enc(n as u16, rest);
    } else if n < 0x1_0000_0000 {
        let tail = spec_u32_to_le_bytes(n as u32) + rest;
        assert(spec_enc_varint(n) + rest =~= seq![0xfeu8] + tail);
        lemma_parse_u8_enc(0xfeu8, tail);
        lemma_parse_u32_enc(n as u32, rest);
    } else {
        let tail = spec_u64_to_le_bytes(n) + rest;
        assert(spec_enc_varint(n) + rest =~= seq![0xffu8] + tail);
        lemma_parse_u8_enc(0xffu8, tail);
        lemma_parse_u64_enc(n, rest);
    }
}

// ---------------------------------------------------------------------------
// Executable encoders, appending to an output buffer
// ---------------------------------------------------------------------------

pub fn enc_u32(out: &mut Vec<u8>, x: u32)
    ensures
        final(out)@ == old(out)@ + spec_enc_u32(x),
{
    let mut tmp = u32_to_le_bytes(x);
    out.append(&mut tmp);
}

pub fn enc_u64(out: &mut Vec<u8>, x: u64)
    ensures
        final(out)@ == old(out)@ + spec_enc_u64(x),
{
    let mut tmp = u64_to_le_bytes(x);
    out.append(&mut tmp);
}

pub fn enc_bytes(out: &mut Vec<u8>, b: &Vec<u8>)
    ensures
        final(out)@ == old(out)@ + b@,
{
    let mut i: usize = 0;
    while i < b.len()
        invariant
            i <= b@.len(),
            out@ == old(out)@ + b@.take(i as int),
        decreases b@.len() - i,
    {
        out.push(b[i]);
        proof {
            assert(old(out)@ + b@.take(i as int) + seq![b@[i as int]] =~= old(out)@ + b@.take(
                i as int + 1,
            ));
        }
        i = i + 1;
    }
    proof {
        assert(b@.take(b@.len() as int) =~= b@);
    }
}

/// A fresh copy of a byte vector.
pub fn copy_bytes(b: &Vec<u8>) -> (r: Vec<u8>)
    ensures
        r@ == b@,
{
    let mut out: Vec<u8> = Vec::new();
    enc_bytes(&mut out, b);
    proof {
        assert(out@ =~= b@);
    }
    out
}

pub fn enc_varint(out: &mut Vec<u8>, n: u64)
    ensures
        final(out)@ == old(out)@ + spec_enc_varint(n),
{
    if n < 0xfd {
        out.push(n as u8);
        proof {
            assert(old(out)@ + spec_enc_varint(n) =~= old(out)@.push(n as u8));
        }
    } else if n < 0x10000 {
        out.push(0xfdu8);
        let mut tmp = u16_to_le_bytes(n as u16);
        out.append(&mut tmp);
        proof {
            assert(old(out)@ + spec_enc_varint(n) =~= old(out)@.push(0xfdu8)
                + spec_u16_to_le_bytes(n as u16));
        }
    } else if n < 0x1_0000_0000 {
        out.push(0xfeu8);
        let mut tmp = u32_to_le_bytes(n as u32);
        out.append(&mut tmp);
        proof {
            assert(old(out)@ + spec_enc_varint(n) =~= old(out)@.push(0xfeu8)
                + spec_u32_to_le_bytes(n as u32));
        }
    } else {
        out.push(0xffu8);
        let mut tmp = u64_to_le_bytes(n);
        out.append(&mut tmp);
        proof {
            assert(old(out)@ + spec_enc_varint(n) =~= old(out)@.push(0xffu8)
                + spec_u64_to_le_bytes(n));
        }
    }
}

// ---------------------------------------------------------------------------
// Executable readers over a byte slice with a cursor
//
// Each reader returns the value and the next cursor position, and its result
// mirrors the specification parser applied to the unread suffix.
// ---------------------------------------------------------------------------

pub fn read_u8(b: &[u8], pos: usize) -> (r: Option<(u8, usize)>)
    requires
        pos <= b@.len(),
    ensures
        match r {
            Some((x, p2)) => pos < p2 <= b@.len() && spec_parse_u8(b@.skip(pos as int)) == Some(
                (x, b@.skip(p2 as int)),
            ),
            None => spec_parse_u8(b@.skip(pos as int)) is None,
        },
{
    if pos < b.len() {
        let x = *vstd::slice::slice_index_get(b, pos);
        proof {
            assert(b@.skip(pos as int)[0] == b@[pos as int]);
            assert(b@.skip(pos as int).skip(1) =~= b@.skip(pos as int + 1));
        }
        Some((x, pos + 1))
    } else {
        None
    }
}

pub fn read_u16(b: &[u8], pos: usize) -> (r: Option<(u16, usize)>)
    requires
        pos <= b@.len(),
    ensures
        match r {
            Some((x, p2)) => pos < p2 <= b@.len() && spec_parse_u16(b@.skip(pos as int)) == Some(
                (x, b@.skip(p2 as int)),
            ),
            None => spec_parse_u16(b@.skip(pos as int)) is None,
        },
{
    if b.len() - pos >= 2 {
        let sub = vstd::slice::slice_subrange(b, pos, pos + 2);
        let x = u16_from_le_bytes(sub);
        proof {
            assert(b@.skip(pos as int).take(2) =~= b@.subrange(pos as int, pos as int + 2));
            assert(b@.skip(pos as int).skip(2) =~= b@.skip(pos as int + 2));
        }
        Some((x, pos + 2))
    } else {
        None
    }
}

pub fn read_u32(b: &[u8], pos: usize) -> (r: Option<(u32, usize)>)
    requires
        pos <= b@.len(),
    ensures
        match r {
            Some((x, p2)) => pos < p2 <= b@.len() && spec_parse_u32(b@.skip(pos as int)) == Some(
                (x, b@.skip(p2 as int)),
            ),
            None => spec_parse_u32(b@.skip(pos as int)) is None,
        },
{
    if b.len() - pos >= 4 {
        let sub = vstd::slice::slice_subrange(b, pos, pos + 4);
        let x = u32_from_le_bytes(sub);
        proof {
            assert(b@.skip(pos as int).take(4) =~= b@.subrange(pos as int, pos as int + 4));
            assert(b@.skip(pos as int).skip(4) =~= b@.skip(pos as int + 4));
        }
        Some((x, pos + 4))
    } else {
        None
    }
}

pub fn read_u64(b: &[u8], pos: usize) -> (r: Option<(u64, usize)>)
    requires
        pos <= b@.len(),
    ensures
        match r {
            Some((x, p2)) => pos < p2 <= b@.len() && spec_parse_u64(b@.skip(pos as int)) == Some(
                (x, b@.skip(p2 as int)),
            ),
            None => spec_parse_u64(b@.skip(pos as int)) is None,
        },
{
    if b.len() - pos >= 8 {
        let sub = vstd::slice::slice_subrange(b, pos, pos + 8);
        let x = u64_from_le_bytes(sub);
        proof {
            assert(b@.skip(pos as int).take(8) =~= b@.subrange(pos as int, pos as int + 8));
            assert(b@.skip(pos as int).skip(8) =~= b@.skip(pos as int + 8));
        }
        Some((x, pos + 8))
    } else {
        None
    }
}

pub fn read_bytes(b: &[u8], pos: usize, n: usize) -> (r: Option<(Vec<u8>, usize)>)
    requires
        pos <= b@.len(),
    ensures
        match r {
            Some((v, p2)) => pos <= p2 <= b@.len() && spec_parse_bytes(
                b@.skip(pos as int),
                n as int,
            ) == Some((v@, b@.skip(p2 as int))),
            None => spec_parse_bytes(b@.skip(pos as int), n as int) is None,
        },
{
    if b.len() - pos >= n {
        let sub = vstd::slice::slice_subrange(b, pos, pos + n);
        let v = vstd::slice::slice_to_vec(sub);
        proof {
            assert(b@.skip(pos as int).take(n as int) =~= b@.subrange(
                pos as int,
                pos as int + n as int,
            ));
            assert(b@.skip(pos as int).skip(n as int) =~= b@.skip(pos as int + n as int));
        }
        Some((v, pos + n))
    } else {
        None
    }
}

pub fn read_varint(b: &[u8], pos: usize) -> (r: Option<(u64, usize)>)
    requires
        pos <= b@.len(),
    ensures
        match r {
            Some((x, p2)) => pos < p2 <= b@.len() && spec_parse_varint(b@.skip(pos as int))
                == Some((x, b@.skip(p2 as int))),
            None => spec_parse_varint(b@.skip(pos as int)) is None,
        },
{
    match read_u8(b, pos) {
        None => None,
        Some((b0, p1)) => {
            if b0 == 0xfd {
                match read_u16(b, p1) {
                    None => None,
                    Some((x, p2)) => if x < 0xfd {
                        None
                    } else {
                        Some((x as u64, p2))
                    },
                }
            } else if b0 == 0xfe {
                match read_u32(b, p1) {
                    None => None,
                    Some((x, p2)) => if x < 0x10000 {
                        None
                    } else {
                        Some((x as u64, p2))
                    },
                }
            } else if b0 == 0xff {
                match read_u64(b, p1) {
                    None => None,
                    Some((x, p2)) => if x < 0x1_0000_0000 {
                        None
                    } else {
                        Some((x, p2))
                    },
                }
            } else {
                Some((b0 as u64, p1))
            }
        },
    }
}

} // verus!
