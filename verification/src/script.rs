//! Script construction: canonical lock scripts for the seven supported
//! script types, data pushes, deterministic script corruption, and the BIP34
//! height prefix for coinbase unlocking scripts.

use crate::encoding::{enc_bytes, enc_varint, spec_enc_varint};
use crate::transaction::MAX_LEN;
use vstd::bytes::{spec_u16_to_le_bytes, spec_u32_to_le_bytes, u16_to_le_bytes, u32_to_le_bytes};
use vstd::prelude::*;

verus! {

/// The script-type families the generator can produce. The first three are
/// legacy (no witness); the rest carry their signature data in the witness.
#[derive(Clone, Copy, Debug, PartialEq, Eq, Structural, Hash)]
pub enum ScriptTypes {
    P2PK,
    P2PKH,
    P2SH,
    P2WPKH,
    P2WSH,
    P2TR,
    P2TWEAKEDTR,
}

impl ScriptTypes {
    /// Legacy types never populate a witness; the others always do.
    pub open spec fn spec_is_legacy(self) -> bool {
        self == ScriptTypes::P2PK || self == ScriptTypes::P2PKH || self == ScriptTypes::P2SH
    }

    pub fn is_legacy(&self) -> (r: bool)
        ensures
            r == self.spec_is_legacy(),
    {
        match self {
            ScriptTypes::P2PK => true,
            ScriptTypes::P2PKH => true,
            ScriptTypes::P2SH => true,
            _ => false,
        }
    }
}

// ---------------------------------------------------------------------------
// Data pushes
// ---------------------------------------------------------------------------

/// The canonical script push of a data run: a direct length opcode below 76
/// bytes, else OP_PUSHDATA1/2/4 with a little-endian length.
pub open spec fn spec_push(data: Seq<u8>) -> Seq<u8> {
    if data.len() < 76 {
        seq![data.len() as u8] + data
    } else if data.len() < 256 {
        seq![0x4cu8, data.len() as u8] + data
    } else if data.len() < 65536 {
        seq![0x4du8] + spec_u16_to_le_bytes(data.len() as u16) + data
    } else {
        seq![0x4eu8] + spec_u32_to_le_bytes(data.len() as u32) + data
    }
}

/// Appends the canonical push of `data` to a script.
pub fn push_bytes(out: &mut Vec<u8>, data: &Vec<u8>)
    requires
        data@.len() <= MAX_LEN,
    ensures
        final(out)@ == old(out)@ + spec_push(data@),
{
    if data.len() < 76 {
        out.push(data.len() as u8);
        enc_bytes(out, data);
        proof {
            assert(old(out)@ + spec_push(data@) =~= old(out)@.push(data@.len() as u8) + data@);
        }
    } else if data.len() < 256 {
        out.push(0x4cu8);
        out.push(data.len() as u8);
        enc_bytes(out, data);
        proof {
            assert(old(out)@ + spec_push(data@) =~= old(out)@.push(0x4cu8).push(
                data@.len() as u8,
            ) + data@);
        }
    } else if data.len() < 65536 {
        out.push(0x4du8);
        let mut tmp = u16_to_le_bytes(data.len() as u16);
        out.append(&mut tmp);
        enc_bytes(out, data);
        proof {
            assert(old(out)@ + spec_push(data@) =~= old(out)@.push(0x4du8) + spec_u16_to_le_bytes(
                data@.len() as u16,
            ) + data@);
        }
    } else {
        out.push(0x4eu8);
        let mut tmp = u32_to_le_bytes(data.len() as u32);
        out.append(&mut tmp);
        enc_bytes(out, data);
        proof {
            assert(old(out)@ + spec_push(data@) =~= old(out)@.push(0x4eu8) + spec_u32_to_le_bytes(
                data@.len() as u32,
            ) + data@);
        }
    }
}

// ---------------------------------------------------------------------------
// Canonical lock scripts
// ---------------------------------------------------------------------------

/// `<pubkey> OP_CHECKSIG`
pub open spec fn spec_p2pk_script(pk: Seq<u8>) -> Seq<u8> {
    spec_push(pk) + seq![0xacu8]
}

/// `OP_DUP OP_HASH160 <20-byte hash> OP_EQUALVERIFY OP_CHECKSIG`
pub open spec fn spec_p2pkh_script(h: Seq<u8>) -> Seq<u8> {
    seq![0x76u8, 0xa9u8, 0x14u8] + h + seq![0x88u8, 0xacu8]
}

/// `OP_HASH160 <20-byte hash> OP_EQUAL`
pub open spec fn spec_p2sh_script(h: Seq<u8>) -> Seq<u8> {
    seq![0xa9u8, 0x14u8] + h + seq![0x87u8]
}

/// `OP_0 <20-byte hash>`: version-0 witness program over a pubkey hash.
pub open spec fn spec_p2wpkh_script(h: Seq<u8>) -> Seq<u8> {
    seq![0x00u8, 0x14u8] + h
}

/// `OP_0 <32-byte hash>`: version-0 witness program over a script hash.
pub open spec fn spec_p2wsh_script(h: Seq<u8>) -> Seq<u8> {
    seq![0x00u8, 0x20u8] + h
}

/// `OP_1 <32-byte x-only key>`: version-1 witness program.
pub open spec fn spec_p2tr_script(x: Seq<u8>) -> Seq<u8> {
    seq![0x51u8, 0x20u8] + x
}

/// The BIP143 script code spent by a P2WPKH input: the P2PKH-style script
/// over the same pubkey hash.
pub open spec fn spec_p2wpkh_script_code(h: Seq<u8>) -> Seq<u8> {
    spec_p2pkh_script(h)
}

pub fn build_p2pk_script(pk: &Vec<u8>) -> (r: Vec<u8>)
    requires
        pk@.len() <= MAX_LEN,
    ensures
        r@ == spec_p2pk_script(pk@),
{
    let mut out: Vec<u8> = Vec::new();
    push_bytes(&mut out, pk);
    out.push(0xacu8);
    proof {
        assert(out@ =~= spec_p2pk_script(pk@));
    }
    out
}

pub fn build_p2pkh_script(h: &Vec<u8>) -> (r: Vec<u8>)
    ensures
        r@ == spec_p2pkh_script(h@),
{
    let mut out: Vec<u8> = Vec::new();
    out.push(0x76u8);
    out.push(0xa9u8);
    out.push(0x14u8);
    enc_bytes(&mut out, h);
    out.push(0x88u8);
    out.push(0xacu8);
    proof {
        assert(out@ =~= spec_p2pkh_script(h@));
    }
    out
}

pub fn build_p2sh_script(h: &Vec<u8>) -> (r: Vec<u8>)
    ensures
        r@ == spec_p2sh_script(h@),
{
    let mut out: Vec<u8> = Vec::new();
    out.push(0xa9u8);
    out.push(0x14u8);
    enc_bytes(&mut out, h);
    out.push(0x87u8);
    proof {
        assert(out@ =~= spec_p2sh_script(h@));
    }
    out
}

pub fn build_p2wpkh_script(h: &Vec<u8>) -> (r: Vec<u8>)
    ensures
        r@ == spec_p2wpkh_script(h@),
{
    let mut out: Vec<u8> = Vec::new();
    out.push(0x00u8);
    out.push(0x14u8);
    enc_bytes(&mut out, h);
    proof {
        assert(out@ =~= spec_p2wpkh_script(h@));
    }
    out
}

pub fn build_p2wsh_script(h: &Vec<u8>) -> (r: Vec<u8>)
    ensures
        r@ == spec_p2wsh_script(h@),
{
    let mut out: Vec<u8> = Vec::new();
    out.push(0x00u8);
    out.push(0x20u8);
    enc_bytes(&mut out, h);
    proof {
        assert(out@ =~= spec_p2wsh_script(h@));
    }
    out
}

pub fn build_p2tr_script(x: &Vec<u8>) -> (r: Vec<u8>)
    ensures
        r@ == spec_p2tr_script(x@),
{
    let mut out: Vec<u8> = Vec::new();
    out.push(0x51u8);
    out.push(0x20u8);
    enc_bytes(&mut out, x);
    proof {
        assert(out@ =~= spec_p2tr_script(x@));
    }
    out
}

// ---------------------------------------------------------------------------
// Deterministic corruption and the BIP34 prefix
// ---------------------------------------------------------------------------

/// Deterministic corruption of a byte run: every byte is flipped with
/// `0xaa`, and while the length bound allows it an `OP_1` byte is appended.
/// The result always differs from the input and stays within bounds.
pub open spec fn spec_corrupt_bytes(b: Seq<u8>) -> Seq<u8> {
    if b.len() < MAX_LEN {
        Seq::new(b.len(), |i: int| b[i] ^ 0xaa).push(0x51u8)
    } else {
        Seq::new(b.len(), |i: int| b[i] ^ 0xaa)
    }
}

/// Corruption changes the bytes and respects the length bound.
pub proof fn lemma_corrupt_differs(b: Seq<u8>)
    requires
        b.len() <= MAX_LEN,
    ensures
        spec_corrupt_bytes(b) != b,
        spec_corrupt_bytes(b).len() <= MAX_LEN,
{
    if b.len() < MAX_LEN {
        assert(spec_corrupt_bytes(b).len() != b.len());
    } else {
        let c = spec_corrupt_bytes(b);
        assert(c[0] == b[0] ^ 0xaa);
        let x = b[0];
        assert(x ^ 0xaa != x) by (bit_vector);
    }
}

/// Applies `spec_corrupt_bytes` to a script or witness element.
pub fn corrupt_script(b: &Vec<u8>) -> (r: Vec<u8>)
    requires
        b@.len() <= MAX_LEN,
    ensures
        r@ == spec_corrupt_bytes(b@),
{
    let mut out: Vec<u8> = Vec::new();
    let mut i: usize = 0;
    while i < b.len()
        invariant
            i <= b@.len(),
            out@.len() == i,
            forall|j: int| 0 <= j < i ==> #[trigger] out@[j] == (b@[j] ^ 0xaa),
        decreases b@.len() - i,
    {
        out.push(b[i] ^ 0xaa);
        i = i + 1;
    }
    if b.len() < MAX_LEN {
        out.push(0x51u8);
        proof {
            assert(out@ =~= spec_corrupt_bytes(b@));
        }
    } else {
        proof {
            assert(out@ =~= spec_corrupt_bytes(b@));
        }
    }
    out
}

/// The BIP34 coinbase prefix: the height as a minimal CompactSize run,
/// followed by the original unlocking script.
pub open spec fn spec_prepend_bip34(script: Seq<u8>, height: u32) -> Seq<u8> {
    spec_enc_varint(height as u64) + script
}

/// Prefixes an unlocking script with the BIP34 height encoding.
pub fn prepend_bip34_height(script: &Vec<u8>, height: u32) -> (r: Vec<u8>)
    ensures
        r@ == spec_prepend_bip34(script@, height),
{
    let mut out: Vec<u8> = Vec::new();
    enc_varint(&mut out, height as u64);
    enc_bytes(&mut out, script);
    proof {
        assert(out@ =~= spec_prepend_bip34(script@, height));
    }
    out
}

} // verus!
