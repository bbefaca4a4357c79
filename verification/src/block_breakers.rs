//! The block invalidator: corruption of chosen header fields, with
//! overrides for the version and timestamp and a switch between random and
//! all-zero replacement hashes.

use crate::block::Block;
use crate::block_gen::zero_hash32;
use crate::encoding::copy_bytes;
use crate::header::{spec_wf_header, Header};
use crate::rng::{random_bytes, rng_u32_range};
use vstd::prelude::*;

verus! {

/// The header fields the block invalidator can corrupt. `All` stands for
/// every field.
#[derive(Clone, Copy, Debug, PartialEq, Eq, Structural, Hash)]
pub enum BlockField {
    Version,
    PrevBlockHash,
    MerkleRoot,
    Timestamp,
    Bits,
    Nonce,
    All,
}

/// How the invalidator processes a block: which fields to modify, optional
/// exact overrides, and whether hash fields get random or all-zero values.
pub struct ProcessingConfig {
    pub fields_to_modify: Vec<BlockField>,
    pub version_override: Option<i32>,
    pub timestamp_offset: Option<i64>,
    pub randomize_hashes: bool,
}

/// Whether a field list switches a given mutation on.
pub open spec fn spec_field_on(fs: Seq<BlockField>, f: BlockField) -> bool {
    fs.contains(BlockField::All) || fs.contains(f)
}

/// Whether the requested field, or `All`, is present.
pub fn field_on(fields: &Vec<BlockField>, f: BlockField) -> (r: bool)
    ensures
        r == spec_field_on(fields@, f),
{
    let mut k: usize = 0;
    let mut found: bool = false;
    while k < fields.len()
        invariant
            k <= fields@.len(),
            found == exists|j: int|
                0 <= j < k && (fields@[j] == BlockField::All || fields@[j] == f),
        decreases fields@.len() - k,
    {
        let c = fields[k];
        if c == BlockField::All || c == f {
            found = true;
        }
        k = k + 1;
    }
    proof {
        if found {
            let j = choose|j: int|
                0 <= j < k && (fields@[j] == BlockField::All || fields@[j] == f);
            if fields@[j] == BlockField::All {
                assert(fields@.contains(BlockField::All));
            } else {
                assert(fields@.contains(f));
            }
        } else {
            if spec_field_on(fields@, f) {
                if fields@.contains(BlockField::All) {
                    let j = choose|j: int|
                        0 <= j < fields@.len() && fields@[j] == BlockField::All;
                    assert(false);
                } else {
                    let j = choose|j: int| 0 <= j < fields@.len() && fields@[j] == f;
                    assert(false);
                }
            }
        }
    }
    found
}

/// A supplied `i32` override reinterpreted as the unsigned consensus value
/// (two's complement truncation).
pub open spec fn spec_i32_to_u32(v: i32) -> u32 {
    v as u32
}

/// The timestamp after adding the offset: the offset truncated to 32 bits
/// and added with wraparound.
pub open spec fn spec_break_time(t: u32, o: i64) -> u32 {
    if t + (o as u32) > u32::MAX {
        (t + (o as u32) - 0x1_0000_0000) as u32
    } else {
        (t + (o as u32)) as u32
    }
}

/// A random value that always differs from the given one.
fn random_u32_differing(old_val: u32) -> (r: u32)
    ensures
        r != old_val,
{
    let x = rng_u32_range(0, 0xffff_ffff);
    if x == old_val {
        let y = x ^ 1;
        proof {
            assert(x ^ 1 != x) by (bit_vector);
        }
        y
    } else {
        x
    }
}

/// Whether two byte vectors hold the same bytes.
fn bytes_eq(a: &Vec<u8>, b: &Vec<u8>) -> (r: bool)
    ensures
        r == (a@ == b@),
{
    if a.len() != b.len() {
        proof {
            assert(a@ != b@);
        }
        return false;
    }
    let mut k: usize = 0;
    while k < a.len()
        invariant
            k <= a@.len(),
            a@.len() == b@.len(),
            forall|j: int| 0 <= j < k ==> a@[j] == b@[j],
        decreases a@.len() - k,
    {
        if a[k] != b[k] {
            proof {
                assert(a@[k as int] != b@[k as int]);
            }
            return false;
        }
        k = k + 1;
    }
    proof {
        assert(a@ =~= b@);
    }
    true
}

/// A random 32-byte hash that always differs from the given one.
fn random_hash32_differing(old_hash: &Vec<u8>) -> (r: Vec<u8>)
    requires
        old_hash@.len() == 32,
    ensures
        r@.len() == 32,
        r@ != old_hash@,
{
    let mut b = random_bytes(32);
    if bytes_eq(&b, old_hash) {
        let z = b[0] ^ 1u8;
        proof {
            let x = b@[0];
            assert(x ^ 1u8 != x) by (bit_vector);
        }
        b.set(0, z);
        proof {
            assert(b@[0] != old_hash@[0]);
        }
    }
    b
}

/// The block invalidator, configured once and applied to decoded blocks.
pub struct BlockProcessor {
    pub config: ProcessingConfig,
}

impl BlockProcessor {
    pub fn new(config: ProcessingConfig) -> (r: Self)
        ensures
            r.config.fields_to_modify@ == config.fields_to_modify@,
            r.config.version_override == config.version_override,
            r.config.timestamp_offset == config.timestamp_offset,
            r.config.randomize_hashes == config.randomize_hashes,
    {
        BlockProcessor { config }
    }

    /// Returns the header with exactly the requested fields replaced:
    /// overrides are used verbatim, other replacements are random values
    /// that always differ, and hash fields become all zeros when
    /// randomization is switched off. Fields not requested are
    /// byte-identical to the original.
    pub fn process_header(&self, h: &Header) -> (r: Header)
        requires
            spec_wf_header(h@),
        ensures
            spec_wf_header(r@),
            ({
                let fs = self.config.fields_to_modify@;
                &&& (!spec_field_on(fs, BlockField::Version) ==> r@.version == h@.version)
                &&& (spec_field_on(fs, BlockField::Version) ==> (
                match self.config.version_override {
                    Some(v) => r@.version == spec_i32_to_u32(v),
                    None => r@.version != h@.version,
                }))
                &&& (!spec_field_on(fs, BlockField::PrevBlockHash) ==> r@.prev_blockhash
                    == h@.prev_blockhash)
                &&& (spec_field_on(fs, BlockField::PrevBlockHash)
                    ==> (if self.config.randomize_hashes {
                    r@.prev_blockhash != h@.prev_blockhash
                } else {
                    r@.prev_blockhash == Seq::new(32, |j: int| 0u8)
                }))
                &&& (!spec_field_on(fs, BlockField::MerkleRoot) ==> r@.merkle_root
                    == h@.merkle_root)
                &&& (spec_field_on(fs, BlockField::MerkleRoot)
                    ==> (if self.config.randomize_hashes {
                    r@.merkle_root != h@.merkle_root
                } else {
                    r@.merkle_root == Seq::new(32, |j: int| 0u8)
                }))
                &&& (!spec_field_on(fs, BlockField::Timestamp) ==> r@.time == h@.time)
                &&& (spec_field_on(fs, BlockField::Timestamp) ==> (
                match self.config.timestamp_offset {
                    Some(o) => r@.time == spec_break_time(h@.time, o),
                    None => r@.time != h@.time,
                }))
                &&& (!spec_field_on(fs, BlockField::Bits) ==> r@.bits == h@.bits)
                &&& (spec_field_on(fs, BlockField::Bits) ==> r@.bits != h@.bits)
                &&& (!spec_field_on(fs, BlockField::Nonce) ==> r@.nonce == h@.nonce)
                &&& (spec_field_on(fs, BlockField::Nonce) ==> r@.nonce != h@.nonce)
            }),
    {
        let version: u32 = if field_on(&self.config.fields_to_modify, BlockField::Version) {
            match self.config.version_override {
                Some(v) => {
                    let u = #[verifier::truncate] (v as u32);
                    u
                },
                None => random_u32_differing(h.version),
            }
        } else {
            h.version
        };
        let prev_blockhash: Vec<u8> = if field_on(
            &self.config.fields_to_modify,
            BlockField::PrevBlockHash,
        ) {
            if self.config.randomize_hashes {
                random_hash32_differing(&h.prev_blockhash)
            } else {
                zero_hash32()
            }
        } else {
            copy_bytes(&h.prev_blockhash)
        };
        let merkle_root: Vec<u8> = if field_on(
            &self.config.fields_to_modify,
            BlockField::MerkleRoot,
        ) {
            if self.config.randomize_hashes {
                random_hash32_differing(&h.merkle_root)
            } else {
                zero_hash32()
            }
        } else {
            copy_bytes(&h.merkle_root)
        };
        let time: u32 = if field_on(&self.config.fields_to_modify, BlockField::Timestamp) {
            match self.config.timestamp_offset {
                Some(o) => {
                    let delta = #[verifier::truncate] (o as u32);
                    let t = h.time.wrapping_add(delta);
                    proof {
                        assert(t == spec_break_time(h@.time, o));
                    }
                    t
                },
                None => random_u32_differing(h.time),
            }
        } else {
            h.time
        };
        let bits: u32 = if field_on(&self.config.fields_to_modify, BlockField::Bits) {
            random_u32_differing(h.bits)
        } else {
            h.bits
        };
        let nonce: u32 = if field_on(&self.config.fields_to_modify, BlockField::Nonce) {
            random_u32_differing(h.nonce)
        } else {
            h.nonce
        };
        Header {
            version: version,
            prev_blockhash: prev_blockhash,
            merkle_root: merkle_root,
            time: time,
            bits: bits,
            nonce: nonce,
        }
    }

    /// Processes a block by corrupting its header as configured; the result
    /// is a minimal block wrapping the new header.
    pub fn process_block(&self, block: &Block) -> (r: Block)
        requires
            spec_wf_header(block@.header),
        ensures
            spec_wf_header(r@.header),
            r@.txdata.len() == 0,
            ({
                let fs = self.config.fields_to_modify@;
                &&& (!spec_field_on(fs, BlockField::Version) ==> r@.header.version
                    == block@.header.version)
                &&& (spec_field_on(fs, BlockField::Version) ==> (
                match self.config.version_override {
                    Some(v) => r@.header.version == spec_i32_to_u32(v),
                    None => r@.header.version != block@.header.version,
                }))
                &&& (!spec_field_on(fs, BlockField::PrevBlockHash) ==> r@.header.prev_blockhash
                    == block@.header.prev_blockhash)
                &&& (spec_field_on(fs, BlockField::PrevBlockHash)
                    ==> (if self.config.randomize_hashes {
                    r@.header.prev_blockhash != block@.header.prev_blockhash
                } else {
                    r@.header.prev_blockhash == Seq::new(32, |j: int| 0u8)
                }))
                &&& (!spec_field_on(fs, BlockField::MerkleRoot) ==> r@.header.merkle_root
                    == block@.header.merkle_root)
                &&& (spec_field_on(fs, BlockField::MerkleRoot)
                    ==> (if self.config.randomize_hashes {
                    r@.header.merkle_root != block@.header.merkle_root
                } else {
                    r@.header.merkle_root == Seq::new(32, |j: int| 0u8)
                }))
                &&& (!spec_field_on(fs, BlockField::Timestamp) ==> r@.header.time
                    == block@.header.time)
                &&& (spec_field_on(fs, BlockField::Timestamp) ==> (
                match self.config.timestamp_offset {
                    Some(o) => r@.header.time == spec_break_time(block@.header.time, o),
                    None => r@.header.time != block@.header.time,
                }))
                &&& (!spec_field_on(fs, BlockField::Bits) ==> r@.header.bits
                    == block@.header.bits)
                &&& (spec_field_on(fs, BlockField::Bits) ==> r@.header.bits
                    != block@.header.bits)
                &&& (!spec_field_on(fs, BlockField::Nonce) ==> r@.header.nonce
                    == block@.header.nonce)
                &&& (spec_field_on(fs, BlockField::Nonce) ==> r@.header.nonce
                    != block@.header.nonce)
            }),
    {
        let header = self.process_header(&block.header);
        let b = Block { header: header, txdata: Vec::new() };
        proof {
            assert(b@.txdata =~~= Seq::<crate::transaction::TransactionV>::empty());
        }
        b
    }
}

} // verus!
