//! Decoding of hex input into typed transactions, headers and blocks, and
//! the matching encoders back to hex.

use crate::block::{decode_block, spec_decode_block, spec_wf_block, Block};
use crate::encoding::DecodeError;
use crate::header::{decode_header, encode_header, spec_decode_header, spec_enc_header,
    spec_wf_header, Header};
use crate::hexstr::{clean_hex_chars, encode_hex, hex_chars_to_bytes, spec_clean_hex,
    spec_hex_decode, spec_hex_of, str_to_chars};
use crate::transaction::{spec_wf_tx, Transaction};
use crate::tx_parse::{decode_tx, spec_decode_tx};
use vstd::prelude::*;

verus! {

/// Decodes raw transactions from hex text or bytes.
#[derive(Default)]
pub struct BitcoinTransactionDecoder;

impl BitcoinTransactionDecoder {
    pub fn new() -> (r: Self) {
        BitcoinTransactionDecoder
    }

    /// Decodes a transaction from hex text: the input is trimmed, interior
    /// spaces are dropped, digits of either case are accepted, and the
    /// resulting bytes must be exactly one transaction serialization.
    pub fn decode_hex(&self, hex_string: &str) -> (r: Result<Transaction, DecodeError>)
        ensures
            ({
                let digits = spec_clean_hex(hex_string@);
                match r {
                    Ok(tx) => spec_hex_decode(digits) matches Some(b) && spec_decode_tx(b)
                        == Some(tx@) && spec_wf_tx(tx@),
                    Err(e) => (e == DecodeError::InvalidHex && spec_hex_decode(digits) is None)
                        || (e == DecodeError::Malformed && (spec_hex_decode(digits) matches Some(
                        b,
                    ) && spec_decode_tx(b) is None)),
                }
            }),
    {
        let cleaned = clean_hex_chars(hex_string);
        let bytes = match hex_chars_to_bytes(&cleaned) {
            Ok(b) => b,
            Err(e) => { return Err(e); },
        };
        self.decode_bytes(bytes.as_slice())
    }

    /// Decodes a transaction from raw bytes, which must be exactly one
    /// transaction serialization.
    pub fn decode_bytes(&self, bytes: &[u8]) -> (r: Result<Transaction, DecodeError>)
        ensures
            match r {
                Ok(tx) => spec_decode_tx(bytes@) == Some(tx@) && spec_wf_tx(tx@),
                Err(e) => spec_decode_tx(bytes@) is None && e == DecodeError::Malformed,
            },
    {
        decode_tx(bytes)
    }

    /// Whether any input of the transaction carries witness data.
    pub fn has_witness_data(&self, tx: &Transaction) -> (r: bool)
        ensures
            r == crate::transaction::spec_has_witness(tx@),
    {
        crate::transaction::tx_has_witness(tx)
    }

    /// The segwit marker and flag bytes the transaction serializes with.
    pub fn get_segwit_flags(&self, tx: &Transaction) -> (r: (u8, u8))
        ensures
            r == (if crate::transaction::spec_has_witness(tx@) {
                (0x00u8, 0x01u8)
            } else {
                (0x00u8, 0x00u8)
            }),
    {
        if crate::transaction::tx_has_witness(tx) {
            (0x00u8, 0x01u8)
        } else {
            (0x00u8, 0x00u8)
        }
    }
}

/// Encoding a well-formed header to hex and decoding the digits gives the
/// header back: the hex-level round trip behind `encode_header_to_hex` and
/// `decode_header_from_hex`.
pub proof fn lemma_header_hex_round_trip(h: crate::header::HeaderV)
    requires
        spec_wf_header(h),
    ensures
        spec_hex_decode(spec_hex_of(spec_enc_header(h))) == Some(spec_enc_header(h)),
        spec_enc_header(h).len() == 80,
        spec_decode_header(spec_enc_header(h)) == Some(h),
{
    crate::hexstr::lemma_hex_round_trip(spec_enc_header(h));
    crate::header::lemma_enc_header_len(h);
    crate::header::lemma_header_round_trip(h);
}

/// Header and block level decoding utilities.
pub struct BlockUtils;

impl BlockUtils {
    /// Decodes a block header from hex: the digits must decode to exactly
    /// 80 bytes, and 80 bytes always form a header.
    pub fn decode_header_from_hex(hex_string: &str) -> (r: Result<Header, DecodeError>)
        ensures
            match r {
                Ok(h) => spec_hex_decode(hex_string@) matches Some(b) && b.len() == 80
                    && spec_decode_header(b) == Some(h@) && spec_wf_header(h@),
                Err(e) => (e == DecodeError::InvalidHex && spec_hex_decode(hex_string@) is None)
                    || (e == DecodeError::InvalidLength && (spec_hex_decode(hex_string@)
                    matches Some(b) && b.len() != 80)),
            },
    {
        let cs = str_to_chars(hex_string);
        let bytes = match hex_chars_to_bytes(&cs) {
            Ok(b) => b,
            Err(e) => { return Err(e); },
        };
        if bytes.len() != 80 {
            return Err(DecodeError::InvalidLength);
        }
        match decode_header(bytes.as_slice()) {
            Ok(h) => Ok(h),
            Err(_) => {
                proof {
                    crate::header::lemma_parse_header_total(bytes@);
                    assert(false);
                }
                Err(DecodeError::InvalidLength)
            },
        }
    }

    /// Decodes a whole block from hex.
    pub fn decode_block_from_hex(hex_string: &str) -> (r: Result<Block, DecodeError>)
        ensures
            match r {
                Ok(b) => spec_hex_decode(hex_string@) matches Some(bs) && spec_decode_block(bs)
                    == Some(b@) && spec_wf_block(b@),
                Err(e) => (e == DecodeError::InvalidHex && spec_hex_decode(hex_string@) is None)
                    || (e == DecodeError::Malformed && (spec_hex_decode(hex_string@)
                    matches Some(bs) && spec_decode_block(bs) is None)),
            },
    {
        let cs = str_to_chars(hex_string);
        let bytes = match hex_chars_to_bytes(&cs) {
            Ok(b) => b,
            Err(e) => { return Err(e); },
        };
        decode_block(bytes.as_slice())
    }

    /// Wraps a decoded header in a block with no transactions, for
    /// processing that expects a block-shaped value.
    pub fn create_minimal_block_from_header(header: Header) -> (r: Block)
        ensures
            r@.header == header@,
            r@.txdata.len() == 0,
    {
        let b = Block { header: header, txdata: Vec::new() };
        proof {
            assert(b@.txdata =~~= Seq::<crate::transaction::TransactionV>::empty());
        }
        b
    }

    /// The 160 lowercase hex digits of a header's 80 wire bytes.
    pub fn encode_header_to_hex(header: &Header) -> (r: String)
        requires
            spec_wf_header(header@),
        ensures
            r@ == spec_hex_of(spec_enc_header(header@)),
    {
        let bytes = encode_header(header);
        encode_hex(&bytes)
    }
}

} // verus!
