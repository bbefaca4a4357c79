//! Decoding: transactions and headers from hex, the 80-byte header length
//! rule, hex cleaning, and the encode/decode round trips.

use misfit_core::api::Generator;
use misfit_core::decoder::{BitcoinTransactionDecoder, BlockUtils};
use misfit_core::encoding::DecodeError;
use misfit_core::generator::{GenerateTx, TxParams};
use misfit_core::transaction::encode_tx;
use misfit_core::block_gen::TxMerkleNode;
use misfit_core::txid::compute_txid;
use misfit_core::hexstr::encode_hex;

const VALID_RAW_TX: &str = "4f6e3b7201e8370e51a135fb8e468e8188ea580b5a6c74a92b5cab5af2785bd307297be9a808e47956006b6b5dbe0118a478e14edc0b651976a9148840c86761418aa78e7667e8e7e427c4e955989588ac59500852";

const VALID_HEADER: &str = "00e0de23a528751ac3a3e02d8368dce7d902c1cb6561184d735b0700000000000000000023f401455373d8e00c0fef0402b2a9bf45a69ba1a0da0a6175ba571d633fe74c27bdaf6390f50717614aaf14";

#[test]
fn test_decode_raw_transaction_with_valid_data() {
    let result = Generator::decode_raw_transaction(VALID_RAW_TX.to_string());
    assert!(result.is_ok());
}

#[test]
fn test_decoder_block_header_with_valid_data() {
    let result = Generator::decoder_block_header(VALID_HEADER.to_string());
    assert!(result.is_ok());
}

#[test]
fn test_header_wrong_length_rejected() {
    // 78 bytes decoded: two digits short of a header.
    let short = &VALID_HEADER[..VALID_HEADER.len() - 4];
    let result = Generator::decoder_block_header(short.to_string());
    assert_eq!(result.unwrap_err(), DecodeError::InvalidLength);
}

#[test]
fn test_header_bad_hex_rejected() {
    let result = Generator::decoder_block_header("zz00".to_string());
    assert_eq!(result.unwrap_err(), DecodeError::InvalidHex);
}

#[test]
fn test_decode_hex_accepts_whitespace_and_case() {
    let decoder = BitcoinTransactionDecoder::new();
    let spaced = format!("  {} ", VALID_RAW_TX.to_uppercase().replace("88AC", "88AC "));
    let a = decoder.decode_hex(&spaced).unwrap();
    let b = decoder.decode_hex(VALID_RAW_TX).unwrap();
    assert_eq!(a, b);
}

#[test]
fn test_decode_hex_odd_length_rejected() {
    let decoder = BitcoinTransactionDecoder::new();
    let odd = &VALID_RAW_TX[..VALID_RAW_TX.len() - 1];
    assert_eq!(decoder.decode_hex(odd).unwrap_err(), DecodeError::InvalidHex);
}

#[test]
fn test_decode_bytes_truncated_rejected() {
    let decoder = BitcoinTransactionDecoder::new();
    let tx = GenerateTx::valid_random(TxParams::default()).unwrap();
    let bytes = encode_tx(&tx);
    let truncated = &bytes[..bytes.len() - 1];
    assert_eq!(decoder.decode_bytes(truncated).unwrap_err(), DecodeError::Malformed);
}

#[test]
fn test_decode_bytes_trailing_garbage_rejected() {
    let decoder = BitcoinTransactionDecoder::new();
    let tx = GenerateTx::valid_random(TxParams::default()).unwrap();
    let mut bytes = encode_tx(&tx);
    bytes.push(0x00);
    assert_eq!(decoder.decode_bytes(&bytes).unwrap_err(), DecodeError::Malformed);
}

#[test]
fn test_decode_matches_original_transaction() {
    let decoder = BitcoinTransactionDecoder::new();
    let tx = GenerateTx::valid_random(TxParams::default()).unwrap();
    let hex = encode_hex(&encode_tx(&tx));
    let decoded = decoder.decode_hex(&hex).unwrap();
    assert_eq!(decoded, tx);
}

#[test]
fn test_segwit_flags() {
    let decoder = BitcoinTransactionDecoder::new();
    let legacy = decoder.decode_hex(VALID_RAW_TX).unwrap();
    assert!(!decoder.has_witness_data(&legacy));
    assert_eq!(decoder.get_segwit_flags(&legacy), (0x00, 0x00));
}

#[test]
fn test_header_hex_round_trip() {
    let header = BlockUtils::decode_header_from_hex(VALID_HEADER).unwrap();
    let hex = BlockUtils::encode_header_to_hex(&header);
    assert_eq!(hex, VALID_HEADER);
    let again = BlockUtils::decode_header_from_hex(&hex).unwrap();
    assert_eq!(again, header);
}

#[test]
fn test_header_fields_match_reference_decoder() {
    let header = BlockUtils::decode_header_from_hex(VALID_HEADER).unwrap();
    let bytes = hex::decode(VALID_HEADER).unwrap();
    let bheader: bitcoin::block::Header = bitcoin::consensus::encode::deserialize(&bytes).unwrap();
    assert_eq!(header.version as i32, bheader.version.to_consensus());
    assert_eq!(header.time, bheader.time);
    assert_eq!(header.bits, bheader.bits.to_consensus());
    assert_eq!(header.nonce, bheader.nonce);
}

#[test]
fn test_create_minimal_block_from_header() {
    let header = BlockUtils::decode_header_from_hex(VALID_HEADER).unwrap();
    let block = BlockUtils::create_minimal_block_from_header(header.clone());
    assert_eq!(block.header, header);
    assert!(block.txdata.is_empty());
}

#[test]
fn test_merkle_single_decoded_tx() {
    // The merkle root over one decoded transaction is that transaction's id.
    let decoder = BitcoinTransactionDecoder::new();
    let tx = decoder.decode_hex(VALID_RAW_TX).unwrap();
    let expected = compute_txid(&tx);
    let root = TxMerkleNode::from_transactions(&vec![tx]);
    assert_eq!(root, expected);
}

#[test]
fn test_decode_block_from_hex_round_trip() {
    let (block, _) = misfit_core::block_gen::GenerateBlock::valid_random(
        misfit_core::block_gen::BlockParams::default(),
    )
    .unwrap();
    let hex = encode_hex(&misfit_core::block::encode_block(&block));
    let decoded = BlockUtils::decode_block_from_hex(&hex).unwrap();
    assert_eq!(decoded, block);
}
