//! Breaking: flag parsing, the transaction and block invalidators, the
//! locality of mutations, and the empty-flags sentinel.

use misfit_core::api::Generator;
use misfit_core::block_breakers::{BlockField, BlockProcessor, ProcessingConfig};
use misfit_core::breakers::{invalidate_output_in_place, InvalidationFlag,
    TransactionInvalidator};
use misfit_core::decoder::{BitcoinTransactionDecoder, BlockUtils};
use misfit_core::generator::{GenerateTx, TxParams};
use misfit_core::transaction::TxOutput;

const VALID_RAW_TX: &str = "4f6e3b7201e8370e51a135fb8e468e8188ea580b5a6c74a92b5cab5af2785bd307297be9a808e47956006b6b5dbe0118a478e14edc0b651976a9148840c86761418aa78e7667e8e7e427c4e955989588ac59500852";

const VALID_HEADER: &str = "02000000de9ca7b23a61cc050a2286af1ee9a4f2fc31b3eb32adbf7b030000000000000064580288f07b0bf1670dad42dbd8aa8c0cd283ff61515f8a8e9cf4f3b973d450f475b2526eba0419869a148f";

fn strings(v: &[&str]) -> Vec<String> {
    v.iter().map(|s| s.to_string()).collect()
}

#[test]
fn test_parse_cli_flags_to_invalidation_flags() {
    let flags = strings(&["--version", "--txid", "--amount"]);
    let result = Generator::parse_cli_flags_to_invalidation_flags(flags);
    assert_eq!(result.len(), 3);
    assert!(result.contains(&InvalidationFlag::Version));
    assert!(result.contains(&InvalidationFlag::InputTxid));
    assert!(result.contains(&InvalidationFlag::OutputAmount));
}

#[test]
fn test_parse_cli_flags_with_all_flag() {
    let flags = strings(&["--all"]);
    let result = Generator::parse_cli_flags_to_invalidation_flags(flags);
    assert_eq!(result.len(), 1);
    assert!(result.contains(&InvalidationFlag::All));
}

#[test]
fn test_parse_cli_flags_with_unknown_flag() {
    let flags = strings(&["--version", "--unknown-flag", "--txid"]);
    let result = Generator::parse_cli_flags_to_invalidation_flags(flags);
    assert_eq!(result.len(), 2);
    assert!(result.contains(&InvalidationFlag::Version));
    assert!(result.contains(&InvalidationFlag::InputTxid));
}

#[test]
fn test_parse_cli_flags_to_block_fields() {
    let flags = strings(&["--version", "--prev-hash", "--nonce"]);
    let result = Generator::parse_cli_flags_to_block_fields(flags);
    assert_eq!(result.len(), 3);
    assert!(result.contains(&BlockField::Version));
    assert!(result.contains(&BlockField::PrevBlockHash));
    assert!(result.contains(&BlockField::Nonce));
}

#[test]
fn test_parse_cli_config_to_processing_config() {
    let cli_config = strings(&["--version-override=2", "--timestamp-offset=3600", "--zero-hashes"]);
    let fields = vec![BlockField::Version];
    let result = Generator::parse_cli_config_to_processing_config(cli_config, fields);
    assert_eq!(result.version_override, Some(2));
    assert_eq!(result.timestamp_offset, Some(3600));
    assert_eq!(result.randomize_hashes, false);
    assert_eq!(result.fields_to_modify.len(), 1);
}

#[test]
fn test_parse_cli_config_with_invalid_values() {
    let cli_config = strings(&["--version-override=invalid", "--timestamp-offset=not-a-number"]);
    let fields = vec![];
    let result = Generator::parse_cli_config_to_processing_config(cli_config, fields);
    assert_eq!(result.version_override, None);
    assert_eq!(result.timestamp_offset, None);
    assert_eq!(result.randomize_hashes, true);
}

#[test]
fn test_empty_cli_flags() {
    let flags: Vec<String> = vec![];
    let result = Generator::parse_cli_flags_to_invalidation_flags(flags);
    assert!(result.is_empty());
}

#[test]
fn test_empty_block_flags() {
    let flags: Vec<String> = vec![];
    let result = Generator::parse_cli_flags_to_block_fields(flags);
    assert!(result.is_empty());
}

#[test]
fn test_processing_config_defaults() {
    let cli_config: Vec<String> = vec![];
    let fields = vec![];
    let result = Generator::parse_cli_config_to_processing_config(cli_config, fields);
    assert_eq!(result.version_override, None);
    assert_eq!(result.timestamp_offset, None);
    assert_eq!(result.randomize_hashes, true);
    assert!(result.fields_to_modify.is_empty());
}

#[test]
fn test_all_transaction_invalidation_flags() {
    let flags = strings(&[
        "--version",
        "--txid",
        "--vout",
        "--script-sig",
        "--sequence",
        "--amount",
        "--script-pubkey",
        "--witness",
        "--locktime",
    ]);
    let result = Generator::parse_cli_flags_to_invalidation_flags(flags);
    assert_eq!(result.len(), 9);
    assert!(result.contains(&InvalidationFlag::Version));
    assert!(result.contains(&InvalidationFlag::InputTxid));
    assert!(result.contains(&InvalidationFlag::InputVout));
    assert!(result.contains(&InvalidationFlag::InputScriptSig));
    assert!(result.contains(&InvalidationFlag::InputSequence));
    assert!(result.contains(&InvalidationFlag::OutputAmount));
    assert!(result.contains(&InvalidationFlag::OutputScriptPubKey));
    assert!(result.contains(&InvalidationFlag::WitnessData));
    assert!(result.contains(&InvalidationFlag::Locktime));
}

#[test]
fn test_all_block_fields() {
    let flags = strings(&[
        "--version",
        "--prev-hash",
        "--merkle-root",
        "--timestamp",
        "--bits",
        "--nonce",
    ]);
    let result = Generator::parse_cli_flags_to_block_fields(flags);
    assert_eq!(result.len(), 6);
    assert!(result.contains(&BlockField::Version));
    assert!(result.contains(&BlockField::PrevBlockHash));
    assert!(result.contains(&BlockField::MerkleRoot));
    assert!(result.contains(&BlockField::Timestamp));
    assert!(result.contains(&BlockField::Bits));
    assert!(result.contains(&BlockField::Nonce));
}

#[test]
fn test_break_transaction_with_valid_data() {
    let tx_result = Generator::transaction(1);
    let cli_flags = strings(&["--version"]);
    let result = Generator::break_transaction(tx_result.clone(), cli_flags);
    assert!(result != tx_result);
}

#[test]
fn test_break_transaction_with_no_flags() {
    let raw_tx = VALID_RAW_TX.to_string();
    let cli_flags = vec![];
    let result = Generator::break_transaction(raw_tx, cli_flags);
    assert!(result.contains("No invalidation flags specified"));
    assert!(result.contains("Use 'help' for usage information"));
}

#[test]
fn test_break_block_with_no_flags() {
    let block_header = VALID_HEADER.to_string();
    let cli_flags = vec![];
    let cli_config = vec![];
    let result = Generator::break_block(block_header, cli_flags, cli_config);
    assert!(result.contains("No invalidation flags specified"));
    assert!(result.contains("Use 'help' for usage information"));
}

#[test]
fn test_invalidator_locality_three_fields() {
    // Only the requested fields change; everything else is byte-identical.
    let decoder = BitcoinTransactionDecoder::new();
    let tx = decoder.decode_hex(VALID_RAW_TX).unwrap();
    let flags = vec![InvalidationFlag::Version, InvalidationFlag::OutputAmount];
    let broken = TransactionInvalidator::invalidate(tx.clone(), &flags);
    assert_ne!(broken.version, tx.version);
    assert_eq!(broken.lock_time, tx.lock_time);
    assert_eq!(broken.input.len(), tx.input.len());
    for (b, o) in broken.input.iter().zip(tx.input.iter()) {
        assert_eq!(b, o);
    }
    for (b, o) in broken.output.iter().zip(tx.output.iter()) {
        assert_ne!(b.value, o.value);
        assert_eq!(b.value, u64::MAX - o.value);
        assert_eq!(b.script_pubkey, o.script_pubkey);
    }
}

#[test]
fn test_invalidator_version_flip() {
    let decoder = BitcoinTransactionDecoder::new();
    let tx = decoder.decode_hex(VALID_RAW_TX).unwrap();
    let flags = vec![InvalidationFlag::Version];
    let broken = TransactionInvalidator::invalidate(tx.clone(), &flags);
    assert_eq!(broken.version, tx.version ^ 0x8000_0000);
}

#[test]
fn test_invalidator_all_changes_every_field() {
    let tx = GenerateTx::valid_random(TxParams::default()).unwrap();
    let flags = vec![InvalidationFlag::All];
    let broken = TransactionInvalidator::invalidate(tx.clone(), &flags);
    assert_ne!(broken.version, tx.version);
    assert_ne!(broken.lock_time, tx.lock_time);
    for (b, o) in broken.input.iter().zip(tx.input.iter()) {
        assert_ne!(b.prev_txid, o.prev_txid);
        assert_ne!(b.prev_vout, o.prev_vout);
        assert_ne!(b.script_sig, o.script_sig);
        assert_ne!(b.sequence, o.sequence);
        assert_ne!(b.witness, o.witness);
    }
    for (b, o) in broken.output.iter().zip(tx.output.iter()) {
        assert_ne!(b.value, o.value);
        assert_ne!(b.script_pubkey, o.script_pubkey);
    }
}

#[test]
fn test_invalidated_transaction_still_serializes() {
    let decoder = BitcoinTransactionDecoder::new();
    let tx = decoder.decode_hex(VALID_RAW_TX).unwrap();
    let flags = vec![InvalidationFlag::All];
    let broken = TransactionInvalidator::invalidate(tx, &flags);
    let bytes = misfit_core::transaction::encode_tx(&broken);
    let btx: bitcoin::Transaction = bitcoin::consensus::encode::deserialize(&bytes).unwrap();
    assert_eq!(bitcoin::consensus::encode::serialize(&btx), bytes);
}

#[test]
fn test_invalidate_output_in_place_amount() {
    let mut out = TxOutput {
        value: 1234,
        script_pubkey: vec![0x51],
    };
    let flags = vec![InvalidationFlag::OutputAmount];
    invalidate_output_in_place(&mut out, &flags, false);
    assert_eq!(out.value, u64::MAX - 1234);
    assert_eq!(out.script_pubkey, vec![0x51]);
}

#[test]
fn test_block_processor_overrides() {
    let header = BlockUtils::decode_header_from_hex(VALID_HEADER).unwrap();
    let block = BlockUtils::create_minimal_block_from_header(header.clone());
    let processor = BlockProcessor::new(ProcessingConfig {
        fields_to_modify: vec![BlockField::Version, BlockField::Timestamp],
        version_override: Some(7),
        timestamp_offset: Some(3600),
        randomize_hashes: true,
    });
    let broken = processor.process_block(&block);
    assert_eq!(broken.header.version, 7);
    assert_eq!(broken.header.time, header.time.wrapping_add(3600));
    assert_eq!(broken.header.prev_blockhash, header.prev_blockhash);
    assert_eq!(broken.header.merkle_root, header.merkle_root);
    assert_eq!(broken.header.bits, header.bits);
    assert_eq!(broken.header.nonce, header.nonce);
}

#[test]
fn test_block_processor_zero_hashes() {
    let header = BlockUtils::decode_header_from_hex(VALID_HEADER).unwrap();
    let block = BlockUtils::create_minimal_block_from_header(header.clone());
    let processor = BlockProcessor::new(ProcessingConfig {
        fields_to_modify: vec![BlockField::PrevBlockHash, BlockField::MerkleRoot],
        version_override: None,
        timestamp_offset: None,
        randomize_hashes: false,
    });
    let broken = processor.process_block(&block);
    assert_eq!(broken.header.prev_blockhash, vec![0u8; 32]);
    assert_eq!(broken.header.merkle_root, vec![0u8; 32]);
    assert_eq!(broken.header.version, header.version);
}

#[test]
fn test_block_processor_all_fields_differ() {
    let header = BlockUtils::decode_header_from_hex(VALID_HEADER).unwrap();
    let block = BlockUtils::create_minimal_block_from_header(header.clone());
    let processor = BlockProcessor::new(ProcessingConfig {
        fields_to_modify: vec![BlockField::All],
        version_override: None,
        timestamp_offset: None,
        randomize_hashes: true,
    });
    let broken = processor.process_block(&block);
    assert_ne!(broken.header.version, header.version);
    assert_ne!(broken.header.prev_blockhash, header.prev_blockhash);
    assert_ne!(broken.header.merkle_root, header.merkle_root);
    assert_ne!(broken.header.time, header.time);
    assert_ne!(broken.header.bits, header.bits);
    assert_ne!(broken.header.nonce, header.nonce);
}

#[test]
fn test_invalidation_flag_from_str() {
    assert_eq!(InvalidationFlag::from_str("version"), Ok(InvalidationFlag::Version));
    assert_eq!(InvalidationFlag::from_str("VeRsIoN"), Ok(InvalidationFlag::Version));
    assert_eq!(InvalidationFlag::from_str("input-txid"), Ok(InvalidationFlag::InputTxid));
    assert_eq!(InvalidationFlag::from_str("txid"), Ok(InvalidationFlag::InputTxid));
    assert_eq!(InvalidationFlag::from_str("script-sig"), Ok(InvalidationFlag::InputScriptSig));
    assert_eq!(InvalidationFlag::from_str("amount"), Ok(InvalidationFlag::OutputAmount));
    assert_eq!(InvalidationFlag::from_str("WITNESS"), Ok(InvalidationFlag::WitnessData));
    assert_eq!(InvalidationFlag::from_str("all"), Ok(InvalidationFlag::All));
    assert_eq!(InvalidationFlag::from_str("bogus"), Err(()));
}

#[test]
fn test_break_block_reports_fields() {
    let result = Generator::break_block(
        VALID_HEADER.to_string(),
        strings(&["--nonce"]),
        strings(&[]),
    );
    assert!(result.contains("Breaking the following block fields:"));
    assert!(result.contains("  - Nonce"));
    assert!(result.contains("Original Block Header:"));
    assert!(result.contains("Broken Block Header:"));
}
