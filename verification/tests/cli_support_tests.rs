//! The flag-structure to token translation used by the command line.

use misfit_core::cli_support::{build_block_flags_and_config, build_transaction_flags_vector,
    BlockFlagsConfig, TransactionFlags};

fn no_tx_flags() -> TransactionFlags {
    TransactionFlags {
        version: false,
        txid: false,
        vout: false,
        script_sig: false,
        sequence: false,
        amount: false,
        script_pubkey: false,
        witness: false,
        locktime: false,
        all: false,
    }
}

fn no_block_flags() -> BlockFlagsConfig {
    BlockFlagsConfig {
        version: false,
        prev_hash: false,
        merkle_root: false,
        timestamp: false,
        bits: false,
        nonce: false,
        all: false,
        version_override: None,
        timestamp_offset: None,
        zero_hashes: false,
    }
}

#[test]
fn test_build_transaction_flags_all_wins() {
    let mut f = no_tx_flags();
    f.version = true;
    f.all = true;
    let tokens = build_transaction_flags_vector(f);
    assert_eq!(tokens, vec!["--all".to_string()]);
}

#[test]
fn test_build_transaction_flags_order() {
    let mut f = no_tx_flags();
    f.version = true;
    f.amount = true;
    f.locktime = true;
    let tokens = build_transaction_flags_vector(f);
    assert_eq!(
        tokens,
        vec![
            "--version".to_string(),
            "--amount".to_string(),
            "--locktime".to_string()
        ]
    );
}

#[test]
fn test_build_transaction_flags_empty() {
    let tokens = build_transaction_flags_vector(no_tx_flags());
    assert!(tokens.is_empty());
}

#[test]
fn test_build_block_flags_and_config_tokens() {
    let mut f = no_block_flags();
    f.prev_hash = true;
    f.nonce = true;
    f.version_override = Some(-5);
    f.timestamp_offset = Some(3600);
    f.zero_hashes = true;
    let (flags, config) = build_block_flags_and_config(f);
    assert_eq!(flags, vec!["--prev-hash".to_string(), "--nonce".to_string()]);
    assert_eq!(
        config,
        vec![
            "--version-override=-5".to_string(),
            "--timestamp-offset=3600".to_string(),
            "--zero-hashes".to_string()
        ]
    );
}

#[test]
fn test_build_block_flags_all_wins() {
    let mut f = no_block_flags();
    f.bits = true;
    f.all = true;
    let (flags, config) = build_block_flags_and_config(f);
    assert_eq!(flags, vec!["--all".to_string()]);
    assert!(config.is_empty());
}

#[test]
fn test_flag_round_trip_through_parser() {
    // Tokens built from switches parse back to the matching flags.
    let mut f = no_tx_flags();
    f.txid = true;
    f.witness = true;
    let tokens = build_transaction_flags_vector(f);
    let parsed = misfit_core::api::Generator::parse_cli_flags_to_invalidation_flags(tokens);
    assert_eq!(parsed.len(), 2);
    assert!(parsed.contains(&misfit_core::breakers::InvalidationFlag::InputTxid));
    assert!(parsed.contains(&misfit_core::breakers::InvalidationFlag::WitnessData));
}
