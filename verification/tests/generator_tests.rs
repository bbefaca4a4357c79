//! Generation: transactions, witnesses per script type, blocks, the BIP141
//! commitment, and cross-checks of the serialization, txids, merkle roots
//! and signatures against the `bitcoin` and `secp256k1` crates.

use bitcoin::consensus::encode::{deserialize, serialize};
use bitcoin::hashes::Hash as BitcoinHashTrait;
use misfit_core::api::Generator;
use misfit_core::block::encode_block;
use misfit_core::block_gen::{BlockParams, GenerateBlock, HeaderParams, MerkleRootParams,
    TxMerkleNode};
use misfit_core::generator::{random_lock_time, random_script, GenerateTx, InputParams,
    OutputParams, ScriptParams, TxParams};
use misfit_core::header::Header;
use misfit_core::keys::generate_keypair;
use misfit_core::script::ScriptTypes;
use misfit_core::transaction::{encode_tx, Transaction, TxInput, TxOutput};
use misfit_core::tx_parse::decode_tx;
use misfit_core::txid::compute_txid;
use secp256k1::rand::Rng;

fn p2wpkh_tx_params() -> TxParams {
    let mut params = TxParams::default();
    params.input = Some(InputParams {
        script_params: Some(ScriptParams {
            script_type: Some(ScriptTypes::P2WPKH),
            private_key: None,
        }),
        ..Default::default()
    });
    params
}

/// Decodes one of our transactions with the bitcoin crate.
fn to_bitcoin_tx(tx: &Transaction) -> bitcoin::Transaction {
    deserialize(&encode_tx(tx)).expect("the serialization must be consensus-valid")
}

#[test]
fn test_generate_tx_valid_random() {
    let tx = GenerateTx::valid_random(TxParams::default()).unwrap();
    assert!(tx.input.iter().count() >= 1);
    assert!(tx.output.iter().count() >= 1);
}

#[test]
fn test_random_transacion() {
    let transaction = Transaction::random(TxParams::default()).unwrap();
    assert!(transaction.input.iter().count() >= 1);
    assert!(transaction.output.iter().count() >= 1);
}

#[test]
fn test_random_transacion_with_specified_version() {
    let expected_version: u32 = 2;
    let transaction = Transaction::random(TxParams {
        version: Some(expected_version),
        ..Default::default()
    })
    .unwrap();
    assert!(transaction.version.eq(&expected_version));
}

#[test]
fn test_random_transacion_with_specified_lock_time() {
    let expected_lock_time = random_lock_time();
    let transaction = Transaction::random(TxParams {
        lock_time: Some(expected_lock_time),
        ..Default::default()
    })
    .unwrap();
    assert!(transaction.lock_time.eq(&expected_lock_time));
}

#[test]
fn test_random_lock_time() {
    let locktime = random_lock_time();
    assert!(locktime < 500_000_000 || locktime >= 500_000_000);
}

#[test]
fn test_random_script() {
    let (script, _) = random_script(ScriptParams::default()).unwrap();
    assert!(!script.is_empty());
}

#[test]
fn test_random_script_with_specified_type() {
    let expected_script_type: ScriptTypes = match secp256k1::rand::thread_rng().gen_range(0..6) {
        0 => ScriptTypes::P2PK,
        1 => ScriptTypes::P2PKH,
        2 => ScriptTypes::P2SH,
        3 => ScriptTypes::P2TR,
        4 => ScriptTypes::P2TWEAKEDTR,
        5 => ScriptTypes::P2WPKH,
        _ => ScriptTypes::P2WSH,
    };
    let (_, script_type) = random_script(ScriptParams {
        script_type: Some(expected_script_type),
        private_key: None,
    })
    .unwrap();
    assert!(script_type.eq(&expected_script_type));
}

#[test]
fn test_random_input() {
    let input = TxInput::random(InputParams::default()).unwrap();
    assert!(!input.prev_txid.is_empty());
}

#[test]
fn test_random_input_with_specified_outpoint() {
    let input_tx = Transaction::random(TxParams::default()).unwrap();
    let vout = secp256k1::rand::thread_rng().gen_range(0..input_tx.output.len());
    let expected_txid = compute_txid(&input_tx);
    let input = TxInput::random(InputParams {
        outpoint: Some((expected_txid.clone(), vout as u32)),
        ..Default::default()
    })
    .unwrap();
    assert!(input.prev_txid.eq(&expected_txid) && input.prev_vout == vout as u32);
}

#[test]
fn test_random_input_with_specified_script() {
    let (expected_script, expected_script_type) = random_script(ScriptParams {
        script_type: None,
        private_key: None,
    })
    .unwrap();
    let input = TxInput::random(InputParams {
        script: Some((expected_script.clone(), expected_script_type)),
        ..Default::default()
    })
    .unwrap();
    assert!(input.script_sig.eq(&expected_script));
}

#[test]
fn test_random_input_with_specified_sequence() {
    let expected_sequence: u32 = secp256k1::rand::thread_rng().gen();
    let input = TxInput::random(InputParams {
        sequence: Some(expected_sequence),
        ..Default::default()
    })
    .unwrap();
    assert!(input.sequence.eq(&expected_sequence));
}

#[test]
fn test_random_input_with_specified_witness() {
    let donor = Transaction::random(p2wpkh_tx_params()).unwrap();
    let expected_witness = donor.input[0].witness.clone();
    let input = TxInput::random(InputParams {
        witness: Some(expected_witness.clone()),
        ..Default::default()
    })
    .unwrap();
    assert!(input.witness.eq(&expected_witness));
}

#[test]
fn test_random_input_with_specified_private_key() {
    let (sk, pk) = generate_keypair();
    let input = TxInput::random(InputParams {
        private_key: Some(sk.clone()),
        script_params: Some(ScriptParams {
            script_type: Some(ScriptTypes::P2PK),
            private_key: Some(sk.clone()),
        }),
        ..Default::default()
    })
    .unwrap();
    let script = bitcoin::ScriptBuf::from_bytes(input.script_sig.clone());
    let embedded = script.p2pk_public_key().unwrap();
    assert!(embedded.to_bytes().eq(&pk));
}

#[test]
fn test_random_output() {
    let (output, _) = TxOutput::random(OutputParams::default()).unwrap();
    assert!(output.value >= 1);
    assert!(!output.script_pubkey.is_empty());
}

#[test]
fn test_random_output_with_specified_value() {
    let expected_value: u64 = secp256k1::rand::thread_rng().gen();
    let (output, _) = TxOutput::random(OutputParams {
        value: Some(expected_value),
        ..Default::default()
    })
    .unwrap();
    assert!(output.value.eq(&expected_value));
}

#[test]
fn test_random_output_with_specified_script_params() {
    let expected_script_type: ScriptTypes = match secp256k1::rand::thread_rng().gen_range(0..6) {
        0 => ScriptTypes::P2PK,
        1 => ScriptTypes::P2PKH,
        2 => ScriptTypes::P2SH,
        3 => ScriptTypes::P2TR,
        4 => ScriptTypes::P2TWEAKEDTR,
        5 => ScriptTypes::P2WPKH,
        _ => ScriptTypes::P2WSH,
    };
    let (_, script_type) = TxOutput::random(OutputParams {
        script_params: Some(ScriptParams {
            script_type: Some(expected_script_type),
            private_key: None,
        }),
        ..Default::default()
    })
    .unwrap();
    assert!(script_type.eq(&expected_script_type));
}

#[test]
fn test_random_output_with_specified_private_key() {
    let (sk, pk) = generate_keypair();
    let (output, script_type) = TxOutput::random(OutputParams {
        script_params: Some(ScriptParams {
            script_type: Some(ScriptTypes::P2PK),
            private_key: Some(sk.clone()),
        }),
        private_key: Some(sk),
        ..Default::default()
    })
    .unwrap();
    assert!(script_type.eq(&ScriptTypes::P2PK));
    let script = bitcoin::ScriptBuf::from_bytes(output.script_pubkey.clone());
    assert!(script.p2pk_public_key().unwrap().to_bytes().eq(&pk));
}

#[test]
fn test_transaction_witness_for_each_script_type() {
    let script_types = vec![
        ScriptTypes::P2PK,
        ScriptTypes::P2PKH,
        ScriptTypes::P2SH,
        ScriptTypes::P2TR,
        ScriptTypes::P2TWEAKEDTR,
        ScriptTypes::P2WPKH,
        ScriptTypes::P2WSH,
    ];
    for script_type in script_types {
        let script_params = ScriptParams {
            script_type: Some(script_type),
            private_key: None,
        };
        let input_params = InputParams {
            script_params: Some(script_params),
            ..Default::default()
        };
        let tx_params = TxParams {
            input: Some(input_params),
            ..Default::default()
        };
        let tx = Transaction::random(tx_params).unwrap();
        let witness = &tx.input[0].witness;
        match script_type {
            ScriptTypes::P2PK | ScriptTypes::P2PKH | ScriptTypes::P2SH => {
                assert!(
                    witness.is_empty(),
                    "Legacy script type {:?} should have empty witness",
                    script_type
                );
            }
            _ => {
                assert!(
                    !witness.is_empty(),
                    "Script type {:?} should have non-empty witness",
                    script_type
                );
            }
        }
    }
}

#[test]
fn test_random_witness() {
    let tx = Transaction::random(p2wpkh_tx_params()).unwrap();
    assert!(!tx.input[0].witness.is_empty());
}

#[test]
fn test_random_witness_with_specified_params() {
    // Pin the key, regenerate the expected P2WPKH witness with the bitcoin
    // and secp256k1 crates, and compare byte for byte.
    let (sk, pk) = generate_keypair();
    let tx = Transaction::random(TxParams {
        input: Some(InputParams {
            script_params: Some(ScriptParams {
                script_type: Some(ScriptTypes::P2WPKH),
                private_key: Some(sk.clone()),
            }),
            ..Default::default()
        }),
        ..Default::default()
    })
    .unwrap();
    let btx = to_bitcoin_tx(&tx);
    let pubkey = bitcoin::PublicKey::from_slice(&pk).unwrap();
    let wpkh = pubkey.wpubkey_hash().unwrap();
    let script = bitcoin::ScriptBuf::new_p2wpkh(&wpkh);
    let value = bitcoin::Amount::from_sat(tx.output[0].value);
    let sighash = bitcoin::sighash::SighashCache::new(&btx)
        .p2wpkh_signature_hash(0, &script, value, bitcoin::EcdsaSighashType::All)
        .unwrap();
    let secret = secp256k1::SecretKey::from_slice(&sk).unwrap();
    let msg = secp256k1::Message::from_digest_slice(&sighash[..]).unwrap();
    let sig = secp256k1::SECP256K1.sign_ecdsa(&msg, &secret);
    let mut expected_sig = sig.serialize_der().to_vec();
    expected_sig.push(0x01);
    assert_eq!(tx.input[0].witness.len(), 2);
    assert_eq!(tx.input[0].witness[0], expected_sig);
    assert_eq!(tx.input[0].witness[1], pk);
}

#[test]
fn test_taproot_signature_verifies() {
    // The key-path Schnorr signature of a generated P2TR input verifies
    // under the BIP341 digest computed by the bitcoin crate.
    let (sk, _pk) = generate_keypair();
    let tx = Transaction::random(TxParams {
        input: Some(InputParams {
            script_params: Some(ScriptParams {
                script_type: Some(ScriptTypes::P2TR),
                private_key: Some(sk.clone()),
            }),
            ..Default::default()
        }),
        ..Default::default()
    })
    .unwrap();
    let btx = to_bitcoin_tx(&tx);
    let secret = secp256k1::SecretKey::from_slice(&sk).unwrap();
    let keypair = secp256k1::Keypair::from_secret_key(secp256k1::SECP256K1, &secret);
    let (xonly, _) = keypair.x_only_public_key();
    let mut spk = vec![0x51u8, 0x20u8];
    spk.extend_from_slice(&xonly.serialize());
    let prevout = bitcoin::TxOut {
        value: bitcoin::Amount::from_sat(tx.output[0].value),
        script_pubkey: bitcoin::ScriptBuf::from_bytes(spk),
    };
    let prevouts = [prevout];
    let sighash = bitcoin::sighash::SighashCache::new(&btx)
        .taproot_key_spend_signature_hash(
            0,
            &bitcoin::sighash::Prevouts::All(&prevouts),
            bitcoin::TapSighashType::Default,
        )
        .unwrap();
    let msg = secp256k1::Message::from_digest_slice(&sighash[..]).unwrap();
    let sig = secp256k1::schnorr::Signature::from_slice(&tx.input[0].witness[0]).unwrap();
    secp256k1::SECP256K1.verify_schnorr(&sig, &msg, &xonly).unwrap();
}

#[test]
fn test_tx_round_trip_bytes() {
    let tx = GenerateTx::valid_random(p2wpkh_tx_params()).unwrap();
    let bytes = encode_tx(&tx);
    let decoded = decode_tx(&bytes).unwrap();
    assert_eq!(decoded, tx);
    // The serialization agrees with the bitcoin crate's.
    let btx = to_bitcoin_tx(&tx);
    assert_eq!(serialize(&btx), bytes);
    assert_eq!(btx.compute_txid().to_raw_hash().to_byte_array().to_vec(), compute_txid(&tx));
}

#[test]
fn test_generate_block_valid_random() {
    let (block, _) = GenerateBlock::valid_random(BlockParams {
        ..Default::default()
    })
    .unwrap();
    let bytes = encode_block(&block);
    let bblock: bitcoin::Block = deserialize(&bytes).unwrap();
    assert!(bblock.check_merkle_root());
    assert!(block.txdata.iter().count() == 1);
}

#[test]
fn test_generate_block_valid_random_with_one_transaction() {
    let transactions = vec![Transaction::random(TxParams {
        ..Default::default()
    })
    .unwrap()];
    let (block, _) = GenerateBlock::valid_random(BlockParams {
        txs: Some(transactions.clone()),
        ..Default::default()
    })
    .unwrap();
    let bytes = encode_block(&block);
    let bblock: bitcoin::Block = deserialize(&bytes).unwrap();
    assert!(bblock.check_merkle_root());
    assert!(block.txdata.iter().count() == 2);
    assert!(block.txdata[1] == transactions[0]);
}

#[test]
fn test_generate_block_valid_random_with_some_transactions() {
    let mut transactions: Vec<Transaction> = vec![];
    let tx_count = secp256k1::rand::thread_rng().gen_range(2..100);
    for _ in 0..tx_count {
        transactions.push(
            Transaction::random(TxParams {
                ..Default::default()
            })
            .unwrap(),
        );
    }
    let (block, _) = GenerateBlock::valid_random(BlockParams {
        txs: Some(transactions.clone()),
        ..Default::default()
    })
    .unwrap();
    let bytes = encode_block(&block);
    let bblock: bitcoin::Block = deserialize(&bytes).unwrap();
    assert!(bblock.check_merkle_root());
    assert!(block.txdata.iter().count() == (tx_count + 1));
    assert!(block.txdata[1..] == transactions[..]);
}

#[test]
fn test_block_segwit_bip141_commitment() {
    let tx = GenerateTx::valid_random(p2wpkh_tx_params()).unwrap();
    let (block, _height) = GenerateBlock::valid_random(BlockParams {
        header: None,
        txs: Some(vec![tx]),
        height: None,
    })
    .unwrap();
    let coinbase = &block.txdata[0];
    assert!(!coinbase.input[0].witness.is_empty(), "coinbase witness must be present");
    assert_eq!(coinbase.input[0].witness[0].len(), 32, "reserved value must be 32 bytes");
    let found_commitment = coinbase.output.iter().any(|out| {
        let script = &out.script_pubkey;
        script.len() == 38
            && script[0] == 0x6a
            && script[1] == 0x24
            && script[2..6] == [0xaa, 0x21, 0xa9, 0xed]
    });
    assert!(found_commitment, "witness commitment output missing from the coinbase");
    // The bitcoin crate agrees that the commitment is correct.
    let bytes = encode_block(&block);
    let bblock: bitcoin::Block = deserialize(&bytes).unwrap();
    assert!(bblock.check_witness_commitment());
}

#[test]
fn test_legacy_block_has_no_commitment() {
    let tx = GenerateTx::valid_random(TxParams {
        input: Some(InputParams {
            script_params: Some(ScriptParams {
                script_type: Some(ScriptTypes::P2PKH),
                private_key: None,
            }),
            ..Default::default()
        }),
        ..Default::default()
    })
    .unwrap();
    let (block, _) = GenerateBlock::valid_random(BlockParams {
        header: None,
        txs: Some(vec![tx]),
        height: None,
    })
    .unwrap();
    let coinbase = &block.txdata[0];
    let found_commitment = coinbase.output.iter().any(|out| {
        let script = &out.script_pubkey;
        script.len() == 38
            && script[0] == 0x6a
            && script[1] == 0x24
            && script[2..6] == [0xaa, 0x21, 0xa9, 0xed]
    });
    assert!(!found_commitment);
}

#[test]
fn test_coinbase_bip34_height_prefix() {
    let (block, height) = GenerateBlock::valid_random(BlockParams {
        height: Some(1000),
        ..Default::default()
    })
    .unwrap();
    assert_eq!(height, 1000);
    let script_sig = &block.txdata[0].input[0].script_sig;
    // 1000 = 0x03e8 encodes as the CompactSize run fd e8 03.
    assert_eq!(&script_sig[0..3], &[0xfd, 0xe8, 0x03]);
    assert!(block.txdata[0].input[0].prev_txid.iter().all(|b| *b == 0));
    assert_eq!(block.txdata[0].input[0].prev_vout, u32::MAX);
}

#[test]
fn test_random_block() {
    let (block, height) = misfit_core::block::Block::random(BlockParams::default()).unwrap();
    let bytes = encode_block(&block);
    let bblock: bitcoin::Block = deserialize(&bytes).unwrap();
    assert!(bblock.check_merkle_root());
    assert!(block.txdata.iter().count() >= 1);
    assert!(height >= 1);
}

#[test]
fn test_random_block_with_specified_header() {
    let expected_header = Header::random(HeaderParams::default()).unwrap();
    let (block, _) = misfit_core::block::Block::random(BlockParams {
        header: Some(expected_header.clone()),
        ..Default::default()
    })
    .unwrap();
    assert!(block.header.eq(&expected_header));
}

#[test]
fn test_random_block_with_specified_txs() {
    let expected_txs = vec![Transaction::random(TxParams::default()).unwrap()];
    let (block, _) = misfit_core::block::Block::random(BlockParams {
        txs: Some(expected_txs.clone()),
        ..Default::default()
    })
    .unwrap();
    assert!(block.txdata.eq(&expected_txs));
}

#[test]
fn test_random_block_with_specified_height() {
    let expected_height: u32 = secp256k1::rand::thread_rng().gen();
    let (_, height) = misfit_core::block::Block::random(BlockParams {
        height: Some(expected_height),
        ..Default::default()
    })
    .unwrap();
    assert!(height.eq(&expected_height));
}

#[test]
fn test_random_header() {
    let header = Header::random(HeaderParams::default()).unwrap();
    assert!(header.version < 0x8000_0000);
    assert!(header.time >= 1);
    assert!(header.bits >= 1);
    assert!(header.nonce >= 1);
}

#[test]
fn test_random_header_with_specified_version() {
    let expected_version = misfit_core::block_gen::random_header_version();
    let header = Header::random(HeaderParams {
        version: Some(expected_version),
        ..Default::default()
    })
    .unwrap();
    assert!(header.version.eq(&expected_version));
}

#[test]
fn test_random_header_with_specified_prev_blockhash() {
    let (block, _) = misfit_core::block::Block::random(BlockParams {
        header: Some(
            Header::random(HeaderParams {
                prev_blockhash: Some(vec![0u8; 32]),
                ..Default::default()
            })
            .unwrap(),
        ),
        ..Default::default()
    })
    .unwrap();
    let expected_prev_blockhash = misfit_core::block::block_hash(&block.header);
    let header = Header::random(HeaderParams {
        prev_blockhash: Some(expected_prev_blockhash.clone()),
        ..Default::default()
    })
    .unwrap();
    assert!(header.prev_blockhash.eq(&expected_prev_blockhash));
}

#[test]
fn test_random_header_with_specified_merkle_root() {
    let expected_merkle_root = TxMerkleNode::random(MerkleRootParams::default()).unwrap();
    let header = Header::random(HeaderParams {
        merkle_root: Some(expected_merkle_root.clone()),
        ..Default::default()
    })
    .unwrap();
    assert!(header.merkle_root.eq(&expected_merkle_root));
}

#[test]
fn test_random_header_with_specified_time() {
    let expected_time: u32 = secp256k1::rand::thread_rng().gen();
    let header = Header::random(HeaderParams {
        time: Some(expected_time),
        ..Default::default()
    })
    .unwrap();
    assert!(header.time.eq(&expected_time));
}

#[test]
fn test_random_header_with_specified_bits() {
    let expected_bits = misfit_core::block_gen::random_bits();
    let header = Header::random(HeaderParams {
        bits: Some(expected_bits),
        ..Default::default()
    })
    .unwrap();
    assert!(header.bits.eq(&expected_bits));
}

#[test]
fn test_random_header_with_specified_nonce() {
    let expected_nonce: u32 = secp256k1::rand::thread_rng().gen();
    let header = Header::random(HeaderParams {
        nonce: Some(expected_nonce),
        ..Default::default()
    })
    .unwrap();
    assert!(header.nonce.eq(&expected_nonce));
}

#[test]
fn test_random_bits() {
    let bits = misfit_core::block_gen::random_bits();
    assert!(bits >= 1);
}

#[test]
fn test_random_version() {
    let version = misfit_core::block_gen::random_header_version();
    assert!(version < 0x8000_0000);
}

#[test]
fn test_merkle_root_from_one_transaction() {
    let transaction = Transaction::random(TxParams::default()).unwrap();
    let expected_hash = compute_txid(&transaction);
    let merkle_root = TxMerkleNode::from_transactions(&vec![transaction]);
    assert!(merkle_root.eq(&expected_hash));
}

#[test]
fn test_merkle_root_from_some_transactions() {
    let mut transactions: Vec<Transaction> = vec![];
    let tx_count = secp256k1::rand::thread_rng().gen_range(2..100);
    for _ in 0..tx_count {
        transactions.push(
            Transaction::random(TxParams {
                ..Default::default()
            })
            .unwrap(),
        );
    }
    let hashes = transactions
        .iter()
        .map(|tx| to_bitcoin_tx(tx).compute_txid().to_raw_hash());
    let expected_hash = bitcoin::merkle_tree::calculate_root(hashes).unwrap();
    let merkle_root = TxMerkleNode::from_transactions(&transactions);
    assert!(merkle_root == expected_hash.to_byte_array().to_vec());
}

#[test]
fn test_merkle_root_random() {
    let transaction = Transaction::random(TxParams::default()).unwrap();
    let expected_hash = compute_txid(&transaction);
    let merkle_root = TxMerkleNode::random(MerkleRootParams {
        txs: Some(vec![transaction]),
    })
    .unwrap();
    assert!(merkle_root.eq(&expected_hash));
}

#[test]
fn test_invalid_supplied_key_rejected() {
    // The all-zero byte string is not a valid secret key.
    let r = Transaction::random(TxParams {
        private_key: Some(vec![0u8; 32]),
        ..Default::default()
    });
    assert_eq!(r.unwrap_err(), misfit_core::generator::GenError::Signing);
}

#[test]
fn test_wrong_sized_outpoint_rejected() {
    let r = TxInput::random(InputParams {
        outpoint: Some((vec![0u8; 31], 0)),
        ..Default::default()
    });
    assert_eq!(r.unwrap_err(), misfit_core::generator::GenError::Signing);
}

#[test]
fn test_transaction_report_empty_exact() {
    // With no transactions requested, nothing can fail and the report is
    // exactly the two empty sections.
    assert_eq!(Generator::transaction(0), "Raw Transactions:\n---\nTXIDs:\n");
}

#[test]
fn test_generate_block_rejects_bad_supplied_tx() {
    // A transaction with a wrong-sized txid is not well-formed, and the
    // generator refuses it outright.
    let bad = Transaction {
        version: 2,
        lock_time: 0,
        input: vec![misfit_core::transaction::TxInput {
            prev_txid: vec![0u8; 31],
            prev_vout: 0,
            script_sig: vec![],
            sequence: 0xffffffff,
            witness: vec![],
        }],
        output: vec![],
    };
    let r = GenerateBlock::valid_random(BlockParams {
        txs: Some(vec![bad]),
        ..Default::default()
    });
    assert_eq!(r.unwrap_err(), misfit_core::generator::GenError::Signing);
}

#[test]
fn test_keypair_matches_curve_library() {
    let (sk, pk) = generate_keypair();
    let secret = secp256k1::SecretKey::from_slice(&sk).unwrap();
    let expected = secp256k1::PublicKey::from_secret_key_global(&secret);
    assert_eq!(pk, expected.serialize().to_vec());
}

#[test]
fn test_generate_single_transaction() {
    let result = Generator::transaction(1);
    assert!(result.contains("Raw Transactions:"));
    assert!(result.contains("TXIDs:"));
    assert!(result.contains("---"));
    let sections: Vec<&str> = result.split("\n---\n").collect();
    assert_eq!(sections.len(), 2);
    assert!(sections[0].starts_with("Raw Transactions:"));
    assert!(sections[1].starts_with("TXIDs:"));
}

#[test]
fn test_generate_multiple_transactions() {
    let tx_count = 3;
    let result = Generator::transaction(tx_count);
    assert!(result.contains("Raw Transactions:"));
    assert!(result.contains("TXIDs:"));
    let raw_tx_section = result.split("TXIDs:").next().unwrap();
    let txid_section = result.split("TXIDs:").nth(1).unwrap();
    assert!(!raw_tx_section.trim().is_empty());
    assert!(!txid_section.trim().is_empty());
}

#[test]
fn test_generate_zero_transactions() {
    let result = Generator::transaction(0);
    assert!(result.contains("Raw Transactions:"));
    assert!(result.contains("TXIDs:"));
}

#[test]
fn test_generate_one_block_with_one_transaction() {
    let result = Generator::block(1);
    let sections: Vec<&str> = result.split("\n---\n").collect();
    assert_eq!(sections.len(), 5);
    assert!(result.contains("Header"));
    assert!(result.contains("Raw txs:"));
    assert!(result.contains("TxID:"));
}

#[test]
fn generate_zero_tx_block() {
    let result = Generator::block(0);
    let sections: Vec<&str> = result.split("\n---\n").collect();
    assert_eq!(sections.len(), 5);
    assert!(result.contains("Header"));
    assert!(result.contains("Raw txs:"));
    assert!(result.contains("TxID:"));
}

#[test]
fn test_generate_block_with_multiple_transactions() {
    let tx_count = 10;
    let result = Generator::block(tx_count);
    assert!(result.contains("Raw txs:"));
    assert!(result.contains("TxID:"));
    let sections: Vec<&str> = result.split("\n---\n").collect();
    assert_eq!(sections.len(), 5);
}
