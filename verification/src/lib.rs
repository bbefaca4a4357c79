//! Generation and controlled corruption of Bitcoin wire objects.
//!
//! The crate builds structurally valid transactions, headers and blocks,
//! serializes them in the consensus wire format, parses them back, and can
//! deterministically corrupt chosen fields of a decoded object while keeping
//! it serializable.

pub mod api;
pub mod block;
pub mod block_breakers;
pub mod block_gen;
pub mod breakers;
pub mod cli_support;
pub mod decoder;
pub mod encoding;
pub mod generator;
pub mod hashes;
pub mod hexstr;
pub mod keys;
pub mod merkle;
pub mod numfmt;
pub mod rng;
pub mod script;
pub mod header;
pub mod sighash;
pub mod transaction;
pub mod tx_parse;
pub mod txid;
