//! Translation between boolean flag structures and the textual flag tokens
//! the breaking entry points consume.

use crate::numfmt::{i64_to_dec, spec_sdec_str};
use vstd::prelude::*;

verus! {

/// The transaction-breaking switches of the command line.
pub struct TransactionFlags {
    pub version: bool,
    pub txid: bool,
    pub vout: bool,
    pub script_sig: bool,
    pub sequence: bool,
    pub amount: bool,
    pub script_pubkey: bool,
    pub witness: bool,
    pub locktime: bool,
    pub all: bool,
}

/// The block-breaking switches and overrides of the command line.
pub struct BlockFlagsConfig {
    pub version: bool,
    pub prev_hash: bool,
    pub merkle_root: bool,
    pub timestamp: bool,
    pub bits: bool,
    pub nonce: bool,
    pub all: bool,
    pub version_override: Option<i32>,
    pub timestamp_offset: Option<i64>,
    pub zero_hashes: bool,
}

/// The token list a flag structure stands for: `--all` alone when set, else
/// one token per set switch, in a fixed order.
pub open spec fn spec_transaction_flag_tokens(f: TransactionFlags) -> Seq<Seq<char>> {
    if f.all {
        seq!["--all"@]
    } else {
        (if f.version {
            seq!["--version"@]
        } else {
            Seq::empty()
        }) + (if f.txid {
            seq!["--txid"@]
        } else {
            Seq::empty()
        }) + (if f.vout {
            seq!["--vout"@]
        } else {
            Seq::empty()
        }) + (if f.script_sig {
            seq!["--script-sig"@]
        } else {
            Seq::empty()
        }) + (if f.sequence {
            seq!["--sequence"@]
        } else {
            Seq::empty()
        }) + (if f.amount {
            seq!["--amount"@]
        } else {
            Seq::empty()
        }) + (if f.script_pubkey {
            seq!["--script-pubkey"@]
        } else {
            Seq::empty()
        }) + (if f.witness {
            seq!["--witness"@]
        } else {
            Seq::empty()
        }) + (if f.locktime {
            seq!["--locktime"@]
        } else {
            Seq::empty()
        })
    }
}

/// Appends one token when its switch is set.
fn push_token(out: &mut Vec<String>, cond: bool, tok: &str)
    ensures
        final(out).deep_view() == old(out).deep_view() + (if cond {
            seq![tok@]
        } else {
            Seq::<Seq<char>>::empty()
        }),
{
    if cond {
        let ghost pre = out.deep_view();
        out.push(String::from_str(tok));
        proof {
            assert(out.deep_view() =~= pre + seq![tok@]);
        }
    } else {
        proof {
            assert(out.deep_view() =~= out.deep_view() + Seq::<Seq<char>>::empty());
        }
    }
}

/// Builds the transaction flag tokens.
#[verifier::rlimit(100)]
#[verifier::spinoff_prover]
pub fn build_transaction_flags_vector(flags: TransactionFlags) -> (r: Vec<String>)
    ensures
        r.deep_view() == spec_transaction_flag_tokens(flags),
{
    let mut out: Vec<String> = Vec::new();
    if flags.all {
        out.push(String::from_str("--all"));
        proof {
            assert(out.deep_view() =~= spec_transaction_flag_tokens(flags));
        }
        return out;
    }
    push_token(&mut out, flags.version, "--version");
    push_token(&mut out, flags.txid, "--txid");
    push_token(&mut out, flags.vout, "--vout");
    push_token(&mut out, flags.script_sig, "--script-sig");
    push_token(&mut out, flags.sequence, "--sequence");
    push_token(&mut out, flags.amount, "--amount");
    push_token(&mut out, flags.script_pubkey, "--script-pubkey");
    push_token(&mut out, flags.witness, "--witness");
    push_token(&mut out, flags.locktime, "--locktime");
    proof {
        assert(out.deep_view() =~= spec_transaction_flag_tokens(flags));
    }
    out
}

/// The field tokens a block flag structure stands for.
pub open spec fn spec_block_field_tokens(f: BlockFlagsConfig) -> Seq<Seq<char>> {
    if f.all {
        seq!["--all"@]
    } else {
        (if f.version {
            seq!["--version"@]
        } else {
            Seq::empty()
        }) + (if f.prev_hash {
            seq!["--prev-hash"@]
        } else {
            Seq::empty()
        }) + (if f.merkle_root {
            seq!["--merkle-root"@]
        } else {
            Seq::empty()
        }) + (if f.timestamp {
            seq!["--timestamp"@]
        } else {
            Seq::empty()
        }) + (if f.bits {
            seq!["--bits"@]
        } else {
            Seq::empty()
        }) + (if f.nonce {
            seq!["--nonce"@]
        } else {
            Seq::empty()
        })
    }
}

/// The configuration tokens a block flag structure stands for.
pub open spec fn spec_block_config_tokens(f: BlockFlagsConfig) -> Seq<Seq<char>> {
    (match f.version_override {
        Some(v) => seq!["--version-override="@ + spec_sdec_str(v as int)],
        None => Seq::empty(),
    }) + (match f.timestamp_offset {
        Some(o) => seq!["--timestamp-offset="@ + spec_sdec_str(o as int)],
        None => Seq::empty(),
    }) + (if f.zero_hashes {
        seq!["--zero-hashes"@]
    } else {
        Seq::empty()
    })
}

/// Builds the block field tokens and configuration tokens.
#[verifier::rlimit(100)]
#[verifier::spinoff_prover]
pub fn build_block_flags_and_config(cfg: BlockFlagsConfig) -> (r: (Vec<String>, Vec<String>))
    ensures
        r.0.deep_view() == spec_block_field_tokens(cfg),
        r.1.deep_view() == spec_block_config_tokens(cfg),
{
    let mut flags: Vec<String> = Vec::new();
    if cfg.all {
        flags.push(String::from_str("--all"));
        proof {
            assert(flags.deep_view() =~= spec_block_field_tokens(cfg));
        }
    } else {
        push_token(&mut flags, cfg.version, "--version");
        push_token(&mut flags, cfg.prev_hash, "--prev-hash");
        push_token(&mut flags, cfg.merkle_root, "--merkle-root");
        push_token(&mut flags, cfg.timestamp, "--timestamp");
        push_token(&mut flags, cfg.bits, "--bits");
        push_token(&mut flags, cfg.nonce, "--nonce");
        proof {
            assert(flags.deep_view() =~= spec_block_field_tokens(cfg));
        }
    }
    let mut config: Vec<String> = Vec::new();
    match cfg.version_override {
        Some(v) => {
            let mut s = String::from_str("--version-override=");
            let num = i64_to_dec(v as i64);
            s.append(num.as_str());
            proof {
                assert(s@ =~= "--version-override="@ + spec_sdec_str(v as int));
            }
            config.push(s);
        },
        None => {},
    }
    match cfg.timestamp_offset {
        Some(o) => {
            let mut s = String::from_str("--timestamp-offset=");
            let num = i64_to_dec(o);
            s.append(num.as_str());
            proof {
                assert(s@ =~= "--timestamp-offset="@ + spec_sdec_str(o as int));
            }
            config.push(s);
        },
        None => {},
    }
    if cfg.zero_hashes {
        config.push(String::from_str("--zero-hashes"));
    }
    proof {
        assert(config.deep_view() =~= spec_block_config_tokens(cfg));
    }
    (flags, config)
}

} // verus!
