//! The crate's front door: generation, decoding and breaking entry points,
//! and the translation of textual command-line tokens into typed flags.

use crate::block::spec_block_hash;
use crate::block_breakers::{spec_break_time, spec_field_on, spec_i32_to_u32, BlockField,
    BlockProcessor, ProcessingConfig};
use crate::block_gen::{BlockParams, GenerateBlock};
use crate::breakers::{spec_break_tx, InvalidationFlag, TransactionInvalidator};
use crate::decoder::{BitcoinTransactionDecoder, BlockUtils};
use crate::encoding::DecodeError;
use crate::generator::{GenerateTx, InputParams, ScriptParams, TxParams};
use crate::header::{spec_decode_header, spec_enc_header, spec_wf_header, Header};
use crate::hexstr::{chars_prefix, encode_hex, spec_clean_hex, spec_hex_decode, spec_hex_of,
    str_eq, str_to_chars};
use crate::numfmt::{i64_to_dec, parse_numeral_i32, parse_numeral_i64, spec_dec_str, spec_hex8,
    spec_i32_of_u32, spec_numeral_val, spec_sdec_str, spec_valid_numeral, u32_to_consensus_dec,
    u32_to_hex8, u64_to_dec};
use crate::script::ScriptTypes;
use crate::transaction::{spec_enc_tx, spec_wf_tx, Transaction};
use crate::tx_parse::spec_decode_tx;
use crate::txid::{reverse_bytes, txid_hex};
use vstd::prelude::*;

verus! {

/// The generation and breaking facade.
pub struct Generator {}

// ---------------------------------------------------------------------------
// Token recognition
// ---------------------------------------------------------------------------

/// The invalidation flag a command-line token names, if any.
pub open spec fn spec_tx_flag_of_token(s: Seq<char>) -> Option<InvalidationFlag> {
    if s == "--version"@ {
        Some(InvalidationFlag::Version)
    } else if s == "--txid"@ {
        Some(InvalidationFlag::InputTxid)
    } else if s == "--vout"@ {
        Some(InvalidationFlag::InputVout)
    } else if s == "--script-sig"@ {
        Some(InvalidationFlag::InputScriptSig)
    } else if s == "--sequence"@ {
        Some(InvalidationFlag::InputSequence)
    } else if s == "--amount"@ {
        Some(InvalidationFlag::OutputAmount)
    } else if s == "--script-pubkey"@ {
        Some(InvalidationFlag::OutputScriptPubKey)
    } else if s == "--witness"@ {
        Some(InvalidationFlag::WitnessData)
    } else if s == "--locktime"@ {
        Some(InvalidationFlag::Locktime)
    } else if s == "--all"@ {
        Some(InvalidationFlag::All)
    } else {
        None
    }
}

/// The block field a command-line token names, if any.
pub open spec fn spec_block_field_of_token(s: Seq<char>) -> Option<BlockField> {
    if s == "--version"@ {
        Some(BlockField::Version)
    } else if s == "--prev-hash"@ {
        Some(BlockField::PrevBlockHash)
    } else if s == "--merkle-root"@ {
        Some(BlockField::MerkleRoot)
    } else if s == "--timestamp"@ {
        Some(BlockField::Timestamp)
    } else if s == "--bits"@ {
        Some(BlockField::Bits)
    } else if s == "--nonce"@ {
        Some(BlockField::Nonce)
    } else if s == "--all"@ {
        Some(BlockField::All)
    } else {
        None
    }
}

fn tx_flag_of_token(s: &str) -> (r: Option<InvalidationFlag>)
    ensures
        r == spec_tx_flag_of_token(s@),
{
    if str_eq(s, "--version") {
        Some(InvalidationFlag::Version)
    } else if str_eq(s, "--txid") {
        Some(InvalidationFlag::InputTxid)
    } else if str_eq(s, "--vout") {
        Some(InvalidationFlag::InputVout)
    } else if str_eq(s, "--script-sig") {
        Some(InvalidationFlag::InputScriptSig)
    } else if str_eq(s, "--sequence") {
        Some(InvalidationFlag::InputSequence)
    } else if str_eq(s, "--amount") {
        Some(InvalidationFlag::OutputAmount)
    } else if str_eq(s, "--script-pubkey") {
        Some(InvalidationFlag::OutputScriptPubKey)
    } else if str_eq(s, "--witness") {
        Some(InvalidationFlag::WitnessData)
    } else if str_eq(s, "--locktime") {
        Some(InvalidationFlag::Locktime)
    } else if str_eq(s, "--all") {
        Some(InvalidationFlag::All)
    } else {
        None
    }
}

fn block_field_of_token(s: &str) -> (r: Option<BlockField>)
    ensures
        r == spec_block_field_of_token(s@),
{
    if str_eq(s, "--version") {
        Some(BlockField::Version)
    } else if str_eq(s, "--prev-hash") {
        Some(BlockField::PrevBlockHash)
    } else if str_eq(s, "--merkle-root") {
        Some(BlockField::MerkleRoot)
    } else if str_eq(s, "--timestamp") {
        Some(BlockField::Timestamp)
    } else if str_eq(s, "--bits") {
        Some(BlockField::Bits)
    } else if str_eq(s, "--nonce") {
        Some(BlockField::Nonce)
    } else if str_eq(s, "--all") {
        Some(BlockField::All)
    } else {
        None
    }
}

/// The deduplicated flag list a token sequence stands for, in order of
/// first occurrence; unknown tokens are ignored.
pub open spec fn spec_parse_tx_flags(ts: Seq<Seq<char>>, acc: Seq<InvalidationFlag>) -> Seq<
    InvalidationFlag,
>
    decreases ts.len(),
{
    if ts.len() == 0 {
        acc
    } else {
        match spec_tx_flag_of_token(ts[0]) {
            Some(f) => if acc.contains(f) {
                spec_parse_tx_flags(ts.skip(1), acc)
            } else {
                spec_parse_tx_flags(ts.skip(1), acc.push(f))
            },
            None => spec_parse_tx_flags(ts.skip(1), acc),
        }
    }
}

/// The field list a token sequence stands for, unknown tokens ignored,
/// duplicates kept.
pub open spec fn spec_parse_block_fields(ts: Seq<Seq<char>>) -> Seq<BlockField>
    decreases ts.len(),
{
    if ts.len() == 0 {
        Seq::empty()
    } else {
        (match spec_block_field_of_token(ts[0]) {
            Some(f) => seq![f],
            None => Seq::empty(),
        }) + spec_parse_block_fields(ts.skip(1))
    }
}

proof fn lemma_parse_tx_flags_snoc(ts: Seq<Seq<char>>, t: Seq<char>, acc: Seq<InvalidationFlag>)
    ensures
        spec_parse_tx_flags(ts.push(t), acc) == (match spec_tx_flag_of_token(t) {
            Some(f) => if spec_parse_tx_flags(ts, acc).contains(f) {
                spec_parse_tx_flags(ts, acc)
            } else {
                spec_parse_tx_flags(ts, acc).push(f)
            },
            None => spec_parse_tx_flags(ts, acc),
        }),
    decreases ts.len(),
{
    let tp = ts.push(t);
    if ts.len() == 0 {
        assert(tp[0] == t);
        assert(tp.skip(1) =~= Seq::<Seq<char>>::empty());
        assert(spec_parse_tx_flags(ts, acc) == acc);
        match spec_tx_flag_of_token(t) {
            Some(f) => {
                if acc.contains(f) {
                    assert(spec_parse_tx_flags(tp, acc) == spec_parse_tx_flags(
                        Seq::<Seq<char>>::empty(),
                        acc,
                    ));
                } else {
                    assert(spec_parse_tx_flags(tp, acc) == spec_parse_tx_flags(
                        Seq::<Seq<char>>::empty(),
                        acc.push(f),
                    ));
                }
            },
            None => {
                assert(spec_parse_tx_flags(tp, acc) == spec_parse_tx_flags(
                    Seq::<Seq<char>>::empty(),
                    acc,
                ));
            },
        }
    } else {
        assert(tp[0] == ts[0]);
        assert(tp.skip(1) =~= ts.skip(1).push(t));
        match spec_tx_flag_of_token(ts[0]) {
            Some(f) => {
                if acc.contains(f) {
                    lemma_parse_tx_flags_snoc(ts.skip(1), t, acc);
                    assert(spec_parse_tx_flags(tp, acc) == spec_parse_tx_flags(
                        ts.skip(1).push(t),
                        acc,
                    ));
                } else {
                    lemma_parse_tx_flags_snoc(ts.skip(1), t, acc.push(f));
                    assert(spec_parse_tx_flags(tp, acc) == spec_parse_tx_flags(
                        ts.skip(1).push(t),
                        acc.push(f),
                    ));
                }
            },
            None => {
                lemma_parse_tx_flags_snoc(ts.skip(1), t, acc);
                assert(spec_parse_tx_flags(tp, acc) == spec_parse_tx_flags(
                    ts.skip(1).push(t),
                    acc,
                ));
            },
        }
    }
}

proof fn lemma_parse_block_fields_snoc(ts: Seq<Seq<char>>, t: Seq<char>)
    ensures
        spec_parse_block_fields(ts.push(t)) == spec_parse_block_fields(ts) + (
        match spec_block_field_of_token(t) {
            Some(f) => seq![f],
            None => Seq::empty(),
        }),
    decreases ts.len(),
{
    let tp = ts.push(t);
    let tail = match spec_block_field_of_token(t) {
        Some(f) => seq![f],
        None => Seq::<BlockField>::empty(),
    };
    if ts.len() == 0 {
        assert(tp[0] == t);
        assert(tp.skip(1) =~= Seq::<Seq<char>>::empty());
        assert(spec_parse_block_fields(Seq::<Seq<char>>::empty()) == Seq::<BlockField>::empty());
        assert(spec_parse_block_fields(tp) =~= spec_parse_block_fields(ts) + tail);
    } else {
        assert(tp[0] == ts[0]);
        assert(tp.skip(1) =~= ts.skip(1).push(t));
        lemma_parse_block_fields_snoc(ts.skip(1), t);
        assert(spec_parse_block_fields(tp) =~= spec_parse_block_fields(ts) + tail);
    }
}

/// Whether a flag list already holds a flag.
fn contains_flag(v: &Vec<InvalidationFlag>, f: InvalidationFlag) -> (r: bool)
    ensures
        r == v@.contains(f),
{
    let mut k: usize = 0;
    while k < v.len()
        invariant
            k <= v@.len(),
            forall|j: int| 0 <= j < k ==> v@[j] != f,
        decreases v@.len() - k,
    {
        if v[k] == f {
            assert(v@.contains(f));
            return true;
        }
        k = k + 1;
    }
    proof {
        if v@.contains(f) {
            let j = choose|j: int| 0 <= j < v@.len() && v@[j] == f;
            assert(false);
        }
    }
    false
}

impl Generator {
    /// Maps command-line flag tokens to invalidation flags, dropping
    /// unknown tokens and duplicates.
    pub fn parse_cli_flags_to_invalidation_flags(cli_flags: Vec<String>) -> (r: Vec<
        InvalidationFlag,
    >)
        ensures
            r@ == spec_parse_tx_flags(cli_flags.deep_view(), Seq::empty()),
    {
        let ghost ts = cli_flags.deep_view();
        let mut out: Vec<InvalidationFlag> = Vec::new();
        let mut k: usize = 0;
        proof {
            assert(ts.take(0) =~= Seq::<Seq<char>>::empty());
        }
        while k < cli_flags.len()
            invariant
                k <= cli_flags@.len(),
                ts == cli_flags.deep_view(),
                ts.len() == cli_flags@.len(),
                out@ == spec_parse_tx_flags(ts.take(k as int), Seq::empty()),
            decreases cli_flags@.len() - k,
        {
            let ghost pre = ts.take(k as int);
            proof {
                assert(ts[k as int] == cli_flags@[k as int]@);
                assert(ts.take(k as int + 1) =~= pre.push(ts[k as int]));
                lemma_parse_tx_flags_snoc(pre, ts[k as int], Seq::empty());
            }
            match tx_flag_of_token(cli_flags[k].as_str()) {
                Some(f) => {
                    if !contains_flag(&out, f) {
                        out.push(f);
                    }
                },
                None => {},
            }
            k = k + 1;
        }
        proof {
            assert(ts.take(ts.len() as int) =~= ts);
        }
        out
    }

    /// Maps command-line field tokens to block fields, dropping unknown
    /// tokens.
    pub fn parse_cli_flags_to_block_fields(cli_flags: Vec<String>) -> (r: Vec<BlockField>)
        ensures
            r@ == spec_parse_block_fields(cli_flags.deep_view()),
    {
        let ghost ts = cli_flags.deep_view();
        let mut out: Vec<BlockField> = Vec::new();
        let mut k: usize = 0;
        proof {
            assert(ts.take(0) =~= Seq::<Seq<char>>::empty());
        }
        while k < cli_flags.len()
            invariant
                k <= cli_flags@.len(),
                ts == cli_flags.deep_view(),
                ts.len() == cli_flags@.len(),
                out@ == spec_parse_block_fields(ts.take(k as int)),
            decreases cli_flags@.len() - k,
        {
            let ghost pre = ts.take(k as int);
            proof {
                assert(ts[k as int] == cli_flags@[k as int]@);
                assert(ts.take(k as int + 1) =~= pre.push(ts[k as int]));
                lemma_parse_block_fields_snoc(pre, ts[k as int]);
            }
            match block_field_of_token(cli_flags[k].as_str()) {
                Some(f) => {
                    out.push(f);
                    proof {
                        assert(out@ =~= spec_parse_block_fields(ts.take(k as int + 1)));
                    }
                },
                None => {
                    proof {
                        assert(out@ + Seq::<BlockField>::empty() =~= out@);
                    }
                },
            }
            k = k + 1;
        }
        proof {
            assert(ts.take(ts.len() as int) =~= ts);
        }
        out
    }

    /// Decodes a raw transaction from hex text.
    pub fn decode_raw_transaction(raw_tx: String) -> (r: Result<Transaction, DecodeError>)
        ensures
            ({
                let digits = spec_clean_hex(raw_tx@);
                match r {
                    Ok(tx) => spec_hex_decode(digits) matches Some(b) && spec_decode_tx(b)
                        == Some(tx@) && spec_wf_tx(tx@),
                    Err(e) => (e == DecodeError::InvalidHex && spec_hex_decode(digits) is None)
                        || (e == DecodeError::Malformed && (spec_hex_decode(digits)
                        matches Some(b) && spec_decode_tx(b) is None)),
                }
            }),
    {
        let decoder = BitcoinTransactionDecoder::new();
        decoder.decode_hex(raw_tx.as_str())
    }

    /// Decodes an 80-byte block header from hex text.
    pub fn decoder_block_header(block_header: String) -> (r: Result<Header, DecodeError>)
        ensures
            match r {
                Ok(h) => spec_hex_decode(block_header@) matches Some(b) && b.len() == 80
                    && spec_decode_header(b) == Some(h@) && spec_wf_header(h@),
                Err(e) => (e == DecodeError::InvalidHex && spec_hex_decode(block_header@)
                    is None) || (e == DecodeError::InvalidLength && (spec_hex_decode(
                    block_header@,
                ) matches Some(b) && b.len() != 80)),
            },
    {
        BlockUtils::decode_header_from_hex(block_header.as_str())
    }
}

// ---------------------------------------------------------------------------
// Configuration parsing
// ---------------------------------------------------------------------------

/// One configuration token folded into the override state
/// `(version_override, timestamp_offset, randomize_hashes)`. Tokens with an
/// unknown name or an unusable numeral leave the state unchanged.
pub open spec fn spec_config_step(
    acc: (Option<i32>, Option<i64>, bool),
    t: Seq<char>,
) -> (Option<i32>, Option<i64>, bool) {
    if t == "--zero-hashes"@ {
        (acc.0, acc.1, false)
    } else if "--version-override="@.is_prefix_of(t) {
        let num = t.skip("--version-override="@.len() as int);
        if spec_valid_numeral(num) && -0x8000_0000 <= spec_numeral_val(num) < 0x8000_0000 {
            (Some(spec_numeral_val(num) as i32), acc.1, acc.2)
        } else {
            acc
        }
    } else if "--timestamp-offset="@.is_prefix_of(t) {
        let num = t.skip("--timestamp-offset="@.len() as int);
        if spec_valid_numeral(num) {
            (acc.0, Some(spec_numeral_val(num) as i64), acc.2)
        } else {
            acc
        }
    } else {
        acc
    }
}

/// The override state after folding every configuration token.
pub open spec fn spec_config_fold(ts: Seq<Seq<char>>, acc: (Option<i32>, Option<i64>, bool)) -> (
    Option<i32>,
    Option<i64>,
    bool,
)
    decreases ts.len(),
{
    if ts.len() == 0 {
        acc
    } else {
        spec_config_fold(ts.skip(1), spec_config_step(acc, ts[0]))
    }
}

proof fn lemma_config_fold_snoc(ts: Seq<Seq<char>>, t: Seq<char>, acc: (
    Option<i32>,
    Option<i64>,
    bool,
))
    ensures
        spec_config_fold(ts.push(t), acc) == spec_config_step(spec_config_fold(ts, acc), t),
    decreases ts.len(),
{
    let tp = ts.push(t);
    if ts.len() == 0 {
        assert(tp[0] == t);
        assert(tp.skip(1) =~= Seq::<Seq<char>>::empty());
        assert(spec_config_fold(tp, acc) == spec_config_fold(
            Seq::<Seq<char>>::empty(),
            spec_config_step(acc, t),
        ));
        assert(spec_config_fold(ts, acc) == acc);
    } else {
        assert(tp[0] == ts[0]);
        assert(tp.skip(1) =~= ts.skip(1).push(t));
        lemma_config_fold_snoc(ts.skip(1), t, spec_config_step(acc, ts[0]));
        assert(spec_config_fold(tp, acc) == spec_config_fold(
            ts.skip(1).push(t),
            spec_config_step(acc, ts[0]),
        ));
    }
}

/// The characters of `v` from `from` on.
fn chars_suffix(v: &Vec<char>, from: usize) -> (r: Vec<char>)
    requires
        from <= v@.len(),
    ensures
        r@ == v@.skip(from as int),
{
    let mut out: Vec<char> = Vec::new();
    let mut k: usize = from;
    while k < v.len()
        invariant
            from <= k <= v@.len(),
            out@.len() == k - from,
            forall|j: int| 0 <= j < out@.len() ==> #[trigger] out@[j] == v@[from + j],
        decreases v@.len() - k,
    {
        out.push(v[k]);
        k = k + 1;
    }
    proof {
        assert(out@ =~= v@.skip(from as int));
    }
    out
}

/// Applies one configuration token to the override state.
fn config_step(
    acc: (Option<i32>, Option<i64>, bool),
    t: &str,
) -> (r: (Option<i32>, Option<i64>, bool))
    ensures
        r == spec_config_step(acc, t@),
{
    let tc = str_to_chars(t);
    if str_eq(t, "--zero-hashes") {
        return (acc.0, acc.1, false);
    }
    let vo_prefix = str_to_chars("--version-override=");
    if chars_prefix(&tc, &vo_prefix) {
        let num = chars_suffix(&tc, vo_prefix.len());
        match parse_numeral_i32(&num) {
            Some(v) => {
                return (Some(v), acc.1, acc.2);
            },
            None => {
                return acc;
            },
        }
    }
    let to_prefix = str_to_chars("--timestamp-offset=");
    if chars_prefix(&tc, &to_prefix) {
        let num = chars_suffix(&tc, to_prefix.len());
        match parse_numeral_i64(&num) {
            Some(v) => {
                return (acc.0, Some(v), acc.2);
            },
            None => {
                return acc;
            },
        }
    }
    acc
}

impl Generator {
    /// Builds the processing configuration from override tokens: the last
    /// usable occurrence of each override wins, unknown tokens and unusable
    /// numerals are ignored, and hashes are randomized unless switched off.
    pub fn parse_cli_config_to_processing_config(
        cli_config: Vec<String>,
        fields: Vec<BlockField>,
    ) -> (r: ProcessingConfig)
        ensures
            r.fields_to_modify@ == fields@,
            ({
                let folded = spec_config_fold(cli_config.deep_view(), (None, None, true));
                &&& r.version_override == folded.0
                &&& r.timestamp_offset == folded.1
                &&& r.randomize_hashes == folded.2
            }),
    {
        let ghost ts = cli_config.deep_view();
        let mut acc: (Option<i32>, Option<i64>, bool) = (None, None, true);
        let mut k: usize = 0;
        proof {
            assert(ts.take(0) =~= Seq::<Seq<char>>::empty());
        }
        while k < cli_config.len()
            invariant
                k <= cli_config@.len(),
                ts == cli_config.deep_view(),
                ts.len() == cli_config@.len(),
                acc == spec_config_fold(ts.take(k as int), (None::<i32>, None::<i64>, true)),
            decreases cli_config@.len() - k,
        {
            let ghost pre = ts.take(k as int);
            proof {
                assert(ts[k as int] == cli_config@[k as int]@);
                assert(ts.take(k as int + 1) =~= pre.push(ts[k as int]));
                lemma_config_fold_snoc(pre, ts[k as int], (None::<i32>, None::<i64>, true));
            }
            acc = config_step(acc, cli_config[k].as_str());
            k = k + 1;
        }
        proof {
            assert(ts.take(ts.len() as int) =~= ts);
        }
        ProcessingConfig {
            fields_to_modify: fields,
            version_override: acc.0,
            timestamp_offset: acc.1,
            randomize_hashes: acc.2,
        }
    }
}

// ---------------------------------------------------------------------------
// Reports
// ---------------------------------------------------------------------------

/// The sentinel returned when no flags or fields were requested.
pub open spec fn spec_no_flags_message() -> Seq<char> {
    "No invalidation flags specified. Use 'help' for usage information."@
}

/// A line naming one transaction field being invalidated.
pub open spec fn spec_flag_line(f: InvalidationFlag) -> Seq<char> {
    match f {
        InvalidationFlag::Version => "  - Transaction Version\n"@,
        InvalidationFlag::InputTxid => "  - Input TXIDs\n"@,
        InvalidationFlag::InputVout => "  - Input Vouts\n"@,
        InvalidationFlag::InputScriptSig => "  - Input Script Signatures\n"@,
        InvalidationFlag::InputSequence => "  - Input Sequences\n"@,
        InvalidationFlag::OutputAmount => "  - Output Amounts\n"@,
        InvalidationFlag::OutputScriptPubKey => "  - Output Script PubKeys\n"@,
        InvalidationFlag::WitnessData => "  - Witness Data\n"@,
        InvalidationFlag::Locktime => "  - Locktime\n"@,
        InvalidationFlag::All => Seq::empty(),
    }
}

pub open spec fn spec_flag_lines_list(fs: Seq<InvalidationFlag>) -> Seq<char>
    decreases fs.len(),
{
    if fs.len() == 0 {
        Seq::empty()
    } else {
        spec_flag_line(fs[0]) + spec_flag_lines_list(fs.skip(1))
    }
}

/// The listing section: one line per flag, or one line for all fields.
pub open spec fn spec_flag_lines(fs: Seq<InvalidationFlag>) -> Seq<char> {
    if fs.contains(InvalidationFlag::All) {
        "  - ALL FIELDS\n"@
    } else {
        spec_flag_lines_list(fs)
    }
}

/// A line naming one block field being broken.
pub open spec fn spec_field_line(f: BlockField) -> Seq<char> {
    match f {
        BlockField::Version => "  - Block Version\n"@,
        BlockField::PrevBlockHash => "  - Previous Block Hash\n"@,
        BlockField::MerkleRoot => "  - Merkle Root\n"@,
        BlockField::Timestamp => "  - Timestamp\n"@,
        BlockField::Bits => "  - Difficulty Bits\n"@,
        BlockField::Nonce => "  - Nonce\n"@,
        BlockField::All => Seq::empty(),
    }
}

pub open spec fn spec_field_lines_list(fs: Seq<BlockField>) -> Seq<char>
    decreases fs.len(),
{
    if fs.len() == 0 {
        Seq::empty()
    } else {
        spec_field_line(fs[0]) + spec_field_lines_list(fs.skip(1))
    }
}

pub open spec fn spec_field_lines(fs: Seq<BlockField>) -> Seq<char> {
    if fs.contains(BlockField::All) {
        "  - ALL FIELDS\n"@
    } else {
        spec_field_lines_list(fs)
    }
}

/// A short description of a decode failure.
pub open spec fn spec_decode_err_text(e: DecodeError) -> Seq<char> {
    match e {
        DecodeError::InvalidHex => "invalid hexadecimal input"@,
        DecodeError::InvalidLength => "invalid header length"@,
        DecodeError::Malformed => "malformed consensus structure"@,
    }
}

fn decode_err_text(e: DecodeError) -> (r: &'static str)
    ensures
        r@ == spec_decode_err_text(e),
{
    match e {
        DecodeError::InvalidHex => "invalid hexadecimal input",
        DecodeError::InvalidLength => "invalid header length",
        DecodeError::Malformed => "malformed consensus structure",
    }
}

proof fn lemma_flag_lines_list_snoc(fs: Seq<InvalidationFlag>, f: InvalidationFlag)
    ensures
        spec_flag_lines_list(fs.push(f)) == spec_flag_lines_list(fs) + spec_flag_line(f),
    decreases fs.len(),
{
    let fp = fs.push(f);
    if fs.len() == 0 {
        assert(fp[0] == f);
        assert(fp.skip(1) =~= Seq::<InvalidationFlag>::empty());
        assert(spec_flag_lines_list(Seq::<InvalidationFlag>::empty()) == Seq::<char>::empty());
        assert(spec_flag_lines_list(fp) =~= spec_flag_lines_list(fs) + spec_flag_line(f));
    } else {
        assert(fp[0] == fs[0]);
        assert(fp.skip(1) =~= fs.skip(1).push(f));
        lemma_flag_lines_list_snoc(fs.skip(1), f);
        assert(spec_flag_lines_list(fp) =~= spec_flag_lines_list(fs) + spec_flag_line(f));
    }
}

proof fn lemma_field_lines_list_snoc(fs: Seq<BlockField>, f: BlockField)
    ensures
        spec_field_lines_list(fs.push(f)) == spec_field_lines_list(fs) + spec_field_line(f),
    decreases fs.len(),
{
    let fp = fs.push(f);
    if fs.len() == 0 {
        assert(fp[0] == f);
        assert(fp.skip(1) =~= Seq::<BlockField>::empty());
        assert(spec_field_lines_list(Seq::<BlockField>::empty()) == Seq::<char>::empty());
        assert(spec_field_lines_list(fp) =~= spec_field_lines_list(fs) + spec_field_line(f));
    } else {
        assert(fp[0] == fs[0]);
        assert(fp.skip(1) =~= fs.skip(1).push(f));
        lemma_field_lines_list_snoc(fs.skip(1), f);
        assert(spec_field_lines_list(fp) =~= spec_field_lines_list(fs) + spec_field_line(f));
    }
}

fn flag_line(f: InvalidationFlag) -> (r: &'static str)
    ensures
        f != InvalidationFlag::All ==> r@ == spec_flag_line(f),
{
    match f {
        InvalidationFlag::Version => "  - Transaction Version\n",
        InvalidationFlag::InputTxid => "  - Input TXIDs\n",
        InvalidationFlag::InputVout => "  - Input Vouts\n",
        InvalidationFlag::InputScriptSig => "  - Input Script Signatures\n",
        InvalidationFlag::InputSequence => "  - Input Sequences\n",
        InvalidationFlag::OutputAmount => "  - Output Amounts\n",
        InvalidationFlag::OutputScriptPubKey => "  - Output Script PubKeys\n",
        InvalidationFlag::WitnessData => "  - Witness Data\n",
        InvalidationFlag::Locktime => "  - Locktime\n",
        InvalidationFlag::All => "",
    }
}

/// Builds the listing section for transaction flags.
fn flag_lines(flags: &Vec<InvalidationFlag>) -> (r: String)
    ensures
        r@ == spec_flag_lines(flags@),
{
    if contains_flag(flags, InvalidationFlag::All) {
        let r = String::from_str("  - ALL FIELDS\n");
        r
    } else {
        let mut out = String::new();
        let mut k: usize = 0;
        proof {
            assert(flags@.take(0) =~= Seq::<InvalidationFlag>::empty());
        }
        while k < flags.len()
            invariant
                k <= flags@.len(),
                !flags@.contains(InvalidationFlag::All),
                out@ == spec_flag_lines_list(flags@.take(k as int)),
            decreases flags@.len() - k,
        {
            let ghost pre = flags@.take(k as int);
            proof {
                assert(flags@.contains(flags@[k as int]) || true);
                assert(flags@.take(k as int + 1) =~= pre.push(flags@[k as int]));
                lemma_flag_lines_list_snoc(pre, flags@[k as int]);
                if flags@[k as int] == InvalidationFlag::All {
                    assert(flags@.contains(InvalidationFlag::All));
                }
            }
            out.append(flag_line(flags[k]));
            k = k + 1;
        }
        proof {
            assert(flags@.take(flags@.len() as int) =~= flags@);
        }
        out
    }
}

fn field_line(f: BlockField) -> (r: &'static str)
    ensures
        f != BlockField::All ==> r@ == spec_field_line(f),
{
    match f {
        BlockField::Version => "  - Block Version\n",
        BlockField::PrevBlockHash => "  - Previous Block Hash\n",
        BlockField::MerkleRoot => "  - Merkle Root\n",
        BlockField::Timestamp => "  - Timestamp\n",
        BlockField::Bits => "  - Difficulty Bits\n",
        BlockField::Nonce => "  - Nonce\n",
        BlockField::All => "",
    }
}

/// Builds the listing section for block fields.
fn field_lines(fields: &Vec<BlockField>) -> (r: String)
    ensures
        r@ == spec_field_lines(fields@),
{
    if crate::block_breakers::field_on(fields, BlockField::All) && {
        let mut has_all: bool = false;
        let mut k: usize = 0;
        while k < fields.len()
            invariant
                k <= fields@.len(),
                has_all == exists|j: int| 0 <= j < k && fields@[j] == BlockField::All,
            decreases fields@.len() - k,
        {
            if fields[k] == BlockField::All {
                has_all = true;
            }
            k = k + 1;
        }
        proof {
            if has_all {
                let j = choose|j: int| 0 <= j < fields@.len() && fields@[j] == BlockField::All;
                assert(fields@.contains(BlockField::All));
            } else {
                if fields@.contains(BlockField::All) {
                    let j = choose|j: int|
                        0 <= j < fields@.len() && fields@[j] == BlockField::All;
                    assert(false);
                }
            }
        }
        has_all
    } {
        let r = String::from_str("  - ALL FIELDS\n");
        r
    } else {
        let mut out = String::new();
        let mut k: usize = 0;
        proof {
            assert(fields@.take(0) =~= Seq::<BlockField>::empty());
        }
        while k < fields.len()
            invariant
                k <= fields@.len(),
                !fields@.contains(BlockField::All),
                out@ == spec_field_lines_list(fields@.take(k as int)),
            decreases fields@.len() - k,
        {
            let ghost pre = fields@.take(k as int);
            proof {
                assert(fields@.take(k as int + 1) =~= pre.push(fields@[k as int]));
                lemma_field_lines_list_snoc(pre, fields@[k as int]);
                if fields@[k as int] == BlockField::All {
                    assert(fields@.contains(BlockField::All));
                }
            }
            out.append(field_line(fields[k]));
            k = k + 1;
        }
        proof {
            assert(fields@.take(fields@.len() as int) =~= fields@);
        }
        out
    }
}

/// The transaction breaking report.
pub open spec fn spec_break_tx_report(
    flags: Seq<InvalidationFlag>,
    original: Seq<char>,
    broken_hex: Seq<char>,
) -> Seq<char> {
    "Invalidating the following fields:\n"@ + spec_flag_lines(flags)
        + "\nInputed Transaction:\n"@ + original + "\n\n"@ + "Invalidated Raw Transaction:\n"@
        + broken_hex + "\n\n"@
}

impl Generator {
    /// Decodes a transaction from hex, corrupts exactly the requested
    /// fields, and reports the broken transaction's serialization. With no
    /// usable flags nothing is mutated and the sentinel message is returned.
    pub fn break_transaction(transaction: String, cli_flags: Vec<String>) -> (r: String)
        ensures
            ({
                let flags = spec_parse_tx_flags(cli_flags.deep_view(), Seq::empty());
                let digits = spec_clean_hex(transaction@);
                if flags.len() == 0 {
                    r@ == spec_no_flags_message()
                } else {
                    match spec_hex_decode(digits) {
                        None => r@ == "Error decoding transaction: "@ + spec_decode_err_text(
                            DecodeError::InvalidHex,
                        ),
                        Some(b) => match spec_decode_tx(b) {
                            None => r@ == "Error decoding transaction: "@ + spec_decode_err_text(
                                DecodeError::Malformed,
                            ),
                            Some(t) => r@ == spec_break_tx_report(
                                flags,
                                transaction@,
                                spec_hex_of(spec_enc_tx(spec_break_tx(t, flags))),
                            ),
                        },
                    }
                }
            }),
    {
        let flags = Self::parse_cli_flags_to_invalidation_flags(cli_flags);
        if flags.len() == 0 {
            let r = String::from_str(
                "No invalidation flags specified. Use 'help' for usage information.",
            );
            return r;
        }
        let decoder = BitcoinTransactionDecoder::new();
        let decoded = match decoder.decode_hex(transaction.as_str()) {
            Ok(tx) => tx,
            Err(e) => {
                let mut r = String::from_str("Error decoding transaction: ");
                r.append(decode_err_text(e));
                return r;
            },
        };
        let broken = TransactionInvalidator::invalidate(decoded, &flags);
        let bytes = crate::transaction::encode_tx(&broken);
        let hex = encode_hex(&bytes);
        let mut r = String::from_str("Invalidating the following fields:\n");
        let lines = flag_lines(&flags);
        r.append(lines.as_str());
        r.append("\nInputed Transaction:\n");
        r.append(transaction.as_str());
        r.append("\n\n");
        r.append("Invalidated Raw Transaction:\n");
        r.append(hex.as_str());
        r.append("\n\n");
        proof {
            assert(r@ =~= spec_break_tx_report(
                flags@,
                transaction@,
                spec_hex_of(spec_enc_tx(broken@)),
            ));
        }
        r
    }
}

// ---------------------------------------------------------------------------
// Header reports and block breaking
// ---------------------------------------------------------------------------

/// The textual rendering of one header: signed version, byte-reversed
/// hashes, decimal timestamp and nonce, hex bits, and the block hash.
pub open spec fn spec_header_info(h: crate::header::HeaderV) -> Seq<char> {
    "  Version: "@ + spec_sdec_str(spec_i32_of_u32(h.version)) + "\n"@ + "  Previous Block: "@
        + spec_hex_of(h.prev_blockhash.reverse()) + "\n"@ + "  Merkle Root: "@ + spec_hex_of(
        h.merkle_root.reverse(),
    ) + "\n"@ + "  Timestamp: "@ + spec_dec_str(h.time as nat) + "\n"@ + "  Bits: 0x"@
        + spec_hex8(h.bits) + "\n"@ + "  Nonce: "@ + spec_dec_str(h.nonce as nat) + "\n"@
        + "  Block Hash: "@ + spec_hex_of(spec_block_hash(h).reverse()) + "\n"@
}

/// Renders one header's fields.
fn header_info(h: &Header) -> (r: String)
    requires
        spec_wf_header(h@),
    ensures
        r@ == spec_header_info(h@),
{
    let mut r = String::from_str("  Version: ");
    let ver = u32_to_consensus_dec(h.version);
    r.append(ver.as_str());
    r.append("\n");
    r.append("  Previous Block: ");
    let prev_rev = reverse_bytes(&h.prev_blockhash);
    let prev_hex = encode_hex(&prev_rev);
    r.append(prev_hex.as_str());
    r.append("\n");
    r.append("  Merkle Root: ");
    let root_rev = reverse_bytes(&h.merkle_root);
    let root_hex = encode_hex(&root_rev);
    r.append(root_hex.as_str());
    r.append("\n");
    r.append("  Timestamp: ");
    let time = u64_to_dec(h.time as u64);
    r.append(time.as_str());
    r.append("\n");
    r.append("  Bits: 0x");
    let bits = u32_to_hex8(h.bits);
    r.append(bits.as_str());
    r.append("\n");
    r.append("  Nonce: ");
    let nonce = u64_to_dec(h.nonce as u64);
    r.append(nonce.as_str());
    r.append("\n");
    r.append("  Block Hash: ");
    let bh = crate::block::block_hash(h);
    let bh_rev = reverse_bytes(&bh);
    let bh_hex = encode_hex(&bh_rev);
    r.append(bh_hex.as_str());
    r.append("\n");
    proof {
        assert(r@ =~= spec_header_info(h@));
    }
    r
}

/// The configuration lines of the block breaking report.
pub open spec fn spec_config_info(vo: Option<i32>, to: Option<i64>, rz: bool) -> Seq<char> {
    (match vo {
        Some(v) => "  - Version Override: "@ + spec_sdec_str(v as int) + "\n"@,
        None => Seq::empty(),
    }) + (match to {
        Some(o) => "  - Timestamp Offset: "@ + spec_sdec_str(o as int) + " seconds\n"@,
        None => Seq::empty(),
    }) + (if !rz {
        "  - Using zero hashes instead of random\n"@
    } else {
        Seq::empty()
    })
}

fn config_info(vo: &Option<i32>, to: &Option<i64>, rz: bool) -> (r: String)
    ensures
        r@ == spec_config_info(*vo, *to, rz),
{
    let mut r = String::new();
    match vo {
        Some(v) => {
            r.append("  - Version Override: ");
            let num = i64_to_dec(*v as i64);
            r.append(num.as_str());
            r.append("\n");
        },
        None => {},
    }
    match to {
        Some(o) => {
            r.append("  - Timestamp Offset: ");
            let num = i64_to_dec(*o);
            r.append(num.as_str());
            r.append(" seconds\n");
        },
        None => {},
    }
    if !rz {
        r.append("  - Using zero hashes instead of random\n");
    }
    proof {
        assert(r@ =~= spec_config_info(*vo, *to, rz));
    }
    r
}

/// The block breaking report.
pub open spec fn spec_break_block_report(
    fields: Seq<BlockField>,
    vo: Option<i32>,
    to: Option<i64>,
    rz: bool,
    orig: crate::header::HeaderV,
    broken: crate::header::HeaderV,
) -> Seq<char> {
    "Breaking the following block fields:\n"@ + spec_field_lines(fields) + spec_config_info(
        vo,
        to,
        rz,
    ) + "\nOriginal Block Header:\n"@ + spec_header_info(orig) + "\nBroken Block Header:\n"@
        + spec_header_info(broken) + "\nBroken Block Header (Hex):\n"@ + spec_hex_of(
        spec_enc_header(broken),
    ) + "\n"@
}

impl Generator {
    /// Decodes a block header from hex, corrupts exactly the requested
    /// fields under the given configuration, and reports the original and
    /// broken headers. With no usable fields nothing is mutated and the
    /// sentinel message is returned.
    pub fn break_block(block_header: String, cli_flags: Vec<String>, cli_config: Vec<String>) -> (r:
        String)
        ensures
            ({
                let fields = spec_parse_block_fields(cli_flags.deep_view());
                let folded = spec_config_fold(cli_config.deep_view(), (None, None, true));
                if fields.len() == 0 {
                    r@ == spec_no_flags_message()
                } else {
                    match spec_hex_decode(block_header@) {
                        None => r@ == "Error decoding block header: "@ + spec_decode_err_text(
                            DecodeError::InvalidHex,
                        ),
                        Some(b) => if b.len() != 80 {
                            r@ == "Error decoding block header: "@ + spec_decode_err_text(
                                DecodeError::InvalidLength,
                            )
                        } else {
                            exists|orig: crate::header::HeaderV, broken: crate::header::HeaderV|
                                {
                                    &&& spec_decode_header(b) == Some(orig)
                                    &&& spec_wf_header(broken)
                                    &&& (!spec_field_on(fields, BlockField::Version)
                                        ==> broken.version == orig.version)
                                    &&& (spec_field_on(fields, BlockField::Version) ==> (
                                    match folded.0 {
                                        Some(v) => broken.version == spec_i32_to_u32(v),
                                        None => broken.version != orig.version,
                                    }))
                                    &&& (!spec_field_on(fields, BlockField::Timestamp)
                                        ==> broken.time == orig.time)
                                    &&& (spec_field_on(fields, BlockField::Timestamp) ==> (
                                    match folded.1 {
                                        Some(o) => broken.time == spec_break_time(orig.time, o),
                                        None => broken.time != orig.time,
                                    }))
                                    &&& (!spec_field_on(fields, BlockField::PrevBlockHash)
                                        ==> broken.prev_blockhash == orig.prev_blockhash)
                                    &&& (spec_field_on(fields, BlockField::PrevBlockHash) ==> (
                                    if folded.2 {
                                        broken.prev_blockhash != orig.prev_blockhash
                                    } else {
                                        broken.prev_blockhash == Seq::new(32, |j: int| 0u8)
                                    }))
                                    &&& (!spec_field_on(fields, BlockField::MerkleRoot)
                                        ==> broken.merkle_root == orig.merkle_root)
                                    &&& (spec_field_on(fields, BlockField::MerkleRoot) ==> (
                                    if folded.2 {
                                        broken.merkle_root != orig.merkle_root
                                    } else {
                                        broken.merkle_root == Seq::new(32, |j: int| 0u8)
                                    }))
                                    &&& (!spec_field_on(fields, BlockField::Bits) ==> broken.bits
                                        == orig.bits)
                                    &&& (spec_field_on(fields, BlockField::Bits) ==> broken.bits
                                        != orig.bits)
                                    &&& (!spec_field_on(fields, BlockField::Nonce)
                                        ==> broken.nonce == orig.nonce)
                                    &&& (spec_field_on(fields, BlockField::Nonce)
                                        ==> broken.nonce != orig.nonce)
                                    &&& r@ == spec_break_block_report(
                                        fields,
                                        folded.0,
                                        folded.1,
                                        folded.2,
                                        orig,
                                        broken,
                                    )
                                }
                        },
                    }
                }
            }),
    {
        let fields = Self::parse_cli_flags_to_block_fields(cli_flags);
        if fields.len() == 0 {
            let r = String::from_str(
                "No invalidation flags specified. Use 'help' for usage information.",
            );
            return r;
        }
        let config = Self::parse_cli_config_to_processing_config(cli_config, fields);
        let decoded = match BlockUtils::decode_header_from_hex(block_header.as_str()) {
            Ok(h) => h,
            Err(e) => {
                let mut r = String::from_str("Error decoding block header: ");
                r.append(decode_err_text(e));
                return r;
            },
        };
        let original_block = BlockUtils::create_minimal_block_from_header(decoded);
        let processor = BlockProcessor::new(config);
        let broken_block = processor.process_block(&original_block);
        let mut r = String::from_str("Breaking the following block fields:\n");
        let lines = field_lines(&processor.config.fields_to_modify);
        r.append(lines.as_str());
        let cfg_info = config_info(
            &processor.config.version_override,
            &processor.config.timestamp_offset,
            processor.config.randomize_hashes,
        );
        r.append(cfg_info.as_str());
        r.append("\nOriginal Block Header:\n");
        let orig_info = header_info(&original_block.header);
        r.append(orig_info.as_str());
        r.append("\nBroken Block Header:\n");
        let broken_info = header_info(&broken_block.header);
        r.append(broken_info.as_str());
        r.append("\nBroken Block Header (Hex):\n");
        let enc = crate::header::encode_header(&broken_block.header);
        let hex = encode_hex(&enc);
        r.append(hex.as_str());
        r.append("\n");
        proof {
            let fieldsv = processor.config.fields_to_modify@;
            assert(r@ =~= spec_break_block_report(
                fieldsv,
                processor.config.version_override,
                processor.config.timestamp_offset,
                processor.config.randomize_hashes,
                decoded@,
                broken_block@.header,
            ));
        }
        r
    }
}

// ---------------------------------------------------------------------------
// Generation reports
// ---------------------------------------------------------------------------

/// Items listed one per line, each line starting on a fresh line.
pub open spec fn spec_join_lines(xs: Seq<Seq<char>>) -> Seq<char>
    decreases xs.len(),
{
    if xs.len() == 0 {
        Seq::empty()
    } else {
        "\n"@ + xs[0] + spec_join_lines(xs.skip(1))
    }
}

proof fn lemma_join_lines_snoc(xs: Seq<Seq<char>>, x: Seq<char>)
    ensures
        spec_join_lines(xs.push(x)) == spec_join_lines(xs) + "\n"@ + x,
    decreases xs.len(),
{
    let xp = xs.push(x);
    if xs.len() == 0 {
        assert(xp[0] == x);
        assert(xp.skip(1) =~= Seq::<Seq<char>>::empty());
        assert(spec_join_lines(Seq::<Seq<char>>::empty()) == Seq::<char>::empty());
        assert(spec_join_lines(xp) =~= spec_join_lines(xs) + "\n"@ + x);
    } else {
        assert(xp[0] == xs[0]);
        assert(xp.skip(1) =~= xs.skip(1).push(x));
        lemma_join_lines_snoc(xs.skip(1), x);
        assert(spec_join_lines(xp) =~= spec_join_lines(xs) + "\n"@ + x);
    }
}

/// Joins items one per line.
fn join_lines(v: &Vec<String>) -> (r: String)
    ensures
        r@ == spec_join_lines(v.deep_view()),
{
    let ghost xs = v.deep_view();
    let mut out = String::new();
    let mut k: usize = 0;
    proof {
        assert(xs.take(0) =~= Seq::<Seq<char>>::empty());
    }
    while k < v.len()
        invariant
            k <= v@.len(),
            xs == v.deep_view(),
            xs.len() == v@.len(),
            out@ == spec_join_lines(xs.take(k as int)),
        decreases v@.len() - k,
    {
        let ghost pre = xs.take(k as int);
        proof {
            assert(xs[k as int] == v@[k as int]@);
            assert(xs.take(k as int + 1) =~= pre.push(xs[k as int]));
            lemma_join_lines_snoc(pre, xs[k as int]);
        }
        out.append("\n");
        out.append(v[k].as_str());
        k = k + 1;
    }
    proof {
        assert(xs.take(xs.len() as int) =~= xs);
    }
    out
}

/// The transaction generation report: the raw serializations, a separator,
/// and the transaction ids.
pub open spec fn spec_tx_report(raws: Seq<Seq<char>>, ids: Seq<Seq<char>>) -> Seq<char> {
    "Raw Transactions:"@ + spec_join_lines(raws) + "\n---\n"@ + "TXIDs:"@ + spec_join_lines(ids)
        + "\n"@
}

/// The block generation report: header fields, height, encoded header, raw
/// transactions and their ids, in five separated sections.
pub open spec fn spec_block_report(
    h: crate::header::HeaderV,
    height: u32,
    raws: Seq<Seq<char>>,
    ids: Seq<Seq<char>>,
) -> Seq<char> {
    "Header\n"@ + spec_header_info(h) + "\n---\n"@ + "Block Height: "@ + spec_dec_str(
        height as nat,
    ) + "\n---\n"@ + "Block Header encoded: "@ + spec_hex_of(spec_enc_header(h)) + "\n---\n"@
        + "Raw txs:"@ + spec_join_lines(raws) + "\n---\n"@ + "TxID:"@ + spec_join_lines(ids)
        + "\n"@
}

/// The block generation report over the generated transactions themselves:
/// their serializations and ids rendered from the transaction values.
pub open spec fn spec_generated_block_report(
    txs: Seq<crate::transaction::TransactionV>,
    b: crate::block::BlockV,
    height: u32,
) -> Seq<char> {
    spec_block_report(
        b.header,
        height,
        Seq::new(txs.len(), |i: int| spec_hex_of(spec_enc_tx(txs[i]))),
        Seq::new(txs.len(), |i: int| crate::txid::spec_txid_hex(txs[i])),
    )
}

/// The message returned when a random draw leaves the curve library unable
/// to build a key or signature.
pub open spec fn spec_generation_failed_message() -> Seq<char> {
    "Error: generation failed"@
}

impl Generator {
    /// Generates `count` transactions spending a P2WPKH input each, and
    /// reports their raw serializations and ids in two separated sections.
    pub fn transaction(count: u32) -> (r: String)
        ensures
            (exists|txs: Seq<crate::transaction::TransactionV>|
                {
                    &&& txs.len() == count
                    &&& (forall|i: int|
                        0 <= i < txs.len() ==> spec_wf_tx(#[trigger] txs[i]) && txs[i].input.len()
                            == 1 && txs[i].input[0].witness.len() > 0)
                    &&& r@ == spec_tx_report(
                        Seq::new(txs.len(), |i: int| spec_hex_of(spec_enc_tx(txs[i]))),
                        Seq::new(txs.len(), |i: int| crate::txid::spec_txid_hex(txs[i])),
                    )
                }) || (count > 0 && r@ == spec_generation_failed_message()),
    {
        let mut raws: Vec<String> = Vec::new();
        let mut ids: Vec<String> = Vec::new();
        let ghost mut txsv: Seq<crate::transaction::TransactionV> = Seq::empty();
        let mut c: u32 = 0;
        while c < count
            invariant
                c <= count,
                raws@.len() == c,
                ids@.len() == c,
                txsv.len() == c,
                forall|i: int|
                    0 <= i < txsv.len() ==> spec_wf_tx(#[trigger] txsv[i]) && txsv[i].input.len()
                        == 1 && txsv[i].input[0].witness.len() > 0,
                forall|i: int|
                    0 <= i < txsv.len() ==> #[trigger] raws.deep_view()[i] == spec_hex_of(
                        spec_enc_tx(txsv[i]),
                    ),
                forall|i: int|
                    0 <= i < txsv.len() ==> #[trigger] ids.deep_view()[i]
                        == crate::txid::spec_txid_hex(txsv[i]),
            decreases count - c,
        {
            let mut params = TxParams::default();
            params.input = Some(
                InputParams {
                    outpoint: None,
                    script: None,
                    sequence: None,
                    witness: None,
                    script_params: Some(
                        ScriptParams {
                            script_type: Some(ScriptTypes::P2WPKH),
                            private_key: None,
                        },
                    ),
                    private_key: None,
                },
            );
            let tx = match GenerateTx::valid_random(params) {
                Ok(t) => t,
                Err(_) => {
                    let r = String::from_str("Error: generation failed");
                    return r;
                },
            };
            let ghost rpre = raws.deep_view();
            let ghost ipre = ids.deep_view();
            let bytes = crate::transaction::encode_tx(&tx);
            let hex = encode_hex(&bytes);
            let ghost hexv = hex@;
            raws.push(hex);
            let id = txid_hex(&tx);
            let ghost idv = id@;
            ids.push(id);
            proof {
                txsv = txsv.push(tx@);
                assert(raws.deep_view() =~~= rpre.push(hexv));
                assert(ids.deep_view() =~~= ipre.push(idv));
            }
            c = c + 1;
        }
        let mut r = String::from_str("Raw Transactions:");
        let raw_lines = join_lines(&raws);
        r.append(raw_lines.as_str());
        r.append("\n---\n");
        r.append("TXIDs:");
        let id_lines = join_lines(&ids);
        r.append(id_lines.as_str());
        r.append("\n");
        proof {
            assert(raws.deep_view() =~= Seq::new(txsv.len(), |i: int| spec_hex_of(
                spec_enc_tx(txsv[i]),
            )));
            assert(ids.deep_view() =~= Seq::new(txsv.len(), |i: int| crate::txid::spec_txid_hex(
                txsv[i],
            )));
            assert(r@ =~= spec_tx_report(
                Seq::new(txsv.len(), |i: int| spec_hex_of(spec_enc_tx(txsv[i]))),
                Seq::new(txsv.len(), |i: int| crate::txid::spec_txid_hex(txsv[i])),
            ));
        }
        r
    }

    /// Generates a block holding `tx_count` fresh transactions after the
    /// coinbase, and reports the header, height, encoded header, raw
    /// transactions and ids in five separated sections.
    pub fn block(tx_count: u32) -> (r: String)
        ensures
            (exists|
                txs: Seq<crate::transaction::TransactionV>,
                b: crate::block::BlockV,
                height: u32,
            |
                {
                    &&& txs.len() == tx_count
                    &&& (forall|i: int|
                        0 <= i < txs.len() ==> spec_wf_tx(#[trigger] txs[i]) && txs[i].input.len()
                            == 1 && txs[i].input[0].witness.len() > 0)
                    &&& crate::block::spec_wf_block(b)
                    &&& b.txdata.len() == tx_count + 1
                    &&& b.txdata.skip(1) == txs
                    &&& b.header.merkle_root == crate::block_gen::spec_merkle_txids(b.txdata)
                    &&& (crate::block_gen::spec_block_segwit(b.txdata)
                        <==> crate::block_gen::spec_has_commitment_output(b.txdata[0]))
                    &&& r@ == #[trigger] spec_generated_block_report(txs, b, height)
                }) || r@ == spec_generation_failed_message(),
    {
        let mut txs: Vec<crate::transaction::Transaction> = Vec::new();
        let mut raws: Vec<String> = Vec::new();
        let mut ids: Vec<String> = Vec::new();
        let ghost mut txsv: Seq<crate::transaction::TransactionV> = Seq::empty();
        let mut c: u32 = 0;
        while c < tx_count
            invariant
                c <= tx_count,
                txs@.len() == c,
                raws@.len() == c,
                ids@.len() == c,
                txsv.len() == c,
                txs.deep_view() == txsv,
                forall|i: int|
                    0 <= i < txsv.len() ==> spec_wf_tx(#[trigger] txsv[i]) && txsv[i].input.len()
                        == 1 && txsv[i].input[0].witness.len() > 0,
                forall|i: int|
                    0 <= i < txsv.len() ==> #[trigger] raws.deep_view()[i] == spec_hex_of(
                        spec_enc_tx(txsv[i]),
                    ),
                forall|i: int|
                    0 <= i < txsv.len() ==> #[trigger] ids.deep_view()[i]
                        == crate::txid::spec_txid_hex(txsv[i]),
            decreases tx_count - c,
        {
            let mut params = TxParams::default();
            params.input = Some(
                InputParams {
                    outpoint: None,
                    script: None,
                    sequence: None,
                    witness: None,
                    script_params: Some(
                        ScriptParams {
                            script_type: Some(ScriptTypes::P2WPKH),
                            private_key: None,
                        },
                    ),
                    private_key: None,
                },
            );
            let tx = match GenerateTx::valid_random(params) {
                Ok(t) => t,
                Err(_) => {
                    let r = String::from_str("Error: generation failed");
                    return r;
                },
            };
            let ghost rpre = raws.deep_view();
            let ghost ipre = ids.deep_view();
            let ghost tpre = txs.deep_view();
            let bytes = crate::transaction::encode_tx(&tx);
            let hex = encode_hex(&bytes);
            let ghost hexv = hex@;
            raws.push(hex);
            let id = txid_hex(&tx);
            let ghost idv = id@;
            ids.push(id);
            let ghost txv = tx@;
            txs.push(tx);
            proof {
                txsv = txsv.push(txv);
                assert(raws.deep_view() =~~= rpre.push(hexv));
                assert(ids.deep_view() =~~= ipre.push(idv));
                assert(txs.deep_view() =~~= tpre.push(txv));
            }
            c = c + 1;
        }
        let (blk, height) = match GenerateBlock::valid_random(
            BlockParams { header: None, txs: Some(txs), height: None },
        ) {
            Ok(v) => v,
            Err(_) => {
                let r = String::from_str("Error: generation failed");
                return r;
            },
        };
        let mut r = String::from_str("Header\n");
        let hinfo = header_info(&blk.header);
        r.append(hinfo.as_str());
        r.append("\n---\n");
        r.append("Block Height: ");
        let hd = u64_to_dec(height as u64);
        r.append(hd.as_str());
        r.append("\n---\n");
        r.append("Block Header encoded: ");
        let henc = crate::header::encode_header(&blk.header);
        let hhex = encode_hex(&henc);
        r.append(hhex.as_str());
        r.append("\n---\n");
        r.append("Raw txs:");
        let raw_lines = join_lines(&raws);
        r.append(raw_lines.as_str());
        r.append("\n---\n");
        r.append("TxID:");
        let id_lines = join_lines(&ids);
        r.append(id_lines.as_str());
        r.append("\n");
        proof {
            assert(raws.deep_view() =~= Seq::new(txsv.len(), |i: int| spec_hex_of(
                spec_enc_tx(txsv[i]),
            )));
            assert(ids.deep_view() =~= Seq::new(txsv.len(), |i: int| crate::txid::spec_txid_hex(
                txsv[i],
            )));
            assert(blk@.txdata.skip(1) == txsv);
            assert(r@ =~= spec_block_report(
                blk@.header,
                height,
                Seq::new(txsv.len(), |i: int| spec_hex_of(spec_enc_tx(txsv[i]))),
                Seq::new(txsv.len(), |i: int| crate::txid::spec_txid_hex(txsv[i])),
            ));
            assert(r@ == spec_generated_block_report(txsv, blk@, height));
        }
        r
    }
}

} // verus!
