//! Random transaction generation: scripts, witnesses, inputs, outputs and
//! whole transactions, with override parameters.
//!
//! Unset parameters are drawn from the thread's randomness; every contract
//! below holds for every outcome of those draws. Supplied parameters are used
//! verbatim and the contracts say so.

use crate::hashes::{hash160, hash160_of, sha256, sha256_of};
use crate::keys::{generate_keypair, pubkey_from_sk, sign_ecdsa, sign_schnorr,
    sign_schnorr_tweaked, sk_is_valid, spec_ecdsa_sig_of, spec_pubkey_of, spec_schnorr_sig_of,
    spec_schnorr_tweaked_sig_of, spec_sk_valid, spec_tweaked_xonly_of, spec_xonly_of,
    tweaked_xonly_from_sk, xonly_from_sk};
use crate::rng::{random_bytes, rng_u32_range, rng_u64_range};
use crate::script::{build_p2pk_script, build_p2pkh_script, build_p2sh_script, build_p2tr_script,
    build_p2wpkh_script, build_p2wsh_script, prepend_bip34_height, spec_p2pk_script,
    spec_p2pkh_script, spec_p2sh_script, spec_p2tr_script, spec_p2wpkh_script,
    spec_p2wpkh_script_code, spec_p2wsh_script, spec_prepend_bip34, ScriptTypes};
use crate::sighash::{bip143_sighash, bip341_sighash, spec_bip143_sighash, spec_bip341_sighash,
    spec_taproot_tweak, taproot_tweak};
use crate::encoding::copy_bytes;
use crate::transaction::{spec_wf_input, spec_wf_output, spec_wf_tx, Transaction, TxInput,
    TxOutput, TxOutputV, MAX_LEN};
use vstd::prelude::*;

verus! {

/// Failures of the generation pipeline.
#[derive(Clone, Copy, Debug, PartialEq, Eq, Structural)]
pub enum GenError {
    /// The randomness or key source could not produce a usable key (for the
    /// tweaked taproot path, a rejected tweak).
    KeyGeneration,
    /// A caller-supplied key or override does not fit the script being
    /// built: an invalid secret key, a wrong-sized txid, or an oversized
    /// script or witness.
    Signing,
}

/// Options for building one script.
pub struct ScriptParams {
    /// The script type to build; a random choice when unset.
    pub script_type: Option<ScriptTypes>,
    /// The secret key to build it over; a fresh key when unset.
    pub private_key: Option<Vec<u8>>,
}

/// Options for building one input.
pub struct InputParams {
    /// Referenced outpoint (txid bytes in wire order, output index).
    pub outpoint: Option<(Vec<u8>, u32)>,
    /// A ready-made script and its type, used verbatim as the unlocking
    /// script.
    pub script: Option<(Vec<u8>, ScriptTypes)>,
    /// Sequence number; final (`0xffffffff`) when unset.
    pub sequence: Option<u32>,
    /// A ready-made witness stack, used verbatim.
    pub witness: Option<Vec<Vec<u8>>>,
    /// Script options for a generated script.
    pub script_params: Option<ScriptParams>,
    /// Key fallback for the generated script.
    pub private_key: Option<Vec<u8>>,
}

/// Options for building one output.
pub struct OutputParams {
    /// Amount in satoshis; random positive when unset.
    pub value: Option<u64>,
    /// Script options for the locking script.
    pub script_params: Option<ScriptParams>,
    /// Key fallback for the locking script.
    pub private_key: Option<Vec<u8>>,
}

/// Options for building one transaction.
pub struct TxParams {
    /// Version as the consensus value; random in `{1, 2}` when unset.
    pub version: Option<u32>,
    /// Lock time; random height- or time-based when unset.
    pub lock_time: Option<u32>,
    /// Input options.
    pub input: Option<InputParams>,
    /// Output options.
    pub output: Option<OutputParams>,
    /// Key shared by input and output scripts when their own keys are unset.
    pub private_key: Option<Vec<u8>>,
    /// When set, the input's unlocking script is prefixed with the BIP34
    /// height push; used for coinbase construction.
    pub block_height: Option<u32>,
}

impl Default for ScriptParams {
    fn default() -> (r: Self)
        ensures
            r.script_type is None,
            r.private_key is None,
    {
        ScriptParams { script_type: None, private_key: None }
    }
}

impl Default for InputParams {
    fn default() -> (r: Self)
        ensures
            r.outpoint is None,
            r.script is None,
            r.sequence is None,
            r.witness is None,
            r.script_params is None,
            r.private_key is None,
    {
        InputParams {
            outpoint: None,
            script: None,
            sequence: None,
            witness: None,
            script_params: None,
            private_key: None,
        }
    }
}

impl Default for OutputParams {
    fn default() -> (r: Self)
        ensures
            r.value is None,
            r.script_params is None,
            r.private_key is None,
    {
        OutputParams { value: None, script_params: None, private_key: None }
    }
}

impl Default for TxParams {
    fn default() -> (r: Self)
        ensures
            r.version is None,
            r.lock_time is None,
            r.input is None,
            r.output is None,
            r.private_key is None,
            r.block_height is None,
    {
        TxParams {
            version: None,
            lock_time: None,
            input: None,
            output: None,
            private_key: None,
            block_height: None,
        }
    }
}

// ---------------------------------------------------------------------------
// Lock scripts
// ---------------------------------------------------------------------------

/// The canonical lock script a given type puts over a given key. The P2SH
/// redeem script and the P2WSH witness script are the P2PK script of the
/// key; the tweaked taproot output key commits to an empty script tree.
pub open spec fn spec_lock_script(st: ScriptTypes, sk: Seq<u8>) -> Seq<u8> {
    match st {
        ScriptTypes::P2PK => spec_p2pk_script(spec_pubkey_of(sk)),
        ScriptTypes::P2PKH => spec_p2pkh_script(hash160_of(spec_pubkey_of(sk))),
        ScriptTypes::P2SH => spec_p2sh_script(hash160_of(spec_p2pk_script(spec_pubkey_of(sk)))),
        ScriptTypes::P2WPKH => spec_p2wpkh_script(hash160_of(spec_pubkey_of(sk))),
        ScriptTypes::P2WSH => spec_p2wsh_script(sha256_of(spec_p2pk_script(spec_pubkey_of(sk)))),
        ScriptTypes::P2TR => spec_p2tr_script(spec_xonly_of(sk)),
        ScriptTypes::P2TWEAKEDTR => spec_p2tr_script(
            spec_tweaked_xonly_of(sk, spec_taproot_tweak(spec_xonly_of(sk))),
        ),
    }
}

/// Builds the lock script of a type over a valid secret key. Fails only on
/// the tweaked taproot path, when the curve library rejects the tweak.
fn build_lock_script(st: ScriptTypes, sk: &Vec<u8>) -> (r: Result<Vec<u8>, GenError>)
    requires
        spec_sk_valid(sk@),
    ensures
        match r {
            Ok(script) => script@ == spec_lock_script(st, sk@) && script@.len() <= 35
                && script@.len() > 0,
            Err(e) => e == GenError::KeyGeneration && st == ScriptTypes::P2TWEAKEDTR,
        },
{
    match st {
        ScriptTypes::P2PK => {
            let pk = pubkey_from_sk(sk);
            Ok(build_p2pk_script(&pk))
        },
        ScriptTypes::P2PKH => {
            let pk = pubkey_from_sk(sk);
            let h = hash160(&pk);
            Ok(build_p2pkh_script(&h))
        },
        ScriptTypes::P2SH => {
            let pk = pubkey_from_sk(sk);
            let redeem = build_p2pk_script(&pk);
            let h = hash160(&redeem);
            Ok(build_p2sh_script(&h))
        },
        ScriptTypes::P2WPKH => {
            let pk = pubkey_from_sk(sk);
            let h = hash160(&pk);
            Ok(build_p2wpkh_script(&h))
        },
        ScriptTypes::P2WSH => {
            let pk = pubkey_from_sk(sk);
            let ws = build_p2pk_script(&pk);
            let h = sha256(&ws);
            Ok(build_p2wsh_script(&h))
        },
        ScriptTypes::P2TR => {
            let x = xonly_from_sk(sk);
            Ok(build_p2tr_script(&x))
        },
        ScriptTypes::P2TWEAKEDTR => {
            let x = xonly_from_sk(sk);
            let tweak = taproot_tweak(&x);
            match tweaked_xonly_from_sk(sk, &tweak) {
                Some(tx) => Ok(build_p2tr_script(&tx)),
                None => Err(GenError::KeyGeneration),
            }
        },
    }
}

/// A uniformly random script type.
pub fn random_script_type() -> (r: ScriptTypes) {
    let c = rng_u32_range(0, 7);
    if c == 0 {
        ScriptTypes::P2PK
    } else if c == 1 {
        ScriptTypes::P2PKH
    } else if c == 2 {
        ScriptTypes::P2SH
    } else if c == 3 {
        ScriptTypes::P2WPKH
    } else if c == 4 {
        ScriptTypes::P2WSH
    } else if c == 5 {
        ScriptTypes::P2TR
    } else {
        ScriptTypes::P2TWEAKEDTR
    }
}

/// Resolves a key option: validates a supplied key, draws a fresh one
/// otherwise.
fn resolve_key(k: &Option<Vec<u8>>) -> (r: Result<Vec<u8>, GenError>)
    ensures
        match r {
            Ok(sk) => spec_sk_valid(sk@) && (k matches Some(v) ==> sk@ == v@),
            Err(e) => e == GenError::Signing && (k matches Some(v) ==> !spec_sk_valid(v@)) && !(k
                is None),
        },
{
    match k {
        Some(v) => {
            if sk_is_valid(v) {
                Ok(copy_bytes(v))
            } else {
                Err(GenError::Signing)
            }
        },
        None => {
            let (sk, _pk) = generate_keypair();
            Ok(sk)
        },
    }
}

/// The script engine: builds the script for the requested (or random) type
/// over the supplied (or fresh) key.
///
/// With a supplied type other than the tweaked taproot one and a valid (or
/// absent) key, the call always succeeds.
pub fn random_script(params: ScriptParams) -> (r: Result<(Vec<u8>, ScriptTypes), GenError>)
    ensures
        match r {
            Ok((script, st)) => {
                &&& (params.script_type matches Some(t) ==> st == t)
                &&& exists|skv: Seq<u8>|
                    spec_sk_valid(skv) && (params.private_key matches Some(k) ==> skv == k@)
                        && script@ == spec_lock_script(st, skv)
                &&& 0 < script@.len() <= MAX_LEN
            },
            Err(e) => (e == GenError::Signing && (params.private_key matches Some(v)
                && !spec_sk_valid(v@))) || (e == GenError::KeyGeneration && !(params.script_type
                matches Some(t) && t != ScriptTypes::P2TWEAKEDTR)),
        },
{
    let sk = match resolve_key(&params.private_key) {
        Ok(v) => v,
        Err(e) => { return Err(e); },
    };
    let st = match params.script_type {
        Some(t) => t,
        None => random_script_type(),
    };
    match build_lock_script(st, &sk) {
        Ok(script) => {
            proof {
                let skv = sk@;
                assert(spec_sk_valid(skv) && (params.private_key matches Some(k) ==> skv == k@)
                    && script@ == spec_lock_script(st, skv));
            }
            Ok((script, st))
        },
        Err(e) => Err(e),
    }
}

// ---------------------------------------------------------------------------
// Witness construction
// ---------------------------------------------------------------------------

/// The witness stack a generated segwit input carries, as a function of the
/// unsigned transaction, the script type, the signing key and the stand-in
/// value of the spent output.
pub open spec fn spec_witness_stack(
    t: crate::transaction::TransactionV,
    st: ScriptTypes,
    sk: Seq<u8>,
    value: u64,
) -> Seq<Seq<u8>> {
    if st == ScriptTypes::P2WPKH {
        seq![
            spec_ecdsa_sig_of(
                spec_bip143_sighash(
                    t,
                    0,
                    spec_p2wpkh_script_code(hash160_of(spec_pubkey_of(sk))),
                    value,
                    1,
                ),
                sk,
            ).push(1u8),
            spec_pubkey_of(sk),
        ]
    } else if st == ScriptTypes::P2WSH {
        seq![
            spec_ecdsa_sig_of(
                spec_bip143_sighash(t, 0, spec_p2pk_script(spec_pubkey_of(sk)), value, 1),
                sk,
            ).push(1u8),
            spec_p2pk_script(spec_pubkey_of(sk)),
        ]
    } else if st == ScriptTypes::P2TR {
        seq![
            spec_schnorr_sig_of(
                spec_bip341_sighash(
                    t,
                    0,
                    seq![
                        TxOutputV {
                            value: value,
                            script_pubkey: spec_lock_script(ScriptTypes::P2TR, sk),
                        },
                    ],
                ),
                sk,
            ),
        ]
    } else if st == ScriptTypes::P2TWEAKEDTR {
        seq![
            spec_schnorr_tweaked_sig_of(
                spec_bip341_sighash(
                    t,
                    0,
                    seq![
                        TxOutputV {
                            value: value,
                            script_pubkey: spec_lock_script(ScriptTypes::P2TWEAKEDTR, sk),
                        },
                    ],
                ),
                sk,
                spec_taproot_tweak(spec_xonly_of(sk)),
            ),
        ]
    } else {
        Seq::empty()
    }
}

/// Builds the witness stack for input 0 of an unsigned transaction.
fn build_witness(tx: &Transaction, st: ScriptTypes, sk: &Vec<u8>, value: u64) -> (r: Result<
    Vec<Vec<u8>>,
    GenError,
>)
    requires
        spec_wf_tx(tx@),
        spec_sk_valid(sk@),
        !st.spec_is_legacy(),
    ensures
        match r {
            Ok(w) => {
                &&& w.deep_view() == spec_witness_stack(tx@, st, sk@, value)
                &&& w@.len() > 0
                &&& w@.len() <= MAX_LEN
                &&& forall|j: int| 0 <= j < w@.len() ==> #[trigger] w.deep_view()[j].len()
                    <= MAX_LEN
            },
            Err(e) => e == GenError::KeyGeneration && st == ScriptTypes::P2TWEAKEDTR,
        },
{
    match st {
        ScriptTypes::P2WPKH => {
            let pk = pubkey_from_sk(sk);
            let h = hash160(&pk);
            let sc = build_p2pkh_script(&h);
            let digest = bip143_sighash(tx, 0, &sc, value, 1);
            let mut sig = sign_ecdsa(&digest, sk);
            sig.push(1u8);
            let mut w: Vec<Vec<u8>> = Vec::new();
            let ghost sigv = sig@;
            w.push(sig);
            w.push(pk);
            proof {
                assert(w.deep_view() =~~= spec_witness_stack(tx@, st, sk@, value));
            }
            Ok(w)
        },
        ScriptTypes::P2WSH => {
            let pk = pubkey_from_sk(sk);
            let ws = build_p2pk_script(&pk);
            let digest = bip143_sighash(tx, 0, &ws, value, 1);
            let mut sig = sign_ecdsa(&digest, sk);
            sig.push(1u8);
            let mut w: Vec<Vec<u8>> = Vec::new();
            w.push(sig);
            w.push(ws);
            proof {
                assert(w.deep_view() =~~= spec_witness_stack(tx@, st, sk@, value));
            }
            Ok(w)
        },
        ScriptTypes::P2TR => {
            let x = xonly_from_sk(sk);
            let spk = build_p2tr_script(&x);
            let mut prevouts: Vec<TxOutput> = Vec::new();
            prevouts.push(TxOutput { value: value, script_pubkey: spk });
            proof {
                assert(prevouts.deep_view() =~~= seq![
                    TxOutputV {
                        value: value,
                        script_pubkey: spec_lock_script(ScriptTypes::P2TR, sk@),
                    },
                ]);
            }
            let digest = bip341_sighash(tx, 0, &prevouts);
            let sig = sign_schnorr(&digest, sk);
            let mut w: Vec<Vec<u8>> = Vec::new();
            w.push(sig);
            proof {
                assert(w.deep_view() =~~= spec_witness_stack(tx@, st, sk@, value));
            }
            Ok(w)
        },
        ScriptTypes::P2TWEAKEDTR => {
            let x = xonly_from_sk(sk);
            let tweak = taproot_tweak(&x);
            let txo = match tweaked_xonly_from_sk(sk, &tweak) {
                Some(v) => v,
                None => { return Err(GenError::KeyGeneration); },
            };
            let spk = build_p2tr_script(&txo);
            let mut prevouts: Vec<TxOutput> = Vec::new();
            prevouts.push(TxOutput { value: value, script_pubkey: spk });
            proof {
                assert(prevouts.deep_view() =~~= seq![
                    TxOutputV {
                        value: value,
                        script_pubkey: spec_lock_script(ScriptTypes::P2TWEAKEDTR, sk@),
                    },
                ]);
            }
            let digest = bip341_sighash(tx, 0, &prevouts);
            let sig = match sign_schnorr_tweaked(&digest, sk, &tweak) {
                Some(v) => v,
                None => { return Err(GenError::KeyGeneration); },
            };
            let mut w: Vec<Vec<u8>> = Vec::new();
            w.push(sig);
            proof {
                assert(w.deep_view() =~~= spec_witness_stack(tx@, st, sk@, value));
            }
            Ok(w)
        },
        _ => {
            proof {
                assert(false);
            }
            Err(GenError::Signing)
        },
    }
}

/// Picks the signing key: the primary option, else the secondary, else the
/// fallback; supplied keys must be valid.
fn pick_key(primary: &Option<Vec<u8>>, secondary: &Option<Vec<u8>>, fallback: &Vec<u8>) -> (r:
    Result<Vec<u8>, GenError>)
    requires
        spec_sk_valid(fallback@),
    ensures
        match r {
            Ok(k) => {
                &&& spec_sk_valid(k@)
                &&& (primary matches Some(v) ==> k@ == v@)
                &&& (primary is None ==> (secondary matches Some(v) ==> k@ == v@))
                &&& (primary is None && secondary is None ==> k@ == fallback@)
            },
            Err(e) => e == GenError::Signing && ((primary matches Some(v) && !spec_sk_valid(v@))
                || (primary is None && (secondary matches Some(v) && !spec_sk_valid(v@)))),
        },
{
    match primary {
        Some(v) => {
            if sk_is_valid(v) {
                Ok(copy_bytes(v))
            } else {
                Err(GenError::Signing)
            }
        },
        None => {
            match secondary {
                Some(v) => {
                    if sk_is_valid(v) {
                        Ok(copy_bytes(v))
                    } else {
                        Err(GenError::Signing)
                    }
                },
                None => Ok(copy_bytes(fallback)),
            }
        },
    }
}

/// Whether every supplied element of the witness respects the size bounds.
fn witness_fits(w: &Vec<Vec<u8>>) -> (r: bool)
    ensures
        r == (w.deep_view().len() <= MAX_LEN && forall|j: int|
            0 <= j < w.deep_view().len() ==> #[trigger] w.deep_view()[j].len() <= MAX_LEN),
{
    if w.len() > MAX_LEN {
        return false;
    }
    let mut j: usize = 0;
    while j < w.len()
        invariant
            j <= w@.len(),
            w@.len() <= MAX_LEN,
            forall|m: int| 0 <= m < j ==> #[trigger] w.deep_view()[m].len() <= MAX_LEN,
        decreases w@.len() - j,
    {
        if w[j].len() > MAX_LEN {
            proof {
                assert(w.deep_view()[j as int].len() > MAX_LEN);
            }
            return false;
        }
        proof {
            assert(w.deep_view()[j as int].len() <= MAX_LEN);
        }
        j = j + 1;
    }
    true
}

/// The script type an input's parameters pin down, if any.
pub open spec fn spec_resolved_input_type(ip: InputParams) -> Option<ScriptTypes> {
    match ip.script {
        Some(sc) => Some(sc.1),
        None => match ip.script_params {
            Some(sp) => sp.script_type,
            None => None,
        },
    }
}

/// Whether the supplied overrides of an input are usable: keys valid, txid
/// 32 bytes, script small enough to carry a BIP34 prefix, witness bounded.
pub open spec fn spec_input_overrides_ok(ip: InputParams) -> bool {
    &&& (ip.private_key matches Some(k) ==> spec_sk_valid(k@))
    &&& (ip.script_params matches Some(sp) ==> (sp.private_key matches Some(k) ==> spec_sk_valid(
        k@,
    )))
    &&& (ip.outpoint matches Some(op) ==> op.0@.len() == 32)
    &&& (ip.script matches Some(sc) ==> sc.0@.len() + 5 <= MAX_LEN)
    &&& (ip.witness matches Some(w) ==> w.deep_view().len() <= MAX_LEN && forall|j: int|
        0 <= j < w.deep_view().len() ==> #[trigger] w.deep_view()[j].len() <= MAX_LEN)
}

/// Whether the supplied overrides of an output are usable.
pub open spec fn spec_output_overrides_ok(op: OutputParams) -> bool {
    &&& (op.private_key matches Some(k) ==> spec_sk_valid(k@))
    &&& (op.script_params matches Some(sp) ==> (sp.private_key matches Some(k) ==> spec_sk_valid(
        k@,
    )))
}

/// Whether the supplied overrides of a transaction are usable.
pub open spec fn spec_tx_overrides_ok(p: TxParams) -> bool {
    &&& (p.private_key matches Some(k) ==> spec_sk_valid(k@))
    &&& (p.input matches Some(ip) ==> spec_input_overrides_ok(ip))
    &&& (p.output matches Some(op) ==> spec_output_overrides_ok(op))
}

/// Whether an input's parameters rule out the one fallible build path, the
/// tweaked-taproot tweak.
pub open spec fn spec_input_nofail(ip: InputParams) -> bool {
    match ip.script {
        Some(sc) => sc.1 != ScriptTypes::P2TWEAKEDTR || !(ip.witness is None),
        None => match ip.script_params {
            Some(sp) => sp.script_type matches Some(t) && t != ScriptTypes::P2TWEAKEDTR,
            None => false,
        },
    }
}

pub open spec fn spec_output_nofail(op: OutputParams) -> bool {
    match op.script_params {
        Some(sp) => match sp.script_type {
            Some(t) => t != ScriptTypes::P2TWEAKEDTR,
            None => false,
        },
        None => false,
    }
}

/// Builds one output: supplied or random positive value, and a lock script
/// of the requested or random type.
impl TxOutput {
    pub fn random(params: OutputParams) -> (r: Result<(TxOutput, ScriptTypes), GenError>)
        ensures
            match r {
                Ok((o, st)) => {
                    &&& spec_wf_output(o@)
                    &&& o@.script_pubkey.len() > 0
                    &&& (params.value matches Some(v) ==> o@.value == v)
                    &&& (params.value is None ==> o@.value >= 1)
                    &&& (params.script_params matches Some(sp) ==> (sp.script_type matches Some(t)
                        ==> st == t))
                    &&& o@.script_pubkey.len() <= 35
                    &&& exists|skv: Seq<u8>|
                        spec_sk_valid(skv) && o@.script_pubkey == spec_lock_script(st, skv)
                },
                Err(e) => (e == GenError::Signing && !spec_output_overrides_ok(params)) || (e
                    == GenError::KeyGeneration && !spec_output_nofail(params)),
            },
    {
        let (sp_type, sp_key): (Option<ScriptTypes>, Option<Vec<u8>>) = match params.script_params {
            Some(sp) => (sp.script_type, sp.private_key),
            None => (None, None),
        };
        let (fallback, _pk) = generate_keypair();
        let key = match pick_key(&sp_key, &params.private_key, &fallback) {
            Ok(k) => k,
            Err(e) => { return Err(e); },
        };
        let st = match sp_type {
            Some(t) => t,
            None => random_script_type(),
        };
        let script = match build_lock_script(st, &key) {
            Ok(s) => s,
            Err(e) => { return Err(e); },
        };
        let value: u64 = match params.value {
            Some(v) => v,
            None => rng_u64_range(1, 2_100_000_000_000_000),
        };
        let o = TxOutput { value: value, script_pubkey: script };
        proof {
            let skv = key@;
            assert(spec_sk_valid(skv) && o@.script_pubkey == spec_lock_script(st, skv));
        }
        Ok((o, st))
    }
}

/// Builds one input standing alone: the unlocking script is the lock script
/// of the resolved type, and for segwit types the witness signs a minimal
/// stand-in transaction around this input.
impl TxInput {
    pub fn random(params: InputParams) -> (r: Result<TxInput, GenError>)
        ensures
            match r {
                Ok(i) => {
                    &&& spec_wf_input(i@)
                    &&& (params.outpoint matches Some(op) ==> i@.prev_txid == op.0@
                        && i@.prev_vout == op.1)
                    &&& (params.sequence matches Some(s) ==> i@.sequence == s)
                    &&& (params.sequence is None ==> i@.sequence == 0xffffffff)
                    &&& (params.witness matches Some(w) ==> i@.witness == w.deep_view())
                    &&& (params.script matches Some(sc) ==> i@.script_sig == sc.0@)
                    &&& (params.witness is None ==> (spec_resolved_input_type(params)
                        matches Some(t) ==> (t.spec_is_legacy() <==> i@.witness.len() == 0)))
                },
                Err(e) => (e == GenError::Signing && !spec_input_overrides_ok(params)) || (e
                    == GenError::KeyGeneration && !spec_input_nofail(params)),
            },
    {
        build_input(params, None)
    }
}

/// Builds one input, optionally prefixing the unlocking script with a BIP34
/// height push, and signing `enclosing` (or a stand-in around the input)
/// for segwit witnesses.
pub(crate) fn build_input(params: InputParams, height: Option<u32>) -> (r: Result<
    TxInput,
    GenError,
>)
    ensures
        match r {
            Ok(i) => {
                &&& spec_wf_input(i@)
                &&& (params.outpoint matches Some(op) ==> i@.prev_txid == op.0@ && i@.prev_vout
                    == op.1)
                &&& (params.sequence matches Some(s) ==> i@.sequence == s)
                &&& (params.sequence is None ==> i@.sequence == 0xffffffff)
                &&& (params.witness matches Some(w) ==> i@.witness == w.deep_view())
                &&& (params.script matches Some(sc) ==> i@.script_sig == (match height {
                    Some(h) => spec_prepend_bip34(sc.0@, h),
                    None => sc.0@,
                }))
                &&& (params.witness is None ==> (spec_resolved_input_type(params) matches Some(
                    t,
                ) ==> (t.spec_is_legacy() <==> i@.witness.len() == 0)))
            },
            Err(e) => (e == GenError::Signing && !spec_input_overrides_ok(params)) || (e
                == GenError::KeyGeneration && !spec_input_nofail(params)),
        },
{
    let (sp_type, sp_key): (Option<ScriptTypes>, Option<Vec<u8>>) = match params.script_params {
        Some(sp) => (sp.script_type, sp.private_key),
        None => (None, None),
    };
    let (fallback, _pk) = generate_keypair();
    let key = match pick_key(&sp_key, &params.private_key, &fallback) {
        Ok(k) => k,
        Err(e) => { return Err(e); },
    };
    let (lock, st): (Vec<u8>, ScriptTypes) = match params.script {
        Some((s, t)) => {
            if s.len() > MAX_LEN - 5 {
                return Err(GenError::Signing);
            }
            (s, t)
        },
        None => {
            let t = match sp_type {
                Some(t0) => t0,
                None => random_script_type(),
            };
            let s = match build_lock_script(t, &key) {
                Ok(s0) => s0,
                Err(e) => { return Err(e); },
            };
            (s, t)
        },
    };
    let (ptxid, pvout): (Vec<u8>, u32) = match params.outpoint {
        Some((t, v)) => {
            if t.len() != 32 {
                return Err(GenError::Signing);
            }
            (t, v)
        },
        None => (random_bytes(32), rng_u32_range(0, 10)),
    };
    let seqn: u32 = match params.sequence {
        Some(s) => s,
        None => 0xffffffffu32,
    };
    let script_sig: Vec<u8> = match height {
        Some(h) => {
            let pref = prepend_bip34_height(&lock, h);
            proof {
                lemma_enc_varint_short(h as u64);
            }
            pref
        },
        None => copy_bytes(&lock),
    };
    proof {
        assert(script_sig@.len() <= MAX_LEN);
    }
    // The unsigned stand-in the witness signs: this input alone, paying one
    // output locked by the same script.
    let value: u64 = rng_u64_range(1, 2_100_000_000_000_000);
    let in0 = TxInput {
        prev_txid: copy_bytes(&ptxid),
        prev_vout: pvout,
        script_sig: copy_bytes(&script_sig),
        sequence: seqn,
        witness: Vec::new(),
    };
    let out0 = TxOutput { value: value, script_pubkey: copy_bytes(&lock) };
    let ghost in0v = in0@;
    let ghost out0v = out0@;
    let unsigned = Transaction {
        version: 2,
        lock_time: 0,
        input: vec![in0],
        output: vec![out0],
    };
    proof {
        assert(unsigned@.input =~~= seq![in0v]);
        assert(unsigned@.output =~~= seq![out0v]);
        assert(in0v.witness =~= Seq::<Seq<u8>>::empty());
        assert(spec_wf_input(in0v));
        assert(spec_wf_output(out0v));
        assert(spec_wf_tx(unsigned@));
    }
    let wit: Vec<Vec<u8>> = match params.witness {
        Some(w) => {
            if !witness_fits(&w) {
                return Err(GenError::Signing);
            }
            w
        },
        None => {
            if st.is_legacy() {
                Vec::new()
            } else {
                match build_witness(&unsigned, st, &key, value) {
                    Ok(w) => w,
                    Err(e) => { return Err(e); },
                }
            }
        },
    };
    let i = TxInput {
        prev_txid: ptxid,
        prev_vout: pvout,
        script_sig: script_sig,
        sequence: seqn,
        witness: wit,
    };
    proof {
        assert(spec_wf_input(i@));
    }
    Ok(i)
}

/// The transaction as its witness signs it: the single input's witness
/// stack removed.
pub open spec fn spec_unsigned_of(t: crate::transaction::TransactionV) -> crate::transaction::TransactionV {
    crate::transaction::TransactionV {
        input: Seq::new(t.input.len(), |k: int| if k == 0 {
            crate::transaction::TxInputV { witness: Seq::empty(), ..t.input[0] }
        } else {
            t.input[k]
        }),
        ..t
    }
}

/// Whether a transaction's parameters rule out every fallible build path.
pub open spec fn spec_tx_nofail(p: TxParams) -> bool {
    &&& (p.input matches Some(ip) && spec_input_nofail(ip))
    &&& (p.output matches Some(op) && spec_output_nofail(op))
}

impl Transaction {
    /// Generates one transaction: one input and one output, unset fields
    /// randomized, supplied overrides used verbatim. Generated witnesses
    /// sign the enclosing unsigned transaction; legacy script types leave
    /// the witness empty.
    pub fn random(params: TxParams) -> (r: Result<Transaction, GenError>)
        ensures
            match r {
                Ok(tx) => {
                    &&& spec_wf_tx(tx@)
                    &&& tx@.input.len() == 1
                    &&& tx@.output.len() == 1
                    &&& (params.version matches Some(v) ==> tx@.version == v)
                    &&& (params.version is None ==> 1 <= tx@.version <= 2)
                    &&& (params.lock_time matches Some(l) ==> tx@.lock_time == l)
                    &&& (params.input matches Some(ip) ==> {
                        &&& (ip.outpoint matches Some(op) ==> tx@.input[0].prev_txid == op.0@
                            && tx@.input[0].prev_vout == op.1)
                        &&& (ip.sequence matches Some(sq) ==> tx@.input[0].sequence == sq)
                        &&& (ip.sequence is None ==> tx@.input[0].sequence == 0xffffffff)
                        &&& (ip.witness matches Some(w) ==> tx@.input[0].witness == w.deep_view())
                        &&& (ip.script matches Some(sc) ==> tx@.input[0].script_sig == (
                        match params.block_height {
                            Some(h) => spec_prepend_bip34(sc.0@, h),
                            None => sc.0@,
                        }))
                        &&& (ip.witness is None ==> (spec_resolved_input_type(ip) matches Some(t)
                            ==> (t.spec_is_legacy() <==> tx@.input[0].witness.len() == 0)))
                        &&& (match (ip.witness, ip.script, ip.script_params) {
                            (None, None, Some(sp)) => (match (sp.script_type, sp.private_key) {
                                (Some(t), Some(k)) => (!t.spec_is_legacy() && spec_sk_valid(k@))
                                    ==> tx@.input[0].witness == spec_witness_stack(
                                    spec_unsigned_of(tx@),
                                    t,
                                    k@,
                                    tx@.output[0].value,
                                ),
                                _ => true,
                            }),
                            _ => true,
                        })
                    })
                    &&& (params.input is None ==> tx@.input[0].sequence == 0xffffffff)
                    &&& (params.output matches Some(op) ==> (op.value matches Some(v)
                        ==> tx@.output[0].value == v) && (op.value is None ==> tx@.output[0].value
                        >= 1))
                    &&& (params.output is None ==> tx@.output[0].value >= 1)
                    &&& tx@.output[0].script_pubkey.len() <= 35
                    &&& (params.block_height matches Some(h) ==> exists|rest: Seq<u8>|
                        tx@.input[0].script_sig == spec_prepend_bip34(rest, h))
                },
                Err(e) => (e == GenError::Signing ==> !spec_tx_overrides_ok(params)) && (e
                    == GenError::KeyGeneration ==> !spec_tx_nofail(params)),
            },
            spec_tx_overrides_ok(params) && spec_tx_nofail(params) ==> r is Ok,
    {
        let base = match resolve_key(&params.private_key) {
            Ok(k) => k,
            Err(e) => { return Err(e); },
        };
        let ip = match params.input {
            Some(v) => v,
            None => InputParams::default(),
        };
        let op = match params.output {
            Some(v) => v,
            None => OutputParams::default(),
        };
        let (sp_type, sp_key): (Option<ScriptTypes>, Option<Vec<u8>>) = match ip.script_params {
            Some(sp) => (sp.script_type, sp.private_key),
            None => (None, None),
        };
        let no_key: Option<Vec<u8>> = None;
        let key = match pick_key(&sp_key, &no_key, &base) {
            Ok(k) => k,
            Err(e) => { return Err(e); },
        };
        let (lock, st): (Vec<u8>, ScriptTypes) = match ip.script {
            Some((s, t)) => {
                if s.len() > MAX_LEN - 5 {
                    return Err(GenError::Signing);
                }
                (s, t)
            },
            None => {
                let t = match sp_type {
                    Some(t0) => t0,
                    None => random_script_type(),
                };
                let s = match build_lock_script(t, &key) {
                    Ok(s0) => s0,
                    Err(e) => { return Err(e); },
                };
                (s, t)
            },
        };
        let (ptxid, pvout): (Vec<u8>, u32) = match ip.outpoint {
            Some((t, v)) => {
                if t.len() != 32 {
                    return Err(GenError::Signing);
                }
                (t, v)
            },
            None => (random_bytes(32), rng_u32_range(0, 10)),
        };
        let seqn: u32 = match ip.sequence {
            Some(s) => s,
            None => 0xffffffffu32,
        };
        let script_sig: Vec<u8> = match params.block_height {
            Some(h) => {
                let pref = prepend_bip34_height(&lock, h);
                proof {
                    lemma_enc_varint_short(h as u64);
                }
                pref
            },
            None => copy_bytes(&lock),
        };
        proof {
            assert(script_sig@.len() <= MAX_LEN);
        }
        let op2 = OutputParams {
            value: op.value,
            script_params: match &op.script_params {
                Some(sp) => Some(
                    ScriptParams {
                        script_type: sp.script_type,
                        private_key: match &sp.private_key {
                            Some(k) => Some(copy_bytes(k)),
                            None => None,
                        },
                    },
                ),
                None => None,
            },
            private_key: match &op.private_key {
                Some(k) => Some(copy_bytes(k)),
                None => Some(copy_bytes(&base)),
            },
        };
        let (out0, _ost) = match TxOutput::random(op2) {
            Ok(v) => v,
            Err(e) => { return Err(e); },
        };
        let ver: u32 = match params.version {
            Some(v) => v,
            None => random_tx_version(),
        };
        let lt: u32 = match params.lock_time {
            Some(l) => l,
            None => random_lock_time(),
        };
        let in0 = TxInput {
            prev_txid: copy_bytes(&ptxid),
            prev_vout: pvout,
            script_sig: copy_bytes(&script_sig),
            sequence: seqn,
            witness: Vec::new(),
        };
        let out_copy = TxOutput { value: out0.value, script_pubkey: copy_bytes(&out0.script_pubkey) };
        let ghost in0v = in0@;
        let ghost out0v = out0@;
        let unsigned = Transaction { version: ver, lock_time: lt, input: vec![in0], output: vec![out_copy] };
        proof {
            assert(unsigned@.input =~~= seq![in0v]);
            assert(unsigned@.output =~~= seq![out0v]);
            assert(in0v.witness =~= Seq::<Seq<u8>>::empty());
            assert(spec_wf_input(in0v));
            assert(spec_wf_tx(unsigned@));
        }
        let out_value = out0.value;
        let wit: Vec<Vec<u8>> = match ip.witness {
            Some(w) => {
                if !witness_fits(&w) {
                    return Err(GenError::Signing);
                }
                w
            },
            None => {
                if st.is_legacy() {
                    Vec::new()
                } else {
                    match build_witness(&unsigned, st, &key, out_value) {
                        Ok(w) => w,
                        Err(e) => { return Err(e); },
                    }
                }
            },
        };
        let final_in = TxInput {
            prev_txid: ptxid,
            prev_vout: pvout,
            script_sig: script_sig,
            sequence: seqn,
            witness: wit,
        };
        let ghost finv = final_in@;
        let ghost outv = out0@;
        let ghost witv = final_in@.witness;
        let tx = Transaction { version: ver, lock_time: lt, input: vec![final_in], output: vec![out0] };
        proof {
            assert(tx@.input =~~= seq![finv]);
            assert(tx@.output =~~= seq![outv]);
            assert(spec_wf_input(finv));
            assert(spec_wf_tx(tx@));
            match params.block_height {
                Some(h) => {
                    assert(tx@.input[0].script_sig == spec_prepend_bip34(lock@, h));
                },
                None => {},
            }
            // The stand-in the witness signed is exactly this transaction
            // with the witness stack removed.
            assert(spec_unsigned_of(tx@).input =~~= unsigned@.input);
            assert(spec_unsigned_of(tx@).output =~~= unsigned@.output);
            assert(spec_unsigned_of(tx@) == unsigned@);
            assert(tx@.output[0].value == out_value);
        }
        Ok(tx)
    }
}

/// The transaction generator: a fully self-consistent random transaction.
pub struct GenerateTx {}

impl GenerateTx {
    /// Generates one valid random transaction from the given parameters.
    pub fn valid_random(params: TxParams) -> (r: Result<Transaction, GenError>)
        ensures
            match r {
                Ok(tx) => {
                    &&& spec_wf_tx(tx@)
                    &&& tx@.input.len() == 1
                    &&& tx@.output.len() == 1
                    &&& (params.version matches Some(v) ==> tx@.version == v)
                    &&& (params.lock_time matches Some(l) ==> tx@.lock_time == l)
                    &&& (params.input matches Some(ip) ==> {
                        &&& (ip.outpoint matches Some(op) ==> tx@.input[0].prev_txid == op.0@
                            && tx@.input[0].prev_vout == op.1)
                        &&& (ip.witness is None ==> (spec_resolved_input_type(ip) matches Some(t)
                            ==> (t.spec_is_legacy() <==> tx@.input[0].witness.len() == 0)))
                    })
                    &&& tx@.output[0].script_pubkey.len() <= 35
                    &&& (params.block_height matches Some(h) ==> exists|rest: Seq<u8>|
                        tx@.input[0].script_sig == spec_prepend_bip34(rest, h))
                },
                Err(e) => (e == GenError::Signing ==> !spec_tx_overrides_ok(params)) && (e
                    == GenError::KeyGeneration ==> !spec_tx_nofail(params)),
            },
            spec_tx_overrides_ok(params) && spec_tx_nofail(params) ==> r is Ok,
    {
        Transaction::random(params)
    }
}

/// A CompactSize run of a value below two to the 32nd is at most 5 bytes.
proof fn lemma_enc_varint_short(n: u64)
    requires
        n < 0x1_0000_0000,
    ensures
        crate::encoding::spec_enc_varint(n).len() <= 5,
{
    vstd::bytes::lemma_auto_spec_u16_to_from_le_bytes();
    vstd::bytes::lemma_auto_spec_u32_to_from_le_bytes();
}

/// A random lock time: height-based below 500000000, or time-based above.
pub fn random_lock_time() -> (r: u32) {
    let coin = rng_u32_range(0, 2);
    if coin == 0 {
        rng_u32_range(0, 500_000_000)
    } else {
        rng_u32_range(500_000_000, 0xffff_ffff)
    }
}

/// A random transaction version: 1 or 2.
pub fn random_tx_version() -> (r: u32)
    ensures
        1 <= r <= 2,
{
    rng_u32_range(1, 3)
}

} // verus!
