//! Signature digests: the legacy whole-transaction sighash, the BIP143
//! segwit-v0 sighash, and the BIP341 taproot key-path sighash.
//!
//! Each digest is stated byte-exactly over the serialization specs and the
//! named hash functions, and the executable code is proved to produce it.

use crate::encoding::{copy_bytes, enc_bytes, enc_u32, enc_u64, enc_varint, spec_enc_u32,
    spec_enc_u64, spec_enc_varint};
use crate::hashes::{sha256, sha256d, sha256_of, sha256d_of, spec_tagged_hash, tagged_hash};
use crate::transaction::{encode_tx_legacy, spec_enc_outputs, spec_enc_tx_legacy, spec_wf_input,
    spec_wf_tx, Transaction, TransactionV, TxInput, TxInputV, TxOutput, TxOutputV, MAX_LEN};
use vstd::prelude::*;

verus! {

// ---------------------------------------------------------------------------
// Concatenation helpers shared by the segwit digests
// ---------------------------------------------------------------------------

/// One serialized outpoint: txid then little-endian index.
pub open spec fn spec_enc_outpoint(i: TxInputV) -> Seq<u8> {
    i.prev_txid + spec_enc_u32(i.prev_vout)
}

pub open spec fn spec_concat_prevouts(s: Seq<TxInputV>) -> Seq<u8>
    decreases s.len(),
{
    if s.len() == 0 {
        Seq::empty()
    } else {
        spec_enc_outpoint(s[0]) + spec_concat_prevouts(s.skip(1))
    }
}

pub open spec fn spec_concat_sequences(s: Seq<TxInputV>) -> Seq<u8>
    decreases s.len(),
{
    if s.len() == 0 {
        Seq::empty()
    } else {
        spec_enc_u32(s[0].sequence) + spec_concat_sequences(s.skip(1))
    }
}

pub open spec fn spec_concat_amounts(s: Seq<TxOutputV>) -> Seq<u8>
    decreases s.len(),
{
    if s.len() == 0 {
        Seq::empty()
    } else {
        spec_enc_u64(s[0].value) + spec_concat_amounts(s.skip(1))
    }
}

pub open spec fn spec_concat_script_pubkeys(s: Seq<TxOutputV>) -> Seq<u8>
    decreases s.len(),
{
    if s.len() == 0 {
        Seq::empty()
    } else {
        spec_enc_varint(s[0].script_pubkey.len() as u64) + s[0].script_pubkey
            + spec_concat_script_pubkeys(s.skip(1))
    }
}

proof fn lemma_concat_prevouts_snoc(s: Seq<TxInputV>, i: TxInputV)
    ensures
        spec_concat_prevouts(s.push(i)) == spec_concat_prevouts(s) + spec_enc_outpoint(i),
    decreases s.len(),
{
    let sp = s.push(i);
    if s.len() == 0 {
        assert(sp[0] == i);
        assert(sp.skip(1) =~= Seq::<TxInputV>::empty());
        assert(spec_concat_prevouts(Seq::<TxInputV>::empty()) == Seq::<u8>::empty());
        assert(spec_concat_prevouts(sp) =~= spec_concat_prevouts(s) + spec_enc_outpoint(i));
    } else {
        assert(sp[0] == s[0]);
        assert(sp.skip(1) =~= s.skip(1).push(i));
        lemma_concat_prevouts_snoc(s.skip(1), i);
        assert(spec_concat_prevouts(sp) =~= spec_concat_prevouts(s) + spec_enc_outpoint(i));
    }
}

proof fn lemma_concat_sequences_snoc(s: Seq<TxInputV>, i: TxInputV)
    ensures
        spec_concat_sequences(s.push(i)) == spec_concat_sequences(s) + spec_enc_u32(i.sequence),
    decreases s.len(),
{
    let sp = s.push(i);
    if s.len() == 0 {
        assert(sp[0] == i);
        assert(sp.skip(1) =~= Seq::<TxInputV>::empty());
        assert(spec_concat_sequences(Seq::<TxInputV>::empty()) == Seq::<u8>::empty());
        assert(spec_concat_sequences(sp) =~= spec_concat_sequences(s) + spec_enc_u32(i.sequence));
    } else {
        assert(sp[0] == s[0]);
        assert(sp.skip(1) =~= s.skip(1).push(i));
        lemma_concat_sequences_snoc(s.skip(1), i);
        assert(spec_concat_sequences(sp) =~= spec_concat_sequences(s) + spec_enc_u32(i.sequence));
    }
}

proof fn lemma_concat_amounts_snoc(s: Seq<TxOutputV>, o: TxOutputV)
    ensures
        spec_concat_amounts(s.push(o)) == spec_concat_amounts(s) + spec_enc_u64(o.value),
    decreases s.len(),
{
    let sp = s.push(o);
    if s.len() == 0 {
        assert(sp[0] == o);
        assert(sp.skip(1) =~= Seq::<TxOutputV>::empty());
        assert(spec_concat_amounts(Seq::<TxOutputV>::empty()) == Seq::<u8>::empty());
        assert(spec_concat_amounts(sp) =~= spec_concat_amounts(s) + spec_enc_u64(o.value));
    } else {
        assert(sp[0] == s[0]);
        assert(sp.skip(1) =~= s.skip(1).push(o));
        lemma_concat_amounts_snoc(s.skip(1), o);
        assert(spec_concat_amounts(sp) =~= spec_concat_amounts(s) + spec_enc_u64(o.value));
    }
}

proof fn lemma_concat_script_pubkeys_snoc(s: Seq<TxOutputV>, o: TxOutputV)
    ensures
        spec_concat_script_pubkeys(s.push(o)) == spec_concat_script_pubkeys(s) + spec_enc_varint(
            o.script_pubkey.len() as u64,
        ) + o.script_pubkey,
    decreases s.len(),
{
    let sp = s.push(o);
    if s.len() == 0 {
        assert(sp[0] == o);
        assert(sp.skip(1) =~= Seq::<TxOutputV>::empty());
        assert(spec_concat_script_pubkeys(Seq::<TxOutputV>::empty()) == Seq::<u8>::empty());
        assert(spec_concat_script_pubkeys(sp) =~= spec_concat_script_pubkeys(s) + spec_enc_varint(
            o.script_pubkey.len() as u64,
        ) + o.script_pubkey);
    } else {
        assert(sp[0] == s[0]);
        assert(sp.skip(1) =~= s.skip(1).push(o));
        lemma_concat_script_pubkeys_snoc(s.skip(1), o);
        assert(spec_concat_script_pubkeys(sp) =~= spec_concat_script_pubkeys(s) + spec_enc_varint(
            o.script_pubkey.len() as u64,
        ) + o.script_pubkey);
    }
}

fn enc_prevouts(out: &mut Vec<u8>, s: &Vec<TxInput>)
    ensures
        final(out)@ == old(out)@ + spec_concat_prevouts(s.deep_view()),
{
    let ghost sv = s.deep_view();
    let mut k: usize = 0;
    proof {
        assert(spec_concat_prevouts(sv.take(0)) =~= Seq::<u8>::empty());
        assert(out@ =~= old(out)@ + spec_concat_prevouts(sv.take(0)));
    }
    while k < s.len()
        invariant
            k <= s@.len(),
            sv == s.deep_view(),
            sv.len() == s@.len(),
            out@ == old(out)@ + spec_concat_prevouts(sv.take(k as int)),
        decreases s@.len() - k,
    {
        proof {
            assert(sv[k as int] == s@[k as int]@);
        }
        enc_bytes(out, &s[k].prev_txid);
        enc_u32(out, s[k].prev_vout);
        proof {
            lemma_concat_prevouts_snoc(sv.take(k as int), sv[k as int]);
            assert(sv.take(k as int).push(sv[k as int]) =~= sv.take(k as int + 1));
            assert(out@ =~= old(out)@ + spec_concat_prevouts(sv.take(k as int + 1)));
        }
        k = k + 1;
    }
    proof {
        assert(sv.take(sv.len() as int) =~= sv);
    }
}

fn enc_sequences(out: &mut Vec<u8>, s: &Vec<TxInput>)
    ensures
        final(out)@ == old(out)@ + spec_concat_sequences(s.deep_view()),
{
    let ghost sv = s.deep_view();
    let mut k: usize = 0;
    proof {
        assert(spec_concat_sequences(sv.take(0)) =~= Seq::<u8>::empty());
        assert(out@ =~= old(out)@ + spec_concat_sequences(sv.take(0)));
    }
    while k < s.len()
        invariant
            k <= s@.len(),
            sv == s.deep_view(),
            sv.len() == s@.len(),
            out@ == old(out)@ + spec_concat_sequences(sv.take(k as int)),
        decreases s@.len() - k,
    {
        proof {
            assert(sv[k as int] == s@[k as int]@);
        }
        enc_u32(out, s[k].sequence);
        proof {
            lemma_concat_sequences_snoc(sv.take(k as int), sv[k as int]);
            assert(sv.take(k as int).push(sv[k as int]) =~= sv.take(k as int + 1));
            assert(out@ =~= old(out)@ + spec_concat_sequences(sv.take(k as int + 1)));
        }
        k = k + 1;
    }
    proof {
        assert(sv.take(sv.len() as int) =~= sv);
    }
}

fn enc_amounts(out: &mut Vec<u8>, s: &Vec<TxOutput>)
    ensures
        final(out)@ == old(out)@ + spec_concat_amounts(s.deep_view()),
{
    let ghost sv = s.deep_view();
    let mut k: usize = 0;
    proof {
        assert(spec_concat_amounts(sv.take(0)) =~= Seq::<u8>::empty());
        assert(out@ =~= old(out)@ + spec_concat_amounts(sv.take(0)));
    }
    while k < s.len()
        invariant
            k <= s@.len(),
            sv == s.deep_view(),
            sv.len() == s@.len(),
            out@ == old(out)@ + spec_concat_amounts(sv.take(k as int)),
        decreases s@.len() - k,
    {
        proof {
            assert(sv[k as int] == s@[k as int]@);
        }
        enc_u64(out, s[k].value);
        proof {
            lemma_concat_amounts_snoc(sv.take(k as int), sv[k as int]);
            assert(sv.take(k as int).push(sv[k as int]) =~= sv.take(k as int + 1));
            assert(out@ =~= old(out)@ + spec_concat_amounts(sv.take(k as int + 1)));
        }
        k = k + 1;
    }
    proof {
        assert(sv.take(sv.len() as int) =~= sv);
    }
}

fn enc_script_pubkeys(out: &mut Vec<u8>, s: &Vec<TxOutput>)
    requires
        forall|k: int| 0 <= k < s@.len() ==> (#[trigger] s.deep_view()[k]).script_pubkey.len()
            <= MAX_LEN,
    ensures
        final(out)@ == old(out)@ + spec_concat_script_pubkeys(s.deep_view()),
{
    let ghost sv = s.deep_view();
    let mut k: usize = 0;
    proof {
        assert(spec_concat_script_pubkeys(sv.take(0)) =~= Seq::<u8>::empty());
        assert(out@ =~= old(out)@ + spec_concat_script_pubkeys(sv.take(0)));
    }
    while k < s.len()
        invariant
            k <= s@.len(),
            sv == s.deep_view(),
            sv.len() == s@.len(),
            out@ == old(out)@ + spec_concat_script_pubkeys(sv.take(k as int)),
        decreases s@.len() - k,
    {
        proof {
            assert(sv[k as int] == s@[k as int]@);
        }
        enc_varint(out, s[k].script_pubkey.len() as u64);
        enc_bytes(out, &s[k].script_pubkey);
        proof {
            lemma_concat_script_pubkeys_snoc(sv.take(k as int), sv[k as int]);
            assert(sv.take(k as int).push(sv[k as int]) =~= sv.take(k as int + 1));
            assert(out@ =~= old(out)@ + spec_concat_script_pubkeys(sv.take(k as int + 1)));
        }
        k = k + 1;
    }
    proof {
        assert(sv.take(sv.len() as int) =~= sv);
    }
}

// ---------------------------------------------------------------------------
// Legacy sighash
// ---------------------------------------------------------------------------

/// The inputs as the legacy digest serializes them: the signed input carries
/// the script code, every other input an empty script, witnesses ignored.
pub open spec fn spec_legacy_inputs(s: Seq<TxInputV>, idx: int, sc: Seq<u8>) -> Seq<TxInputV> {
    Seq::new(s.len(), |k: int| TxInputV {
        script_sig: if k == idx {
            sc
        } else {
            Seq::empty()
        },
        witness: Seq::empty(),
        ..s[k]
    })
}

/// The legacy signature digest: double SHA-256 over the legacy serialization
/// of the modified transaction followed by the 4-byte sighash type.
pub open spec fn spec_legacy_sighash(t: TransactionV, idx: int, sc: Seq<u8>, hash_type: u32) -> Seq<
    u8,
> {
    sha256d_of(spec_enc_tx_legacy(TransactionV { input: spec_legacy_inputs(t.input, idx, sc), ..t })
        + spec_enc_u32(hash_type))
}

/// Computes the legacy sighash for one input under a script code.
pub fn legacy_sighash(tx: &Transaction, idx: usize, script_code: &Vec<u8>, hash_type: u32) -> (r:
    Vec<u8>)
    requires
        spec_wf_tx(tx@),
        idx < tx@.input.len(),
        script_code@.len() <= MAX_LEN,
    ensures
        r@ == spec_legacy_sighash(tx@, idx as int, script_code@, hash_type),
        r@.len() == 32,
{
    let ghost tv = tx@;
    let mut inputs: Vec<TxInput> = Vec::new();
    let mut k: usize = 0;
    while k < tx.input.len()
        invariant
            k <= tx.input@.len(),
            tv == tx@,
            tv.input.len() == tx.input@.len(),
            spec_wf_tx(tv),
            idx < tv.input.len(),
            script_code@.len() <= MAX_LEN,
            inputs@.len() == k,
            forall|j: int|
                0 <= j < k ==> #[trigger] inputs.deep_view()[j] == spec_legacy_inputs(
                    tv.input,
                    idx as int,
                    script_code@,
                )[j],
        decreases tx.input@.len() - k,
    {
        let ghost pre = inputs.deep_view();
        proof {
            assert(tv.input[k as int] == tx.input@[k as int]@);
            assert(spec_wf_input(tv.input[k as int]));
        }
        let sc: Vec<u8> = if k == idx {
            copy_bytes(script_code)
        } else {
            Vec::new()
        };
        let one = TxInput {
            prev_txid: copy_bytes(&tx.input[k].prev_txid),
            prev_vout: tx.input[k].prev_vout,
            script_sig: sc,
            sequence: tx.input[k].sequence,
            witness: Vec::new(),
        };
        proof {
            assert(one@.witness =~= Seq::<Seq<u8>>::empty());
            if k == idx {
            } else {
                assert(one@.script_sig =~= Seq::<u8>::empty());
            }
            assert(one@ == spec_legacy_inputs(tv.input, idx as int, script_code@)[k as int]);
        }
        let ghost onev = one@;
        inputs.push(one);
        proof {
            assert(inputs.deep_view() =~~= pre.push(onev));
            assert(forall|j: int| 0 <= j < k ==> inputs.deep_view()[j] == pre[j]);
        }
        k = k + 1;
    }
    let tx2 = Transaction {
        version: tx.version,
        lock_time: tx.lock_time,
        input: inputs,
        output: copy_outputs(&tx.output),
    };
    proof {
        assert(tx2@.input =~= spec_legacy_inputs(tv.input, idx as int, script_code@));
        assert(tx2@.output =~= tv.output);
        assert(tx2@ == TransactionV {
            input: spec_legacy_inputs(tv.input, idx as int, script_code@),
            ..tv
        });
        assert forall|j: int| 0 <= j < tx2@.input.len() implies spec_wf_input(
            #[trigger] tx2@.input[j],
        ) by {
            assert(spec_wf_input(tv.input[j]));
        }
        assert(spec_wf_tx(tx2@));
    }
    let mut pre = encode_tx_legacy(&tx2);
    enc_u32(&mut pre, hash_type);
    sha256d(&pre)
}

/// A fresh copy of an output list.
fn copy_outputs(s: &Vec<TxOutput>) -> (r: Vec<TxOutput>)
    ensures
        r.deep_view() == s.deep_view(),
        r@.len() == s@.len(),
{
    let mut out: Vec<TxOutput> = Vec::new();
    let mut k: usize = 0;
    while k < s.len()
        invariant
            k <= s@.len(),
            out@.len() == k,
            forall|j: int| 0 <= j < k ==> #[trigger] out.deep_view()[j] == s.deep_view()[j],
        decreases s@.len() - k,
    {
        let ghost pre = out.deep_view();
        let one = TxOutput {
            value: s[k].value,
            script_pubkey: copy_bytes(&s[k].script_pubkey),
        };
        proof {
            assert(one@ == s.deep_view()[k as int]);
        }
        let ghost onev = one@;
        out.push(one);
        proof {
            assert(out.deep_view() =~~= pre.push(onev));
            assert(forall|j: int| 0 <= j < k ==> out.deep_view()[j] == pre[j]);
        }
        k = k + 1;
    }
    proof {
        assert(out.deep_view() =~= s.deep_view());
    }
    out
}

// ---------------------------------------------------------------------------
// BIP143 segwit-v0 sighash
// ---------------------------------------------------------------------------

/// The BIP143 digest for one input, given the script code and the value of
/// the output it spends, with a sighash type covering all inputs and outputs.
pub open spec fn spec_bip143_sighash(
    t: TransactionV,
    idx: int,
    sc: Seq<u8>,
    value: u64,
    hash_type: u32,
) -> Seq<u8> {
    sha256d_of(
        spec_enc_u32(t.version) + sha256d_of(spec_concat_prevouts(t.input)) + sha256d_of(
            spec_concat_sequences(t.input),
        ) + spec_enc_outpoint(t.input[idx]) + spec_enc_varint(sc.len() as u64) + sc + spec_enc_u64(
            value,
        ) + spec_enc_u32(t.input[idx].sequence) + sha256d_of(spec_enc_outputs(t.output))
            + spec_enc_u32(t.lock_time) + spec_enc_u32(hash_type),
    )
}

/// Computes the BIP143 sighash for one input.
pub fn bip143_sighash(
    tx: &Transaction,
    idx: usize,
    script_code: &Vec<u8>,
    value: u64,
    hash_type: u32,
) -> (r: Vec<u8>)
    requires
        spec_wf_tx(tx@),
        idx < tx@.input.len(),
        script_code@.len() <= MAX_LEN,
    ensures
        r@ == spec_bip143_sighash(tx@, idx as int, script_code@, value, hash_type),
        r@.len() == 32,
{
    let ghost tv = tx@;
    let mut prevouts: Vec<u8> = Vec::new();
    enc_prevouts(&mut prevouts, &tx.input);
    let hash_prevouts = sha256d(&prevouts);
    let mut seqs: Vec<u8> = Vec::new();
    enc_sequences(&mut seqs, &tx.input);
    let hash_sequences = sha256d(&seqs);
    let mut outs: Vec<u8> = Vec::new();
    crate::transaction::enc_outputs_bytes(&mut outs, &tx.output);
    let hash_outputs = sha256d(&outs);
    proof {
        assert(tv.input[idx as int] == tx.input@[idx as int]@);
        assert(spec_wf_input(tv.input[idx as int]));
    }
    let mut pre: Vec<u8> = Vec::new();
    enc_u32(&mut pre, tx.version);
    enc_bytes(&mut pre, &hash_prevouts);
    enc_bytes(&mut pre, &hash_sequences);
    enc_bytes(&mut pre, &tx.input[idx].prev_txid);
    enc_u32(&mut pre, tx.input[idx].prev_vout);
    enc_varint(&mut pre, script_code.len() as u64);
    enc_bytes(&mut pre, script_code);
    enc_u64(&mut pre, value);
    enc_u32(&mut pre, tx.input[idx].sequence);
    enc_bytes(&mut pre, &hash_outputs);
    enc_u32(&mut pre, tx.lock_time);
    enc_u32(&mut pre, hash_type);
    proof {
        assert(pre@ =~= spec_enc_u32(tv.version) + sha256d_of(spec_concat_prevouts(tv.input))
            + sha256d_of(spec_concat_sequences(tv.input)) + spec_enc_outpoint(
            tv.input[idx as int],
        ) + spec_enc_varint(script_code@.len() as u64) + script_code@ + spec_enc_u64(value)
            + spec_enc_u32(tv.input[idx as int].sequence) + sha256d_of(
            spec_enc_outputs(tv.output),
        ) + spec_enc_u32(tv.lock_time) + spec_enc_u32(hash_type));
    }
    sha256d(&pre)
}

// ---------------------------------------------------------------------------
// BIP341 taproot key-path sighash
// ---------------------------------------------------------------------------

/// The ASCII bytes of the "TapSighash" tag.
pub open spec fn spec_tap_sighash_tag() -> Seq<u8> {
    seq![0x54u8, 0x61u8, 0x70u8, 0x53u8, 0x69u8, 0x67u8, 0x68u8, 0x61u8, 0x73u8, 0x68u8]
}

/// The ASCII bytes of the "TapTweak" tag.
pub open spec fn spec_tap_tweak_tag() -> Seq<u8> {
    seq![0x54u8, 0x61u8, 0x70u8, 0x54u8, 0x77u8, 0x65u8, 0x61u8, 0x6bu8]
}

/// The BIP341 key-path digest with the default sighash type, no annex and no
/// script path, given the outputs being spent by all inputs.
pub open spec fn spec_bip341_sighash(t: TransactionV, idx: int, prevouts: Seq<TxOutputV>) -> Seq<
    u8,
> {
    spec_tagged_hash(
        spec_tap_sighash_tag(),
        seq![0x00u8, 0x00u8] + spec_enc_u32(t.version) + spec_enc_u32(t.lock_time) + sha256_of(
            spec_concat_prevouts(t.input),
        ) + sha256_of(spec_concat_amounts(prevouts)) + sha256_of(
            spec_concat_script_pubkeys(prevouts),
        ) + sha256_of(spec_concat_sequences(t.input)) + sha256_of(spec_enc_outputs(t.output))
            + seq![0x00u8] + spec_enc_u32(idx as u32),
    )
}

/// The BIP341 key tweak: the tagged hash of the x-only public key.
pub open spec fn spec_taproot_tweak(xonly: Seq<u8>) -> Seq<u8> {
    spec_tagged_hash(spec_tap_tweak_tag(), xonly)
}

fn tap_sighash_tag() -> (r: Vec<u8>)
    ensures
        r@ == spec_tap_sighash_tag(),
{
    let mut t: Vec<u8> = Vec::new();
    t.push(0x54u8);
    t.push(0x61u8);
    t.push(0x70u8);
    t.push(0x53u8);
    t.push(0x69u8);
    t.push(0x67u8);
    t.push(0x68u8);
    t.push(0x61u8);
    t.push(0x73u8);
    t.push(0x68u8);
    proof {
        assert(t@ =~= spec_tap_sighash_tag());
    }
    t
}

fn tap_tweak_tag() -> (r: Vec<u8>)
    ensures
        r@ == spec_tap_tweak_tag(),
{
    let mut t: Vec<u8> = Vec::new();
    t.push(0x54u8);
    t.push(0x61u8);
    t.push(0x70u8);
    t.push(0x54u8);
    t.push(0x77u8);
    t.push(0x65u8);
    t.push(0x61u8);
    t.push(0x6bu8);
    proof {
        assert(t@ =~= spec_tap_tweak_tag());
    }
    t
}

/// Computes the BIP341 taproot tweak of an x-only key.
pub fn taproot_tweak(xonly: &Vec<u8>) -> (r: Vec<u8>)
    ensures
        r@ == spec_taproot_tweak(xonly@),
        r@.len() == 32,
{
    let tag = tap_tweak_tag();
    tagged_hash(&tag, xonly)
}

/// Computes the BIP341 key-path sighash with the default type.
pub fn bip341_sighash(tx: &Transaction, idx: usize, prevouts: &Vec<TxOutput>) -> (r: Vec<u8>)
    requires
        spec_wf_tx(tx@),
        idx < tx@.input.len(),
        forall|k: int| 0 <= k < prevouts@.len() ==> (#[trigger] prevouts.deep_view()[k]).script_pubkey.len()
            <= MAX_LEN,
        idx < 0x1_0000_0000,
    ensures
        r@ == spec_bip341_sighash(tx@, idx as int, prevouts.deep_view()),
        r@.len() == 32,
{
    let ghost tv = tx@;
    let mut prevs: Vec<u8> = Vec::new();
    enc_prevouts(&mut prevs, &tx.input);
    let sha_prevouts = sha256(&prevs);
    let mut amts: Vec<u8> = Vec::new();
    enc_amounts(&mut amts, prevouts);
    let sha_amounts = sha256(&amts);
    let mut spks: Vec<u8> = Vec::new();
    enc_script_pubkeys(&mut spks, prevouts);
    let sha_spks = sha256(&spks);
    let mut seqs: Vec<u8> = Vec::new();
    enc_sequences(&mut seqs, &tx.input);
    let sha_sequences = sha256(&seqs);
    let mut outs: Vec<u8> = Vec::new();
    crate::transaction::enc_outputs_bytes(&mut outs, &tx.output);
    let sha_outputs = sha256(&outs);
    let mut msg: Vec<u8> = Vec::new();
    msg.push(0x00u8);
    msg.push(0x00u8);
    enc_u32(&mut msg, tx.version);
    enc_u32(&mut msg, tx.lock_time);
    enc_bytes(&mut msg, &sha_prevouts);
    enc_bytes(&mut msg, &sha_amounts);
    enc_bytes(&mut msg, &sha_spks);
    enc_bytes(&mut msg, &sha_sequences);
    enc_bytes(&mut msg, &sha_outputs);
    msg.push(0x00u8);
    enc_u32(&mut msg, idx as u32);
    proof {
        assert(msg@ =~= seq![0x00u8, 0x00u8] + spec_enc_u32(tv.version) + spec_enc_u32(
            tv.lock_time,
        ) + sha256_of(spec_concat_prevouts(tv.input)) + sha256_of(
            spec_concat_amounts(prevouts.deep_view()),
        ) + sha256_of(spec_concat_script_pubkeys(prevouts.deep_view())) + sha256_of(
            spec_concat_sequences(tv.input),
        ) + sha256_of(spec_enc_outputs(tv.output)) + seq![0x00u8] + spec_enc_u32(idx as u32));
    }
    let tag = tap_sighash_tag();
    tagged_hash(&tag, &msg)
}

} // verus!
