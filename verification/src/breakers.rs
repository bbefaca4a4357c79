//! The transaction invalidator: deterministic corruption of exactly the
//! requested fields of a decoded transaction.
//!
//! Every mutation is a total function of the original value, applies to
//! every input or output, always changes the field, and keeps the
//! transaction within the wire format, so the result still serializes.

use crate::script::{corrupt_script, spec_corrupt_bytes};
use crate::transaction::{spec_wf_input, spec_wf_output, spec_wf_tx, Transaction, TransactionV,
    TxInput, TxInputV, TxOutput, TxOutputV, MAX_LEN};
use crate::encoding::copy_bytes;
use vstd::prelude::*;

verus! {

/// The transaction fields the invalidator can corrupt. `All` stands for the
/// union of every other flag.
#[derive(Clone, Copy, Debug, PartialEq, Eq, Structural, Hash)]
pub enum InvalidationFlag {
    Version,
    InputTxid,
    InputVout,
    InputScriptSig,
    InputSequence,
    OutputAmount,
    OutputScriptPubKey,
    WitnessData,
    Locktime,
    All,
}

/// The character's code with an upper-case letter folded to lower case.
pub open spec fn spec_lower_code(c: char) -> u32 {
    if 65 <= c as u32 <= 90 {
        (c as u32 + 32) as u32
    } else {
        c as u32
    }
}

/// The case-folded codes of a name.
pub open spec fn spec_codes_lower(s: Seq<char>) -> Seq<u32> {
    Seq::new(s.len(), |i: int| spec_lower_code(s[i]))
}

/// The flag a field name picks out, compared without regard to case; both
/// the long and the short form of each name are accepted.
pub open spec fn spec_flag_of_name(s: Seq<char>) -> Option<InvalidationFlag> {
    let low = spec_codes_lower(s);
    if low == spec_codes_lower("version"@) {
        Some(InvalidationFlag::Version)
    } else if low == spec_codes_lower("input-txid"@) || low == spec_codes_lower("txid"@) {
        Some(InvalidationFlag::InputTxid)
    } else if low == spec_codes_lower("input-vout"@) || low == spec_codes_lower("vout"@) {
        Some(InvalidationFlag::InputVout)
    } else if low == spec_codes_lower("input-script"@) || low == spec_codes_lower(
        "script-sig"@,
    ) {
        Some(InvalidationFlag::InputScriptSig)
    } else if low == spec_codes_lower("input-sequence"@) || low == spec_codes_lower(
        "sequence"@,
    ) {
        Some(InvalidationFlag::InputSequence)
    } else if low == spec_codes_lower("output-amount"@) || low == spec_codes_lower("amount"@) {
        Some(InvalidationFlag::OutputAmount)
    } else if low == spec_codes_lower("output-script"@) || low == spec_codes_lower(
        "script-pubkey"@,
    ) {
        Some(InvalidationFlag::OutputScriptPubKey)
    } else if low == spec_codes_lower("witness"@) || low == spec_codes_lower("witness-data"@) {
        Some(InvalidationFlag::WitnessData)
    } else if low == spec_codes_lower("locktime"@) {
        Some(InvalidationFlag::Locktime)
    } else if low == spec_codes_lower("all"@) {
        Some(InvalidationFlag::All)
    } else {
        None
    }
}

/// Whether two names agree once upper-case letters are folded down.
fn name_eq_fold(a: &Vec<char>, b: &Vec<char>) -> (r: bool)
    ensures
        r == (spec_codes_lower(a@) == spec_codes_lower(b@)),
{
    if a.len() != b.len() {
        proof {
            assert(spec_codes_lower(a@).len() != spec_codes_lower(b@).len());
        }
        return false;
    }
    let mut k: usize = 0;
    while k < a.len()
        invariant
            k <= a@.len(),
            a@.len() == b@.len(),
            forall|j: int| 0 <= j < k ==> spec_lower_code(a@[j]) == spec_lower_code(b@[j]),
        decreases a@.len() - k,
    {
        let ca = a[k] as u32;
        let cb = b[k] as u32;
        let la: u32 = if 65 <= ca && ca <= 90 {
            ca + 32
        } else {
            ca
        };
        let lb: u32 = if 65 <= cb && cb <= 90 {
            cb + 32
        } else {
            cb
        };
        if la != lb {
            proof {
                assert(spec_codes_lower(a@)[k as int] != spec_codes_lower(b@)[k as int]);
            }
            return false;
        }
        k = k + 1;
    }
    proof {
        assert(spec_codes_lower(a@) =~= spec_codes_lower(b@));
    }
    true
}

fn name_matches(s: &Vec<char>, lit: &str) -> (r: bool)
    ensures
        r == (spec_codes_lower(s@) == spec_codes_lower(lit@)),
{
    let lc = crate::hexstr::str_to_chars(lit);
    name_eq_fold(s, &lc)
}

impl InvalidationFlag {
    /// Parses a field name, without regard to case; accepts both the long
    /// and the short form of each name.
    pub fn from_str(s: &str) -> (r: Result<InvalidationFlag, ()>)
        ensures
            match r {
                Ok(f) => spec_flag_of_name(s@) == Some(f),
                Err(_) => spec_flag_of_name(s@) is None,
            },
    {
        let cs = crate::hexstr::str_to_chars(s);
        if name_matches(&cs, "version") {
            Ok(InvalidationFlag::Version)
        } else if name_matches(&cs, "input-txid") || name_matches(&cs, "txid") {
            Ok(InvalidationFlag::InputTxid)
        } else if name_matches(&cs, "input-vout") || name_matches(&cs, "vout") {
            Ok(InvalidationFlag::InputVout)
        } else if name_matches(&cs, "input-script") || name_matches(&cs, "script-sig") {
            Ok(InvalidationFlag::InputScriptSig)
        } else if name_matches(&cs, "input-sequence") || name_matches(&cs, "sequence") {
            Ok(InvalidationFlag::InputSequence)
        } else if name_matches(&cs, "output-amount") || name_matches(&cs, "amount") {
            Ok(InvalidationFlag::OutputAmount)
        } else if name_matches(&cs, "output-script") || name_matches(&cs, "script-pubkey") {
            Ok(InvalidationFlag::OutputScriptPubKey)
        } else if name_matches(&cs, "witness") || name_matches(&cs, "witness-data") {
            Ok(InvalidationFlag::WitnessData)
        } else if name_matches(&cs, "locktime") {
            Ok(InvalidationFlag::Locktime)
        } else if name_matches(&cs, "all") {
            Ok(InvalidationFlag::All)
        } else {
            Err(())
        }
    }
}

/// Whether a flag set switches a given mutation on: the flag itself or
/// `All` is present.
pub open spec fn spec_flag_on(fs: Seq<InvalidationFlag>, f: InvalidationFlag) -> bool {
    fs.contains(InvalidationFlag::All) || fs.contains(f)
}

/// Whether the requested flag, or `All`, is present.
pub fn flag_on(flags: &Vec<InvalidationFlag>, f: InvalidationFlag) -> (r: bool)
    ensures
        r == spec_flag_on(flags@, f),
{
    let mut k: usize = 0;
    let mut found: bool = false;
    while k < flags.len()
        invariant
            k <= flags@.len(),
            found == exists|j: int|
                0 <= j < k && (flags@[j] == InvalidationFlag::All || flags@[j] == f),
        decreases flags@.len() - k,
    {
        let c = flags[k];
        if c == InvalidationFlag::All || c == f {
            found = true;
        }
        k = k + 1;
    }
    proof {
        if found {
            let j = choose|j: int|
                0 <= j < k && (flags@[j] == InvalidationFlag::All || flags@[j] == f);
            if flags@[j] == InvalidationFlag::All {
                assert(flags@.contains(InvalidationFlag::All));
            } else {
                assert(flags@.contains(f));
            }
        } else {
            if spec_flag_on(flags@, f) {
                if flags@.contains(InvalidationFlag::All) {
                    let j = choose|j: int|
                        0 <= j < flags@.len() && flags@[j] == InvalidationFlag::All;
                    assert(false);
                } else {
                    let j = choose|j: int| 0 <= j < flags@.len() && flags@[j] == f;
                    assert(false);
                }
            }
        }
    }
    found
}

// ---------------------------------------------------------------------------
// The individual mutations
// ---------------------------------------------------------------------------

/// Version corruption: the sign bit is flipped, which takes any normal
/// version out of range and always changes the value.
pub open spec fn spec_break_version(v: u32) -> u32 {
    v ^ 0x8000_0000
}

/// Txid corruption: every byte flipped.
pub open spec fn spec_break_txid(t: Seq<u8>) -> Seq<u8> {
    Seq::new(t.len(), |i: int| t[i] ^ 0xffu8)
}

/// Vout corruption: the maximal index, or one less when the original
/// already was maximal.
pub open spec fn spec_break_vout(v: u32) -> u32 {
    if v == 0xffffffff {
        0xfffffffe
    } else {
        0xffffffff
    }
}

/// Sequence and lock-time corruption: the bitwise complement.
pub open spec fn spec_break_u32(v: u32) -> u32 {
    v ^ 0xffffffff
}

/// Amount corruption: the implausible, overflow-adjacent complement.
pub open spec fn spec_break_amount(v: u64) -> u64 {
    (0xffff_ffff_ffff_ffffu64 - v) as u64
}

/// Witness corruption: every element corrupted, and one extra element
/// appended while the count bound allows it, so the stack always changes.
pub open spec fn spec_break_witness(w: Seq<Seq<u8>>) -> Seq<Seq<u8>> {
    if w.len() < MAX_LEN {
        Seq::new(w.len(), |i: int| spec_corrupt_bytes(w[i])).push(seq![0x51u8])
    } else {
        Seq::new(w.len(), |i: int| spec_corrupt_bytes(w[i]))
    }
}

/// One input after the requested mutations.
pub open spec fn spec_break_input(i: TxInputV, fs: Seq<InvalidationFlag>) -> TxInputV {
    TxInputV {
        prev_txid: if spec_flag_on(fs, InvalidationFlag::InputTxid) {
            spec_break_txid(i.prev_txid)
        } else {
            i.prev_txid
        },
        prev_vout: if spec_flag_on(fs, InvalidationFlag::InputVout) {
            spec_break_vout(i.prev_vout)
        } else {
            i.prev_vout
        },
        script_sig: if spec_flag_on(fs, InvalidationFlag::InputScriptSig) {
            spec_corrupt_bytes(i.script_sig)
        } else {
            i.script_sig
        },
        sequence: if spec_flag_on(fs, InvalidationFlag::InputSequence) {
            spec_break_u32(i.sequence)
        } else {
            i.sequence
        },
        witness: if spec_flag_on(fs, InvalidationFlag::WitnessData) {
            spec_break_witness(i.witness)
        } else {
            i.witness
        },
    }
}

/// One output after the requested mutations.
pub open spec fn spec_break_output(o: TxOutputV, fs: Seq<InvalidationFlag>) -> TxOutputV {
    TxOutputV {
        value: if spec_flag_on(fs, InvalidationFlag::OutputAmount) {
            spec_break_amount(o.value)
        } else {
            o.value
        },
        script_pubkey: if spec_flag_on(fs, InvalidationFlag::OutputScriptPubKey) {
            spec_corrupt_bytes(o.script_pubkey)
        } else {
            o.script_pubkey
        },
    }
}

/// The whole transaction after the requested mutations: every named field
/// of every input and output is changed, every other field is untouched.
pub open spec fn spec_break_tx(t: TransactionV, fs: Seq<InvalidationFlag>) -> TransactionV {
    TransactionV {
        version: if spec_flag_on(fs, InvalidationFlag::Version) {
            spec_break_version(t.version)
        } else {
            t.version
        },
        lock_time: if spec_flag_on(fs, InvalidationFlag::Locktime) {
            spec_break_u32(t.lock_time)
        } else {
            t.lock_time
        },
        input: Seq::new(t.input.len(), |k: int| spec_break_input(t.input[k], fs)),
        output: Seq::new(t.output.len(), |k: int| spec_break_output(t.output[k], fs)),
    }
}

fn break_u32_val(v: u32) -> (r: u32)
    ensures
        r == spec_break_u32(v),
        r != v,
{
    let r = v ^ 0xffffffffu32;
    proof {
        assert(v ^ 0xffffffffu32 != v) by (bit_vector);
    }
    r
}

fn break_version_val(v: u32) -> (r: u32)
    ensures
        r == spec_break_version(v),
        r != v,
{
    let r = v ^ 0x8000_0000u32;
    proof {
        assert(v ^ 0x8000_0000u32 != v) by (bit_vector);
    }
    r
}

fn break_txid_val(t: &Vec<u8>) -> (r: Vec<u8>)
    ensures
        r@ == spec_break_txid(t@),
        t@.len() > 0 ==> r@ != t@,
        r@.len() == t@.len(),
{
    let mut out: Vec<u8> = Vec::new();
    let mut k: usize = 0;
    while k < t.len()
        invariant
            k <= t@.len(),
            out@.len() == k,
            forall|j: int| 0 <= j < k ==> #[trigger] out@[j] == (t@[j] ^ 0xffu8),
        decreases t@.len() - k,
    {
        out.push(t[k] ^ 0xffu8);
        k = k + 1;
    }
    proof {
        assert(out@ =~= spec_break_txid(t@));
        if t@.len() > 0 {
            let x = t@[0];
            assert(x ^ 0xffu8 != x) by (bit_vector);
        }
    }
    out
}

fn break_witness_val(w: &Vec<Vec<u8>>) -> (r: Vec<Vec<u8>>)
    requires
        w.deep_view().len() <= MAX_LEN,
        forall|j: int| 0 <= j < w.deep_view().len() ==> #[trigger] w.deep_view()[j].len()
            <= MAX_LEN,
    ensures
        r.deep_view() == spec_break_witness(w.deep_view()),
        r.deep_view() != w.deep_view(),
        r.deep_view().len() <= MAX_LEN,
        forall|j: int| 0 <= j < r.deep_view().len() ==> #[trigger] r.deep_view()[j].len()
            <= MAX_LEN,
{
    let ghost wv = w.deep_view();
    let mut out: Vec<Vec<u8>> = Vec::new();
    let mut k: usize = 0;
    while k < w.len()
        invariant
            k <= w@.len(),
            wv == w.deep_view(),
            wv.len() == w@.len(),
            forall|j: int| 0 <= j < wv.len() ==> #[trigger] wv[j].len() <= MAX_LEN,
            out@.len() == k,
            forall|j: int| 0 <= j < k ==> #[trigger] out.deep_view()[j] == spec_corrupt_bytes(
                wv[j],
            ),
        decreases w@.len() - k,
    {
        let ghost pre = out.deep_view();
        proof {
            assert(wv[k as int] == w@[k as int]@);
        }
        let e = corrupt_script(&w[k]);
        let ghost ev = e@;
        out.push(e);
        proof {
            assert(out.deep_view() =~~= pre.push(ev));
        }
        k = k + 1;
    }
    if w.len() < MAX_LEN {
        let ghost pre = out.deep_view();
        let mut extra: Vec<u8> = Vec::new();
        extra.push(0x51u8);
        proof {
            assert(extra@ =~= seq![0x51u8]);
        }
        let ghost ev = extra@;
        out.push(extra);
        proof {
            assert(out.deep_view() =~~= pre.push(ev));
            assert(out.deep_view() =~~= spec_break_witness(wv));
            assert(out.deep_view().len() != wv.len());
        }
    } else {
        proof {
            assert(out.deep_view() =~~= spec_break_witness(wv));
            assert(wv.len() >= 1);
            crate::script::lemma_corrupt_differs(wv[0]);
            assert(out.deep_view()[0] != wv[0]);
        }
    }
    proof {
        assert forall|j: int| 0 <= j < out.deep_view().len() implies #[trigger] out.deep_view()[
            j
        ].len() <= MAX_LEN by {
            if j < wv.len() {
                crate::script::lemma_corrupt_differs(wv[j]);
            }
        }
    }
    out
}

// ---------------------------------------------------------------------------
// The invalidator
// ---------------------------------------------------------------------------

/// Corrupts one output in place according to the flags; `invalidate_all`
/// forces every mutation.
pub fn invalidate_output_in_place(
    output: &mut TxOutput,
    flags: &Vec<InvalidationFlag>,
    invalidate_all: bool,
)
    requires
        spec_wf_output(old(output)@),
    ensures
        final(output)@ == spec_break_output(old(output)@, if invalidate_all {
            flags@.push(InvalidationFlag::All)
        } else {
            flags@
        }),
        spec_wf_output(final(output)@),
{
    let ghost eff = if invalidate_all {
        flags@.push(InvalidationFlag::All)
    } else {
        flags@
    };
    proof {
        if invalidate_all {
            assert(eff[eff.len() - 1] == InvalidationFlag::All);
            assert(eff.contains(InvalidationFlag::All));
        }
    }
    let amount_on = invalidate_all || flag_on(flags, InvalidationFlag::OutputAmount);
    let script_on = invalidate_all || flag_on(flags, InvalidationFlag::OutputScriptPubKey);
    proof {
        assert(amount_on == spec_flag_on(eff, InvalidationFlag::OutputAmount));
        assert(script_on == spec_flag_on(eff, InvalidationFlag::OutputScriptPubKey));
    }
    if amount_on {
        output.value = 0xffff_ffff_ffff_ffffu64 - output.value;
    }
    if script_on {
        let c = corrupt_script(&output.script_pubkey);
        proof {
            crate::script::lemma_corrupt_differs(output.script_pubkey@);
        }
        output.script_pubkey = c;
    }
}

/// Corrupts one input according to the flags.
fn invalidate_input(input: &TxInput, flags: &Vec<InvalidationFlag>) -> (r: TxInput)
    requires
        spec_wf_input(input@),
    ensures
        r@ == spec_break_input(input@, flags@),
        spec_wf_input(r@),
{
    let prev_txid: Vec<u8> = if flag_on(flags, InvalidationFlag::InputTxid) {
        break_txid_val(&input.prev_txid)
    } else {
        copy_bytes(&input.prev_txid)
    };
    let prev_vout: u32 = if flag_on(flags, InvalidationFlag::InputVout) {
        if input.prev_vout == 0xffffffffu32 {
            0xfffffffeu32
        } else {
            0xffffffffu32
        }
    } else {
        input.prev_vout
    };
    let script_sig: Vec<u8> = if flag_on(flags, InvalidationFlag::InputScriptSig) {
        let c = corrupt_script(&input.script_sig);
        proof {
            crate::script::lemma_corrupt_differs(input.script_sig@);
        }
        c
    } else {
        copy_bytes(&input.script_sig)
    };
    let sequence: u32 = if flag_on(flags, InvalidationFlag::InputSequence) {
        break_u32_val(input.sequence)
    } else {
        input.sequence
    };
    let witness: Vec<Vec<u8>> = if flag_on(flags, InvalidationFlag::WitnessData) {
        break_witness_val(&input.witness)
    } else {
        let mut w: Vec<Vec<u8>> = Vec::new();
        let mut k: usize = 0;
        while k < input.witness.len()
            invariant
                k <= input.witness@.len(),
                w@.len() == k,
                forall|j: int| 0 <= j < k ==> #[trigger] w.deep_view()[j]
                    == input.witness.deep_view()[j],
            decreases input.witness@.len() - k,
        {
            let ghost pre = w.deep_view();
            let e = copy_bytes(&input.witness[k]);
            let ghost ev = e@;
            proof {
                assert(input.witness.deep_view()[k as int] == input.witness@[k as int]@);
            }
            w.push(e);
            proof {
                assert(w.deep_view() =~~= pre.push(ev));
            }
            k = k + 1;
        }
        proof {
            assert(w.deep_view() =~~= input.witness.deep_view());
        }
        w
    };
    let r = TxInput {
        prev_txid: prev_txid,
        prev_vout: prev_vout,
        script_sig: script_sig,
        sequence: sequence,
        witness: witness,
    };
    proof {
        assert(r@ == spec_break_input(input@, flags@));
        assert(spec_wf_input(r@));
    }
    r
}

/// The transaction invalidator.
pub struct TransactionInvalidator;

impl TransactionInvalidator {
    /// Returns the transaction with exactly the named fields corrupted, in
    /// every input and output; every other field is byte-identical, and the
    /// result still satisfies the wire-format bounds.
    pub fn invalidate(tx: Transaction, flags: &Vec<InvalidationFlag>) -> (r: Transaction)
        requires
            spec_wf_tx(tx@),
        ensures
            r@ == spec_break_tx(tx@, flags@),
            spec_wf_tx(r@),
    {
        let ghost tv = tx@;
        let version: u32 = if flag_on(flags, InvalidationFlag::Version) {
            break_version_val(tx.version)
        } else {
            tx.version
        };
        let lock_time: u32 = if flag_on(flags, InvalidationFlag::Locktime) {
            break_u32_val(tx.lock_time)
        } else {
            tx.lock_time
        };
        let mut input: Vec<TxInput> = Vec::new();
        let mut k: usize = 0;
        while k < tx.input.len()
            invariant
                k <= tx.input@.len(),
                tv == tx@,
                tv.input.len() == tx.input@.len(),
                spec_wf_tx(tv),
                input@.len() == k,
                forall|j: int| 0 <= j < k ==> #[trigger] input.deep_view()[j] == spec_break_input(
                    tv.input[j],
                    flags@,
                ) && spec_wf_input(input.deep_view()[j]),
            decreases tx.input@.len() - k,
        {
            let ghost pre = input.deep_view();
            proof {
                assert(tv.input[k as int] == tx.input@[k as int]@);
            }
            let one = invalidate_input(&tx.input[k], flags);
            let ghost onev = one@;
            input.push(one);
            proof {
                assert(input.deep_view() =~~= pre.push(onev));
            }
            k = k + 1;
        }
        let mut output: Vec<TxOutput> = Vec::new();
        let mut k2: usize = 0;
        while k2 < tx.output.len()
            invariant
                k2 <= tx.output@.len(),
                tv == tx@,
                tv.output.len() == tx.output@.len(),
                spec_wf_tx(tv),
                output@.len() == k2,
                forall|j: int| 0 <= j < k2 ==> #[trigger] output.deep_view()[j]
                    == spec_break_output(tv.output[j], flags@) && spec_wf_output(
                    output.deep_view()[j],
                ),
            decreases tx.output@.len() - k2,
        {
            let ghost pre = output.deep_view();
            proof {
                assert(tv.output[k2 as int] == tx.output@[k2 as int]@);
            }
            let mut one = TxOutput {
                value: tx.output[k2].value,
                script_pubkey: copy_bytes(&tx.output[k2].script_pubkey),
            };
            invalidate_output_in_place(&mut one, flags, false);
            let ghost onev = one@;
            output.push(one);
            proof {
                assert(output.deep_view() =~~= pre.push(onev));
            }
            k2 = k2 + 1;
        }
        let r = Transaction {
            version: version,
            lock_time: lock_time,
            input: input,
            output: output,
        };
        proof {
            assert(r@.input =~~= spec_break_tx(tv, flags@).input);
            assert(r@.output =~~= spec_break_tx(tv, flags@).output);
            assert(r@ == spec_break_tx(tv, flags@));
            assert(spec_wf_tx(r@));
        }
        r
    }
}

/// The invalidator changes exactly the requested fields: under any flag set
/// without `All`, every field not named is identical before and after, and
/// every named field of every input and output differs, provided the field
/// had room to differ (a txid has its bytes flipped, so it must be
/// non-empty, which well-formedness guarantees).
pub proof fn lemma_invalidator_locality(t: TransactionV, fs: Seq<InvalidationFlag>)
    requires
        spec_wf_tx(t),
    ensures
        !spec_flag_on(fs, InvalidationFlag::Version) ==> spec_break_tx(t, fs).version == t.version,
        spec_flag_on(fs, InvalidationFlag::Version) ==> spec_break_tx(t, fs).version != t.version,
        !spec_flag_on(fs, InvalidationFlag::Locktime) ==> spec_break_tx(t, fs).lock_time
            == t.lock_time,
        spec_flag_on(fs, InvalidationFlag::Locktime) ==> spec_break_tx(t, fs).lock_time
            != t.lock_time,
        spec_break_tx(t, fs).input.len() == t.input.len(),
        spec_break_tx(t, fs).output.len() == t.output.len(),
        forall|k: int| 0 <= k < t.input.len() ==> {
            let b = #[trigger] spec_break_tx(t, fs).input[k];
            let o = t.input[k];
            &&& (spec_flag_on(fs, InvalidationFlag::InputTxid) ==> b.prev_txid != o.prev_txid)
            &&& (!spec_flag_on(fs, InvalidationFlag::InputTxid) ==> b.prev_txid == o.prev_txid)
            &&& (spec_flag_on(fs, InvalidationFlag::InputVout) ==> b.prev_vout != o.prev_vout)
            &&& (!spec_flag_on(fs, InvalidationFlag::InputVout) ==> b.prev_vout == o.prev_vout)
            &&& (spec_flag_on(fs, InvalidationFlag::InputScriptSig) ==> b.script_sig
                != o.script_sig)
            &&& (!spec_flag_on(fs, InvalidationFlag::InputScriptSig) ==> b.script_sig
                == o.script_sig)
            &&& (spec_flag_on(fs, InvalidationFlag::InputSequence) ==> b.sequence != o.sequence)
            &&& (!spec_flag_on(fs, InvalidationFlag::InputSequence) ==> b.sequence == o.sequence)
            &&& (spec_flag_on(fs, InvalidationFlag::WitnessData) ==> b.witness != o.witness)
            &&& (!spec_flag_on(fs, InvalidationFlag::WitnessData) ==> b.witness == o.witness)
        },
        forall|k: int| 0 <= k < t.output.len() ==> {
            let b = #[trigger] spec_break_tx(t, fs).output[k];
            let o = t.output[k];
            &&& (spec_flag_on(fs, InvalidationFlag::OutputAmount) ==> b.value != o.value)
            &&& (!spec_flag_on(fs, InvalidationFlag::OutputAmount) ==> b.value == o.value)
            &&& (spec_flag_on(fs, InvalidationFlag::OutputScriptPubKey) ==> b.script_pubkey
                != o.script_pubkey)
            &&& (!spec_flag_on(fs, InvalidationFlag::OutputScriptPubKey) ==> b.script_pubkey
                == o.script_pubkey)
        },
{
    if spec_flag_on(fs, InvalidationFlag::Version) {
        let v = t.version;
        assert(v ^ 0x8000_0000u32 != v) by (bit_vector);
    }
    if spec_flag_on(fs, InvalidationFlag::Locktime) {
        let v = t.lock_time;
        assert(v ^ 0xffffffffu32 != v) by (bit_vector);
    }
    assert forall|k: int| 0 <= k < t.input.len() implies {
        let b = #[trigger] spec_break_tx(t, fs).input[k];
        let o = t.input[k];
        &&& (spec_flag_on(fs, InvalidationFlag::InputTxid) ==> b.prev_txid != o.prev_txid)
        &&& (!spec_flag_on(fs, InvalidationFlag::InputTxid) ==> b.prev_txid == o.prev_txid)
        &&& (spec_flag_on(fs, InvalidationFlag::InputVout) ==> b.prev_vout != o.prev_vout)
        &&& (!spec_flag_on(fs, InvalidationFlag::InputVout) ==> b.prev_vout == o.prev_vout)
        &&& (spec_flag_on(fs, InvalidationFlag::InputScriptSig) ==> b.script_sig != o.script_sig)
        &&& (!spec_flag_on(fs, InvalidationFlag::InputScriptSig) ==> b.script_sig == o.script_sig)
        &&& (spec_flag_on(fs, InvalidationFlag::InputSequence) ==> b.sequence != o.sequence)
        &&& (!spec_flag_on(fs, InvalidationFlag::InputSequence) ==> b.sequence == o.sequence)
        &&& (spec_flag_on(fs, InvalidationFlag::WitnessData) ==> b.witness != o.witness)
        &&& (!spec_flag_on(fs, InvalidationFlag::WitnessData) ==> b.witness == o.witness)
    } by {
        let o = t.input[k];
        assert(spec_wf_input(o));
        if spec_flag_on(fs, InvalidationFlag::InputTxid) {
            assert(spec_break_txid(o.prev_txid)[0] == (o.prev_txid[0] ^ 0xffu8));
            let x = o.prev_txid[0];
            assert(x ^ 0xffu8 != x) by (bit_vector);
        }
        if spec_flag_on(fs, InvalidationFlag::InputScriptSig) {
            crate::script::lemma_corrupt_differs(o.script_sig);
        }
        if spec_flag_on(fs, InvalidationFlag::InputSequence) {
            let v = o.sequence;
            assert(v ^ 0xffffffffu32 != v) by (bit_vector);
        }
        if spec_flag_on(fs, InvalidationFlag::WitnessData) {
            if o.witness.len() < MAX_LEN {
                assert(spec_break_witness(o.witness).len() != o.witness.len());
            } else {
                crate::script::lemma_corrupt_differs(o.witness[0]);
                assert(spec_break_witness(o.witness)[0] != o.witness[0]);
            }
        }
    }
    assert forall|k: int| 0 <= k < t.output.len() implies {
        let b = #[trigger] spec_break_tx(t, fs).output[k];
        let o = t.output[k];
        &&& (spec_flag_on(fs, InvalidationFlag::OutputAmount) ==> b.value != o.value)
        &&& (!spec_flag_on(fs, InvalidationFlag::OutputAmount) ==> b.value == o.value)
        &&& (spec_flag_on(fs, InvalidationFlag::OutputScriptPubKey) ==> b.script_pubkey
            != o.script_pubkey)
        &&& (!spec_flag_on(fs, InvalidationFlag::OutputScriptPubKey) ==> b.script_pubkey
            == o.script_pubkey)
    } by {
        let o = t.output[k];
        if spec_flag_on(fs, InvalidationFlag::OutputAmount) {
            assert(0xffff_ffff_ffff_ffffu64 - o.value != o.value);
        }
        if spec_flag_on(fs, InvalidationFlag::OutputScriptPubKey) {
            crate::script::lemma_corrupt_differs(o.script_pubkey);
        }
    }
}

} // verus!
