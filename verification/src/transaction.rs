//! The transaction data model and its consensus serialization.
//!
//! A transaction is held as plain values: little-endian consensus integers,
//! byte vectors for scripts and transaction ids, and a stack of byte vectors
//! for each input's witness. `spec_enc_tx` is the single source of truth for
//! the wire format; the executable encoder is proved to produce exactly it.

use crate::encoding::{enc_bytes, enc_u32, enc_u64, enc_varint, spec_enc_u32, spec_enc_u64,
    spec_enc_varint};
use vstd::prelude::*;

verus! {

/// Scripts, witness elements and list lengths are capped at this many units,
/// mirroring the allocation limit consensus decoders place on variable-length
/// fields. Values produced by the generators stay far below it.
pub const MAX_LEN: usize = 4000000;

// ---------------------------------------------------------------------------
// Data model
// ---------------------------------------------------------------------------

/// One transaction input: previous output reference, unlocking script,
/// sequence number and segregated witness stack.
#[derive(Clone, Debug, PartialEq, Eq)]
pub struct TxInput {
    /// Referenced transaction id, 32 bytes in wire order.
    pub prev_txid: Vec<u8>,
    /// Index of the referenced output.
    pub prev_vout: u32,
    /// Unlocking script bytes.
    pub script_sig: Vec<u8>,
    /// Sequence number.
    pub sequence: u32,
    /// Witness stack; empty for legacy spends.
    pub witness: Vec<Vec<u8>>,
}

/// One transaction output: amount in satoshis and locking script.
#[derive(Clone, Debug, PartialEq, Eq)]
pub struct TxOutput {
    /// Amount in satoshis.
    pub value: u64,
    /// Locking script bytes.
    pub script_pubkey: Vec<u8>,
}

/// A transaction: version, inputs, outputs and lock time. The version and
/// lock time are stored as their consensus little-endian 32-bit values.
#[derive(Clone, Debug, PartialEq, Eq)]
pub struct Transaction {
    /// Version as the unsigned consensus value (`i32` two's complement).
    pub version: u32,
    /// Lock time: a block height below 500000000, else a unix time.
    pub lock_time: u32,
    /// Inputs, at least one in any well-formed transaction.
    pub input: Vec<TxInput>,
    /// Outputs.
    pub output: Vec<TxOutput>,
}

/// Mathematical image of [`TxInput`].
pub ghost struct TxInputV {
    pub prev_txid: Seq<u8>,
    pub prev_vout: u32,
    pub script_sig: Seq<u8>,
    pub sequence: u32,
    pub witness: Seq<Seq<u8>>,
}

/// Mathematical image of [`TxOutput`].
pub ghost struct TxOutputV {
    pub value: u64,
    pub script_pubkey: Seq<u8>,
}

/// Mathematical image of [`Transaction`].
pub ghost struct TransactionV {
    pub version: u32,
    pub lock_time: u32,
    pub input: Seq<TxInputV>,
    pub output: Seq<TxOutputV>,
}

impl View for TxInput {
    type V = TxInputV;

    open spec fn view(&self) -> TxInputV {
        TxInputV {
            prev_txid: self.prev_txid@,
            prev_vout: self.prev_vout,
            script_sig: self.script_sig@,
            sequence: self.sequence,
            witness: self.witness.deep_view(),
        }
    }
}

impl View for TxOutput {
    type V = TxOutputV;

    open spec fn view(&self) -> TxOutputV {
        TxOutputV { value: self.value, script_pubkey: self.script_pubkey@ }
    }
}

impl View for Transaction {
    type V = TransactionV;

    open spec fn view(&self) -> TransactionV {
        TransactionV {
            version: self.version,
            lock_time: self.lock_time,
            input: self.input.deep_view(),
            output: self.output.deep_view(),
        }
    }
}

impl DeepView for Transaction {
    type V = TransactionV;

    open spec fn deep_view(&self) -> TransactionV {
        self.view()
    }
}

impl DeepView for TxInput {
    type V = TxInputV;

    open spec fn deep_view(&self) -> TxInputV {
        self.view()
    }
}

impl DeepView for TxOutput {
    type V = TxOutputV;

    open spec fn deep_view(&self) -> TxOutputV {
        self.view()
    }
}

// ---------------------------------------------------------------------------
// Well-formedness
// ---------------------------------------------------------------------------

pub open spec fn spec_wf_input(i: TxInputV) -> bool {
    &&& i.prev_txid.len() == 32
    &&& i.script_sig.len() <= MAX_LEN
    &&& i.witness.len() <= MAX_LEN
    &&& forall|k: int| 0 <= k < i.witness.len() ==> #[trigger] i.witness[k].len() <= MAX_LEN
}

pub open spec fn spec_wf_output(o: TxOutputV) -> bool {
    o.script_pubkey.len() <= MAX_LEN
}

/// A transaction in the image of the decoder and of the generators: at least
/// one input, bounded lengths everywhere.
pub open spec fn spec_wf_tx(t: TransactionV) -> bool {
    &&& 1 <= t.input.len() <= MAX_LEN
    &&& t.output.len() <= MAX_LEN
    &&& forall|k: int| 0 <= k < t.input.len() ==> spec_wf_input(#[trigger] t.input[k])
    &&& forall|k: int| 0 <= k < t.output.len() ==> spec_wf_output(#[trigger] t.output[k])
}

/// A transaction is serialized in the extended (segwit) format exactly when
/// some input carries a non-empty witness stack.
pub open spec fn spec_has_witness(t: TransactionV) -> bool {
    exists|k: int| 0 <= k < t.input.len() && #[trigger] t.input[k].witness.len() > 0
}

// ---------------------------------------------------------------------------
// Specification-level encoding
// ---------------------------------------------------------------------------

/// Input without its witness: txid, vout, length-prefixed script, sequence.
pub open spec fn spec_enc_input(i: TxInputV) -> Seq<u8> {
    i.prev_txid + spec_enc_u32(i.prev_vout) + spec_enc_varint(i.script_sig.len() as u64)
        + i.script_sig + spec_enc_u32(i.sequence)
}

pub open spec fn spec_enc_inputs(s: Seq<TxInputV>) -> Seq<u8>
    decreases s.len(),
{
    if s.len() == 0 {
        Seq::empty()
    } else {
        spec_enc_input(s[0]) + spec_enc_inputs(s.skip(1))
    }
}

pub open spec fn spec_enc_output(o: TxOutputV) -> Seq<u8> {
    spec_enc_u64(o.value) + spec_enc_varint(o.script_pubkey.len() as u64) + o.script_pubkey
}

pub open spec fn spec_enc_outputs(s: Seq<TxOutputV>) -> Seq<u8>
    decreases s.len(),
{
    if s.len() == 0 {
        Seq::empty()
    } else {
        spec_enc_output(s[0]) + spec_enc_outputs(s.skip(1))
    }
}

/// One witness element: length prefix then bytes.
pub open spec fn spec_enc_wit_elem(e: Seq<u8>) -> Seq<u8> {
    spec_enc_varint(e.len() as u64) + e
}

pub open spec fn spec_enc_wit_elems(w: Seq<Seq<u8>>) -> Seq<u8>
    decreases w.len(),
{
    if w.len() == 0 {
        Seq::empty()
    } else {
        spec_enc_wit_elem(w[0]) + spec_enc_wit_elems(w.skip(1))
    }
}

/// One input's witness stack: element count then the elements.
pub open spec fn spec_enc_witness(w: Seq<Seq<u8>>) -> Seq<u8> {
    spec_enc_varint(w.len() as u64) + spec_enc_wit_elems(w)
}

pub open spec fn spec_enc_witnesses(s: Seq<TxInputV>) -> Seq<u8>
    decreases s.len(),
{
    if s.len() == 0 {
        Seq::empty()
    } else {
        spec_enc_witness(s[0].witness) + spec_enc_witnesses(s.skip(1))
    }
}

/// The legacy serialization: version, inputs, outputs, lock time. This is the
/// preimage of the transaction id.
pub open spec fn spec_enc_tx_legacy(t: TransactionV) -> Seq<u8> {
    spec_enc_u32(t.version) + spec_enc_varint(t.input.len() as u64) + spec_enc_inputs(t.input)
        + spec_enc_varint(t.output.len() as u64) + spec_enc_outputs(t.output) + spec_enc_u32(
        t.lock_time,
    )
}

/// The full wire serialization. A transaction with witness data carries the
/// segwit marker and flag bytes and one witness stack per input.
pub open spec fn spec_enc_tx(t: TransactionV) -> Seq<u8> {
    if spec_has_witness(t) {
        spec_enc_u32(t.version) + seq![0u8, 1u8] + spec_enc_varint(t.input.len() as u64)
            + spec_enc_inputs(t.input) + spec_enc_varint(t.output.len() as u64) + spec_enc_outputs(
            t.output,
        ) + spec_enc_witnesses(t.input) + spec_enc_u32(t.lock_time)
    } else {
        spec_enc_tx_legacy(t)
    }
}

// ---------------------------------------------------------------------------
// Executable encoders
// ---------------------------------------------------------------------------

fn enc_input(out: &mut Vec<u8>, i: &TxInput)
    requires
        i@.script_sig.len() <= MAX_LEN,
    ensures
        final(out)@ == old(out)@ + spec_enc_input(i@),
{
    enc_bytes(out, &i.prev_txid);
    enc_u32(out, i.prev_vout);
    enc_varint(out, i.script_sig.len() as u64);
    enc_bytes(out, &i.script_sig);
    enc_u32(out, i.sequence);
    proof {
        assert(old(out)@ + spec_enc_input(i@) =~= old(out)@ + i@.prev_txid + spec_enc_u32(
            i@.prev_vout,
        ) + spec_enc_varint(i@.script_sig.len() as u64) + i@.script_sig + spec_enc_u32(
            i@.sequence,
        ));
    }
}

fn enc_output(out: &mut Vec<u8>, o: &TxOutput)
    requires
        o@.script_pubkey.len() <= MAX_LEN,
    ensures
        final(out)@ == old(out)@ + spec_enc_output(o@),
{
    enc_u64(out, o.value);
    enc_varint(out, o.script_pubkey.len() as u64);
    enc_bytes(out, &o.script_pubkey);
    proof {
        assert(old(out)@ + spec_enc_output(o@) =~= old(out)@ + spec_enc_u64(o@.value)
            + spec_enc_varint(o@.script_pubkey.len() as u64) + o@.script_pubkey);
    }
}

proof fn lemma_enc_inputs_snoc(s: Seq<TxInputV>, i: TxInputV)
    ensures
        spec_enc_inputs(s.push(i)) == spec_enc_inputs(s) + spec_enc_input(i),
    decreases s.len(),
{
    let sp = s.push(i);
    if s.len() == 0 {
        assert(sp[0] == i);
        assert(sp.skip(1) =~= Seq::<TxInputV>::empty());
        assert(spec_enc_inputs(sp) == spec_enc_input(i) + spec_enc_inputs(
            Seq::<TxInputV>::empty(),
        ));
        assert(spec_enc_inputs(Seq::<TxInputV>::empty()) == Seq::<u8>::empty());
        assert(spec_enc_inputs(sp) =~= spec_enc_inputs(s) + spec_enc_input(i));
    } else {
        assert(sp[0] == s[0]);
        assert(sp.skip(1) =~= s.skip(1).push(i));
        lemma_enc_inputs_snoc(s.skip(1), i);
        assert(spec_enc_inputs(sp) == spec_enc_input(s[0]) + spec_enc_inputs(s.skip(1).push(i)));
        assert(spec_enc_inputs(sp) =~= spec_enc_inputs(s) + spec_enc_input(i));
    }
}

proof fn lemma_enc_outputs_snoc(s: Seq<TxOutputV>, o: TxOutputV)
    ensures
        spec_enc_outputs(s.push(o)) == spec_enc_outputs(s) + spec_enc_output(o),
    decreases s.len(),
{
    let sp = s.push(o);
    if s.len() == 0 {
        assert(sp[0] == o);
        assert(sp.skip(1) =~= Seq::<TxOutputV>::empty());
        assert(spec_enc_outputs(sp) == spec_enc_output(o) + spec_enc_outputs(
            Seq::<TxOutputV>::empty(),
        ));
        assert(spec_enc_outputs(Seq::<TxOutputV>::empty()) == Seq::<u8>::empty());
        assert(spec_enc_outputs(sp) =~= spec_enc_outputs(s) + spec_enc_output(o));
    } else {
        assert(sp[0] == s[0]);
        assert(sp.skip(1) =~= s.skip(1).push(o));
        lemma_enc_outputs_snoc(s.skip(1), o);
        assert(spec_enc_outputs(sp) == spec_enc_output(s[0]) + spec_enc_outputs(
            s.skip(1).push(o),
        ));
        assert(spec_enc_outputs(sp) =~= spec_enc_outputs(s) + spec_enc_output(o));
    }
}

proof fn lemma_enc_wit_elems_snoc(w: Seq<Seq<u8>>, e: Seq<u8>)
    ensures
        spec_enc_wit_elems(w.push(e)) == spec_enc_wit_elems(w) + spec_enc_wit_elem(e),
    decreases w.len(),
{
    let wp = w.push(e);
    if w.len() == 0 {
        assert(wp[0] == e);
        assert(wp.skip(1) =~= Seq::<Seq<u8>>::empty());
        assert(spec_enc_wit_elems(wp) == spec_enc_wit_elem(e) + spec_enc_wit_elems(
            Seq::<Seq<u8>>::empty(),
        ));
        assert(spec_enc_wit_elems(Seq::<Seq<u8>>::empty()) == Seq::<u8>::empty());
        assert(spec_enc_wit_elems(wp) =~= spec_enc_wit_elems(w) + spec_enc_wit_elem(e));
    } else {
        assert(wp[0] == w[0]);
        assert(wp.skip(1) =~= w.skip(1).push(e));
        lemma_enc_wit_elems_snoc(w.skip(1), e);
        assert(spec_enc_wit_elems(wp) == spec_enc_wit_elem(w[0]) + spec_enc_wit_elems(
            w.skip(1).push(e),
        ));
        assert(spec_enc_wit_elems(wp) =~= spec_enc_wit_elems(w) + spec_enc_wit_elem(e));
    }
}

proof fn lemma_enc_witnesses_snoc(s: Seq<TxInputV>, i: TxInputV)
    ensures
        spec_enc_witnesses(s.push(i)) == spec_enc_witnesses(s) + spec_enc_witness(i.witness),
    decreases s.len(),
{
    let sp = s.push(i);
    if s.len() == 0 {
        assert(sp[0] == i);
        assert(sp.skip(1) =~= Seq::<TxInputV>::empty());
        assert(spec_enc_witnesses(sp) == spec_enc_witness(i.witness) + spec_enc_witnesses(
            Seq::<TxInputV>::empty(),
        ));
        assert(spec_enc_witnesses(Seq::<TxInputV>::empty()) == Seq::<u8>::empty());
        assert(spec_enc_witnesses(sp) =~= spec_enc_witnesses(s) + spec_enc_witness(i.witness));
    } else {
        assert(sp[0] == s[0]);
        assert(sp.skip(1) =~= s.skip(1).push(i));
        lemma_enc_witnesses_snoc(s.skip(1), i);
        assert(spec_enc_witnesses(sp) == spec_enc_witness(s[0].witness) + spec_enc_witnesses(
            s.skip(1).push(i),
        ));
        assert(spec_enc_witnesses(sp) =~= spec_enc_witnesses(s) + spec_enc_witness(i.witness));
    }
}

fn enc_inputs(out: &mut Vec<u8>, s: &Vec<TxInput>)
    requires
        forall|k: int| 0 <= k < s@.len() ==> spec_wf_input(#[trigger] s.deep_view()[k]),
    ensures
        final(out)@ == old(out)@ + spec_enc_inputs(s.deep_view()),
{
    let ghost sv = s.deep_view();
    let mut k: usize = 0;
    proof {
        assert(spec_enc_inputs(sv.take(0)) =~= Seq::<u8>::empty());
        assert(out@ =~= old(out)@ + spec_enc_inputs(sv.take(0)));
    }
    while k < s.len()
        invariant
            k <= s@.len(),
            sv == s.deep_view(),
            sv.len() == s@.len(),
            forall|j: int| 0 <= j < sv.len() ==> spec_wf_input(#[trigger] sv[j]),
            out@ == old(out)@ + spec_enc_inputs(sv.take(k as int)),
        decreases s@.len() - k,
    {
        proof {
            assert(sv[k as int] == s@[k as int]@);
        }
        enc_input(out, &s[k]);
        proof {
            lemma_enc_inputs_snoc(sv.take(k as int), sv[k as int]);
            assert(sv.take(k as int).push(sv[k as int]) =~= sv.take(k as int + 1));
            assert(out@ =~= old(out)@ + spec_enc_inputs(sv.take(k as int + 1)));
        }
        k = k + 1;
    }
    proof {
        assert(sv.take(sv.len() as int) =~= sv);
    }
}

pub(crate) fn enc_outputs_bytes(out: &mut Vec<u8>, s: &Vec<TxOutput>)
    requires
        forall|k: int| 0 <= k < s@.len() ==> spec_wf_output(#[trigger] s.deep_view()[k]),
    ensures
        final(out)@ == old(out)@ + spec_enc_outputs(s.deep_view()),
{
    let ghost sv = s.deep_view();
    let mut k: usize = 0;
    proof {
        assert(spec_enc_outputs(sv.take(0)) =~= Seq::<u8>::empty());
        assert(out@ =~= old(out)@ + spec_enc_outputs(sv.take(0)));
    }
    while k < s.len()
        invariant
            k <= s@.len(),
            sv == s.deep_view(),
            sv.len() == s@.len(),
            forall|j: int| 0 <= j < sv.len() ==> spec_wf_output(#[trigger] sv[j]),
            out@ == old(out)@ + spec_enc_outputs(sv.take(k as int)),
        decreases s@.len() - k,
    {
        proof {
            assert(sv[k as int] == s@[k as int]@);
        }
        enc_output(out, &s[k]);
        proof {
            lemma_enc_outputs_snoc(sv.take(k as int), sv[k as int]);
            assert(sv.take(k as int).push(sv[k as int]) =~= sv.take(k as int + 1));
            assert(out@ =~= old(out)@ + spec_enc_outputs(sv.take(k as int + 1)));
        }
        k = k + 1;
    }
    proof {
        assert(sv.take(sv.len() as int) =~= sv);
    }
}

fn enc_witness(out: &mut Vec<u8>, w: &Vec<Vec<u8>>)
    requires
        w.deep_view().len() <= MAX_LEN,
        forall|k: int| 0 <= k < w@.len() ==> #[trigger] w.deep_view()[k].len() <= MAX_LEN,
    ensures
        final(out)@ == old(out)@ + spec_enc_witness(w.deep_view()),
{
    let ghost wv = w.deep_view();
    enc_varint(out, w.len() as u64);
    let mut k: usize = 0;
    proof {
        assert(spec_enc_wit_elems(wv.take(0)) =~= Seq::<u8>::empty());
        assert(out@ =~= old(out)@ + spec_enc_varint(wv.len() as u64) + spec_enc_wit_elems(
            wv.take(0),
        ));
    }
    while k < w.len()
        invariant
            k <= w@.len(),
            wv == w.deep_view(),
            wv.len() == w@.len(),
            out@ == old(out)@ + spec_enc_varint(wv.len() as u64) + spec_enc_wit_elems(
                wv.take(k as int),
            ),
        decreases w@.len() - k,
    {
        proof {
            assert(wv[k as int] == w@[k as int]@);
        }
        enc_varint(out, w[k].len() as u64);
        enc_bytes(out, &w[k]);
        proof {
            lemma_enc_wit_elems_snoc(wv.take(k as int), wv[k as int]);
            assert(wv.take(k as int).push(wv[k as int]) =~= wv.take(k as int + 1));
            assert(out@ =~= old(out)@ + spec_enc_varint(wv.len() as u64) + spec_enc_wit_elems(
                wv.take(k as int + 1),
            ));
        }
        k = k + 1;
    }
    proof {
        assert(wv.take(wv.len() as int) =~= wv);
    }
}

fn enc_witnesses(out: &mut Vec<u8>, s: &Vec<TxInput>)
    requires
        forall|k: int| 0 <= k < s@.len() ==> spec_wf_input(#[trigger] s.deep_view()[k]),
    ensures
        final(out)@ == old(out)@ + spec_enc_witnesses(s.deep_view()),
{
    let ghost sv = s.deep_view();
    let mut k: usize = 0;
    proof {
        assert(spec_enc_witnesses(sv.take(0)) =~= Seq::<u8>::empty());
        assert(out@ =~= old(out)@ + spec_enc_witnesses(sv.take(0)));
    }
    while k < s.len()
        invariant
            k <= s@.len(),
            sv == s.deep_view(),
            sv.len() == s@.len(),
            forall|j: int| 0 <= j < sv.len() ==> spec_wf_input(#[trigger] sv[j]),
            out@ == old(out)@ + spec_enc_witnesses(sv.take(k as int)),
        decreases s@.len() - k,
    {
        proof {
            assert(sv[k as int] == s@[k as int]@);
        }
        enc_witness(out, &s[k].witness);
        proof {
            lemma_enc_witnesses_snoc(sv.take(k as int), sv[k as int]);
            assert(sv.take(k as int).push(sv[k as int]) =~= sv.take(k as int + 1));
            assert(out@ =~= old(out)@ + spec_enc_witnesses(sv.take(k as int + 1)));
        }
        k = k + 1;
    }
    proof {
        assert(sv.take(sv.len() as int) =~= sv);
    }
}

/// Whether some input carries a non-empty witness stack.
pub fn tx_has_witness(tx: &Transaction) -> (r: bool)
    ensures
        r == spec_has_witness(tx@),
{
    let mut k: usize = 0;
    let mut found: bool = false;
    while k < tx.input.len()
        invariant
            k <= tx.input@.len(),
            tx@.input.len() == tx.input@.len(),
            found == exists|j: int|
                0 <= j < k && #[trigger] tx@.input[j].witness.len() > 0,
        decreases tx.input@.len() - k,
    {
        if tx.input[k].witness.len() > 0 {
            proof {
                assert(tx@.input[k as int].witness.len() > 0);
            }
            found = true;
        }
        k = k + 1;
    }
    found
}

/// Serializes a transaction in the consensus wire format.
pub fn encode_tx(tx: &Transaction) -> (r: Vec<u8>)
    requires
        spec_wf_tx(tx@),
    ensures
        r@ == spec_enc_tx(tx@),
{
    let ghost tv = tx@;
    let mut out: Vec<u8> = Vec::new();
    enc_u32(&mut out, tx.version);
    let segwit = tx_has_witness(tx);
    if segwit {
        out.push(0u8);
        out.push(1u8);
    }
    enc_varint(&mut out, tx.input.len() as u64);
    enc_inputs(&mut out, &tx.input);
    enc_varint(&mut out, tx.output.len() as u64);
    enc_outputs_bytes(&mut out, &tx.output);
    if segwit {
        enc_witnesses(&mut out, &tx.input);
    }
    enc_u32(&mut out, tx.lock_time);
    proof {
        if spec_has_witness(tv) {
            assert(out@ =~= spec_enc_u32(tv.version) + seq![0u8, 1u8] + spec_enc_varint(
                tv.input.len() as u64,
            ) + spec_enc_inputs(tv.input) + spec_enc_varint(tv.output.len() as u64)
                + spec_enc_outputs(tv.output) + spec_enc_witnesses(tv.input) + spec_enc_u32(
                tv.lock_time,
            ));
        } else {
            assert(out@ =~= spec_enc_tx_legacy(tv));
        }
    }
    out
}

/// Serializes a transaction in the legacy format, the preimage of the txid.
pub fn encode_tx_legacy(tx: &Transaction) -> (r: Vec<u8>)
    requires
        spec_wf_tx(tx@),
    ensures
        r@ == spec_enc_tx_legacy(tx@),
{
    let ghost tv = tx@;
    let mut out: Vec<u8> = Vec::new();
    enc_u32(&mut out, tx.version);
    enc_varint(&mut out, tx.input.len() as u64);
    enc_inputs(&mut out, &tx.input);
    enc_varint(&mut out, tx.output.len() as u64);
    enc_outputs_bytes(&mut out, &tx.output);
    enc_u32(&mut out, tx.lock_time);
    proof {
        assert(out@ =~= spec_enc_tx_legacy(tv));
    }
    out
}

} // verus!
