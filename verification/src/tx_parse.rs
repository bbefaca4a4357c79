//! Parsing of consensus-serialized transactions.
//!
//! `spec_parse_tx` is the specification-level parser; the executable decoder
//! mirrors it exactly, so its success and failure cases are pinned down. The
//! lemmas at the end show that parsing inverts `spec_enc_tx`, which gives the
//! encode/decode round trip.

use crate::encoding::{lemma_parse_bytes_enc, lemma_parse_u32_enc, lemma_parse_u8_enc,
    lemma_parse_u64_enc, lemma_parse_varint_enc, read_bytes, read_u32, read_u8, read_varint,
    spec_enc_u32, spec_enc_u64, spec_enc_varint, spec_parse_bytes, spec_parse_u32, spec_parse_u64,
    spec_parse_u8, spec_parse_varint, DecodeError};
use crate::transaction::{spec_enc_input, spec_enc_inputs, spec_enc_output, spec_enc_outputs,
    spec_enc_tx, spec_enc_wit_elem, spec_enc_wit_elems, spec_enc_witness, spec_enc_witnesses,
    spec_has_witness, spec_wf_input, spec_wf_output, spec_wf_tx, Transaction, TransactionV,
    TxInput, TxInputV, TxOutput, TxOutputV, MAX_LEN};
use vstd::prelude::*;

verus! {

// ---------------------------------------------------------------------------
// Specification-level parsers
// ---------------------------------------------------------------------------

/// The input as parsed from the non-witness part of the stream: its witness
/// stack is empty until the witness section attaches one.
pub open spec fn spec_strip_input(i: TxInputV) -> TxInputV {
    TxInputV { witness: Seq::empty(), ..i }
}

pub open spec fn spec_strip_inputs(s: Seq<TxInputV>) -> Seq<TxInputV> {
    Seq::new(s.len(), |k: int| spec_strip_input(s[k]))
}

pub open spec fn spec_wits_of(s: Seq<TxInputV>) -> Seq<Seq<Seq<u8>>> {
    Seq::new(s.len(), |k: int| s[k].witness)
}

pub open spec fn spec_attach_witnesses(ins: Seq<TxInputV>, ws: Seq<Seq<Seq<u8>>>) -> Seq<
    TxInputV,
> {
    Seq::new(ins.len(), |k: int| TxInputV { witness: ws[k], ..ins[k] })
}

pub open spec fn spec_parse_input(s: Seq<u8>) -> Option<(TxInputV, Seq<u8>)> {
    match spec_parse_bytes(s, 32) {
        None => None,
        Some((txid, s1)) => match spec_parse_u32(s1) {
            None => None,
            Some((vout, s2)) => match spec_parse_varint(s2) {
                None => None,
                Some((slen, s3)) => if slen > MAX_LEN as u64 {
                    None
                } else {
                    match spec_parse_bytes(s3, slen as int) {
                        None => None,
                        Some((script, s4)) => match spec_parse_u32(s4) {
                            None => None,
                            Some((seqn, s5)) => Some(
                                (
                                    TxInputV {
                                        prev_txid: txid,
                                        prev_vout: vout,
                                        script_sig: script,
                                        sequence: seqn,
                                        witness: Seq::empty(),
                                    },
                                    s5,
                                ),
                            ),
                        },
                    }
                },
            },
        },
    }
}

pub open spec fn spec_parse_inputs(s: Seq<u8>, n: nat) -> Option<(Seq<TxInputV>, Seq<u8>)>
    decreases n,
{
    if n == 0 {
        Some((Seq::empty(), s))
    } else {
        match spec_parse_input(s) {
            None => None,
            Some((i, r)) => match spec_parse_inputs(r, (n - 1) as nat) {
                None => None,
                Some((tail, r2)) => Some((seq![i] + tail, r2)),
            },
        }
    }
}

pub open spec fn spec_parse_output(s: Seq<u8>) -> Option<(TxOutputV, Seq<u8>)> {
    match spec_parse_u64(s) {
        None => None,
        Some((value, s1)) => match spec_parse_varint(s1) {
            None => None,
            Some((slen, s2)) => if slen > MAX_LEN as u64 {
                None
            } else {
                match spec_parse_bytes(s2, slen as int) {
                    None => None,
                    Some((script, s3)) => Some(
                        (TxOutputV { value: value, script_pubkey: script }, s3),
                    ),
                }
            },
        },
    }
}

pub open spec fn spec_parse_outputs(s: Seq<u8>, n: nat) -> Option<(Seq<TxOutputV>, Seq<u8>)>
    decreases n,
{
    if n == 0 {
        Some((Seq::empty(), s))
    } else {
        match spec_parse_output(s) {
            None => None,
            Some((o, r)) => match spec_parse_outputs(r, (n - 1) as nat) {
                None => None,
                Some((tail, r2)) => Some((seq![o] + tail, r2)),
            },
        }
    }
}

pub open spec fn spec_parse_wit_elems(s: Seq<u8>, n: nat) -> Option<(Seq<Seq<u8>>, Seq<u8>)>
    decreases n,
{
    if n == 0 {
        Some((Seq::empty(), s))
    } else {
        match spec_parse_varint(s) {
            None => None,
            Some((elen, s1)) => if elen > MAX_LEN as u64 {
                None
            } else {
                match spec_parse_bytes(s1, elen as int) {
                    None => None,
                    Some((e, s2)) => match spec_parse_wit_elems(s2, (n - 1) as nat) {
                        None => None,
                        Some((tail, r2)) => Some((seq![e] + tail, r2)),
                    },
                }
            },
        }
    }
}

pub open spec fn spec_parse_witness(s: Seq<u8>) -> Option<(Seq<Seq<u8>>, Seq<u8>)> {
    match spec_parse_varint(s) {
        None => None,
        Some((cnt, s1)) => if cnt > MAX_LEN as u64 {
            None
        } else {
            spec_parse_wit_elems(s1, cnt as nat)
        },
    }
}

pub open spec fn spec_parse_witnesses(s: Seq<u8>, n: nat) -> Option<
    (Seq<Seq<Seq<u8>>>, Seq<u8>),
>
    decreases n,
{
    if n == 0 {
        Some((Seq::empty(), s))
    } else {
        match spec_parse_witness(s) {
            None => None,
            Some((w, r)) => match spec_parse_witnesses(r, (n - 1) as nat) {
                None => None,
                Some((tail, r2)) => Some((seq![w] + tail, r2)),
            },
        }
    }
}

pub open spec fn spec_all_wits_empty(ws: Seq<Seq<Seq<u8>>>) -> bool {
    forall|k: int| 0 <= k < ws.len() ==> #[trigger] ws[k].len() == 0
}

/// The transaction parser. An empty input count marks the extended format:
/// the flag byte must be 1, the real input list must be non-empty, and at
/// least one witness stack must be non-empty, so that every parsed
/// transaction re-serializes to the bytes it came from.
pub open spec fn spec_parse_tx(s: Seq<u8>) -> Option<(TransactionV, Seq<u8>)> {
    match spec_parse_u32(s) {
        None => None,
        Some((ver, s1)) => match spec_parse_varint(s1) {
            None => None,
            Some((n_in, s2)) => if n_in == 0 {
                match spec_parse_u8(s2) {
                    None => None,
                    Some((flag, s3)) => if flag != 1 {
                        None
                    } else {
                        match spec_parse_varint(s3) {
                            None => None,
                            Some((n2, s4)) => if n2 == 0 || n2 > MAX_LEN as u64 {
                                None
                            } else {
                                match spec_parse_inputs(s4, n2 as nat) {
                                    None => None,
                                    Some((ins, s5)) => match spec_parse_varint(s5) {
                                        None => None,
                                        Some((n_out, s6)) => if n_out > MAX_LEN as u64 {
                                            None
                                        } else {
                                            match spec_parse_outputs(s6, n_out as nat) {
                                                None => None,
                                                Some((outs, s7)) => match spec_parse_witnesses(
                                                    s7,
                                                    n2 as nat,
                                                ) {
                                                    None => None,
                                                    Some((ws, s8)) => if spec_all_wits_empty(ws) {
                                                        None
                                                    } else {
                                                        match spec_parse_u32(s8) {
                                                            None => None,
                                                            Some((lt, s9)) => Some(
                                                                (
                                                                    TransactionV {
                                                                        version: ver,
                                                                        lock_time: lt,
                                                                        input: spec_attach_witnesses(
                                                                            ins,
                                                                            ws,
                                                                        ),
                                                                        output: outs,
                                                                    },
                                                                    s9,
                                                                ),
                                                            ),
                                                        }
                                                    },
                                                },
                                            }
                                        },
                                    },
                                }
                            },
                        }
                    },
                }
            } else if n_in > MAX_LEN as u64 {
                None
            } else {
                match spec_parse_inputs(s2, n_in as nat) {
                    None => None,
                    Some((ins, s3)) => match spec_parse_varint(s3) {
                        None => None,
                        Some((n_out, s4)) => if n_out > MAX_LEN as u64 {
                            None
                        } else {
                            match spec_parse_outputs(s4, n_out as nat) {
                                None => None,
                                Some((outs, s5)) => match spec_parse_u32(s5) {
                                    None => None,
                                    Some((lt, s6)) => Some(
                                        (
                                            TransactionV {
                                                version: ver,
                                                lock_time: lt,
                                                input: ins,
                                                output: outs,
                                            },
                                            s6,
                                        ),
                                    ),
                                },
                            }
                        },
                    },
                }
            },
        },
    }
}

/// A byte string decodes to a transaction when the parser accepts it and
/// consumes every byte.
pub open spec fn spec_decode_tx(b: Seq<u8>) -> Option<TransactionV> {
    match spec_parse_tx(b) {
        None => None,
        Some((t, rest)) => if rest.len() == 0 {
            Some(t)
        } else {
            None
        },
    }
}

// ---------------------------------------------------------------------------
// Round-trip lemmas: the parser inverts the encoder
// ---------------------------------------------------------------------------

proof fn lemma_parse_input_enc(i: TxInputV, rest: Seq<u8>)
    requires
        spec_wf_input(i),
    ensures
        spec_parse_input(spec_enc_input(i) + rest) == Some((spec_strip_input(i), rest)),
{
    let t4 = spec_enc_u32(i.sequence) + rest;
    let t3 = i.script_sig + t4;
    let t2 = spec_enc_varint(i.script_sig.len() as u64) + t3;
    let t1 = spec_enc_u32(i.prev_vout) + t2;
    assert(spec_enc_input(i) + rest =~= i.prev_txid + t1);
    lemma_parse_bytes_enc(i.prev_txid, t1);
    lemma_parse_u32_enc(i.prev_vout, t2);
    lemma_parse_varint_enc(i.script_sig.len() as u64, t3);
    lemma_parse_bytes_enc(i.script_sig, t4);
    lemma_parse_u32_enc(i.sequence, rest);
    assert(spec_parse_input(i.prev_txid + t1) == Some((spec_strip_input(i), rest)));
}

proof fn lemma_parse_inputs_enc(s: Seq<TxInputV>, rest: Seq<u8>)
    requires
        forall|k: int| 0 <= k < s.len() ==> spec_wf_input(#[trigger] s[k]),
    ensures
        spec_parse_inputs(spec_enc_inputs(s) + rest, s.len()) == Some(
            (spec_strip_inputs(s), rest),
        ),
    decreases s.len(),
{
    if s.len() == 0 {
        assert(spec_enc_inputs(s) + rest =~= rest);
        assert(spec_strip_inputs(s) =~= Seq::<TxInputV>::empty());
    } else {
        let tail = spec_enc_inputs(s.skip(1)) + rest;
        assert(spec_enc_inputs(s) == spec_enc_input(s[0]) + spec_enc_inputs(s.skip(1)));
        assert(spec_enc_inputs(s) + rest =~= spec_enc_input(s[0]) + tail);
        lemma_parse_input_enc(s[0], tail);
        assert(forall|j: int| 0 <= j < s.skip(1).len() ==> #[trigger] s.skip(1)[j] == s[j + 1]);
        lemma_parse_inputs_enc(s.skip(1), rest);
        assert(seq![spec_strip_input(s[0])] + spec_strip_inputs(s.skip(1)) =~= spec_strip_inputs(
            s,
        ));
    }
}

proof fn lemma_parse_output_enc(o: TxOutputV, rest: Seq<u8>)
    requires
        spec_wf_output(o),
    ensures
        spec_parse_output(spec_enc_output(o) + rest) == Some((o, rest)),
{
    let t2 = o.script_pubkey + rest;
    let t1 = spec_enc_varint(o.script_pubkey.len() as u64) + t2;
    assert(spec_enc_output(o) + rest =~= spec_enc_u64(o.value) + t1);
    lemma_parse_u64_enc(o.value, t1);
    lemma_parse_varint_enc(o.script_pubkey.len() as u64, t2);
    lemma_parse_bytes_enc(o.script_pubkey, rest);
    assert(TxOutputV { value: o.value, script_pubkey: o.script_pubkey } == o);
}

proof fn lemma_parse_outputs_enc(s: Seq<TxOutputV>, rest: Seq<u8>)
    requires
        forall|k: int| 0 <= k < s.len() ==> spec_wf_output(#[trigger] s[k]),
    ensures
        spec_parse_outputs(spec_enc_outputs(s) + rest, s.len()) == Some((s, rest)),
    decreases s.len(),
{
    if s.len() == 0 {
        assert(spec_enc_outputs(s) + rest =~= rest);
    } else {
        let tail = spec_enc_outputs(s.skip(1)) + rest;
        assert(spec_enc_outputs(s) == spec_enc_output(s[0]) + spec_enc_outputs(s.skip(1)));
        assert(spec_enc_outputs(s) + rest =~= spec_enc_output(s[0]) + tail);
        lemma_parse_output_enc(s[0], tail);
        assert(forall|j: int| 0 <= j < s.skip(1).len() ==> #[trigger] s.skip(1)[j] == s[j + 1]);
        lemma_parse_outputs_enc(s.skip(1), rest);
        assert(seq![s[0]] + s.skip(1) =~= s);
    }
}

proof fn lemma_parse_wit_elems_enc(w: Seq<Seq<u8>>, rest: Seq<u8>)
    requires
        forall|k: int| 0 <= k < w.len() ==> #[trigger] w[k].len() <= MAX_LEN,
    ensures
        spec_parse_wit_elems(spec_enc_wit_elems(w) + rest, w.len()) == Some((w, rest)),
    decreases w.len(),
{
    if w.len() == 0 {
        assert(spec_enc_wit_elems(w) + rest =~= rest);
    } else {
        let t2 = spec_enc_wit_elems(w.skip(1)) + rest;
        let t1 = w[0] + t2;
        assert(spec_enc_wit_elems(w) == spec_enc_wit_elem(w[0]) + spec_enc_wit_elems(w.skip(1)));
        assert(spec_enc_wit_elems(w) + rest =~= spec_enc_varint(w[0].len() as u64) + t1);
        lemma_parse_varint_enc(w[0].len() as u64, t1);
        lemma_parse_bytes_enc(w[0], t2);
        assert(forall|j: int| 0 <= j < w.skip(1).len() ==> #[trigger] w.skip(1)[j] == w[j + 1]);
        lemma_parse_wit_elems_enc(w.skip(1), rest);
        assert(seq![w[0]] + w.skip(1) =~= w);
    }
}

proof fn lemma_parse_witness_enc(w: Seq<Seq<u8>>, rest: Seq<u8>)
    requires
        w.len() <= MAX_LEN,
        forall|k: int| 0 <= k < w.len() ==> #[trigger] w[k].len() <= MAX_LEN,
    ensures
        spec_parse_witness(spec_enc_witness(w) + rest) == Some((w, rest)),
{
    let t1 = spec_enc_wit_elems(w) + rest;
    assert(spec_enc_witness(w) + rest =~= spec_enc_varint(w.len() as u64) + t1);
    lemma_parse_varint_enc(w.len() as u64, t1);
    lemma_parse_wit_elems_enc(w, rest);
}

proof fn lemma_parse_witnesses_enc(s: Seq<TxInputV>, rest: Seq<u8>)
    requires
        forall|k: int| 0 <= k < s.len() ==> spec_wf_input(#[trigger] s[k]),
    ensures
        spec_parse_witnesses(spec_enc_witnesses(s) + rest, s.len()) == Some(
            (spec_wits_of(s), rest),
        ),
    decreases s.len(),
{
    if s.len() == 0 {
        assert(spec_enc_witnesses(s) + rest =~= rest);
        assert(spec_wits_of(s) =~= Seq::<Seq<Seq<u8>>>::empty());
    } else {
        let tail = spec_enc_witnesses(s.skip(1)) + rest;
        assert(spec_enc_witnesses(s) == spec_enc_witness(s[0].witness) + spec_enc_witnesses(
            s.skip(1),
        ));
        assert(spec_enc_witnesses(s) + rest =~= spec_enc_witness(s[0].witness) + tail);
        lemma_parse_witness_enc(s[0].witness, tail);
        assert(forall|j: int| 0 <= j < s.skip(1).len() ==> #[trigger] s.skip(1)[j] == s[j + 1]);
        lemma_parse_witnesses_enc(s.skip(1), rest);
        assert(seq![s[0].witness] + spec_wits_of(s.skip(1)) =~= spec_wits_of(s));
    }
}

proof fn lemma_attach_strip(s: Seq<TxInputV>)
    ensures
        spec_attach_witnesses(spec_strip_inputs(s), spec_wits_of(s)) == s,
{
    let r = spec_attach_witnesses(spec_strip_inputs(s), spec_wits_of(s));
    assert forall|k: int| 0 <= k < s.len() implies r[k] == s[k] by {
        assert(spec_strip_inputs(s)[k] == spec_strip_input(s[k]));
        assert(spec_wits_of(s)[k] == s[k].witness);
    }
    assert(r =~= s);
}

/// Parsing the wire serialization of a well-formed transaction yields the
/// transaction back and leaves exactly the trailing bytes.
#[verifier::rlimit(100)]
#[verifier::spinoff_prover]
pub proof fn lemma_parse_tx_enc(t: TransactionV, rest: Seq<u8>)
    requires
        spec_wf_tx(t),
    ensures
        spec_parse_tx(spec_enc_tx(t) + rest) == Some((t, rest)),
{
    let tg = spec_enc_u32(t.lock_time) + rest;
    if spec_has_witness(t) {
        let tf = spec_enc_witnesses(t.input) + tg;
        let te = spec_enc_outputs(t.output) + tf;
        let td = spec_enc_varint(t.output.len() as u64) + te;
        let tc = spec_enc_inputs(t.input) + td;
        let tb = spec_enc_varint(t.input.len() as u64) + tc;
        let tm = seq![1u8] + tb;
        let tz = seq![0u8] + tm;
        assert(spec_enc_tx(t) + rest =~= spec_enc_u32(t.version) + tz);
        lemma_parse_u32_enc(t.version, tz);
        assert(spec_enc_varint(0) =~= seq![0u8]);
        assert(tz =~= spec_enc_varint(0) + tm);
        lemma_parse_varint_enc(0, tm);
        lemma_parse_u8_enc(1u8, tb);
        lemma_parse_varint_enc(t.input.len() as u64, tc);
        lemma_parse_inputs_enc(t.input, td);
        lemma_parse_varint_enc(t.output.len() as u64, te);
        lemma_parse_outputs_enc(t.output, tf);
        lemma_parse_witnesses_enc(t.input, tg);
        assert(!spec_all_wits_empty(spec_wits_of(t.input))) by {
            let k = choose|k: int|
                0 <= k < t.input.len() && #[trigger] t.input[k].witness.len() > 0;
            assert(spec_wits_of(t.input)[k].len() > 0);
        }
        lemma_parse_u32_enc(t.lock_time, rest);
        lemma_attach_strip(t.input);
        assert((t.input.len() as u64) as nat == t.input.len());
        assert((t.output.len() as u64) as nat == t.output.len());
        let parsed = TransactionV {
            version: t.version,
            lock_time: t.lock_time,
            input: spec_attach_witnesses(spec_strip_inputs(t.input), spec_wits_of(t.input)),
            output: t.output,
        };
        assert(parsed == t);
    } else {
        let te = spec_enc_outputs(t.output) + tg;
        let td = spec_enc_varint(t.output.len() as u64) + te;
        let tc = spec_enc_inputs(t.input) + td;
        assert(spec_enc_tx(t) + rest =~= spec_enc_u32(t.version) + (spec_enc_varint(
            t.input.len() as u64,
        ) + tc));
        lemma_parse_u32_enc(t.version, spec_enc_varint(t.input.len() as u64) + tc);
        lemma_parse_varint_enc(t.input.len() as u64, tc);
        lemma_parse_inputs_enc(t.input, td);
        lemma_parse_varint_enc(t.output.len() as u64, te);
        lemma_parse_outputs_enc(t.output, tg);
        lemma_parse_u32_enc(t.lock_time, rest);
        assert((t.input.len() as u64) as nat == t.input.len());
        assert((t.output.len() as u64) as nat == t.output.len());
        assert(t.input.len() as u64 != 0);
        assert(spec_strip_inputs(t.input) =~= t.input) by {
            assert forall|k: int| 0 <= k < t.input.len() implies spec_strip_inputs(t.input)[k]
                == t.input[k] by {
                assert(!(t.input[k].witness.len() > 0));
                assert(t.input[k].witness =~= Seq::<Seq<u8>>::empty());
                assert(spec_strip_input(t.input[k]) == t.input[k]);
            }
        }
        let parsed = TransactionV {
            version: t.version,
            lock_time: t.lock_time,
            input: spec_strip_inputs(t.input),
            output: t.output,
        };
        assert(parsed == t);
    }
}

/// Decoding the serialization of a well-formed transaction gives it back:
/// the encode/decode round trip at the heart of the generator's guarantees.
pub proof fn lemma_tx_round_trip(t: TransactionV)
    requires
        spec_wf_tx(t),
    ensures
        spec_decode_tx(spec_enc_tx(t)) == Some(t),
{
    lemma_parse_tx_enc(t, Seq::empty());
    assert(spec_enc_tx(t) + Seq::<u8>::empty() =~= spec_enc_tx(t));
}

// ---------------------------------------------------------------------------
// Executable decoder
// ---------------------------------------------------------------------------

fn read_input(b: &[u8], pos: usize) -> (r: Option<(TxInput, usize)>)
    requires
        pos <= b@.len(),
    ensures
        match r {
            Some((x, p2)) => pos <= p2 <= b@.len() && spec_parse_input(b@.skip(pos as int))
                == Some((x@, b@.skip(p2 as int))) && spec_wf_input(x@),
            None => spec_parse_input(b@.skip(pos as int)) is None,
        },
{
    let (txid, p1) = match read_bytes(b, pos, 32) {
        None => { return None; },
        Some(v) => v,
    };
    let (vout, p2) = match read_u32(b, p1) {
        None => { return None; },
        Some(v) => v,
    };
    let (slen, p3) = match read_varint(b, p2) {
        None => { return None; },
        Some(v) => v,
    };
    if slen > MAX_LEN as u64 {
        return None;
    }
    let (script, p4) = match read_bytes(b, p3, slen as usize) {
        None => { return None; },
        Some(v) => v,
    };
    let (seqn, p5) = match read_u32(b, p4) {
        None => { return None; },
        Some(v) => v,
    };
    let x = TxInput {
        prev_txid: txid,
        prev_vout: vout,
        script_sig: script,
        sequence: seqn,
        witness: Vec::new(),
    };
    proof {
        assert(x@.witness =~= Seq::<Seq<u8>>::empty());
        assert(spec_parse_input(b@.skip(pos as int)) == Some((x@, b@.skip(p5 as int))));
    }
    Some((x, p5))
}

fn read_inputs(b: &[u8], pos: usize, n: u64) -> (r: Option<(Vec<TxInput>, usize)>)
    requires
        pos <= b@.len(),
        n <= MAX_LEN as u64,
    ensures
        match r {
            Some((v, p2)) => pos <= p2 <= b@.len() && spec_parse_inputs(
                b@.skip(pos as int),
                n as nat,
            ) == Some((v.deep_view(), b@.skip(p2 as int))) && v@.len() == n && forall|j: int|
                0 <= j < v@.len() ==> spec_wf_input(#[trigger] v.deep_view()[j]),
            None => spec_parse_inputs(b@.skip(pos as int), n as nat) is None,
        },
{
    let mut acc: Vec<TxInput> = Vec::new();
    let mut cur: usize = pos;
    let mut k: u64 = 0;
    while k < n
        invariant
            pos <= cur <= b@.len(),
            k <= n,
            n <= MAX_LEN as u64,
            acc@.len() == k,
            forall|j: int| 0 <= j < acc@.len() ==> spec_wf_input(#[trigger] acc.deep_view()[j]),
            ({
                let full = spec_parse_inputs(b@.skip(pos as int), n as nat);
                let part = spec_parse_inputs(b@.skip(cur as int), (n - k) as nat);
                match part {
                    Some(pr) => full == Some((acc.deep_view() + pr.0, pr.1)),
                    None => full is None,
                }
            }),
        decreases n - k,
    {
        let ghost acc0 = acc.deep_view();
        let ghost part0 = spec_parse_inputs(b@.skip(cur as int), (n - k) as nat);
        match read_input(b, cur) {
            None => {
                proof {
                    assert(part0 is None);
                }
                return None;
            },
            Some((x, p2)) => {
                proof {
                    let part1 = spec_parse_inputs(b@.skip(p2 as int), (n - k - 1) as nat);
                    match part1 {
                        Some(pr1) => {
                            assert(part0 == Some((seq![x@] + pr1.0, pr1.1)));
                            assert(acc0.push(x@) + pr1.0 =~= acc0 + (seq![x@] + pr1.0));
                        },
                        None => {
                            assert(part0 is None);
                        },
                    }
                }
                acc.push(x);
                proof {
                    assert(acc.deep_view() =~= acc0.push(x@));
                }
                cur = p2;
                k = k + 1;
            },
        }
    }
    proof {
        assert(spec_parse_inputs(b@.skip(cur as int), 0) == Some(
            (Seq::<TxInputV>::empty(), b@.skip(cur as int)),
        ));
        assert(acc.deep_view() + Seq::<TxInputV>::empty() =~= acc.deep_view());
    }
    Some((acc, cur))
}

fn read_output(b: &[u8], pos: usize) -> (r: Option<(TxOutput, usize)>)
    requires
        pos <= b@.len(),
    ensures
        match r {
            Some((x, p2)) => pos <= p2 <= b@.len() && spec_parse_output(b@.skip(pos as int))
                == Some((x@, b@.skip(p2 as int))) && spec_wf_output(x@),
            None => spec_parse_output(b@.skip(pos as int)) is None,
        },
{
    let (value, p1) = match crate::encoding::read_u64(b, pos) {
        None => { return None; },
        Some(v) => v,
    };
    let (slen, p2) = match read_varint(b, p1) {
        None => { return None; },
        Some(v) => v,
    };
    if slen > MAX_LEN as u64 {
        return None;
    }
    let (script, p3) = match read_bytes(b, p2, slen as usize) {
        None => { return None; },
        Some(v) => v,
    };
    let x = TxOutput { value: value, script_pubkey: script };
    proof {
        assert(spec_parse_output(b@.skip(pos as int)) == Some((x@, b@.skip(p3 as int))));
    }
    Some((x, p3))
}

fn read_outputs(b: &[u8], pos: usize, n: u64) -> (r: Option<(Vec<TxOutput>, usize)>)
    requires
        pos <= b@.len(),
        n <= MAX_LEN as u64,
    ensures
        match r {
            Some((v, p2)) => pos <= p2 <= b@.len() && spec_parse_outputs(
                b@.skip(pos as int),
                n as nat,
            ) == Some((v.deep_view(), b@.skip(p2 as int))) && v@.len() == n && forall|j: int|
                0 <= j < v@.len() ==> spec_wf_output(#[trigger] v.deep_view()[j]),
            None => spec_parse_outputs(b@.skip(pos as int), n as nat) is None,
        },
{
    let mut acc: Vec<TxOutput> = Vec::new();
    let mut cur: usize = pos;
    let mut k: u64 = 0;
    while k < n
        invariant
            pos <= cur <= b@.len(),
            k <= n,
            n <= MAX_LEN as u64,
            acc@.len() == k,
            forall|j: int| 0 <= j < acc@.len() ==> spec_wf_output(#[trigger] acc.deep_view()[j]),
            ({
                let full = spec_parse_outputs(b@.skip(pos as int), n as nat);
                let part = spec_parse_outputs(b@.skip(cur as int), (n - k) as nat);
                match part {
                    Some(pr) => full == Some((acc.deep_view() + pr.0, pr.1)),
                    None => full is None,
                }
            }),
        decreases n - k,
    {
        let ghost acc0 = acc.deep_view();
        let ghost part0 = spec_parse_outputs(b@.skip(cur as int), (n - k) as nat);
        match read_output(b, cur) {
            None => {
                proof {
                    assert(part0 is None);
                }
                return None;
            },
            Some((x, p2)) => {
                proof {
                    let part1 = spec_parse_outputs(b@.skip(p2 as int), (n - k - 1) as nat);
                    match part1 {
                        Some(pr1) => {
                            assert(part0 == Some((seq![x@] + pr1.0, pr1.1)));
                            assert(acc0.push(x@) + pr1.0 =~= acc0 + (seq![x@] + pr1.0));
                        },
                        None => {
                            assert(part0 is None);
                        },
                    }
                }
                acc.push(x);
                proof {
                    assert(acc.deep_view() =~= acc0.push(x@));
                }
                cur = p2;
                k = k + 1;
            },
        }
    }
    proof {
        assert(spec_parse_outputs(b@.skip(cur as int), 0) == Some(
            (Seq::<TxOutputV>::empty(), b@.skip(cur as int)),
        ));
        assert(acc.deep_view() + Seq::<TxOutputV>::empty() =~= acc.deep_view());
    }
    Some((acc, cur))
}

fn read_witness(b: &[u8], pos: usize) -> (r: Option<(Vec<Vec<u8>>, usize)>)
    requires
        pos <= b@.len(),
    ensures
        match r {
            Some((v, p2)) => pos <= p2 <= b@.len() && spec_parse_witness(b@.skip(pos as int))
                == Some((v.deep_view(), b@.skip(p2 as int))) && v.deep_view().len() <= MAX_LEN
                && forall|j: int|
                0 <= j < v@.len() ==> #[trigger] v.deep_view()[j].len() <= MAX_LEN,
            None => spec_parse_witness(b@.skip(pos as int)) is None,
        },
{
    let (cnt, p1) = match read_varint(b, pos) {
        None => { return None; },
        Some(v) => v,
    };
    if cnt > MAX_LEN as u64 {
        return None;
    }
    let mut acc: Vec<Vec<u8>> = Vec::new();
    let mut cur: usize = p1;
    let mut k: u64 = 0;
    while k < cnt
        invariant
            pos <= p1 <= cur <= b@.len(),
            k <= cnt,
            cnt <= MAX_LEN as u64,
            spec_parse_varint(b@.skip(pos as int)) == Some((cnt, b@.skip(p1 as int))),
            spec_parse_witness(b@.skip(pos as int)) == spec_parse_wit_elems(
                b@.skip(p1 as int),
                cnt as nat,
            ),
            acc@.len() == k,
            forall|j: int| 0 <= j < acc@.len() ==> #[trigger] acc.deep_view()[j].len() <= MAX_LEN,
            ({
                let full = spec_parse_wit_elems(b@.skip(p1 as int), cnt as nat);
                let part = spec_parse_wit_elems(b@.skip(cur as int), (cnt - k) as nat);
                match part {
                    Some(pr) => full == Some((acc.deep_view() + pr.0, pr.1)),
                    None => full is None,
                }
            }),
        decreases cnt - k,
    {
        let ghost acc0 = acc.deep_view();
        let ghost part0 = spec_parse_wit_elems(b@.skip(cur as int), (cnt - k) as nat);
        let (elen, q1) = match read_varint(b, cur) {
            None => {
                proof {
                    assert(part0 is None);
                }
                return None;
            },
            Some(v) => v,
        };
        if elen > MAX_LEN as u64 {
            proof {
                assert(part0 is None);
            }
            return None;
        }
        let (e, q2) = match read_bytes(b, q1, elen as usize) {
            None => {
                proof {
                    assert(part0 is None);
                }
                return None;
            },
            Some(v) => v,
        };
        proof {
            let part1 = spec_parse_wit_elems(b@.skip(q2 as int), (cnt - k - 1) as nat);
            match part1 {
                Some(pr1) => {
                    assert(part0 == Some((seq![e@] + pr1.0, pr1.1)));
                    assert(acc0.push(e@) + pr1.0 =~= acc0 + (seq![e@] + pr1.0));
                },
                None => {
                    assert(part0 is None);
                },
            }
        }
        acc.push(e);
        proof {
            assert(acc.deep_view() =~~= acc0.push(e@));
        }
        cur = q2;
        k = k + 1;
    }
    proof {
        assert(spec_parse_wit_elems(b@.skip(cur as int), 0) == Some(
            (Seq::<Seq<u8>>::empty(), b@.skip(cur as int)),
        ));
        assert(acc.deep_view() + Seq::<Seq<u8>>::empty() =~= acc.deep_view());
    }
    Some((acc, cur))
}

fn read_witnesses(b: &[u8], pos: usize, n: u64) -> (r: Option<(Vec<Vec<Vec<u8>>>, usize)>)
    requires
        pos <= b@.len(),
        n <= MAX_LEN as u64,
    ensures
        match r {
            Some((v, p2)) => pos <= p2 <= b@.len() && spec_parse_witnesses(
                b@.skip(pos as int),
                n as nat,
            ) == Some((v.deep_view(), b@.skip(p2 as int))) && v@.len() == n && forall|j: int|
                0 <= j < v@.len() ==> #[trigger] v.deep_view()[j].len() <= MAX_LEN && forall|
                    m: int,
                |
                    0 <= m < v.deep_view()[j].len() ==> #[trigger] v.deep_view()[j][m].len()
                        <= MAX_LEN,
            None => spec_parse_witnesses(b@.skip(pos as int), n as nat) is None,
        },
{
    let mut acc: Vec<Vec<Vec<u8>>> = Vec::new();
    let mut cur: usize = pos;
    let mut k: u64 = 0;
    while k < n
        invariant
            pos <= cur <= b@.len(),
            k <= n,
            n <= MAX_LEN as u64,
            acc@.len() == k,
            forall|j: int|
                0 <= j < acc@.len() ==> #[trigger] acc.deep_view()[j].len() <= MAX_LEN && forall|
                    m: int,
                |
                    0 <= m < acc.deep_view()[j].len() ==> #[trigger] acc.deep_view()[j][m].len()
                        <= MAX_LEN,
            ({
                let full = spec_parse_witnesses(b@.skip(pos as int), n as nat);
                let part = spec_parse_witnesses(b@.skip(cur as int), (n - k) as nat);
                match part {
                    Some(pr) => full == Some((acc.deep_view() + pr.0, pr.1)),
                    None => full is None,
                }
            }),
        decreases n - k,
    {
        let ghost acc0 = acc.deep_view();
        let ghost part0 = spec_parse_witnesses(b@.skip(cur as int), (n - k) as nat);
        match read_witness(b, cur) {
            None => {
                proof {
                    assert(part0 is None);
                }
                return None;
            },
            Some((w, p2)) => {
                proof {
                    let part1 = spec_parse_witnesses(b@.skip(p2 as int), (n - k - 1) as nat);
                    match part1 {
                        Some(pr1) => {
                            assert(part0 == Some((seq![w.deep_view()] + pr1.0, pr1.1)));
                            assert(acc0.push(w.deep_view()) + pr1.0 =~= acc0 + (seq![w.deep_view()]
                                + pr1.0));
                        },
                        None => {
                            assert(part0 is None);
                        },
                    }
                }
                let ghost wv = w.deep_view();
                acc.push(w);
                proof {
                    assert(acc.deep_view() =~= acc0.push(wv));
                }
                cur = p2;
                k = k + 1;
            },
        }
    }
    proof {
        assert(spec_parse_witnesses(b@.skip(cur as int), 0) == Some(
            (Seq::<Seq<Seq<u8>>>::empty(), b@.skip(cur as int)),
        ));
        assert(acc.deep_view() + Seq::<Seq<Seq<u8>>>::empty() =~= acc.deep_view());
    }
    Some((acc, cur))
}

/// Moves each parsed witness stack into the input it belongs to.
fn attach_witnesses(ins: Vec<TxInput>, ws: Vec<Vec<Vec<u8>>>) -> (r: Vec<TxInput>)
    requires
        ins@.len() == ws@.len(),
    ensures
        r.deep_view() == spec_attach_witnesses(ins.deep_view(), ws.deep_view()),
        r@.len() == ins@.len(),
{
    let ghost insv = ins.deep_view();
    let ghost wsv = ws.deep_view();
    let n: usize = ins.len();
    let mut ins_m = ins;
    let mut ws_m = ws;
    let mut out: Vec<TxInput> = Vec::new();
    let mut k: usize = 0;
    while k < n
        invariant
            k <= n,
            ins_m@.len() == n - k,
            ws_m@.len() == n - k,
            insv.len() == n,
            wsv.len() == n,
            ins_m.deep_view() =~= insv.skip(k as int),
            ws_m.deep_view() =~= wsv.skip(k as int),
            out@.len() == k,
            out.deep_view() =~= spec_attach_witnesses(insv, wsv).take(k as int),
        decreases n - k,
    {
        let ghost out0 = out.deep_view();
        let ghost ins_pre = ins_m.deep_view();
        let ghost ws_pre = ws_m.deep_view();
        let ghost ins_pre_raw = ins_m@;
        let ghost ws_pre_raw = ws_m@;
        let mut i = ins_m.remove(0);
        let w = ws_m.remove(0);
        proof {
            assert(i@ == ins_pre[0]);
            assert(ins_pre[0] == insv[k as int]);
            assert(w.deep_view() == ws_pre[0]);
            assert(ws_pre[0] == wsv[k as int]);
        }
        i.witness = w;
        proof {
            assert(i@ == TxInputV { witness: wsv[k as int], ..insv[k as int] });
        }
        out.push(i);
        proof {
            assert(out.deep_view() =~~= out0.push(i@));
            assert(out.deep_view() =~~= spec_attach_witnesses(insv, wsv).take(k as int + 1));
            assert(ins_m@ =~= ins_pre_raw.skip(1));
            assert(ws_m@ =~= ws_pre_raw.skip(1));
            assert forall|j: int| 0 <= j < ins_m@.len() implies ins_m.deep_view()[j] == insv.skip(
                k as int + 1,
            )[j] by {
                assert(ins_m@[j] == ins_pre_raw[j + 1]);
                assert(ins_m.deep_view()[j] == ins_m@[j].deep_view());
                assert(ins_pre[j + 1] == ins_pre_raw[j + 1].deep_view());
                assert(ins_pre[j + 1] == insv.skip(k as int)[j + 1]);
            }
            assert(ins_m.deep_view() =~= insv.skip(k as int + 1));
            assert forall|j: int| 0 <= j < ws_m@.len() implies ws_m.deep_view()[j] == wsv.skip(
                k as int + 1,
            )[j] by {
                assert(ws_m@[j] == ws_pre_raw[j + 1]);
                assert(ws_m.deep_view()[j] == ws_m@[j].deep_view());
                assert(ws_pre[j + 1] == ws_pre_raw[j + 1].deep_view());
                assert(ws_pre[j + 1] == wsv.skip(k as int)[j + 1]);
            }
            assert(ws_m.deep_view() =~= wsv.skip(k as int + 1));
        }
        k = k + 1;
    }
    proof {
        assert(spec_attach_witnesses(insv, wsv).take(n as int) =~= spec_attach_witnesses(
            insv,
            wsv,
        ));
    }
    out
}

/// Whether any of the parsed witness stacks holds at least one element.
fn any_witness_nonempty(ws: &Vec<Vec<Vec<u8>>>) -> (r: bool)
    ensures
        r == !spec_all_wits_empty(ws.deep_view()),
{
    let mut any_nonempty: bool = false;
    let mut j: usize = 0;
    while j < ws.len()
        invariant
            j <= ws@.len(),
            any_nonempty == !spec_all_wits_empty(ws.deep_view().take(j as int)),
        decreases ws@.len() - j,
    {
        let ghost pre = ws.deep_view().take(j as int);
        if ws[j].len() > 0 {
            proof {
                assert(ws.deep_view()[j as int].len() > 0);
            }
            any_nonempty = true;
        }
        proof {
            let post = ws.deep_view().take(j as int + 1);
            assert(post[j as int] == ws.deep_view()[j as int]);
            assert(forall|m: int| 0 <= m < j ==> post[m] == pre[m]);
            if any_nonempty {
                assert(!spec_all_wits_empty(post));
            } else {
                assert(spec_all_wits_empty(pre));
                assert(ws.deep_view()[j as int].len() == 0);
                assert(spec_all_wits_empty(post));
            }
        }
        j = j + 1;
    }
    proof {
        assert(ws.deep_view().take(ws@.len() as int) =~= ws.deep_view());
    }
    any_nonempty
}

/// Parses one transaction starting at position `pos`, mirroring
/// `spec_parse_tx` on the unread suffix.
#[verifier::rlimit(60)]
pub fn read_tx(b: &[u8], pos: usize) -> (r: Option<(Transaction, usize)>)
    requires
        pos <= b@.len(),
    ensures
        match r {
            Some((tx, p2)) => pos <= p2 <= b@.len() && spec_parse_tx(b@.skip(pos as int))
                == Some((tx@, b@.skip(p2 as int))) && spec_wf_tx(tx@),
            None => spec_parse_tx(b@.skip(pos as int)) is None,
        },
{
    let (ver, p1) = match read_u32(b, pos) {
        None => { return None; },
        Some(v) => v,
    };
    let (n_in, p2) = match read_varint(b, p1) {
        None => { return None; },
        Some(v) => v,
    };
    if n_in == 0 {
        // Extended (segwit) serialization.
        let (flag, p3) = match read_u8(b, p2) {
            None => { return None; },
            Some(v) => v,
        };
        if flag != 1 {
            return None;
        }
        let (n2, p4) = match read_varint(b, p3) {
            None => { return None; },
            Some(v) => v,
        };
        if n2 == 0 || n2 > MAX_LEN as u64 {
            return None;
        }
        let (ins, p5) = match read_inputs(b, p4, n2) {
            None => { return None; },
            Some(v) => v,
        };
        let (n_out, p6) = match read_varint(b, p5) {
            None => { return None; },
            Some(v) => v,
        };
        if n_out > MAX_LEN as u64 {
            return None;
        }
        let (outs, p7) = match read_outputs(b, p6, n_out) {
            None => { return None; },
            Some(v) => v,
        };
        let (ws, p8) = match read_witnesses(b, p7, n2) {
            None => { return None; },
            Some(v) => v,
        };
        if !any_witness_nonempty(&ws) {
            return None;
        }
        let (lt, p9) = match read_u32(b, p8) {
            None => { return None; },
            Some(v) => v,
        };
        let ghost insv = ins.deep_view();
        let ghost wsv = ws.deep_view();
        let input = attach_witnesses(ins, ws);
        let tx = Transaction { version: ver, lock_time: lt, input: input, output: outs };
        proof {
            assert(tx@.input == spec_attach_witnesses(insv, wsv));
            assert(spec_parse_tx(b@.skip(pos as int)) == Some((tx@, b@.skip(p9 as int))));
            assert forall|k: int| 0 <= k < tx@.input.len() implies spec_wf_input(
                #[trigger] tx@.input[k],
            ) by {
                assert(spec_wf_input(insv[k]));
                assert(tx@.input[k] == TxInputV { witness: wsv[k], ..insv[k] });
                assert(wsv[k].len() <= MAX_LEN);
            }
            assert(spec_wf_tx(tx@));
        }
        Some((tx, p9))
    } else {
        // Legacy serialization.
        if n_in > MAX_LEN as u64 {
            return None;
        }
        let (ins, p3) = match read_inputs(b, p2, n_in) {
            None => { return None; },
            Some(v) => v,
        };
        let (n_out, p4) = match read_varint(b, p3) {
            None => { return None; },
            Some(v) => v,
        };
        if n_out > MAX_LEN as u64 {
            return None;
        }
        let (outs, p5) = match read_outputs(b, p4, n_out) {
            None => { return None; },
            Some(v) => v,
        };
        let (lt, p6) = match read_u32(b, p5) {
            None => { return None; },
            Some(v) => v,
        };
        let tx = Transaction { version: ver, lock_time: lt, input: ins, output: outs };
        proof {
            assert(spec_parse_tx(b@.skip(pos as int)) == Some((tx@, b@.skip(p6 as int))));
            assert(spec_wf_tx(tx@));
        }
        Some((tx, p6))
    }
}

/// Parses one transaction and requires the whole input to be consumed,
/// exactly as `spec_decode_tx` states.
pub fn decode_tx(b: &[u8]) -> (r: Result<Transaction, DecodeError>)
    ensures
        match r {
            Ok(tx) => spec_decode_tx(b@) == Some(tx@) && spec_wf_tx(tx@),
            Err(e) => spec_decode_tx(b@) is None && e == DecodeError::Malformed,
        },
{
    proof {
        assert(b@.skip(0) =~= b@);
    }
    match read_tx(b, 0) {
        None => Err(DecodeError::Malformed),
        Some((tx, p)) => {
            if p != b.len() {
                proof {
                    assert(b@.skip(p as int).len() > 0);
                }
                Err(DecodeError::Malformed)
            } else {
                proof {
                    assert(b@.skip(p as int).len() == 0);
                }
                Ok(tx)
            }
        },
    }
}

} // verus!
