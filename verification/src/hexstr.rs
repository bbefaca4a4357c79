//! Hexadecimal text: case-insensitive decoding with whitespace cleaning, and
//! lowercase encoding.

use vstd::prelude::*;

verus! {

broadcast use vstd::string::next_postcondition, vstd::string::axiom_spec_iter;

use crate::encoding::DecodeError;
use vstd::std_specs::iter::IteratorSpec;

// ---------------------------------------------------------------------------
// Specification
// ---------------------------------------------------------------------------

pub open spec fn spec_is_space(c: char) -> bool {
    c == ' '
}

pub open spec fn spec_is_ws(c: char) -> bool {
    c == ' ' || c == '\t' || c == '\n' || c == '\r'
}

/// Leading and trailing whitespace removed.
pub open spec fn spec_trim(s: Seq<char>) -> Seq<char>
    decreases s.len(),
{
    if s.len() > 0 && spec_is_ws(s[0]) {
        spec_trim(s.skip(1))
    } else if s.len() > 0 && spec_is_ws(s[s.len() - 1]) {
        spec_trim(s.take(s.len() - 1))
    } else {
        s
    }
}

/// Interior spaces removed.
pub open spec fn spec_strip_spaces(s: Seq<char>) -> Seq<char>
    decreases s.len(),
{
    if s.len() == 0 {
        Seq::empty()
    } else if spec_is_space(s[0]) {
        spec_strip_spaces(s.skip(1))
    } else {
        seq![s[0]] + spec_strip_spaces(s.skip(1))
    }
}

proof fn lemma_strip_spaces_snoc(s: Seq<char>, c: char)
    ensures
        spec_strip_spaces(s.push(c)) == spec_strip_spaces(s) + (if spec_is_space(c) {
            Seq::<char>::empty()
        } else {
            seq![c]
        }),
    decreases s.len(),
{
    let sp = s.push(c);
    let tail = if spec_is_space(c) {
        Seq::<char>::empty()
    } else {
        seq![c]
    };
    if s.len() == 0 {
        assert(sp[0] == c);
        assert(sp.skip(1) =~= Seq::<char>::empty());
        assert(spec_strip_spaces(Seq::<char>::empty()) == Seq::<char>::empty());
        assert(spec_strip_spaces(sp) =~= spec_strip_spaces(s) + tail);
    } else {
        assert(sp[0] == s[0]);
        assert(sp.skip(1) =~= s.skip(1).push(c));
        lemma_strip_spaces_snoc(s.skip(1), c);
        assert(spec_strip_spaces(sp) =~= spec_strip_spaces(s) + tail);
    }
}

/// The cleaning the hex decoder applies to free-form input: trim the ends,
/// then drop interior spaces.
pub open spec fn spec_clean_hex(s: Seq<char>) -> Seq<char> {
    spec_strip_spaces(spec_trim(s))
}

pub open spec fn spec_is_hex_digit(c: char) -> bool {
    (48 <= c as u32 <= 57) || (65 <= c as u32 <= 70) || (97 <= c as u32 <= 102)
}

/// Value of one hex digit, either case.
pub open spec fn spec_hex_val(c: char) -> u8 {
    if 48 <= c as u32 <= 57 {
        (c as u32 - 48) as u8
    } else if 65 <= c as u32 <= 70 {
        (c as u32 - 55) as u8
    } else if 97 <= c as u32 <= 102 {
        (c as u32 - 87) as u8
    } else {
        0
    }
}

/// The lowercase digit for a value below 16.
pub open spec fn spec_hex_char(n: u8) -> char {
    if n == 0 {
        '0'
    } else if n == 1 {
        '1'
    } else if n == 2 {
        '2'
    } else if n == 3 {
        '3'
    } else if n == 4 {
        '4'
    } else if n == 5 {
        '5'
    } else if n == 6 {
        '6'
    } else if n == 7 {
        '7'
    } else if n == 8 {
        '8'
    } else if n == 9 {
        '9'
    } else if n == 10 {
        'a'
    } else if n == 11 {
        'b'
    } else if n == 12 {
        'c'
    } else if n == 13 {
        'd'
    } else if n == 14 {
        'e'
    } else {
        'f'
    }
}

pub open spec fn spec_all_hex(cs: Seq<char>) -> bool {
    forall|k: int| 0 <= k < cs.len() ==> spec_is_hex_digit(#[trigger] cs[k])
}

/// Bytes of an even-length digit string.
pub open spec fn spec_hex_pairs(cs: Seq<char>) -> Seq<u8> {
    Seq::new((cs.len() / 2) as nat, |i: int| (16 * spec_hex_val(cs[2 * i]) + spec_hex_val(
        cs[2 * i + 1],
    )) as u8)
}

/// Hex decoding proper: even length, digits only.
pub open spec fn spec_hex_decode(cs: Seq<char>) -> Option<Seq<u8>> {
    if cs.len() % 2 == 0 && spec_all_hex(cs) {
        Some(spec_hex_pairs(cs))
    } else {
        None
    }
}

/// Lowercase hex encoding of a byte string.
pub open spec fn spec_hex_of(b: Seq<u8>) -> Seq<char>
    decreases b.len(),
{
    if b.len() == 0 {
        Seq::empty()
    } else {
        seq![
            spec_hex_char((b[0] / 16) as u8),
            spec_hex_char((b[0] % 16) as u8),
        ] + spec_hex_of(b.skip(1))
    }
}

// ---------------------------------------------------------------------------
// Round trip
// ---------------------------------------------------------------------------

proof fn lemma_hex_val_char(x: u8)
    requires
        x < 16,
    ensures
        spec_is_hex_digit(spec_hex_char(x)),
        spec_hex_val(spec_hex_char(x)) == x,
{
}

proof fn lemma_hex_of_len(b: Seq<u8>)
    ensures
        spec_hex_of(b).len() == 2 * b.len(),
    decreases b.len(),
{
    if b.len() > 0 {
        lemma_hex_of_len(b.skip(1));
    }
}

proof fn lemma_hex_of_index(b: Seq<u8>, i: int)
    requires
        0 <= i < b.len(),
    ensures
        spec_hex_of(b)[2 * i] == spec_hex_char((b[i] / 16) as u8),
        spec_hex_of(b)[2 * i + 1] == spec_hex_char((b[i] % 16) as u8),
    decreases i,
{
    lemma_hex_of_len(b.skip(1));
    if i == 0 {
    } else {
        lemma_hex_of_index(b.skip(1), i - 1);
        assert(b.skip(1)[i - 1] == b[i]);
    }
}

/// Decoding a lowercase hex encoding yields the original bytes.
pub proof fn lemma_hex_round_trip(b: Seq<u8>)
    ensures
        spec_hex_decode(spec_hex_of(b)) == Some(b),
{
    let cs = spec_hex_of(b);
    lemma_hex_of_len(b);
    assert forall|k: int| 0 <= k < cs.len() implies spec_is_hex_digit(#[trigger] cs[k]) by {
        let i = k / 2;
        if k % 2 == 0 {
            assert(k == 2 * i);
            lemma_hex_of_index(b, i);
            lemma_hex_val_char((b[i] / 16) as u8);
        } else {
            assert(k == 2 * i + 1);
            lemma_hex_of_index(b, i);
            lemma_hex_val_char((b[i] % 16) as u8);
        }
    }
    assert forall|i: int| 0 <= i < b.len() implies spec_hex_pairs(cs)[i] == b[i] by {
        lemma_hex_of_index(b, i);
        lemma_hex_val_char((b[i] / 16) as u8);
        lemma_hex_val_char((b[i] % 16) as u8);
        assert(16 * ((b[i] / 16) as u8) + ((b[i] % 16) as u8) == b[i]);
    }
    assert(spec_hex_pairs(cs) =~= b);
}

// ---------------------------------------------------------------------------
// Executable code
// ---------------------------------------------------------------------------

/// The characters of a string, in order.
pub fn str_to_chars(s: &str) -> (v: Vec<char>)
    ensures
        v@ == s@,
{
    let mut it = s.chars();
    let mut v: Vec<char> = Vec::new();
    let mut done: bool = false;
    while !done
        invariant
            it.obeys_prophetic_iter_laws(),
            v@ + vstd::std_specs::iter::IteratorSpec::remaining(&it) == s@,
            done ==> vstd::std_specs::iter::IteratorSpec::remaining(&it).len() == 0,
        decreases s@.len() - v@.len() + (if done {
            0int
        } else {
            1int
        }),
    {
        let ghost pre = vstd::std_specs::iter::IteratorSpec::remaining(&it);
        match it.next() {
            None => {
                done = true;
            },
            Some(c) => {
                v.push(c);
                proof {
                    assert(v@ + vstd::std_specs::iter::IteratorSpec::remaining(&it) =~= s@);
                }
            },
        }
    }
    proof {
        assert(v@ =~= s@);
    }
    v
}

fn is_ws(c: char) -> (r: bool)
    ensures
        r == spec_is_ws(c),
{
    c == ' ' || c == '\t' || c == '\n' || c == '\r'
}

pub fn is_hex_digit(c: char) -> (r: bool)
    ensures
        r == spec_is_hex_digit(c),
{
    let u = c as u32;
    (48 <= u && u <= 57) || (65 <= u && u <= 70) || (97 <= u && u <= 102)
}

pub fn hex_val(c: char) -> (r: u8)
    requires
        spec_is_hex_digit(c),
    ensures
        r == spec_hex_val(c),
        r < 16,
{
    let u = c as u32;
    if 48 <= u && u <= 57 {
        (u - 48) as u8
    } else if 65 <= u && u <= 70 {
        (u - 55) as u8
    } else {
        (u - 87) as u8
    }
}

/// Trims whitespace from both ends and removes interior spaces, the cleaning
/// the transaction hex decoder applies.
pub fn clean_hex_chars(s: &str) -> (v: Vec<char>)
    ensures
        v@ == spec_clean_hex(s@),
{
    let cs = str_to_chars(s);
    let mut lo: usize = 0;
    let mut hi: usize = cs.len();
    proof {
        assert(cs@.subrange(0, cs@.len() as int) =~= cs@);
    }
    while lo < hi && is_ws(cs[lo])
        invariant
            0 <= lo <= hi <= cs@.len(),
            cs@ == s@,
            spec_trim(s@) == spec_trim(cs@.subrange(lo as int, hi as int)),
            hi == cs@.len(),
        decreases hi - lo,
    {
        proof {
            let sub = cs@.subrange(lo as int, hi as int);
            assert(sub[0] == cs@[lo as int]);
            assert(sub.skip(1) =~= cs@.subrange(lo as int + 1, hi as int));
        }
        lo = lo + 1;
    }
    while hi > lo && is_ws(cs[hi - 1])
        invariant
            0 <= lo <= hi <= cs@.len(),
            cs@ == s@,
            spec_trim(s@) == spec_trim(cs@.subrange(lo as int, hi as int)),
            lo == hi || !spec_is_ws(cs@[lo as int]),
        decreases hi,
    {
        proof {
            let sub = cs@.subrange(lo as int, hi as int);
            assert(sub[0] == cs@[lo as int]);
            assert(sub[sub.len() - 1] == cs@[hi as int - 1]);
            assert(sub.take(sub.len() - 1) =~= cs@.subrange(lo as int, hi as int - 1));
        }
        hi = hi - 1;
    }
    proof {
        let sub = cs@.subrange(lo as int, hi as int);
        if sub.len() > 0 {
            assert(sub[0] == cs@[lo as int]);
            assert(sub[sub.len() - 1] == cs@[hi as int - 1]);
        }
        assert(spec_trim(sub) == sub);
    }
    let ghost trimmed = spec_trim(s@);
    let mut out: Vec<char> = Vec::new();
    let mut k: usize = lo;
    proof {
        assert(cs@.subrange(lo as int, lo as int) =~= Seq::<char>::empty());
        assert(out@ =~= spec_strip_spaces(cs@.subrange(lo as int, lo as int)));
    }
    while k < hi
        invariant
            lo <= k <= hi <= cs@.len(),
            cs@ == s@,
            trimmed == cs@.subrange(lo as int, hi as int),
            out@ == spec_strip_spaces(cs@.subrange(lo as int, k as int)),
        decreases hi - k,
    {
        let ghost pre = cs@.subrange(lo as int, k as int);
        let c = cs[k];
        proof {
            assert(cs@.subrange(lo as int, k as int + 1) =~= pre.push(c));
            lemma_strip_spaces_snoc(pre, c);
        }
        if c != ' ' {
            out.push(c);
            proof {
                assert(out@ =~= spec_strip_spaces(pre) + seq![c]);
                assert(out@ =~= spec_strip_spaces(pre.push(c)));
            }
        } else {
            proof {
                assert(spec_is_space(c));
                assert(spec_strip_spaces(pre) + Seq::<char>::empty() =~= spec_strip_spaces(pre));
                assert(out@ =~= spec_strip_spaces(pre.push(c)));
            }
        }
        k = k + 1;
    }
    proof {
        assert(out@ == spec_strip_spaces(trimmed));
    }
    out
}

/// Whether two character vectors hold the same characters.
pub fn chars_eq(a: &Vec<char>, b: &Vec<char>) -> (r: bool)
    ensures
        r == (a@ == b@),
{
    if a.len() != b.len() {
        proof {
            assert(a@ != b@);
        }
        return false;
    }
    let mut k: usize = 0;
    while k < a.len()
        invariant
            k <= a@.len(),
            a@.len() == b@.len(),
            forall|j: int| 0 <= j < k ==> a@[j] == b@[j],
        decreases a@.len() - k,
    {
        if a[k] != b[k] {
            proof {
                assert(a@[k as int] != b@[k as int]);
            }
            return false;
        }
        k = k + 1;
    }
    proof {
        assert(a@ =~= b@);
    }
    true
}

/// Whether two strings hold the same characters.
pub fn str_eq(a: &str, b: &str) -> (r: bool)
    ensures
        r == (a@ == b@),
{
    let va = str_to_chars(a);
    let vb = str_to_chars(b);
    chars_eq(&va, &vb)
}

/// Whether `p` is a prefix of `s`.
pub fn chars_prefix(s: &Vec<char>, p: &Vec<char>) -> (r: bool)
    ensures
        r == p@.is_prefix_of(s@),
{
    if p.len() > s.len() {
        proof {
            assert(!p@.is_prefix_of(s@));
        }
        return false;
    }
    let mut k: usize = 0;
    while k < p.len()
        invariant
            k <= p@.len(),
            p@.len() <= s@.len(),
            forall|j: int| 0 <= j < k ==> s@[j] == p@[j],
        decreases p@.len() - k,
    {
        if s[k] != p[k] {
            proof {
                assert(s@[k as int] != p@[k as int]);
                assert(s@.subrange(0, p@.len() as int)[k as int] != p@[k as int]);
            }
            return false;
        }
        k = k + 1;
    }
    proof {
        assert(s@.subrange(0, p@.len() as int) =~= p@);
    }
    true
}

/// Decodes an even run of hex digits; mirrors `spec_hex_decode` exactly.
pub fn hex_chars_to_bytes(v: &Vec<char>) -> (r: Result<Vec<u8>, DecodeError>)
    ensures
        match r {
            Ok(b) => spec_hex_decode(v@) == Some(b@),
            Err(e) => spec_hex_decode(v@) is None && e == DecodeError::InvalidHex,
        },
{
    if v.len() % 2 != 0 {
        return Err(DecodeError::InvalidHex);
    }
    let mut out: Vec<u8> = Vec::new();
    let mut i: usize = 0;
    let n = v.len() / 2;
    while i < n
        invariant
            0 <= i <= n,
            v@.len() == 2 * n,
            v@.len() <= usize::MAX,
            out@.len() == i,
            forall|k: int| 0 <= k < 2 * i ==> spec_is_hex_digit(#[trigger] v@[k]),
            forall|j: int|
                0 <= j < i ==> #[trigger] out@[j] == (16 * spec_hex_val(v@[2 * j])
                    + spec_hex_val(v@[2 * j + 1])) as u8,
        decreases n - i,
    {
        let c1 = v[2 * i];
        let c2 = v[2 * i + 1];
        if !is_hex_digit(c1) {
            proof {
                assert(!spec_is_hex_digit(v@[2 * (i as int)]));
            }
            return Err(DecodeError::InvalidHex);
        }
        if !is_hex_digit(c2) {
            proof {
                assert(!spec_is_hex_digit(v@[2 * (i as int) + 1]));
            }
            return Err(DecodeError::InvalidHex);
        }
        let b = 16 * hex_val(c1) + hex_val(c2);
        out.push(b);
        i = i + 1;
    }
    proof {
        assert(spec_all_hex(v@));
        assert(out@ =~= spec_hex_pairs(v@));
    }
    Ok(out)
}

proof fn lemma_hex_of_snoc(b: Seq<u8>, x: u8)
    ensures
        spec_hex_of(b.push(x)) == spec_hex_of(b) + seq![
            spec_hex_char((x / 16) as u8),
            spec_hex_char((x % 16) as u8),
        ],
    decreases b.len(),
{
    let bp = b.push(x);
    if b.len() == 0 {
        assert(bp[0] == x);
        assert(bp.skip(1) =~= Seq::<u8>::empty());
        assert(spec_hex_of(Seq::<u8>::empty()) == Seq::<char>::empty());
        assert(spec_hex_of(bp) =~= spec_hex_of(b) + seq![
            spec_hex_char((x / 16) as u8),
            spec_hex_char((x % 16) as u8),
        ]);
    } else {
        assert(bp[0] == b[0]);
        assert(bp.skip(1) =~= b.skip(1).push(x));
        lemma_hex_of_snoc(b.skip(1), x);
        assert(spec_hex_of(bp) =~= spec_hex_of(b) + seq![
            spec_hex_char((x / 16) as u8),
            spec_hex_char((x % 16) as u8),
        ]);
    }
}

pub fn hex_digit_str(d: u8) -> (r: &'static str)
    requires
        d < 16,
    ensures
        r@ == seq![spec_hex_char(d)],
{
    if d == 0 {
        proof {
            reveal_strlit("0");
        }
        "0"
    } else if d == 1 {
        proof {
            reveal_strlit("1");
        }
        "1"
    } else if d == 2 {
        proof {
            reveal_strlit("2");
        }
        "2"
    } else if d == 3 {
        proof {
            reveal_strlit("3");
        }
        "3"
    } else if d == 4 {
        proof {
            reveal_strlit("4");
        }
        "4"
    } else if d == 5 {
        proof {
            reveal_strlit("5");
        }
        "5"
    } else if d == 6 {
        proof {
            reveal_strlit("6");
        }
        "6"
    } else if d == 7 {
        proof {
            reveal_strlit("7");
        }
        "7"
    } else if d == 8 {
        proof {
            reveal_strlit("8");
        }
        "8"
    } else if d == 9 {
        proof {
            reveal_strlit("9");
        }
        "9"
    } else if d == 10 {
        proof {
            reveal_strlit("a");
        }
        "a"
    } else if d == 11 {
        proof {
            reveal_strlit("b");
        }
        "b"
    } else if d == 12 {
        proof {
            reveal_strlit("c");
        }
        "c"
    } else if d == 13 {
        proof {
            reveal_strlit("d");
        }
        "d"
    } else if d == 14 {
        proof {
            reveal_strlit("e");
        }
        "e"
    } else {
        proof {
            reveal_strlit("f");
        }
        "f"
    }
}

/// Lowercase hex encoding of a byte string.
pub fn encode_hex(b: &Vec<u8>) -> (r: String)
    ensures
        r@ == spec_hex_of(b@),
{
    let mut out = String::new();
    let mut i: usize = 0;
    proof {
        assert(b@.take(0) =~= Seq::<u8>::empty());
        assert(out@ =~= spec_hex_of(b@.take(0)));
    }
    while i < b.len()
        invariant
            0 <= i <= b@.len(),
            out@ == spec_hex_of(b@.take(i as int)),
        decreases b@.len() - i,
    {
        let ghost pre = b@.take(i as int);
        let x = b[i];
        out.append(hex_digit_str(x / 16));
        out.append(hex_digit_str(x % 16));
        proof {
            lemma_hex_of_snoc(pre, x);
            assert(pre.push(x) =~= b@.take(i as int + 1));
            assert(out@ =~= spec_hex_of(b@.take(i as int + 1)));
        }
        i = i + 1;
    }
    proof {
        assert(b@.take(b@.len() as int) =~= b@);
    }
    out
}

} // verus!
