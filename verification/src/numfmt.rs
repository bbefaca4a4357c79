//! Decimal and fixed-width hexadecimal rendering of integers, for the
//! human-readable reports.

use crate::hexstr::spec_hex_char;
use vstd::prelude::*;

verus! {

/// The decimal digits of a natural number, most significant first.
pub open spec fn spec_dec_str(n: nat) -> Seq<char>
    decreases n,
{
    if n < 10 {
        seq![spec_hex_char(n as u8)]
    } else {
        spec_dec_str(n / 10) + seq![spec_hex_char((n % 10) as u8)]
    }
}

/// The decimal rendering of a signed value: a minus sign before the digits
/// of the magnitude.
pub open spec fn spec_sdec_str(v: int) -> Seq<char> {
    if v < 0 {
        seq!['-'] + spec_dec_str((-v) as nat)
    } else {
        spec_dec_str(v as nat)
    }
}

/// The number interpreted as a 32-bit two's complement value.
pub open spec fn spec_i32_of_u32(v: u32) -> int {
    if v >= 0x8000_0000 {
        v - 0x1_0000_0000
    } else {
        v as int
    }
}

/// Eight lowercase hex digits of a 32-bit value, most significant first.
pub open spec fn spec_hex8(v: u32) -> Seq<char> {
    seq![
        spec_hex_char((v / 0x10000000) as u8),
        spec_hex_char(((v / 0x1000000) % 16) as u8),
        spec_hex_char(((v / 0x100000) % 16) as u8),
        spec_hex_char(((v / 0x10000) % 16) as u8),
        spec_hex_char(((v / 0x1000) % 16) as u8),
        spec_hex_char(((v / 0x100) % 16) as u8),
        spec_hex_char(((v / 16) % 16) as u8),
        spec_hex_char((v % 16) as u8),
    ]
}

fn digit_piece(d: u8) -> (r: &'static str)
    requires
        d < 10,
    ensures
        r@ == seq![spec_hex_char(d)],
{
    crate::hexstr::hex_digit_str(d)
}

/// Renders a natural number in decimal.
pub fn u64_to_dec(n: u64) -> (r: String)
    ensures
        r@ == spec_dec_str(n as nat),
    decreases n,
{
    if n < 10 {
        let s = digit_piece(n as u8);
        let r = String::from_str(s);
        r
    } else {
        let mut r = u64_to_dec(n / 10);
        r.append(digit_piece((n % 10) as u8));
        r
    }
}

/// Renders a signed 64-bit value in decimal.
pub fn i64_to_dec(v: i64) -> (r: String)
    ensures
        r@ == spec_sdec_str(v as int),
{
    if v < 0 {
        let mag: u64 = if v == i64::MIN {
            9223372036854775808u64
        } else {
            (-v) as u64
        };
        proof {
            reveal_strlit("-");
        }
        let mut r = String::from_str("-");
        let tail = u64_to_dec(mag);
        r.append(tail.as_str());
        proof {
            assert(r@ =~= spec_sdec_str(v as int));
        }
        r
    } else {
        u64_to_dec(v as u64)
    }
}

/// Renders the consensus `u32` as the signed version number it stands for.
pub fn u32_to_consensus_dec(v: u32) -> (r: String)
    ensures
        r@ == spec_sdec_str(spec_i32_of_u32(v)),
{
    if v >= 0x8000_0000 {
        let mag: u64 = 0x1_0000_0000u64 - v as u64;
        proof {
            reveal_strlit("-");
        }
        let mut r = String::from_str("-");
        let tail = u64_to_dec(mag);
        r.append(tail.as_str());
        proof {
            assert(r@ =~= spec_sdec_str(spec_i32_of_u32(v)));
        }
        r
    } else {
        u64_to_dec(v as u64)
    }
}

// ---------------------------------------------------------------------------
// Parsing decimal numerals
// ---------------------------------------------------------------------------

pub open spec fn spec_is_digit(c: char) -> bool {
    48 <= c as u32 <= 57
}

pub open spec fn spec_all_digits(cs: Seq<char>) -> bool {
    forall|k: int| 0 <= k < cs.len() ==> spec_is_digit(#[trigger] cs[k])
}

/// The value of a run of decimal digits.
pub open spec fn spec_digits_val(cs: Seq<char>) -> int
    decreases cs.len(),
{
    if cs.len() == 0 {
        0
    } else {
        spec_digits_val(cs.take(cs.len() - 1)) * 10 + crate::hexstr::spec_hex_val(
            cs[cs.len() - 1],
        )
    }
}

/// An accepted numeral: an optional minus sign and one to eighteen decimal
/// digits. Eighteen digits always fit a 64-bit signed value.
pub open spec fn spec_valid_numeral(cs: Seq<char>) -> bool {
    if cs.len() >= 1 && cs[0] == '-' {
        1 <= cs.len() - 1 <= 18 && spec_all_digits(cs.skip(1))
    } else {
        1 <= cs.len() <= 18 && spec_all_digits(cs)
    }
}

/// The value of an accepted numeral.
pub open spec fn spec_numeral_val(cs: Seq<char>) -> int {
    if cs.len() >= 1 && cs[0] == '-' {
        -spec_digits_val(cs.skip(1))
    } else {
        spec_digits_val(cs)
    }
}

pub open spec fn spec_pow10(n: nat) -> int
    decreases n,
{
    if n == 0 {
        1
    } else {
        10 * spec_pow10((n - 1) as nat)
    }
}

proof fn lemma_digits_val_bound(cs: Seq<char>)
    requires
        spec_all_digits(cs),
    ensures
        0 <= spec_digits_val(cs) < spec_pow10(cs.len()),
    decreases cs.len(),
{
    if cs.len() == 0 {
    } else {
        let pre = cs.take(cs.len() - 1);
        assert(spec_all_digits(pre)) by {
            assert(forall|k: int| 0 <= k < pre.len() ==> pre[k] == cs[k]);
        }
        lemma_digits_val_bound(pre);
        assert(crate::hexstr::spec_hex_val(cs[cs.len() - 1]) <= 9);
    }
}

/// Parses a signed decimal numeral of at most eighteen digits.
pub fn parse_numeral_i64(cs: &Vec<char>) -> (r: Option<i64>)
    ensures
        match r {
            Some(v) => spec_valid_numeral(cs@) && v as int == spec_numeral_val(cs@),
            None => !spec_valid_numeral(cs@),
        },
{
    let (neg, start): (bool, usize) = if cs.len() >= 1 && *vstd::slice::slice_index_get(
        cs.as_slice(),
        0,
    ) == '-' {
        (true, 1)
    } else {
        (false, 0)
    };
    let n = cs.len();
    if n - start < 1 || n - start > 18 {
        return None;
    }
    let ghost digits = if neg {
        cs@.skip(1)
    } else {
        cs@
    };
    let mut acc: i64 = 0;
    let mut k: usize = start;
    proof {
        assert(digits.take(0) =~= Seq::<char>::empty());
        assert(spec_pow10(0) == 1);
        lemma_pow10_le(0, 18);
    }
    while k < n
        invariant
            start <= k <= n,
            n == cs@.len(),
            n - start <= 18,
            1 <= n - start,
            neg ==> (start == 1 && cs@.len() >= 1 && cs@[0] == '-' && digits == cs@.skip(1)),
            !neg ==> (start == 0 && digits == cs@ && !(cs@.len() >= 1 && cs@[0] == '-')),
            digits.len() == n - start,
            spec_all_digits(digits.take(k - start)),
            0 <= acc,
            acc as int == spec_digits_val(digits.take(k - start)),
            acc < spec_pow10((k - start) as nat),
            spec_pow10((k - start) as nat) <= spec_pow10(18),
        decreases n - k,
    {
        let c = *vstd::slice::slice_index_get(cs.as_slice(), k);
        if !crate::hexstr::is_hex_digit(c) {
            proof {
                assert(digits[k - start] == cs@[k as int]);
                assert(!spec_is_digit(digits[k - start]));
            }
            return None;
        }
        let u = c as u32;
        if u < 48 || u > 57 {
            proof {
                assert(digits[k - start] == cs@[k as int]);
                assert(!spec_is_digit(digits[k - start]));
            }
            return None;
        }
        let d = crate::hexstr::hex_val(c);
        proof {
            lemma_pow10_le(((k - start) + 1) as nat, 18);
            assert(spec_pow10(((k - start) + 1) as nat) == 10 * spec_pow10((k - start) as nat));
            assert(spec_pow10(18) == 1000000000000000000) by {
                reveal_with_fuel(spec_pow10, 19);
            }
        }
        let ghost pre = digits.take(k - start);
        acc = acc * 10 + (d as i64);
        proof {
            assert(digits.take(k - start + 1) =~= pre.push(digits[k - start]));
            assert(digits.take(k - start + 1).take(k - start) =~= pre);
            assert(digits[k - start] == cs@[k as int]);
            assert(crate::hexstr::spec_hex_val(digits[k - start]) == d);
            assert(acc as int == spec_digits_val(digits.take(k - start + 1)));
        }
        k = k + 1;
    }
    proof {
        assert(digits.take(digits.len() as int) =~= digits);
    }
    if neg {
        let r = -acc;
        proof {
            assert(spec_valid_numeral(cs@));
            assert(r as int == spec_numeral_val(cs@));
        }
        Some(r)
    } else {
        proof {
            assert(spec_valid_numeral(cs@));
            assert(acc as int == spec_numeral_val(cs@));
        }
        Some(acc)
    }
}

proof fn lemma_pow10_le(a: nat, b: nat)
    requires
        a <= b,
    ensures
        spec_pow10(a) <= spec_pow10(b),
    decreases b,
{
    if a < b {
        lemma_pow10_le(a, (b - 1) as nat);
        assert(spec_pow10(b) == 10 * spec_pow10((b - 1) as nat));
        assert(spec_pow10((b - 1) as nat) >= 1) by {
            lemma_pow10_pos((b - 1) as nat);
        }
    }
}

proof fn lemma_pow10_pos(n: nat)
    ensures
        spec_pow10(n) >= 1,
    decreases n,
{
    if n > 0 {
        lemma_pow10_pos((n - 1) as nat);
    }
}

/// Parses a signed decimal numeral that must fit a 32-bit signed value.
pub fn parse_numeral_i32(cs: &Vec<char>) -> (r: Option<i32>)
    ensures
        match r {
            Some(v) => spec_valid_numeral(cs@) && v as int == spec_numeral_val(cs@)
                && -0x8000_0000 <= spec_numeral_val(cs@) < 0x8000_0000,
            None => !spec_valid_numeral(cs@) || !(-0x8000_0000 <= spec_numeral_val(cs@)
                < 0x8000_0000),
        },
{
    match parse_numeral_i64(cs) {
        None => None,
        Some(v) => {
            if v < -0x8000_0000i64 || v > 0x7fff_ffffi64 {
                None
            } else {
                Some(v as i32)
            }
        },
    }
}

/// Renders a 32-bit value as eight lowercase hex digits.
pub fn u32_to_hex8(v: u32) -> (r: String)
    ensures
        r@ == spec_hex8(v),
{
    let mut out = String::new();
    out.append(crate::hexstr::hex_digit_str((v / 0x10000000) as u8));
    out.append(crate::hexstr::hex_digit_str(((v / 0x1000000) % 16) as u8));
    out.append(crate::hexstr::hex_digit_str(((v / 0x100000) % 16) as u8));
    out.append(crate::hexstr::hex_digit_str(((v / 0x10000) % 16) as u8));
    out.append(crate::hexstr::hex_digit_str(((v / 0x1000) % 16) as u8));
    out.append(crate::hexstr::hex_digit_str(((v / 0x100) % 16) as u8));
    out.append(crate::hexstr::hex_digit_str(((v / 16) % 16) as u8));
    out.append(crate::hexstr::hex_digit_str((v % 16) as u8));
    proof {
        assert(out@ =~= spec_hex8(v));
    }
    out
}

} // verus!
