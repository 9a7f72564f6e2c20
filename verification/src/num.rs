//! Parsing decimal integers with the rules of `str::parse` for the integer
//! types: an optional sign (`+`, and `-` for signed types only), then one or
//! more ASCII digits, and nothing else; a value out of the type's range is an
//! error too.

use vstd::prelude::*;
use crate::split::chars_of;
use crate::text::{decimal, digit_char};

verus! {

/// `c` is an ASCII decimal digit.
pub open spec fn is_digit(c: char) -> bool {
    '0' <= c && c <= '9'
}

/// The value of an ASCII digit.
pub open spec fn digit_value(c: char) -> nat {
    ((c as u32) - 48) as nat
}

/// `s` is a non-empty run of ASCII digits.
pub open spec fn all_digits(s: Seq<char>) -> bool {
    s.len() > 0 && forall|i: int| 0 <= i < s.len() ==> is_digit(#[trigger] s[i])
}

/// The number that a run of digits spells, most significant first.
pub open spec fn digits_value(s: Seq<char>) -> nat
    decreases s.len(),
{
    if s.len() == 0 {
        0
    } else {
        digits_value(s.drop_last()) * 10 + digit_value(s.last())
    }
}

/// The integer that `s` spells under the rules of `str::parse`, before the
/// range check; `signed` says whether a leading `-` is allowed.
pub open spec fn int_text_value(s: Seq<char>, signed: bool) -> Option<int> {
    if s.len() > 0 && s[0] == '+' {
        if all_digits(s.drop_first()) {
            Some(digits_value(s.drop_first()) as int)
        } else {
            None
        }
    } else if signed && s.len() > 0 && s[0] == '-' {
        if all_digits(s.drop_first()) {
            Some(-(digits_value(s.drop_first()) as int))
        } else {
            None
        }
    } else if all_digits(s) {
        Some(digits_value(s) as int)
    } else {
        None
    }
}

/// `s.parse::<T>().ok()` for an integer type whose range is `lo..=hi`.
pub open spec fn parse_in_range(s: Seq<char>, signed: bool, lo: int, hi: int) -> Option<int> {
    match int_text_value(s, signed) {
        Some(v) => if lo <= v <= hi {
            Some(v)
        } else {
            None
        },
        None => None,
    }
}

/// `s.parse::<i32>().ok()`.
pub open spec fn spec_parse_i32(s: Seq<char>) -> Option<int> {
    parse_in_range(s, true, i32::MIN as int, i32::MAX as int)
}

/// `s.parse::<u32>().ok()`.
pub open spec fn spec_parse_u32(s: Seq<char>) -> Option<int> {
    parse_in_range(s, false, 0, u32::MAX as int)
}

/// `s.parse::<u16>().ok()`.
pub open spec fn spec_parse_u16(s: Seq<char>) -> Option<int> {
    parse_in_range(s, false, 0, u16::MAX as int)
}

/// A longer run of digits never spells a smaller number.
pub proof fn lemma_digits_value_prefix(s: Seq<char>, k: int)
    requires
        0 <= k <= s.len(),
    ensures
        digits_value(s.take(k)) <= digits_value(s),
    decreases s.len() - k,
{
    if k < s.len() {
        let t = s.take(k + 1);
        assert(t.drop_last() =~= s.take(k));
        lemma_digits_value_prefix(s, k + 1);
    } else {
        assert(s.take(k) =~= s);
    }
}

/// Above this bound the digit accumulator stops; every bound checked against
/// is smaller.
const ACC_LIMIT: u64 = 0x100_0000_0000;

/// Scans `v[from..]` as a run of digits. Returns whether it is one, and its
/// value when that is at most `ACC_LIMIT` (else a number above it).
fn scan_digits(v: &Vec<char>, from: usize) -> (r: (bool, u64))
    requires
        from <= v.len(),
    ensures
        r.0 == all_digits(v@.skip(from as int)),
        r.0 ==> (r.1 <= ACC_LIMIT ==> r.1 == digits_value(v@.skip(from as int))),
        r.0 ==> (r.1 > ACC_LIMIT ==> digits_value(v@.skip(from as int)) > ACC_LIMIT),
{
    let ghost s = v@.skip(from as int);
    if from == v.len() {
        return (false, 0);
    }
    let mut acc: u64 = 0;
    let mut i: usize = from;
    while i < v.len()
        invariant
            from <= i <= v.len(),
            s == v@.skip(from as int),
            forall|j: int| 0 <= j < i - from ==> is_digit(#[trigger] s[j]),
            acc <= ACC_LIMIT ==> acc == digits_value(s.take(i - from)),
            acc > ACC_LIMIT ==> digits_value(s.take(i - from)) > ACC_LIMIT,
            acc <= ACC_LIMIT + 1,
        decreases v.len() - i,
    {
        let c = v[i];
        if !('0' <= c && c <= '9') {
            assert(!is_digit(s[i - from]));
            return (false, 0);
        }
        let ghost k = i - from;
        proof {
            assert(s.take(k + 1).drop_last() =~= s.take(k));
            assert(s.take(k + 1).last() == c);
        }
        if acc <= ACC_LIMIT {
            let d: u64 = (c as u64) - 48;
            let next: u64 = acc * 10 + d;
            if next > ACC_LIMIT {
                acc = ACC_LIMIT + 1;
            } else {
                acc = next;
            }
        } else {
            assert(digits_value(s.take(k + 1)) >= digits_value(s.take(k))) by (nonlinear_arith)
                requires
                    digits_value(s.take(k + 1)) == digits_value(s.take(k)) * 10 + digit_value(c),
            ;
        }
        i = i + 1;
    }
    proof {
        assert(s.take(s.len() as int) =~= s);
    }
    (true, acc)
}

/// The value of `s` under `str::parse` rules, when its magnitude is at most
/// 2^40; `None` for text that is no integer or a larger one.
fn parse_bounded(s: &str, signed: bool) -> (r: Option<i64>)
    ensures
        match r {
            Some(v) => int_text_value(s@, signed) == Some(v as int),
            None => match int_text_value(s@, signed) {
                Some(v) => v > ACC_LIMIT || v < -(ACC_LIMIT as int),
                None => true,
            },
        },
{
    let v = chars_of(s);
    proof {
        assert(v@.skip(1) =~= v@.drop_first());
        assert(v@.skip(0) =~= v@);
    }
    let from: usize = if v.len() > 0 && (v[0] == '+' || (signed && v[0] == '-')) {
        1
    } else {
        0
    };
    let (ok, value) = scan_digits(&v, from);
    if !ok || value > ACC_LIMIT {
        return None;
    }
    if from == 1 && v[0] == '-' {
        Some(-(value as i64))
    } else {
        Some(value as i64)
    }
}

/// `s.parse::<i32>().ok()`.
pub fn parse_i32(s: &str) -> (r: Option<i32>)
    ensures
        match r {
            Some(v) => spec_parse_i32(s@) == Some(v as int),
            None => spec_parse_i32(s@) is None,
        },
{
    match parse_bounded(s, true) {
        Some(v) => if i32::MIN as i64 <= v && v <= i32::MAX as i64 {
            Some(v as i32)
        } else {
            None
        },
        None => None,
    }
}

/// `s.parse::<u32>().ok()`.
pub fn parse_u32(s: &str) -> (r: Option<u32>)
    ensures
        match r {
            Some(v) => spec_parse_u32(s@) == Some(v as int),
            None => spec_parse_u32(s@) is None,
        },
{
    match parse_bounded(s, false) {
        Some(v) => if 0 <= v && v <= u32::MAX as i64 {
            Some(v as u32)
        } else {
            None
        },
        None => None,
    }
}

/// `s.parse::<u16>().ok()`.
pub fn parse_u16(s: &str) -> (r: Option<u16>)
    ensures
        match r {
            Some(v) => spec_parse_u16(s@) == Some(v as int),
            None => spec_parse_u16(s@) is None,
        },
{
    match parse_bounded(s, false) {
        Some(v) => if 0 <= v && v <= u16::MAX as i64 {
            Some(v as u16)
        } else {
            None
        },
        None => None,
    }
}

proof fn lemma_digit_char(d: nat)
    requires
        d < 10,
    ensures
        is_digit(digit_char(d)),
        digit_value(digit_char(d)) == d,
{
    let c = digit_char(d);
    assert(c as u32 == d + 48);
}

/// The decimal text of a number parses back to the number, under the rules
/// of both the signed and the unsigned integer types.
pub proof fn decimal_parses_back(n: nat)
    ensures
        all_digits(decimal(n)),
        digits_value(decimal(n)) == n,
        int_text_value(decimal(n), false) == Some(n as int),
        int_text_value(decimal(n), true) == Some(n as int),
    decreases n,
{
    if n < 10 {
        lemma_digit_char(n);
        assert(decimal(n) =~= seq![digit_char(n)]);
        assert(seq![digit_char(n)].drop_last() =~= Seq::<char>::empty());
        assert(digits_value(decimal(n)) == digits_value(Seq::<char>::empty()) * 10 + digit_value(
            digit_char(n),
        ));
        assert(is_digit(decimal(n)[0]));
    } else {
        decimal_parses_back(n / 10);
        lemma_digit_char(n % 10);
        let d = decimal(n);
        assert(d == decimal(n / 10).push(digit_char(n % 10)));
        assert(d.drop_last() =~= decimal(n / 10));
        assert forall|i: int| 0 <= i < d.len() implies is_digit(#[trigger] d[i]) by {
            if i < d.len() - 1 {
                assert(d[i] == decimal(n / 10)[i]);
            }
        }
        assert(is_digit(d[0]));
        assert(d.last() == digit_char(n % 10));
        assert(digits_value(d) == digits_value(decimal(n / 10)) * 10 + digit_value(digit_char(n % 10)));
        assert(n == (n / 10) * 10 + n % 10);
    }
}

} // verus!
