//! Decimal text for integer values.
//!
//! The predicate evaluator compares an integer cell against the raw text
//! of a numeric literal, and the executor coerces numeric literal text to
//! an integer cell. Both directions are defined here: the canonical
//! decimal rendering of an `i32`, and the value of a digit string.

use vstd::prelude::*;
use vstd::string::StrSliceExecFns;

verus! {

/// The digit character for `d`, which must lie in `0 ..= 9`.
pub open spec fn digit_char(d: int) -> char {
    if d == 0 {
        '0'
    } else if d == 1 {
        '1'
    } else if d == 2 {
        '2'
    } else if d == 3 {
        '3'
    } else if d == 4 {
        '4'
    } else if d == 5 {
        '5'
    } else if d == 6 {
        '6'
    } else if d == 7 {
        '7'
    } else if d == 8 {
        '8'
    } else {
        '9'
    }
}

/// The decimal digits of `n`, most significant first, without sign or
/// leading zeros (zero itself renders as the single digit `0`).
pub open spec fn dec_nat(n: nat) -> Seq<char>
    decreases n,
{
    if n < 10 {
        seq![digit_char(n as int)]
    } else {
        dec_nat(n / 10).push(digit_char((n % 10) as int))
    }
}

/// The canonical decimal text of `v`: a leading `-` for negative values,
/// the digits of the magnitude otherwise.
pub open spec fn dec_i32(v: i32) -> Seq<char> {
    if v < 0 {
        seq!['-'] + dec_nat((-(v as int)) as nat)
    } else {
        dec_nat(v as nat)
    }
}

/// Whether `c` is a decimal digit.
pub open spec fn is_dec_digit(c: char) -> bool {
    '0' as int <= c as int <= '9' as int
}

/// The numeric value of the digit `c`.
pub open spec fn digit_value(c: char) -> int {
    c as int - '0' as int
}

/// Whether every character of `s` is a decimal digit.
pub open spec fn all_digits(s: Seq<char>) -> bool {
    forall|i: int| 0 <= i < s.len() ==> is_dec_digit(s[i])
}

/// The value of the digit string `s`, read most significant first.
pub open spec fn digits_value(s: Seq<char>) -> int
    decreases s.len(),
{
    if s.len() == 0 {
        0
    } else {
        digits_value(s.drop_last()) * 10 + digit_value(s.last())
    }
}

/// A digit string's value is never negative.
pub proof fn lemma_digits_value_nonneg(s: Seq<char>)
    requires
        all_digits(s),
    ensures
        digits_value(s) >= 0,
    decreases s.len(),
{
    if s.len() > 0 {
        assert(all_digits(s.drop_last()));
        lemma_digits_value_nonneg(s.drop_last());
    }
}

fn digit_of(d: u32) -> (c: char)
    requires
        d < 10,
    ensures
        c == digit_char(d as int),
{
    match d {
        0 => '0',
        1 => '1',
        2 => '2',
        3 => '3',
        4 => '4',
        5 => '5',
        6 => '6',
        7 => '7',
        8 => '8',
        _ => '9',
    }
}

fn push_digits(n: u32, out: &mut Vec<char>)
    ensures
        final(out)@ == old(out)@ + dec_nat(n as nat),
    decreases n,
{
    if n >= 10 {
        push_digits(n / 10, out);
    }
    let ghost before = out@;
    out.push(digit_of(n % 10));
    proof {
        if n < 10 {
            assert(final(out)@ =~= old(out)@ + dec_nat(n as nat));
        } else {
            assert(before == old(out)@ + dec_nat((n / 10) as nat));
            assert(final(out)@ =~= old(out)@ + dec_nat(n as nat));
        }
    }
}

/// The canonical decimal text of `v`, as a character vector.
pub fn i32_digits(v: i32) -> (r: Vec<char>)
    ensures
        r@ == dec_i32(v),
{
    let mut out: Vec<char> = Vec::new();
    if v < 0 {
        out.push('-');
        let magnitude: u32 = (-(v as i64)) as u32;
        push_digits(magnitude, &mut out);
        proof {
            assert(out@ =~= dec_i32(v));
        }
    } else {
        push_digits(v as u32, &mut out);
        proof {
            assert(out@ =~= dec_i32(v));
        }
    }
    out
}

/// Whether `s` is exactly the canonical decimal text of `v`.
pub fn decimal_matches(v: i32, s: &str) -> (r: bool)
    ensures
        r == (s@ == dec_i32(v)),
{
    let digits = i32_digits(v);
    let n = s.unicode_len();
    if n != digits.len() {
        proof {
            assert(s@.len() != dec_i32(v).len());
        }
        return false;
    }
    let mut i: usize = 0;
    while i < n
        invariant
            0 <= i <= n,
            n == s@.len(),
            n == digits@.len(),
            digits@ == dec_i32(v),
            forall|j: int| 0 <= j < i ==> s@[j] == digits@[j],
        decreases n - i,
    {
        if s.get_char(i) != digits[i] {
            proof {
                assert(s@[i as int] != dec_i32(v)[i as int]);
            }
            return false;
        }
        i += 1;
    }
    proof {
        assert(s@ =~= digits@);
    }
    true
}

/// Reads `s` as an unsigned decimal integer. Returns the value when `s`
/// is a nonempty all-digit string whose value fits an `i32`, and `None`
/// otherwise.
pub fn parse_i32_digits(s: &str) -> (r: Option<i32>)
    ensures
        if s@.len() > 0 && all_digits(s@) && digits_value(s@) <= i32::MAX {
            r == Some(digits_value(s@) as i32)
        } else {
            r is None
        },
{
    let n = s.unicode_len();
    if n == 0 {
        return None;
    }
    let mut acc: u64 = 0;
    let mut i: usize = 0;
    while i < n
        invariant
            0 <= i <= n,
            n == s@.len(),
            forall|j: int| 0 <= j < i ==> is_dec_digit(s@[j]),
            digits_value(s@.subrange(0, i as int)) <= u32::MAX ==> acc == digits_value(
                s@.subrange(0, i as int),
            ),
            digits_value(s@.subrange(0, i as int)) > u32::MAX ==> acc > u32::MAX,
            acc <= 0xF_FFFF_FFFFu64,
        decreases n - i,
    {
        let c = s.get_char(i);
        let cu = c as u32;
        if cu < '0' as u32 || cu > '9' as u32 {
            return None;
        }
        let d: u64 = (cu - '0' as u32) as u64;
        let ghost prefix = s@.subrange(0, i as int);
        let ghost extended = s@.subrange(0, i as int + 1);
        proof {
            assert(extended.drop_last() =~= prefix);
            assert(extended.last() == s@[i as int]);
            assert(all_digits(prefix));
            lemma_digits_value_nonneg(prefix);
        }
        if acc <= u32::MAX as u64 {
            acc = acc * 10 + d;
        } else {
            proof {
                assert(digits_value(prefix) > u32::MAX);
                assert(digits_value(extended) == digits_value(prefix) * 10 + digit_value(
                    s@[i as int],
                ));
                assert(digits_value(prefix) * 10 >= digits_value(prefix) * 1) by (nonlinear_arith)
                    requires
                        digits_value(prefix) >= 0,
                ;
            }
        }
        i += 1;
    }
    proof {
        assert(s@.subrange(0, n as int) =~= s@);
    }
    if acc <= i32::MAX as u64 {
        Some(acc as i32)
    } else {
        None
    }
}

} // verus!
