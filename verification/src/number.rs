//! Readers for the scalar cell types: decimal integers, boolean tokens and
//! the bit patterns of 64-bit binary floating-point numbers.

use crate::text::{lowered, spells, to_chars, to_lower};
use vstd::prelude::*;

verus! {

/// The ten decimal digits of ASCII.
pub open spec fn digit(c: char) -> bool {
    '0' <= c && c <= '9'
}

/// The number that a decimal digit stands for.
pub open spec fn digit_value(c: char) -> int {
    c as int - 48
}

/// Whether a text holds decimal digits only.
pub open spec fn all_digits(s: Seq<char>) -> bool {
    forall|i: int| 0 <= i < s.len() ==> digit(#[trigger] s[i])
}

/// The number that a run of decimal digits writes.
pub open spec fn decimal_value(s: Seq<char>) -> int
    decreases s.len(),
{
    if s.len() == 0 {
        0
    } else {
        decimal_value(s.drop_last()) * 10 + digit_value(s.last())
    }
}

/// Whether a numeral begins with a minus sign.
pub open spec fn negative(s: Seq<char>) -> bool {
    s.len() > 0 && s[0] == '-'
}

/// A numeral without its sign, if it has one.
pub open spec fn unsigned_part(s: Seq<char>) -> Seq<char> {
    if s.len() > 0 && (s[0] == '-' || s[0] == '+') {
        s.drop_first()
    } else {
        s
    }
}

/// The number that a signed decimal numeral writes.
pub open spec fn integer_value(s: Seq<char>) -> int {
    if negative(s) {
        -decimal_value(unsigned_part(s))
    } else {
        decimal_value(unsigned_part(s))
    }
}

/// What a text reads as when taken for a signed 64-bit integer: an optional
/// `+` or `-`, then one or more decimal digits and nothing else, writing a
/// number within the range of `i64`.
pub open spec fn parsed_integer(s: Seq<char>) -> Option<i64> {
    let digits = unsigned_part(s);
    if digits.len() > 0 && all_digits(digits) && i64::MIN <= integer_value(s) <= i64::MAX {
        Some(integer_value(s) as i64)
    } else {
        None
    }
}

/// What a text reads as when taken for a boolean: `true` or `false`, in any
/// mix of upper and lower case, and nothing else.
pub open spec fn parsed_boolean(s: Seq<char>) -> Option<bool> {
    if lowered(s) == "true"@ {
        Some(true)
    } else if lowered(s) == "false"@ {
        Some(false)
    } else {
        None
    }
}

/// Whether a bit pattern of a 64-bit binary floating-point number stands for
/// a finite number: its eleven exponent bits are not all ones.
pub open spec fn finite_bits(bits: u64) -> bool {
    (bits as int / 0x10_0000_0000_0000) % 0x800 != 0x7ff
}

/// A run of digits writes a number that is not negative and not below the
/// number that any of its prefixes writes.
pub proof fn lemma_decimal_prefix(s: Seq<char>, k: int)
    requires
        all_digits(s),
        0 <= k <= s.len(),
    ensures
        0 <= decimal_value(s.take(k)) <= decimal_value(s),
    decreases s.len(),
{
    if k == s.len() {
        assert(s.take(k) =~= s);
        if s.len() > 0 {
            assert(digit(s.last()));
            assert(all_digits(s.drop_last()));
            lemma_decimal_prefix(s.drop_last(), k - 1);
            assert(s.drop_last().take(k - 1) =~= s.drop_last());
        }
    } else {
        assert(digit(s.last()));
        assert(all_digits(s.drop_last()));
        lemma_decimal_prefix(s.drop_last(), k);
        assert(s.drop_last().take(k) =~= s.take(k));
    }
}

/// Reads a signed 64-bit integer from its decimal numeral.
pub fn parse_integer(chars: &Vec<char>) -> (r: Option<i64>)
    ensures
        r == parsed_integer(chars@),
{
    let n: usize = chars.len();
    if n == 0 {
        return None;
    }
    let minus: bool = chars[0] == '-';
    let start: usize = if minus || chars[0] == '+' {
        1
    } else {
        0
    };
    if start == n {
        return None;
    }
    let limit: u128 = if minus {
        0x8000_0000_0000_0000
    } else {
        0x7fff_ffff_ffff_ffff
    };
    let ghost digits = unsigned_part(chars@);
    assert(digits =~= chars@.subrange(start as int, n as int));
    let mut acc: u128 = 0;
    let mut i: usize = start;
    while i < n
        invariant
            start <= i <= n == chars.len(),
            digits == chars@.subrange(start as int, n as int),
            digits == unsigned_part(chars@),
            minus == negative(chars@),
            limit == if minus {
                0x8000_0000_0000_0000u128
            } else {
                0x7fff_ffff_ffff_ffffu128
            },
            all_digits(digits.take(i - start)),
            acc == decimal_value(digits.take(i - start)),
            acc <= limit,
        decreases n - i,
    {
        let c: char = chars[i];
        assert(digits[i - start] == c);
        if !('0' <= c && c <= '9') {
            return None;
        }
        let d: u8 = c as u8 - 48;
        acc = acc * 10 + d as u128;
        proof {
            let next = digits.take(i - start + 1);
            assert(next.drop_last() =~= digits.take(i - start));
            assert(next.last() == c);
            assert forall|k: int| 0 <= k < next.len() implies digit(#[trigger] next[k]) by {
                if k < i - start {
                    assert(next[k] == digits.take(i - start)[k]);
                }
            }
        }
        if acc > limit {
            proof {
                if all_digits(digits) {
                    lemma_decimal_prefix(digits, i - start + 1);
                }
            }
            return None;
        }
        i += 1;
    }
    assert(digits.take(n - start) =~= digits);
    if minus {
        Some((0 - acc as i128) as i64)
    } else {
        Some(acc as i64)
    }
}

/// Reads a signed 64-bit integer from a string.
pub fn parse_i64(s: &str) -> (r: Option<i64>)
    ensures
        r == parsed_integer(s@),
{
    let chars = to_chars(s);
    parse_integer(&chars)
}

/// Reads a boolean from its token.
pub fn parse_boolean(chars: &Vec<char>) -> (r: Option<bool>)
    ensures
        r == parsed_boolean(chars@),
{
    let n: usize = chars.len();
    let mut folded: Vec<char> = Vec::new();
    let mut i: usize = 0;
    while i < n
        invariant
            i <= n == chars.len(),
            folded@ == lowered(chars@.take(i as int)),
        decreases n - i,
    {
        folded.push(to_lower(chars[i]));
        i += 1;
        assert(folded@ =~= lowered(chars@.take(i as int)));
    }
    assert(chars@.take(n as int) =~= chars@);
    if spells(&folded, "true") {
        Some(true)
    } else if spells(&folded, "false") {
        Some(false)
    } else {
        None
    }
}

/// Reads a boolean from a string.
pub fn parse_bool(s: &str) -> (r: Option<bool>)
    ensures
        r == parsed_boolean(s@),
{
    let chars = to_chars(s);
    parse_boolean(&chars)
}

/// Whether a bit pattern stands for a finite floating-point number.
pub fn is_finite_bits(bits: u64) -> (r: bool)
    ensures
        r == finite_bits(bits),
{
    assert((bits >> 52) & 0x7ff == (bits / 0x10_0000_0000_0000) % 0x800) by (bit_vector);
    (bits >> 52) & 0x7ff != 0x7ff
}

} // verus!
