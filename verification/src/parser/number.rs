//! Unsigned decimal numbers: reading them from text and writing them out.

use vstd::prelude::*;
use crate::model::branch_length::is_digit;
use crate::parser::utils::chars_of;

verus! {

/// The value of the digit `c`.
pub open spec fn digit_value(c: char) -> nat {
    (c as nat - '0' as nat) as nat
}

/// The value of the first `n` characters of `s`, read as decimal digits.
pub open spec fn digits_value(s: Seq<char>, n: int) -> nat
    decreases n,
{
    if n <= 0 {
        0
    } else {
        digits_value(s, n - 1) * 10 + digit_value(s[n - 1])
    }
}

/// Whether every character of `s` is a decimal digit.
pub open spec fn all_digits(s: Seq<char>) -> bool {
    forall|i: int| 0 <= i < s.len() ==> is_digit(#[trigger] s[i])
}

/// `s` without one leading plus sign.
pub open spec fn unsigned_part(s: Seq<char>) -> Seq<char> {
    if s.len() > 0 && s[0] == '+' {
        s.subrange(1, s.len() as int)
    } else {
        s
    }
}

/// The number that `s` denotes: an optional plus sign and one decimal digit or
/// more, whose value fits the machine word. `None` for any other text.
pub open spec fn unsigned_of(s: Seq<char>) -> Option<usize> {
    let d = unsigned_part(s);
    if d.len() > 0 && all_digits(d) && digits_value(d, d.len() as int) <= usize::MAX {
        Some(digits_value(d, d.len() as int) as usize)
    } else {
        None
    }
}

/// The value of a longer prefix is no less than that of a shorter one.
pub proof fn lemma_digits_value_grows(s: Seq<char>, k: int, n: int)
    requires
        0 <= k <= n,
    ensures
        digits_value(s, k) <= digits_value(s, n),
    decreases n - k,
{
    if k < n {
        lemma_digits_value_grows(s, k, n - 1);
    }
}

/// Reads `text` as an unsigned decimal number.
pub fn parse_unsigned(text: &str) -> (r: Option<usize>)
    ensures
        r == unsigned_of(text@),
{
    let chars = chars_of(text);
    let n: usize = chars.len();
    let start: usize = if n > 0 && chars[0] == '+' {
        1
    } else {
        0
    };
    if start == n {
        return None;
    }
    let ghost d = unsigned_part(chars@);
    let mut value: usize = 0;
    let mut i: usize = start;
    while i < n
        invariant
            start <= i <= n,
            n == chars.len(),
            chars@ == text@,
            d == unsigned_part(chars@),
            d.len() == n - start,
            start == (if chars@.len() > 0 && chars@[0] == '+' {
                1int
            } else {
                0int
            }),
            forall|k: int| 0 <= k < i - start ==> is_digit(#[trigger] d[k]),
            value == digits_value(d, i - start),
        decreases n - i,
    {
        let c: char = chars[i];
        assert(d[i - start] == c);
        if !('0' <= c && c <= '9') {
            assert(!is_digit(d[i - start]));
            return None;
        }
        let digit: usize = (c as u8 - 48) as usize;
        assert(digit == digit_value(c));
        assert(digits_value(d, i - start + 1) == value * 10 + digit);
        if value > (usize::MAX - digit) / 10 {
            proof {
                lemma_digits_value_grows(d, i - start + 1, d.len() as int);
            }
            return None;
        }
        value = value * 10 + digit;
        i = i + 1;
    }
    Some(value)
}

/// The decimal digits of `n`, most significant first; a single zero for zero.
pub open spec fn decimal_digits(n: nat) -> Seq<char>
    decreases n,
{
    if n < 10 {
        seq![(('0' as nat + n) as u8) as char]
    } else {
        decimal_digits(n / 10).push((('0' as nat + n % 10) as u8) as char)
    }
}

/// Appends the decimal digits of `n` to `out`.
pub fn push_decimal(out: &mut String, n: usize)
    ensures
        final(out)@ == old(out)@ + decimal_digits(n as nat),
    decreases n,
{
    if n < 10 {
        out.push((48 + n as u8) as char);
        assert(final(out)@ =~= old(out)@ + decimal_digits(n as nat));
    } else {
        push_decimal(out, n / 10);
        out.push((48 + (n % 10) as u8) as char);
        assert(final(out)@ =~= old(out)@ + decimal_digits(n as nat));
    }
}

/// The decimal digits of `n` as text.
pub fn decimal_text(n: usize) -> (r: String)
    ensures
        r@ == decimal_digits(n as nat),
{
    let mut s = String::new();
    push_decimal(&mut s, n);
    assert(Seq::<char>::empty() + decimal_digits(n as nat) =~= decimal_digits(n as nat));
    s
}

/// `s` without one leading sign.
pub open spec fn magnitude_part(s: Seq<char>) -> Seq<char> {
    if s.len() > 0 && (s[0] == '+' || s[0] == '-') {
        s.subrange(1, s.len() as int)
    } else {
        s
    }
}

/// The whole number that `s` denotes: an optional sign and one decimal digit
/// or more, whose value fits sixty-four bits with sign. `None` for any other
/// text.
pub open spec fn signed_of(s: Seq<char>) -> Option<i64> {
    let d = magnitude_part(s);
    let value = digits_value(d, d.len() as int);
    if d.len() > 0 && all_digits(d) {
        if s[0] == '-' {
            if value <= 0x8000_0000_0000_0000 {
                Some((-value) as i64)
            } else {
                None
            }
        } else if value <= 0x7fff_ffff_ffff_ffff {
            Some(value as i64)
        } else {
            None
        }
    } else {
        None
    }
}

/// Reads `chars` as a whole number with an optional sign.
pub fn parse_signed(chars: &Vec<char>) -> (r: Option<i64>)
    ensures
        r == signed_of(chars@),
{
    let n: usize = chars.len();
    let negative: bool = n > 0 && chars[0] == '-';
    let start: usize = if n > 0 && (chars[0] == '+' || chars[0] == '-') {
        1
    } else {
        0
    };
    if start == n {
        return None;
    }
    let limit: u64 = if negative {
        0x8000_0000_0000_0000
    } else {
        0x7fff_ffff_ffff_ffff
    };
    let ghost d = magnitude_part(chars@);
    let mut value: u64 = 0;
    let mut i: usize = start;
    while i < n
        invariant
            start <= i <= n,
            n == chars.len(),
            d == magnitude_part(chars@),
            d.len() == n - start,
            start == (if chars@.len() > 0 && (chars@[0] == '+' || chars@[0] == '-') {
                1int
            } else {
                0int
            }),
            negative == (chars@[0] == '-'),
            limit == (if negative {
                0x8000_0000_0000_0000u64
            } else {
                0x7fff_ffff_ffff_ffffu64
            }),
            forall|k: int| 0 <= k < i - start ==> is_digit(#[trigger] d[k]),
            value == digits_value(d, i - start),
            value <= limit,
        decreases n - i,
    {
        let c: char = chars[i];
        assert(d[i - start] == c);
        if !('0' <= c && c <= '9') {
            assert(!is_digit(d[i - start]));
            return None;
        }
        let digit: u64 = (c as u8 - 48) as u64;
        assert(digit == digit_value(c));
        assert(digits_value(d, i - start + 1) == value * 10 + digit);
        if value > (limit - digit) / 10 {
            proof {
                lemma_digits_value_grows(d, i - start + 1, d.len() as int);
            }
            return None;
        }
        value = value * 10 + digit;
        i = i + 1;
    }
    if negative {
        if value == 0x8000_0000_0000_0000 {
            Some(i64::MIN)
        } else {
            Some(-(value as i64))
        }
    } else {
        Some(value as i64)
    }
}

} // verus!
