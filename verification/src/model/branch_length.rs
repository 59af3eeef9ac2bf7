//! Branch lengths, held as the decimal numbers they were written as.

use vstd::prelude::*;

verus! {

/// Whether `c` is a decimal digit.
pub open spec fn is_digit(c: char) -> bool {
    '0' <= c <= '9'
}

/// Whether `c` is a sign.
pub open spec fn is_sign(c: char) -> bool {
    c == '+' || c == '-'
}

/// The end of the run of digits that starts at `pos` of `s`.
pub open spec fn digits_end(s: Seq<char>, pos: int) -> int
    decreases s.len() - pos,
{
    if 0 <= pos < s.len() && is_digit(s[pos]) {
        digits_end(s, pos + 1)
    } else {
        pos
    }
}

/// Where the mantissa of a decimal number starts: after one sign, if any.
pub open spec fn mantissa_start(s: Seq<char>) -> int {
    if s.len() > 0 && is_sign(s[0]) {
        1
    } else {
        0
    }
}

/// Where the digits before the point end.
pub open spec fn whole_end(s: Seq<char>) -> int {
    digits_end(s, mantissa_start(s))
}

/// Whether a point follows the digits before it.
pub open spec fn has_point(s: Seq<char>) -> bool {
    whole_end(s) < s.len() && s[whole_end(s)] == '.'
}

/// Where the mantissa ends: after the digits behind the point, if there is
/// one.
pub open spec fn mantissa_end(s: Seq<char>) -> int {
    if has_point(s) {
        digits_end(s, whole_end(s) + 1)
    } else {
        whole_end(s)
    }
}

/// How many digits the mantissa holds.
pub open spec fn mantissa_digits(s: Seq<char>) -> int {
    if has_point(s) {
        mantissa_end(s) - mantissa_start(s) - 1
    } else {
        mantissa_end(s) - mantissa_start(s)
    }
}

/// Whether what follows the mantissa is nothing, or an exponent: the letter
/// `e` in either case, an optional sign, and one digit or more, up to the end.
pub open spec fn exponent_ok(s: Seq<char>) -> bool {
    let m = mantissa_end(s);
    if m == s.len() {
        true
    } else if s[m] == 'e' || s[m] == 'E' {
        let d = if m + 1 < s.len() && is_sign(s[m + 1]) {
            m + 2
        } else {
            m + 1
        };
        d < s.len() && digits_end(s, d) == s.len()
    } else {
        false
    }
}

/// Whether `s` is a decimal number: an optional sign, digits with an optional
/// point among them, at least one digit, and an optional exponent.
pub open spec fn is_decimal(s: Seq<char>) -> bool {
    mantissa_digits(s) >= 1 && exponent_ok(s)
}

/// `c` with an upper-case ASCII letter mapped to its lower-case form.
pub open spec fn lower_letter(c: char) -> char {
    if 'A' <= c <= 'Z' {
        ((c as u8) + 32) as char
    } else {
        c
    }
}

/// Whether `s`, after one optional sign and in any case, is one of the words
/// `inf`, `infinity` and `nan`.
pub open spec fn is_float_word(s: Seq<char>) -> bool {
    let w = s.subrange(mantissa_start(s), s.len() as int);
    let lower = Seq::new(w.len(), |i: int| lower_letter(w[i]));
    lower == seq!['i', 'n', 'f'] || lower == seq!['i', 'n', 'f', 'i', 'n', 'i', 't', 'y'] || lower
        == seq!['n', 'a', 'n']
}

/// Whether `s` is written as a floating-point number: a decimal number, or
/// one of the words for infinity and for no number, with an optional sign.
pub open spec fn is_float_text(s: Seq<char>) -> bool {
    is_decimal(s) || is_float_word(s)
}

/// Whether every digit of the mantissa of `s` is a zero.
pub open spec fn mantissa_is_zero(s: Seq<char>) -> bool {
    forall|k: int| mantissa_start(s) <= k < mantissa_end(s) && is_digit(#[trigger] s[k]) ==> s[k] == '0'
}

/// Whether `s` is a decimal number that is not below zero: it has no minus
/// sign, or its mantissa is zero.
pub open spec fn is_branch_length(s: Seq<char>) -> bool {
    is_decimal(s) && (s[0] != '-' || mantissa_is_zero(s))
}

/// The length of a branch: a decimal number, not below zero, kept as it was
/// written.
#[derive(Debug, Clone)]
pub struct BranchLength {
    digits: Vec<char>,
}

impl View for BranchLength {
    type V = Seq<char>;

    closed spec fn view(&self) -> Seq<char> {
        self.digits@
    }
}

/// Whether `c` is a decimal digit.
pub fn is_digit_char(c: char) -> (r: bool)
    ensures
        r == is_digit(c),
{
    '0' <= c && c <= '9'
}

/// The end of the run of digits that starts at `pos`.
pub fn scan_digits(s: &Vec<char>, pos: usize) -> (r: usize)
    requires
        pos <= s.len(),
    ensures
        r == digits_end(s@, pos as int),
        pos <= r <= s.len(),
{
    let mut i: usize = pos;
    while i < s.len() && is_digit_char(s[i])
        invariant
            pos <= i <= s.len(),
            digits_end(s@, i as int) == digits_end(s@, pos as int),
        decreases s.len() - i,
    {
        i = i + 1;
    }
    i
}

/// Whether the characters of `s` from `start` on spell `word`, in any case.
fn spells_from(s: &Vec<char>, start: usize, word: &Vec<char>) -> (r: bool)
    requires
        start <= s.len(),
    ensures
        r == (Seq::new(
            (s@.len() - start) as nat,
            |i: int| lower_letter(s@.subrange(start as int, s@.len() as int)[i]),
        ) == word@),
{
    let ghost w = s@.subrange(start as int, s@.len() as int);
    let ghost lower = Seq::new(w.len(), |i: int| lower_letter(w[i]));
    if s.len() - start != word.len() {
        return false;
    }
    let mut i: usize = 0;
    while i < word.len()
        invariant
            i <= word.len(),
            start <= s.len(),
            s.len() - start == word.len(),
            w == s@.subrange(start as int, s@.len() as int),
            lower == Seq::new(w.len(), |k: int| lower_letter(w[k])),
            forall|k: int| 0 <= k < i ==> lower[k] == word@[k],
        decreases word.len() - i,
    {
        let c: char = s[start + i];
        assert(w[i as int] == c);
        let l: char = if 'A' <= c && c <= 'Z' {
            ((c as u8) + 32) as char
        } else {
            c
        };
        if l != word[i] {
            assert(lower[i as int] != word@[i as int]);
            return false;
        }
        i = i + 1;
    }
    assert(lower =~= word@);
    true
}

/// Whether `s` is written as a floating-point number.
pub fn check_float_text(s: &Vec<char>) -> (r: bool)
    ensures
        r == is_float_text(s@),
{
    if check_decimal(s) {
        return true;
    }
    let n: usize = s.len();
    let start: usize = if n > 0 && (s[0] == '+' || s[0] == '-') {
        1
    } else {
        0
    };
    let mut inf: Vec<char> = Vec::new();
    inf.push('i');
    inf.push('n');
    inf.push('f');
    assert(inf@ =~= seq!['i', 'n', 'f']);
    let mut nan: Vec<char> = Vec::new();
    nan.push('n');
    nan.push('a');
    nan.push('n');
    assert(nan@ =~= seq!['n', 'a', 'n']);
    let mut infinity: Vec<char> = Vec::new();
    infinity.push('i');
    infinity.push('n');
    infinity.push('f');
    infinity.push('i');
    infinity.push('n');
    infinity.push('i');
    infinity.push('t');
    infinity.push('y');
    assert(infinity@ =~= seq!['i', 'n', 'f', 'i', 'n', 'i', 't', 'y']);
    spells_from(s, start, &inf) || spells_from(s, start, &infinity) || spells_from(s, start, &nan)
}

/// Whether `s` is a decimal number.
pub fn check_decimal(s: &Vec<char>) -> (r: bool)
    ensures
        r == is_decimal(s@),
{
    let n: usize = s.len();
    let start: usize = if n > 0 && (s[0] == '+' || s[0] == '-') {
        1
    } else {
        0
    };
    let whole: usize = scan_digits(s, start);
    let point: bool = whole < n && s[whole] == '.';
    let end: usize = if point {
        scan_digits(s, whole + 1)
    } else {
        whole
    };
    let count: usize = if point {
        end - start - 1
    } else {
        end - start
    };
    if count < 1 {
        return false;
    }
    if end < n {
        if s[end] != 'e' && s[end] != 'E' {
            return false;
        }
        let d: usize = if end + 1 < n && (s[end + 1] == '+' || s[end + 1] == '-') {
            end + 2
        } else {
            end + 1
        };
        if d >= n {
            return false;
        }
        if scan_digits(s, d) != n {
            return false;
        }
    }
    true
}

/// Whether `s` is a decimal number that is not below zero.
pub fn check_branch_length(s: &Vec<char>) -> (r: bool)
    ensures
        r == is_branch_length(s@),
{
    let n: usize = s.len();
    let start: usize = if n > 0 && (s[0] == '+' || s[0] == '-') {
        1
    } else {
        0
    };
    let whole: usize = scan_digits(s, start);
    let point: bool = whole < n && s[whole] == '.';
    let end: usize = if point {
        scan_digits(s, whole + 1)
    } else {
        whole
    };
    let count: usize = if point {
        end - start - 1
    } else {
        end - start
    };
    if count < 1 {
        return false;
    }
    if end < n {
        if s[end] != 'e' && s[end] != 'E' {
            return false;
        }
        let d: usize = if end + 1 < n && (s[end + 1] == '+' || s[end + 1] == '-') {
            end + 2
        } else {
            end + 1
        };
        if d >= n {
            return false;
        }
        if scan_digits(s, d) != n {
            return false;
        }
    }
    if s[0] != '-' {
        return true;
    }
    let mut k: usize = start;
    while k < end
        invariant
            start <= k <= end <= n,
            n == s.len(),
            start == mantissa_start(s@),
            end == mantissa_end(s@),
            is_decimal(s@),
            s@[0] == '-',
            forall|j: int| start <= j < k && is_digit(#[trigger] s@[j]) ==> s@[j] == '0',
        decreases end - k,
    {
        if is_digit_char(s[k]) && s[k] != '0' {
            assert(is_digit(s@[k as int]) && s@[k as int] != '0');
            return false;
        }
        k = k + 1;
    }
    true
}

impl BranchLength {
    /// The branch length written as `text`.
    pub fn new(text: &str) -> (r: Self)
        requires
            is_branch_length(text@),
        ensures
            r@ == text@,
    {
        BranchLength { digits: crate::parser::utils::chars_of(text) }
    }

    /// The branch length written as `text`, if `text` is a decimal number that
    /// is not below zero.
    pub fn parse(text: &str) -> (r: Option<Self>)
        ensures
            r is Some <==> is_branch_length(text@),
            r matches Some(b) ==> b@ == text@,
    {
        let digits = crate::parser::utils::chars_of(text);
        Self::from_chars(digits)
    }

    /// The branch length written as `digits`, if they are a decimal number
    /// that is not below zero.
    pub fn from_chars(digits: Vec<char>) -> (r: Option<Self>)
        ensures
            r is Some <==> is_branch_length(digits@),
            r matches Some(b) ==> b@ == digits@,
    {
        if check_branch_length(&digits) {
            Some(BranchLength { digits })
        } else {
            None
        }
    }

    /// The characters of the number, as written.
    pub fn chars(&self) -> (r: &Vec<char>)
        ensures
            r@ == self@,
    {
        &self.digits
    }

    /// The number, as written.
    pub fn text(&self) -> (r: String)
        ensures
            r@ == self@,
    {
        crate::parser::utils::string_of(&self.digits)
    }
}

} // verus!
