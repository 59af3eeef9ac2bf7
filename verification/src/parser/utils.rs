//! Escaping and unescaping of labels at the text boundary.

use vstd::prelude::*;


verus! {

/// The characters of `s`, in order.
pub fn chars_of(s: &str) -> (r: Vec<char>)
    ensures
        r@ == s@,
{
    let mut v: Vec<char> = Vec::new();
    for c in it: s.chars()
        invariant
            v@ == it.seq().take(it.index()),
    {
        v.push(c);
    }
    v
}

/// The text made of `chars`, in order.
pub fn string_of(chars: &Vec<char>) -> (r: String)
    ensures
        r@ == chars@,
{
    let mut s = String::new();
    let mut i: usize = 0;
    while i < chars.len()
        invariant
            i <= chars.len(),
            s@ == chars@.take(i as int),
        decreases chars.len() - i,
    {
        s.push(chars[i]);
        proof {
            assert(chars@.take(i + 1) =~= chars@.take(i as int).push(chars@[i as int]));
        }
        i = i + 1;
    }
    proof {
        assert(chars@.take(chars.len() as int) =~= chars@);
    }
    s
}

/// The characters that force a label into quotes, the space among them.
pub open spec fn is_special(c: char) -> bool {
    c == ' ' || is_punctuation(c)
}

/// The characters that force a label into quotes even without a space:
/// comma, semicolon, tab, line feed, carriage return, parentheses, colon,
/// square brackets and the single quote.
pub open spec fn is_punctuation(c: char) -> bool {
    c == ',' || c == ';' || c == '\t' || c == '\n' || c == '\r' || c == '(' || c == ')' || c == ':'
        || c == '[' || c == ']' || c == '\''
}

/// Whether `s` starts and ends with a single quote, and these are two.
pub open spec fn single_quoted(s: Seq<char>) -> bool {
    s.len() >= 2 && s[0] == '\'' && s[s.len() - 1] == '\''
}

/// `s` without its first and its last character.
pub open spec fn inner(s: Seq<char>) -> Seq<char> {
    s.subrange(1, s.len() - 1)
}

/// Whether every single quote of `s` that does not close a pair is followed
/// by one that does. A single quote at the very end passes.
pub open spec fn quotes_paired(s: Seq<char>) -> bool
    decreases s.len(),
{
    if s.len() == 0 {
        true
    } else if s[0] == '\'' {
        if s.len() >= 2 {
            s[1] == '\'' && quotes_paired(s.skip(2))
        } else {
            true
        }
    } else {
        quotes_paired(s.skip(1))
    }
}

/// Whether `s` holds a character that satisfies `is_special`.
pub open spec fn has_special(s: Seq<char>) -> bool {
    exists|i: int| 0 <= i < s.len() && is_special(#[trigger] s[i])
}

/// Whether `s` holds a character that satisfies `is_punctuation`.
pub open spec fn has_punctuation(s: Seq<char>) -> bool {
    exists|i: int| 0 <= i < s.len() && is_punctuation(#[trigger] s[i])
}

/// Whether `s` needs no escaping: it is in single quotes with its inner
/// quotes paired, or it holds no special character.
pub open spec fn spec_is_escaped(s: Seq<char>) -> bool {
    if single_quoted(s) {
        quotes_paired(inner(s))
    } else {
        !has_special(s)
    }
}

/// `s` with every single quote doubled.
pub open spec fn double_quotes(s: Seq<char>) -> Seq<char>
    decreases s.len(),
{
    if s.len() == 0 {
        Seq::empty()
    } else if s[0] == '\'' {
        seq!['\'', '\''] + double_quotes(s.skip(1))
    } else {
        seq![s[0]] + double_quotes(s.skip(1))
    }
}

/// `s` with every single quote that does not stand in a pair doubled.
pub open spec fn fix_quotes(s: Seq<char>) -> Seq<char>
    decreases s.len(),
{
    if s.len() == 0 {
        Seq::empty()
    } else if s[0] == '\'' {
        if s.len() >= 2 && s[1] == '\'' {
            seq!['\'', '\''] + fix_quotes(s.skip(2))
        } else {
            seq!['\'', '\''] + fix_quotes(s.skip(1))
        }
    } else {
        seq![s[0]] + fix_quotes(s.skip(1))
    }
}

/// `s` with every pair of single quotes, taken from the left, made one.
pub open spec fn halve_quotes(s: Seq<char>) -> Seq<char>
    decreases s.len(),
{
    if s.len() == 0 {
        Seq::empty()
    } else if s[0] == '\'' && s.len() >= 2 && s[1] == '\'' {
        seq!['\''] + halve_quotes(s.skip(2))
    } else {
        seq![s[0]] + halve_quotes(s.skip(1))
    }
}

/// `s` with every `from` replaced by `to`.
pub open spec fn replace_char(s: Seq<char>, from: char, to: char) -> Seq<char> {
    Seq::new(
        s.len(),
        |i: int|
            if s[i] == from {
                to
            } else {
                s[i]
            },
    )
}

/// `s` in single quotes.
pub open spec fn in_quotes(s: Seq<char>) -> Seq<char> {
    seq!['\''] + s + seq!['\'']
}

/// The escaped form of `s`: `s` itself where it needs none; where it is in
/// quotes, with its inner quotes paired up; where it holds punctuation, in
/// quotes with its quotes doubled; else with underscores for its spaces.
pub open spec fn spec_escape(s: Seq<char>) -> Seq<char> {
    if spec_is_escaped(s) {
        s
    } else if single_quoted(s) {
        in_quotes(fix_quotes(inner(s)))
    } else if has_punctuation(s) {
        in_quotes(double_quotes(s))
    } else {
        replace_char(s, ' ', '_')
    }
}

/// The unescaped form of `s`: without its quotes and with paired quotes made
/// one where it is in quotes, and with spaces for its underscores.
pub open spec fn spec_unescape(s: Seq<char>) -> Seq<char> {
    replace_char(
        if single_quoted(s) {
            halve_quotes(inner(s))
        } else {
            s
        },
        '_',
        ' ',
    )
}

/// Making pairs one undoes doubling.
pub proof fn lemma_halve_double(s: Seq<char>)
    ensures
        halve_quotes(double_quotes(s)) == s,
    decreases s.len(),
{
    if s.len() > 0 {
        let rest = double_quotes(s.skip(1));
        lemma_halve_double(s.skip(1));
        let d = double_quotes(s);
        if s[0] == '\'' {
            assert(d.skip(2) =~= rest);
            assert(seq!['\''] + s.skip(1) =~= s);
        } else {
            assert(d.skip(1) =~= rest);
            assert(seq![s[0]] + s.skip(1) =~= s);
        }
    } else {
        assert(s =~= Seq::<char>::empty());
    }
}

/// Escaping and unescaping gives back a label that holds no underscore and
/// is not in single quotes.
pub proof fn lemma_escape_round_trip(s: Seq<char>)
    requires
        !single_quoted(s),
        forall|i: int| 0 <= i < s.len() ==> #[trigger] s[i] != '_',
    ensures
        spec_unescape(spec_escape(s)) == s,
{
    let e = spec_escape(s);
    if spec_is_escaped(s) {
        assert(replace_char(s, '_', ' ') =~= s);
    } else if has_punctuation(s) {
        let d = double_quotes(s);
        assert(e == in_quotes(d));
        assert(single_quoted(e));
        assert(inner(e) =~= d);
        lemma_halve_double(s);
        assert(replace_char(s, '_', ' ') =~= s);
    } else {
        assert forall|i: int| 0 <= i < e.len() implies #[trigger] e[i] != '\'' by {
            if s[i] == '\'' {
                assert(is_punctuation(s[i]));
            }
        }
        assert(!single_quoted(e));
        assert(replace_char(e, '_', ' ') =~= s);
    }
}

/// Escaping and unescaping a second time changes nothing, where the first
/// time did not leave a label in single quotes.
pub proof fn lemma_escape_settles(s: Seq<char>)
    requires
        !single_quoted(spec_unescape(spec_escape(s))),
    ensures
        spec_unescape(spec_escape(spec_unescape(spec_escape(s)))) == spec_unescape(
            spec_escape(s),
        ),
{
    lemma_escape_round_trip(spec_unescape(spec_escape(s)));
}

/// Whether `c` forces a label into quotes even without a space.
pub fn is_punctuation_char(c: char) -> (r: bool)
    ensures
        r == is_punctuation(c),
{
    c == ',' || c == ';' || c == '\t' || c == '\n' || c == '\r' || c == '(' || c == ')' || c == ':'
        || c == '[' || c == ']' || c == '\''
}

/// Whether `chars` is in single quotes.
pub fn quoted_chars(chars: &Vec<char>) -> (r: bool)
    ensures
        r == single_quoted(chars@),
{
    chars.len() >= 2 && chars[0] == '\'' && chars[chars.len() - 1] == '\''
}

/// Whether `label` starts and ends with a single quote, and these are two.
pub fn is_single_quoted(label: &str) -> (r: bool)
    ensures
        r == single_quoted(label@),
{
    let chars = chars_of(label);
    quoted_chars(&chars)
}

/// Whether the characters of `chars` from `from` up to `to` have their
/// single quotes paired.
fn paired_in(chars: &Vec<char>, from: usize, to: usize) -> (r: bool)
    requires
        from <= to <= chars.len(),
    ensures
        r == quotes_paired(chars@.subrange(from as int, to as int)),
{
    let ghost s = chars@.subrange(from as int, to as int);
    let mut i: usize = from;
    assert(s.skip(0) =~= s);
    while i < to
        invariant
            from <= i <= to <= chars.len(),
            s == chars@.subrange(from as int, to as int),
            quotes_paired(s) == quotes_paired(s.skip(i - from)),
        decreases to - i,
    {
        let ghost rest = s.skip(i - from);
        assert(rest[0] == chars@[i as int]);
        if chars[i] == '\'' {
            if i + 1 < to {
                assert(rest[1] == chars@[i + 1]);
                if chars[i + 1] != '\'' {
                    return false;
                }
                assert(rest.skip(2) =~= s.skip(i + 2 - from));
                i = i + 2;
            } else {
                return true;
            }
        } else {
            assert(rest.skip(1) =~= s.skip(i + 1 - from));
            i = i + 1;
        }
    }
    assert(s.skip(i - from).len() == 0);
    true
}

/// Whether `chars` holds a special character; with `spaces` the space counts
/// as one.
fn holds_special(chars: &Vec<char>, spaces: bool) -> (r: bool)
    ensures
        spaces ==> r == has_special(chars@),
        !spaces ==> r == has_punctuation(chars@),
{
    let mut i: usize = 0;
    while i < chars.len()
        invariant
            i <= chars.len(),
            forall|k: int| 0 <= k < i ==> !is_punctuation(#[trigger] chars@[k]),
            spaces ==> forall|k: int| 0 <= k < i ==> !is_special(#[trigger] chars@[k]),
        decreases chars.len() - i,
    {
        let c: char = chars[i];
        if is_punctuation_char(c) || (spaces && c == ' ') {
            assert(is_special(chars@[i as int]));
            return true;
        }
        i = i + 1;
    }
    false
}

/// Whether `chars` needs no escaping.
fn escaped_chars(chars: &Vec<char>) -> (r: bool)
    ensures
        r == spec_is_escaped(chars@),
{
    if quoted_chars(chars) {
        paired_in(chars, 1, chars.len() - 1)
    } else {
        !holds_special(chars, true)
    }
}

/// Whether `label` needs no escaping: it is in single quotes with its inner
/// quotes paired, or it holds no special character.
pub fn is_escaped(label: &str) -> (r: bool)
    ensures
        r == spec_is_escaped(label@),
{
    let chars = chars_of(label);
    escaped_chars(&chars)
}

/// Escapes `label` for a tree file: a label that needs it is put in single
/// quotes, with its single quotes doubled; one that holds spaces only gets
/// underscores for them.
pub fn escape_label(label: &str) -> (r: String)
    ensures
        r@ == spec_escape(label@),
{
    let chars = chars_of(label);
    if escaped_chars(&chars) {
        return string_of(&chars);
    }
    let n: usize = chars.len();
    let mut out: Vec<char> = Vec::new();
    if quoted_chars(&chars) {
        let ghost s = inner(chars@);
        out.push('\'');
        let mut i: usize = 1;
        assert(s.skip(0) =~= s);
        while i < n - 1
            invariant
                1 <= i <= n - 1,
                n == chars.len(),
                s == inner(chars@),
                seq!['\''] + fix_quotes(s) == out@ + fix_quotes(s.skip(i - 1)),
            decreases n - i,
        {
            let ghost rest = s.skip(i - 1);
            assert(rest[0] == chars@[i as int]);
            let c: char = chars[i];
            out.push(c);
            if c == '\'' {
                out.push('\'');
                if i + 1 < n - 1 && chars[i + 1] == '\'' {
                    assert(rest[1] == chars@[i + 1]);
                    assert(rest.skip(2) =~= s.skip(i + 1));
                    assert(out@ + fix_quotes(s.skip(i + 1)) =~= seq!['\''] + fix_quotes(s));
                    i = i + 2;
                } else {
                    if i + 1 < n - 1 {
                        assert(rest[1] == chars@[i + 1]);
                    }
                    assert(rest.skip(1) =~= s.skip(i as int));
                    assert(out@ + fix_quotes(s.skip(i as int)) =~= seq!['\''] + fix_quotes(s));
                    i = i + 1;
                }
            } else {
                assert(rest.skip(1) =~= s.skip(i as int));
                assert(out@ + fix_quotes(s.skip(i as int)) =~= seq!['\''] + fix_quotes(s));
                i = i + 1;
            }
        }
        assert(s.skip(i - 1).len() == 0);
        out.push('\'');
        assert(out@ =~= in_quotes(fix_quotes(s)));
        return string_of(&out);
    }
    if holds_special(&chars, false) {
        let ghost s = chars@;
        out.push('\'');
        let mut i: usize = 0;
        assert(s.skip(0) =~= s);
        while i < n
            invariant
                i <= n,
                n == chars.len(),
                s == chars@,
                seq!['\''] + double_quotes(s) == out@ + double_quotes(s.skip(i as int)),
            decreases n - i,
        {
            let ghost rest = s.skip(i as int);
            assert(rest[0] == chars@[i as int]);
            assert(rest.skip(1) =~= s.skip(i + 1));
            let c: char = chars[i];
            out.push(c);
            if c == '\'' {
                out.push('\'');
            }
            assert(out@ + double_quotes(s.skip(i + 1)) =~= seq!['\''] + double_quotes(s));
            i = i + 1;
        }
        assert(s.skip(i as int).len() == 0);
        out.push('\'');
        assert(out@ =~= in_quotes(double_quotes(s)));
        return string_of(&out);
    }
    replace_in(&chars, 0, n, ' ', '_')
}

/// The characters of `chars` from `from` up to `to`, with every `old` made
/// `new`, as text.
fn replace_in(chars: &Vec<char>, from: usize, to: usize, old: char, new: char) -> (r: String)
    requires
        from <= to <= chars.len(),
    ensures
        r@ == replace_char(chars@.subrange(from as int, to as int), old, new),
{
    let ghost s = chars@.subrange(from as int, to as int);
    let mut out = String::new();
    let mut i: usize = from;
    while i < to
        invariant
            from <= i <= to <= chars.len(),
            s == chars@.subrange(from as int, to as int),
            out@ == replace_char(s, old, new).take(i - from),
        decreases to - i,
    {
        let c: char = chars[i];
        if c == old {
            out.push(new);
        } else {
            out.push(c);
        }
        assert(out@ =~= replace_char(s, old, new).take(i + 1 - from));
        i = i + 1;
    }
    assert(replace_char(s, old, new).take(to - from) =~= replace_char(s, old, new));
    out
}

/// Undoes `escape_label`: the quotes around the label go, paired quotes
/// become one, and underscores become spaces.
pub fn unescape_label(label: &str) -> (r: String)
    ensures
        r@ == spec_unescape(label@),
{
    let chars = chars_of(label);
    let n: usize = chars.len();
    if !quoted_chars(&chars) {
        let r = replace_in(&chars, 0, n, '_', ' ');
        assert(chars@.subrange(0, n as int) =~= chars@);
        return r;
    }
    let ghost s = inner(chars@);
    let mut out: Vec<char> = Vec::new();
    let mut i: usize = 1;
    assert(s.skip(0) =~= s);
    while i < n - 1
        invariant
            1 <= i <= n - 1,
            n == chars.len(),
            s == inner(chars@),
            halve_quotes(s) == out@ + halve_quotes(s.skip(i - 1)),
        decreases n - i,
    {
        let ghost rest = s.skip(i - 1);
        assert(rest[0] == chars@[i as int]);
        let c: char = chars[i];
        out.push(c);
        if c == '\'' && i + 1 < n - 1 && chars[i + 1] == '\'' {
            assert(rest[1] == chars@[i + 1]);
            assert(rest.skip(2) =~= s.skip(i + 1));
            assert(out@ + halve_quotes(s.skip(i + 1)) =~= halve_quotes(s));
            i = i + 2;
        } else {
            if i + 1 < n - 1 {
                assert(rest[1] == chars@[i + 1]);
            }
            assert(rest.skip(1) =~= s.skip(i as int));
            assert(out@ + halve_quotes(s.skip(i as int)) =~= halve_quotes(s));
            i = i + 1;
        }
    }
    assert(s.skip(i - 1).len() == 0);
    assert(out@ =~= halve_quotes(s));
    let m: usize = out.len();
    let r = replace_in(&out, 0, m, '_', ' ');
    assert(out@.subrange(0, m as int) =~= out@);
    r
}

} // verus!
