//! The mathematics of scanning: what each cursor operation finds in a byte
//! sequence, stated without reference to any cursor.

use vstd::prelude::*;
use crate::parser::byte_source::window;

verus! {

/// Space, tab, line feed and carriage return.
pub open spec fn is_whitespace(b: u8) -> bool {
    b == 32 || b == 9 || b == 10 || b == 13
}

/// `b` with an upper-case ASCII letter mapped to its lower-case form.
pub open spec fn ascii_lower(b: u8) -> u8 {
    if 65 <= b <= 90 {
        (b + 32) as u8
    } else {
        b
    }
}

/// `b` with a lower-case ASCII letter mapped to its upper-case form.
pub open spec fn ascii_upper(b: u8) -> u8 {
    if 97 <= b <= 122 {
        (b - 32) as u8
    } else {
        b
    }
}

/// Whether `input` is `pattern` or either ASCII case variant of it.
pub open spec fn byte_matches(input: u8, pattern: u8) -> bool {
    input == pattern || input == ascii_lower(pattern) || input == ascii_upper(pattern)
}

/// Whether two sequences have one length and match byte for byte, ignoring
/// ASCII case as `byte_matches` does.
pub open spec fn bytes_match(input: Seq<u8>, pattern: Seq<u8>) -> bool {
    &&& input.len() == pattern.len()
    &&& forall|i: int| 0 <= i < pattern.len() ==> byte_matches(#[trigger] input[i], pattern[i])
}

/// Whether `pattern` stands at `pos` in `bytes`, ignoring ASCII case.
pub open spec fn sequence_at(bytes: Seq<u8>, pos: int, pattern: Seq<u8>) -> bool {
    bytes_match(window(bytes, pos, pattern.len() as int), pattern)
}

/// The bytes on which a forward scan comes to rest.
pub ghost enum Stop {
    /// Any byte that is not whitespace.
    NotWhitespace,
    /// One given byte.
    Byte(u8),
    /// Any byte of a given set.
    AnyOf(Seq<u8>),
    /// Any byte that cannot stand in a decimal number.
    NotNumeric,
}

/// The bytes that may stand in a decimal number: digits, point, signs and the
/// exponent letter in either case.
pub open spec fn is_numeric(b: u8) -> bool {
    (48 <= b <= 57) || b == 46 || b == 45 || b == 43 || b == 101 || b == 69
}

/// Whether a scan for `stop` comes to rest on `b`.
pub open spec fn stops(stop: Stop, b: u8) -> bool {
    match stop {
        Stop::NotWhitespace => !is_whitespace(b),
        Stop::Byte(t) => b == t,
        Stop::AnyOf(set) => set.contains(b),
        Stop::NotNumeric => !is_numeric(b),
    }
}

/// The first offset at or after `pos` whose byte satisfies `stop`; the length
/// of `bytes` when there is none, and `pos` itself when it lies past the end.
pub open spec fn first_where(bytes: Seq<u8>, pos: int, stop: Stop) -> int
    decreases bytes.len() - pos,
{
    if pos < 0 || pos >= bytes.len() {
        pos
    } else if stops(stop, bytes[pos]) {
        pos
    } else {
        first_where(bytes, pos + 1, stop)
    }
}

/// `first_where` names the least stopping offset.
pub proof fn lemma_first_where(bytes: Seq<u8>, pos: int, stop: Stop)
    requires
        0 <= pos,
    ensures
        pos <= first_where(bytes, pos, stop),
        pos <= bytes.len() ==> first_where(bytes, pos, stop) <= bytes.len(),
        first_where(bytes, pos, stop) < bytes.len() ==> stops(
            stop,
            bytes[first_where(bytes, pos, stop)],
        ),
        forall|k: int| pos <= k < first_where(bytes, pos, stop) ==> !stops(stop, #[trigger] bytes[k]),
    decreases bytes.len() - pos,
{
    if pos < bytes.len() && !stops(stop, bytes[pos]) {
        lemma_first_where(bytes, pos + 1, stop);
    }
}

/// Where skipping whitespace from `pos` ends.
pub open spec fn whitespace_end(bytes: Seq<u8>, pos: int) -> int {
    first_where(bytes, pos, Stop::NotWhitespace)
}

/// The first offset at or after `pos` that holds `target`, if there is one
/// before the end.
pub open spec fn find_byte(bytes: Seq<u8>, pos: int, target: u8) -> int {
    first_where(bytes, pos, Stop::Byte(target))
}

/// The first offset at or after `pos` whose byte occurs in `targets`.
pub open spec fn find_any(bytes: Seq<u8>, pos: int, targets: Seq<u8>) -> int {
    first_where(bytes, pos, Stop::AnyOf(targets))
}

/// The first offset at or after `pos` at which `pattern` stands, or `None`
/// when it stands nowhere from `pos` on.
pub open spec fn find_sequence(bytes: Seq<u8>, pos: int, pattern: Seq<u8>) -> Option<int>
    decreases bytes.len() - pos,
{
    if pos < 0 || window(bytes, pos, pattern.len() as int).len() < pattern.len() {
        None
    } else if sequence_at(bytes, pos, pattern) {
        Some(pos)
    } else {
        find_sequence(bytes, pos + 1, pattern)
    }
}

/// Where a cursor rests after a failed search for `pattern` from `pos`: on the
/// first offset from which too few bytes are left to hold it.
pub open spec fn exhausted_at(bytes: Seq<u8>, pos: int, pattern: Seq<u8>) -> int {
    if pos + pattern.len() <= bytes.len() {
        bytes.len() - pattern.len() + 1
    } else {
        pos
    }
}

/// A found pattern lies at or after the start of the search and inside the
/// bytes.
pub proof fn lemma_find_sequence(bytes: Seq<u8>, pos: int, pattern: Seq<u8>)
    requires
        0 <= pos,
    ensures
        find_sequence(bytes, pos, pattern) matches Some(at) ==> pos <= at && sequence_at(
            bytes,
            at,
            pattern,
        ) && forall|k: int| pos <= k < at ==> !#[trigger] sequence_at(bytes, k, pattern),
        find_sequence(bytes, pos, pattern) is None ==> forall|k: int|
            pos <= k ==> !#[trigger] sequence_at(bytes, k, pattern),
    decreases bytes.len() - pos,
{
    if window(bytes, pos, pattern.len() as int).len() >= pattern.len() && !sequence_at(
        bytes,
        pos,
        pattern,
    ) {
        lemma_find_sequence(bytes, pos + 1, pattern);
    }
}

/// Where a comment that opens at `pos` ends: one past its closing bracket.
/// `None` when no byte at `pos` opens a comment or nothing closes it.
pub open spec fn comment_end(bytes: Seq<u8>, pos: int) -> Option<int> {
    if 0 <= pos < bytes.len() && bytes[pos] == 91 {
        let close = find_byte(bytes, pos + 1, 93);
        if close < bytes.len() {
            Some(close + 1)
        } else {
            None
        }
    } else {
        None
    }
}

/// Whether a comment opens at `pos`.
pub open spec fn comment_opens(bytes: Seq<u8>, pos: int) -> bool {
    0 <= pos < bytes.len() && bytes[pos] == 91
}

/// Where skipping whitespace and comments from `pos` ends, or `None` when a
/// comment met on the way is never closed.
pub open spec fn blank_end(bytes: Seq<u8>, pos: int) -> Option<int>
    decreases bytes.len() - pos,
    when 0 <= pos
    via blank_end_decreases
{
    let p = whitespace_end(bytes, pos);
    if comment_opens(bytes, p) {
        match comment_end(bytes, p) {
            Some(q) => blank_end(bytes, q),
            None => None,
        }
    } else {
        Some(p)
    }
}

#[via_fn]
proof fn blank_end_decreases(bytes: Seq<u8>, pos: int) {
    let p = whitespace_end(bytes, pos);
    lemma_first_where(bytes, pos, Stop::NotWhitespace);
    if comment_opens(bytes, p) {
        lemma_first_where(bytes, p + 1, Stop::Byte(93));
    }
}

/// Where an unterminated comment met while skipping blanks from `pos` opens.
pub open spec fn unclosed_at(bytes: Seq<u8>, pos: int) -> int
    decreases bytes.len() - pos,
    when 0 <= pos
    via unclosed_at_decreases
{
    let p = whitespace_end(bytes, pos);
    if comment_opens(bytes, p) {
        match comment_end(bytes, p) {
            Some(q) => unclosed_at(bytes, q),
            None => p,
        }
    } else {
        p
    }
}

#[via_fn]
proof fn unclosed_at_decreases(bytes: Seq<u8>, pos: int) {
    let p = whitespace_end(bytes, pos);
    lemma_first_where(bytes, pos, Stop::NotWhitespace);
    if comment_opens(bytes, p) {
        lemma_first_where(bytes, p + 1, Stop::Byte(93));
    }
}

/// Skipping blanks never moves backwards and ends on a byte that is neither
/// whitespace nor the start of a comment.
pub proof fn lemma_blank_end(bytes: Seq<u8>, pos: int)
    requires
        0 <= pos,
    ensures
        blank_end(bytes, pos) matches Some(e) ==> pos <= e && (pos <= bytes.len() ==> e
            <= bytes.len()) && !comment_opens(bytes, e) && (e < bytes.len() ==> !is_whitespace(
            bytes[e],
        )),
        blank_end(bytes, pos) is None ==> pos <= unclosed_at(bytes, pos) < bytes.len(),
    decreases bytes.len() - pos,
{
    let p = whitespace_end(bytes, pos);
    lemma_first_where(bytes, pos, Stop::NotWhitespace);
    if comment_opens(bytes, p) {
        lemma_first_where(bytes, p + 1, Stop::Byte(93));
        match comment_end(bytes, p) {
            Some(q) => {
                lemma_blank_end(bytes, q);
            },
            None => {},
        }
    }
}

/// The bytes of `label`, each read as the character of the same code.
pub open spec fn byte_chars(label: Seq<u8>) -> Seq<char> {
    Seq::new(label.len(), |i: int| label[i] as char)
}

/// The content of a quoted label whose body starts at `pos`, with every
/// doubled quote read as one, and the offset after its closing quote. A body
/// that is never closed runs to the end of the bytes.
pub open spec fn quoted_body(bytes: Seq<u8>, pos: int) -> (Seq<u8>, int)
    decreases bytes.len() - pos,
{
    if pos < 0 || pos >= bytes.len() {
        (Seq::empty(), pos)
    } else if bytes[pos] == 39 {
        if pos + 1 < bytes.len() && bytes[pos + 1] == 39 {
            let rest = quoted_body(bytes, pos + 2);
            (seq![39u8] + rest.0, rest.1)
        } else {
            (Seq::empty(), pos + 1)
        }
    } else {
        let rest = quoted_body(bytes, pos + 1);
        (seq![bytes[pos]] + rest.0, rest.1)
    }
}

/// A quoted body ends at or after its start and inside the bytes.
pub proof fn lemma_quoted_body(bytes: Seq<u8>, pos: int)
    requires
        0 <= pos,
    ensures
        pos <= quoted_body(bytes, pos).1,
        pos <= bytes.len() ==> quoted_body(bytes, pos).1 <= bytes.len(),
        quoted_body(bytes, pos).0.len() <= quoted_body(bytes, pos).1 - pos,
    decreases bytes.len() - pos,
{
    if pos < bytes.len() {
        if bytes[pos] == 39 {
            if pos + 1 < bytes.len() && bytes[pos + 1] == 39 {
                lemma_quoted_body(bytes, pos + 2);
            }
        } else {
            lemma_quoted_body(bytes, pos + 1);
        }
    }
}

/// The label that starts at `pos`, after leading whitespace: a quoted one when
/// a quote opens it, else the bytes up to the first of `delimiters`. The
/// second component is the offset after the label.
pub open spec fn label_at(bytes: Seq<u8>, pos: int, delimiters: Seq<u8>) -> (Seq<u8>, int) {
    let start = whitespace_end(bytes, pos);
    if 0 <= start < bytes.len() && bytes[start] == 39 {
        quoted_body(bytes, start + 1)
    } else {
        unquoted_at(bytes, start, delimiters)
    }
}

/// The bytes from `pos` up to the first of `delimiters`, and where they end.
pub open spec fn unquoted_at(bytes: Seq<u8>, pos: int, delimiters: Seq<u8>) -> (Seq<u8>, int) {
    let end = find_any(bytes, pos, delimiters);
    if 0 <= pos <= end <= bytes.len() {
        (bytes.subrange(pos, end), end)
    } else {
        (Seq::empty(), pos)
    }
}

/// A label ends at or after the offset it was looked for at.
pub proof fn lemma_label_at(bytes: Seq<u8>, pos: int, delimiters: Seq<u8>)
    requires
        0 <= pos,
    ensures
        pos <= label_at(bytes, pos, delimiters).1,
        pos <= bytes.len() ==> label_at(bytes, pos, delimiters).1 <= bytes.len(),
{
    let start = whitespace_end(bytes, pos);
    lemma_first_where(bytes, pos, Stop::NotWhitespace);
    if 0 <= start < bytes.len() && bytes[start] == 39 {
        lemma_quoted_body(bytes, start + 1);
    } else {
        lemma_first_where(bytes, start, Stop::AnyOf(delimiters));
    }
}

/// Where the cursor rests after a search for `pattern` from `pos`: on the
/// pattern, after it when `inclusive`, or where the search was exhausted.
pub open spec fn sequence_rest(bytes: Seq<u8>, pos: int, pattern: Seq<u8>, inclusive: bool) -> int {
    match find_sequence(bytes, pos, pattern) {
        Some(at) => if inclusive {
            at + pattern.len()
        } else {
            at
        },
        None => exhausted_at(bytes, pos, pattern),
    }
}

/// Where the body of a quoted label starts whose opening quote is at `pos`.
pub open spec fn body_start(bytes: Seq<u8>, pos: int) -> int {
    if 0 <= pos < bytes.len() {
        pos + 1
    } else {
        pos
    }
}

/// Whether the at most `k` bytes from `pos` on are all ASCII codes.
pub open spec fn all_ascii_window(bytes: Seq<u8>, pos: int, k: int) -> bool {
    forall|i: int| 0 <= i < window(bytes, pos, k).len() ==> #[trigger] window(bytes, pos, k)[i] < 128
}

} // verus!
