//! A scanner over a byte source: blanks and comments, literals matched without
//! regard to ASCII case, searches, and labels.

use vstd::prelude::*;
use crate::parser::byte_source::ByteModel;
use vstd::slice::slice_to_vec;
use vstd::string::*;
use crate::parser::byte_source::ByteSource;
use crate::parser::byte_source::byte_at;
use crate::parser::byte_source::bytes_of;
use crate::parser::byte_source::window;
use crate::parser::in_memory_byte_source::InMemoryByteSource;
use crate::parser::parsing_error::ErrorKind;
use crate::parser::parsing_error::ParsingError;
use crate::parser::parsing_error::error_at;
use crate::parser::parsing_error::lossy_string;
use crate::parser::parsing_error::lossy_text;
use crate::parser::scan::Stop;
use crate::parser::scan::all_ascii_window;
use crate::parser::scan::ascii_lower;
use crate::parser::scan::ascii_upper;
use crate::parser::scan::blank_end;
use crate::parser::scan::body_start;
use crate::parser::scan::byte_chars;
use crate::parser::scan::byte_matches;
use crate::parser::scan::bytes_match;
use crate::parser::scan::comment_end;
use crate::parser::scan::comment_opens;
use crate::parser::scan::exhausted_at;
use crate::parser::scan::find_any;
use crate::parser::scan::find_byte;
use crate::parser::scan::find_sequence;
use crate::parser::scan::is_whitespace;
use crate::parser::scan::label_at;
use crate::parser::scan::lemma_blank_end;
use crate::parser::scan::lemma_first_where;
use crate::parser::scan::lemma_label_at;
use crate::parser::scan::lemma_quoted_body;
use crate::parser::scan::quoted_body;
use crate::parser::scan::sequence_at;
use crate::parser::scan::sequence_rest;
use crate::parser::scan::unquoted_at;
use crate::parser::scan::whitespace_end;

verus! {

/// Whether a `consume_until` operation also consumes the terminator it found.
#[derive(Debug, Copy, Clone, PartialEq, Eq, Structural)]
pub enum ConsumeMode {
    /// The terminator is consumed along with everything before it.
    Inclusive,
    /// The cursor stops on the terminator.
    Exclusive,
}

/// `String::push` appends one character.
pub assume_specification[ std::string::String::push ](s: &mut std::string::String, c: char)
    ensures
        final(s)@ == old(s)@.push(c),
;

/// Whether `b` is a space, a tab, a line feed or a carriage return.
pub fn is_whitespace_byte(b: u8) -> (r: bool)
    ensures
        r == is_whitespace(b),
{
    b == 32 || b == 9 || b == 10 || b == 13
}

/// `b` in lower case, where it is an ASCII letter.
pub fn to_ascii_lower(b: u8) -> (r: u8)
    ensures
        r == ascii_lower(b),
{
    if 65 <= b && b <= 90 {
        b + 32
    } else {
        b
    }
}

/// `b` in upper case, where it is an ASCII letter.
pub fn to_ascii_upper(b: u8) -> (r: u8)
    ensures
        r == ascii_upper(b),
{
    if 97 <= b && b <= 122 {
        b - 32
    } else {
        b
    }
}

/// Whether `input` is `pattern` in either ASCII case.
pub fn matches_byte(input: u8, pattern: u8) -> (r: bool)
    ensures
        r == byte_matches(input, pattern),
{
    input == pattern || input == to_ascii_lower(pattern) || input == to_ascii_upper(pattern)
}

/// Whether `b` occurs in `set`.
pub fn contains_byte(set: &[u8], b: u8) -> (r: bool)
    ensures
        r == set@.contains(b),
{
    let mut i: usize = 0;
    while i < set.len()
        invariant
            i <= set.len(),
            forall|k: int| 0 <= k < i ==> set@[k] != b,
        decreases set.len() - i,
    {
        if set[i] == b {
            return true;
        }
        i = i + 1;
    }
    false
}

/// Whether `input` and `pattern` have one length and match byte for byte,
/// ignoring ASCII case.
pub fn matches_bytes(input: &[u8], pattern: &[u8]) -> (r: bool)
    ensures
        r == bytes_match(input@, pattern@),
{
    if input.len() != pattern.len() {
        return false;
    }
    let mut i: usize = 0;
    while i < pattern.len()
        invariant
            i <= pattern.len(),
            input.len() == pattern.len(),
            forall|k: int| 0 <= k < i ==> byte_matches(#[trigger] input@[k], pattern@[k]),
        decreases pattern.len() - i,
    {
        if !matches_byte(input[i], pattern[i]) {
            return false;
        }
        i = i + 1;
    }
    true
}

/// A scanner over the bytes of a source.
pub struct ByteParser<S: ByteSource> {
    source: S,
}

impl ByteParser<InMemoryByteSource> {
    /// A parser over the UTF-8 bytes of `slice`.
    pub fn from_str(slice: &str) -> (r: Self)
        ensures
            r.spec_bytes() == slice.spec_bytes(),
            r.spec_position() == 0,
    {
        ByteParser { source: InMemoryByteSource::from_vec(slice.as_bytes_vec()) }
    }

    /// A parser over a copy of `bytes`.
    pub fn from_bytes(bytes: &[u8]) -> (r: Self)
        ensures
            r.spec_bytes() == bytes@,
            r.spec_position() == 0,
    {
        ByteParser { source: InMemoryByteSource::from_vec(slice_to_vec(bytes)) }
    }

    /// The bytes from `start` up to the cursor.
    pub fn slice_from(&self, start: usize) -> (r: &[u8])
        requires
            start <= self.spec_position() <= self.spec_bytes().len(),
        ensures
            r@ == self.spec_bytes().subrange(start as int, self.spec_position() as int),
    {
        self.source.slice_from(start).unwrap()
    }
}

impl<S: ByteSource> ByteParser<S> {
    /// The bytes the parser reads.
    pub closed spec fn spec_bytes(&self) -> Seq<u8> {
        bytes_of(&self.source)
    }

    /// The offset of the next byte to be read.
    pub closed spec fn spec_position(&self) -> usize {
        self.source.spec_position()
    }

    /// The input is never longer than the machine's offsets reach.
    pub proof fn lemma_bytes_fit(&self)
        ensures
            self.spec_bytes().len() <= usize::MAX,
    {

    }

    /// A parser that reads from `source`, at the source's position.
    pub fn new(source: S) -> (r: Self)
        ensures
            r.spec_bytes() == bytes_of(&source),
            r.spec_position() == source.spec_position(),
    {
        ByteParser { source }
    }

    /// The current byte, without consuming it.
    pub fn peek(&mut self) -> (r: Option<u8>)
        ensures
            final(self).spec_bytes() == old(self).spec_bytes(),
            final(self).spec_position() == old(self).spec_position(),
            r == byte_at(old(self).spec_bytes(), old(self).spec_position() as int),
    {
        self.source.peek()
    }

    /// The current byte; the cursor moves past it when there is one.
    pub fn next(&mut self) -> (r: Option<u8>)
        ensures
            final(self).spec_bytes() == old(self).spec_bytes(),
            r == byte_at(old(self).spec_bytes(), old(self).spec_position() as int),
            r is Some ==> final(self).spec_position() == old(self).spec_position() + 1,
            r is None ==> final(self).spec_position() == old(self).spec_position(),
    {
        self.source.next_byte()
    }

    /// Consumes whitespace up to the first byte that is none.
    pub fn skip_whitespace(&mut self)
        ensures
            final(self).spec_bytes() == old(self).spec_bytes(),
            final(self).spec_position() == whitespace_end(
                old(self).spec_bytes(),
                old(self).spec_position() as int,
            ),
    {
        let ghost bytes = self.spec_bytes();
        let ghost start = self.spec_position() as int;
        loop
            invariant
                bytes == old(self).spec_bytes(),
                start == old(self).spec_position(),
                self.spec_bytes() == bytes,
                whitespace_end(bytes, self.spec_position() as int) == whitespace_end(bytes, start),
            ensures
                self.spec_bytes() == bytes,
                self.spec_position() == whitespace_end(bytes, start),
            decreases bytes.len() - self.spec_position(),
        {
            match self.source.peek() {
                Some(b) => {
                    if is_whitespace_byte(b) {
                        self.source.next_byte();
                    } else {
                        break ;
                    }
                },
                None => {
                    break ;
                },
            }
        }
    }

    /// Consumes one comment in square brackets, if one opens at the cursor.
    ///
    /// Returns whether there was one. A comment that is never closed is an
    /// error, raised at the end of the input, where the search for the closing
    /// bracket stopped.
    pub fn skip_comment(&mut self) -> (r: Result<bool, ParsingError>)
        ensures
            final(self).spec_bytes() == old(self).spec_bytes(),
            match r {
                Ok(found) => {
                    &&& found == comment_opens(
                        old(self).spec_bytes(),
                        old(self).spec_position() as int,
                    )
                    &&& found ==> comment_end(
                        old(self).spec_bytes(),
                        old(self).spec_position() as int,
                    ) == Some(final(self).spec_position() as int)
                    &&& !found ==> final(self).spec_position() == old(self).spec_position()
                },
                Err(e) => {
                    &&& comment_opens(old(self).spec_bytes(), old(self).spec_position() as int)
                    &&& comment_end(old(self).spec_bytes(), old(self).spec_position() as int)
                        is None
                    &&& final(self).spec_position() == old(self).spec_bytes().len()
                    &&& e@ == error_at(
                        ErrorKind::UnclosedComment,
                        old(self).spec_bytes(),
                        final(self).spec_position(),
                    )
                },
            },
    {
        proof {
            self.lemma_bytes_fit();
            lemma_first_where(self.spec_bytes(), self.spec_position() + 1, Stop::Byte(93));
        }
        match self.source.peek() {
            Some(b) => {
                if b == 91 {
                    self.source.next_byte();
                    if !self.consume_until(93, ConsumeMode::Inclusive) {
                        return Err(ParsingError::unclosed_comment(self));
                    }
                    Ok(true)
                } else {
                    Ok(false)
                }
            },
            None => Ok(false),
        }
    }

    /// Consumes whitespace and comments until neither follows.
    ///
    /// Fails on the first comment that is never closed; the cursor then rests
    /// at the end of the input.
    pub fn skip_comment_and_whitespace(&mut self) -> (r: Result<(), ParsingError>)
        ensures
            final(self).spec_bytes() == old(self).spec_bytes(),
            old(self).spec_position() <= final(self).spec_position(),
            match r {
                Ok(()) => blank_end(old(self).spec_bytes(), old(self).spec_position() as int)
                    == Some(final(self).spec_position() as int),
                Err(e) => {
                    &&& blank_end(old(self).spec_bytes(), old(self).spec_position() as int)
                        is None
                    &&& final(self).spec_position() == old(self).spec_bytes().len()
                    &&& e@ == error_at(
                        ErrorKind::UnclosedComment,
                        old(self).spec_bytes(),
                        final(self).spec_position(),
                    )
                },
            },
    {
        let ghost bytes = self.spec_bytes();
        let ghost start = self.spec_position() as int;
        proof {
            self.lemma_bytes_fit();
            lemma_blank_end(bytes, start);
        }
        loop
            invariant
                bytes == old(self).spec_bytes(),
                start == old(self).spec_position(),
                self.spec_bytes() == bytes,
                bytes.len() <= usize::MAX,
                start <= self.spec_position(),
                blank_end(bytes, self.spec_position() as int) == blank_end(bytes, start),
            decreases bytes.len() - self.spec_position(),
        {
            let ghost here = self.spec_position() as int;
            proof {
                lemma_first_where(bytes, here, Stop::NotWhitespace);
                lemma_first_where(bytes, whitespace_end(bytes, here) + 1, Stop::Byte(93));
            }
            self.skip_whitespace();
            match self.skip_comment() {
                Ok(found) => {
                    if !found {
                        return Ok(());
                    }
                },
                Err(e) => {
                    return Err(e);
                },
            }
        }
    }

    /// Whether the current byte is `ch` in either ASCII case.
    pub fn peek_is(&mut self, ch: u8) -> (r: bool)
        ensures
            final(self).spec_bytes() == old(self).spec_bytes(),
            final(self).spec_position() == old(self).spec_position(),
            r == match byte_at(old(self).spec_bytes(), old(self).spec_position() as int) {
                Some(b) => byte_matches(b, ch),
                None => false,
            },
    {
        match self.source.peek() {
            Some(b) => matches_byte(b, ch),
            None => false,
        }
    }

    /// Whether the bytes of `word` follow, ignoring ASCII case.
    pub fn peek_is_word(&mut self, word: &str) -> (r: bool)
        ensures
            final(self).spec_bytes() == old(self).spec_bytes(),
            final(self).spec_position() == old(self).spec_position(),
            r == sequence_at(
                old(self).spec_bytes(),
                old(self).spec_position() as int,
                word.spec_bytes(),
            ),
    {
        self.peek_is_sequence(word.as_bytes())
    }

    /// Whether `sequence` follows, ignoring ASCII case.
    pub fn peek_is_sequence(&mut self, sequence: &[u8]) -> (r: bool)
        ensures
            final(self).spec_bytes() == old(self).spec_bytes(),
            final(self).spec_position() == old(self).spec_position(),
            r == sequence_at(old(self).spec_bytes(), old(self).spec_position() as int, sequence@),
    {
        let w = self.source.peek_slice(sequence.len());
        matches_bytes(w, sequence)
    }

    /// Consumes the current byte if it is `ch` in either ASCII case.
    pub fn consume_if(&mut self, ch: u8) -> (r: bool)
        ensures
            final(self).spec_bytes() == old(self).spec_bytes(),
            r == match byte_at(old(self).spec_bytes(), old(self).spec_position() as int) {
                Some(b) => byte_matches(b, ch),
                None => false,
            },
            r ==> final(self).spec_position() == old(self).spec_position() + 1,
            !r ==> final(self).spec_position() == old(self).spec_position(),
    {
        if self.peek_is(ch) {
            self.source.next_byte();
            true
        } else {
            false
        }
    }

    /// Consumes the bytes of `word` if they follow, ignoring ASCII case.
    pub fn consume_if_word(&mut self, word: &str) -> (r: bool)
        ensures
            final(self).spec_bytes() == old(self).spec_bytes(),
            r == sequence_at(
                old(self).spec_bytes(),
                old(self).spec_position() as int,
                word.spec_bytes(),
            ),
            r ==> final(self).spec_position() == old(self).spec_position()
                + word.spec_bytes().len(),
            !r ==> final(self).spec_position() == old(self).spec_position(),
    {
        self.consume_if_sequence(word.as_bytes())
    }

    /// Consumes `sequence` if it follows, ignoring ASCII case.
    pub fn consume_if_sequence(&mut self, sequence: &[u8]) -> (r: bool)
        ensures
            final(self).spec_bytes() == old(self).spec_bytes(),
            r == sequence_at(old(self).spec_bytes(), old(self).spec_position() as int, sequence@),
            r ==> final(self).spec_position() == old(self).spec_position() + sequence@.len(),
            !r ==> final(self).spec_position() == old(self).spec_position(),
    {
        proof {
            self.lemma_bytes_fit();
        }
        if self.peek_is_sequence(sequence) {
            let pos: usize = self.source.position();
            if sequence.len() > 0 {
                self.source.set_position(pos + sequence.len());
            }
            true
        } else {
            false
        }
    }

    /// Consumes bytes up to the first `target`.
    ///
    /// Returns whether there is one. If so the cursor rests on it, or after
    /// it when `mode` is `Inclusive`; if not, at the end of the input.
    pub fn consume_until(&mut self, target: u8, mode: ConsumeMode) -> (r: bool)
        ensures
            final(self).spec_bytes() == old(self).spec_bytes(),
            r == (find_byte(old(self).spec_bytes(), old(self).spec_position() as int, target)
                < old(self).spec_bytes().len()),
            final(self).spec_position() == find_byte(
                old(self).spec_bytes(),
                old(self).spec_position() as int,
                target,
            ) + (if r && mode == ConsumeMode::Inclusive {
                1int
            } else {
                0int
            }),
    {
        let ghost bytes = self.spec_bytes();
        let ghost start = self.spec_position() as int;
        proof {
            lemma_first_where(bytes, start, Stop::Byte(target));
        }
        loop
            invariant
                bytes == old(self).spec_bytes(),
                start == old(self).spec_position(),
                self.spec_bytes() == bytes,
                find_byte(bytes, self.spec_position() as int, target) == find_byte(
                    bytes,
                    start,
                    target,
                ),
            decreases bytes.len() - self.spec_position(),
        {
            match self.source.peek() {
                Some(b) => {
                    if b == target {
                        if mode == ConsumeMode::Inclusive {
                            self.source.next_byte();
                        }
                        return true;
                    }
                    self.source.next_byte();
                },
                None => {
                    return false;
                },
            }
        }
    }

    /// Consumes bytes up to the first that occurs in `targets`.
    ///
    /// Returns that byte, if there is one. The cursor then rests on it, or
    /// after it when `mode` is `Inclusive`; without one, at the end of the
    /// input.
    pub fn consume_until_any(&mut self, targets: &[u8], mode: ConsumeMode) -> (r: Option<u8>)
        ensures
            final(self).spec_bytes() == old(self).spec_bytes(),
            r == byte_at(
                old(self).spec_bytes(),
                find_any(old(self).spec_bytes(), old(self).spec_position() as int, targets@),
            ),
            final(self).spec_position() == find_any(
                old(self).spec_bytes(),
                old(self).spec_position() as int,
                targets@,
            ) + (if r is Some && mode == ConsumeMode::Inclusive {
                1int
            } else {
                0int
            }),
    {
        let ghost bytes = self.spec_bytes();
        let ghost start = self.spec_position() as int;
        proof {
            lemma_first_where(bytes, start, Stop::AnyOf(targets@));
        }
        loop
            invariant
                bytes == old(self).spec_bytes(),
                start == old(self).spec_position(),
                self.spec_bytes() == bytes,
                find_any(bytes, self.spec_position() as int, targets@) == find_any(
                    bytes,
                    start,
                    targets@,
                ),
            decreases bytes.len() - self.spec_position(),
        {
            match self.source.peek() {
                Some(b) => {
                    if contains_byte(targets, b) {
                        if mode == ConsumeMode::Inclusive {
                            self.source.next_byte();
                        }
                        return Some(b);
                    }
                    self.source.next_byte();
                },
                None => {
                    return None;
                },
            }
        }
    }

    /// Consumes bytes up to the first occurrence of `word`, ignoring ASCII
    /// case. See `consume_until_sequence`.
    pub fn consume_until_word(&mut self, word: &str, mode: ConsumeMode) -> (r: bool)
        ensures
            final(self).spec_bytes() == old(self).spec_bytes(),
            r == find_sequence(
                old(self).spec_bytes(),
                old(self).spec_position() as int,
                word.spec_bytes(),
            ) is Some,
            final(self).spec_position() == sequence_rest(
                old(self).spec_bytes(),
                old(self).spec_position() as int,
                word.spec_bytes(),
                mode == ConsumeMode::Inclusive,
            ),
    {
        self.consume_until_sequence(word.as_bytes(), mode)
    }

    /// Consumes bytes up to the first occurrence of `sequence`, ignoring ASCII
    /// case.
    ///
    /// Returns whether there is one. If so the cursor rests on its first byte,
    /// or after its last when `mode` is `Inclusive`; if not, on the first
    /// offset from which too few bytes are left to hold the sequence.
    pub fn consume_until_sequence(&mut self, sequence: &[u8], mode: ConsumeMode) -> (r: bool)
        ensures
            final(self).spec_bytes() == old(self).spec_bytes(),
            r == find_sequence(old(self).spec_bytes(), old(self).spec_position() as int, sequence@)
                is Some,
            final(self).spec_position() == sequence_rest(
                old(self).spec_bytes(),
                old(self).spec_position() as int,
                sequence@,
                mode == ConsumeMode::Inclusive,
            ),
    {
        let ghost bytes = self.spec_bytes();
        let ghost start = self.spec_position() as int;
        proof {
            self.lemma_bytes_fit();
        }
        loop
            invariant
                bytes == old(self).spec_bytes(),
                start == old(self).spec_position(),
                self.spec_bytes() == bytes,
                bytes.len() <= usize::MAX,
                start <= self.spec_position(),
                find_sequence(bytes, self.spec_position() as int, sequence@) == find_sequence(
                    bytes,
                    start,
                    sequence@,
                ),
                exhausted_at(bytes, self.spec_position() as int, sequence@) == exhausted_at(
                    bytes,
                    start,
                    sequence@,
                ),
            decreases bytes.len() - self.spec_position(),
        {
            let full: bool = self.source.peek_slice(sequence.len()).len() == sequence.len();
            if !full {
                return false;
            }
            if self.peek_is_sequence(sequence) {
                if mode == ConsumeMode::Inclusive {
                    self.consume_if_sequence(sequence);
                }
                return true;
            }
            self.source.next_byte();
        }
    }

    /// Whether the cursor stands at or past the end of the input.
    pub fn is_eof(&mut self) -> (r: bool)
        ensures
            final(self).spec_bytes() == old(self).spec_bytes(),
            final(self).spec_position() == old(self).spec_position(),
            r == (old(self).spec_position() >= old(self).spec_bytes().len()),
    {
        self.source.is_eof()
    }

    /// The offset of the next byte to be read.
    pub fn position(&self) -> (r: usize)
        ensures
            r == self.spec_position(),
    {
        self.source.position()
    }

    /// Moves the cursor to the absolute offset `pos`.
    pub fn set_position(&mut self, pos: usize)
        ensures
            final(self).spec_bytes() == old(self).spec_bytes(),
            final(self).spec_position() == pos,
    {
        self.source.set_position(pos);
    }

    /// Up to `k` bytes from the cursor on, without consuming them.
    pub fn get_context(&mut self, k: usize) -> (r: Vec<u8>)
        ensures
            final(self).spec_bytes() == old(self).spec_bytes(),
            final(self).spec_position() == old(self).spec_position(),
            r@ == window(old(self).spec_bytes(), old(self).spec_position() as int, k as int),
    {
        self.source.get_context(k)
    }

    /// Up to `k` bytes from the cursor on, decoded as text, with the
    /// replacement character in place of what is no valid UTF-8.
    pub fn get_context_as_string(&mut self, k: usize) -> (r: String)
        ensures
            final(self).spec_bytes() == old(self).spec_bytes(),
            final(self).spec_position() == old(self).spec_position(),
            r@ == lossy_text(
                window(old(self).spec_bytes(), old(self).spec_position() as int, k as int),
            ),
            all_ascii_window(old(self).spec_bytes(), old(self).spec_position() as int, k as int)
                ==> r@ == byte_chars(
                window(old(self).spec_bytes(), old(self).spec_position() as int, k as int),
            ),
    {
        let bytes = self.source.get_context(k);
        let r = lossy_string(&bytes);
        proof {
            if crate::parser::parsing_error::all_ascii(bytes@) {
                assert(r@ =~= byte_chars(bytes@));
            }
        }
        r
    }

    /// Skips whitespace and reads the label that follows: a quoted one when a
    /// quote opens it, else the bytes up to the first of `delimiters`.
    pub fn parse_label(&mut self, delimiters: &[u8]) -> (r: Result<String, ParsingError>)
        ensures
            final(self).spec_bytes() == old(self).spec_bytes(),
            old(self).spec_position() <= final(self).spec_position(),
            r matches Ok(label) && label@ == byte_chars(
                label_at(old(self).spec_bytes(), old(self).spec_position() as int, delimiters@).0,
            ),
            final(self).spec_position() == label_at(
                old(self).spec_bytes(),
                old(self).spec_position() as int,
                delimiters@,
            ).1,
    {
        proof {
            lemma_label_at(self.spec_bytes(), self.spec_position() as int, delimiters@);
            lemma_first_where(self.spec_bytes(), self.spec_position() as int, Stop::NotWhitespace);
        }
        self.skip_whitespace();
        match self.source.peek() {
            Some(b) => {
                if b == 39 {
                    self.parse_quoted_label()
                } else {
                    self.parse_unquoted_label(delimiters)
                }
            },
            None => self.parse_unquoted_label(delimiters),
        }
    }

    /// Reads a label in single quotes, of which the opening one stands at the
    /// cursor. Two quotes in a row inside it stand for one; a single one
    /// closes it, and so does the end of the input.
    pub fn parse_quoted_label(&mut self) -> (r: Result<String, ParsingError>)
        ensures
            final(self).spec_bytes() == old(self).spec_bytes(),
            old(self).spec_position() <= final(self).spec_position(),
            r matches Ok(label) && label@ == byte_chars(
                quoted_body(old(self).spec_bytes(), body_start(old(self).spec_bytes(),
                    old(self).spec_position() as int)).0,
            ),
            final(self).spec_position() == quoted_body(
                old(self).spec_bytes(),
                body_start(old(self).spec_bytes(), old(self).spec_position() as int),
            ).1,
    {
        let ghost bytes = self.spec_bytes();
        proof {
            self.lemma_bytes_fit();
        }
        self.source.next_byte();
        let ghost start = self.spec_position() as int;
        proof {
            lemma_quoted_body(bytes, start);
        }
        let mut label = String::new();
        let ghost mut acc: Seq<u8> = Seq::empty();
        loop
            invariant_except_break
                start <= self.spec_position(),
                label@ == byte_chars(acc),
                quoted_body(bytes, start).0 == acc + quoted_body(
                    bytes,
                    self.spec_position() as int,
                ).0,
                quoted_body(bytes, start).1 == quoted_body(bytes, self.spec_position() as int).1,
            invariant
                self.spec_bytes() == bytes,
                bytes.len() <= usize::MAX,
            ensures
                self.spec_bytes() == bytes,
                label@ == byte_chars(quoted_body(bytes, start).0),
                self.spec_position() == quoted_body(bytes, start).1,
            decreases bytes.len() - self.spec_position(),
        {
            let ghost here = self.spec_position() as int;
            match self.source.next_byte() {
                Some(b) => {
                    if b == 39 {
                        match self.source.peek() {
                            Some(c) => {
                                if c == 39 {
                                    label.push('\'');
                                    self.source.next_byte();
                                    proof {
                                        let rest = quoted_body(bytes, here + 2);
                                        assert(acc + (seq![39u8] + rest.0) =~= acc.push(39u8)
                                            + rest.0);
                                        acc = acc.push(39u8);
                                        assert(label@ =~= byte_chars(acc));
                                    }
                                } else {
                                    proof {
                                        assert(acc + Seq::<u8>::empty() =~= acc);
                                    }
                                    break ;
                                }
                            },
                            None => {
                                proof {
                                    assert(acc + Seq::<u8>::empty() =~= acc);
                                }
                                break ;
                            },
                        }
                    } else {
                        label.push(b as char);
                        proof {
                            let rest = quoted_body(bytes, here + 1);
                            assert(acc + (seq![b] + rest.0) =~= acc.push(b) + rest.0);
                            acc = acc.push(b);
                            assert(label@ =~= byte_chars(acc));
                        }
                    }
                },
                None => {
                    proof {
                        assert(acc + Seq::<u8>::empty() =~= acc);
                    }
                    break ;
                },
            }
        }
        Ok(label)
    }

    /// Reads the bytes up to the first of `delimiters`, or to the end of the
    /// input, as a label.
    pub fn parse_unquoted_label(&mut self, delimiters: &[u8]) -> (r: Result<String, ParsingError>)
        ensures
            final(self).spec_bytes() == old(self).spec_bytes(),
            old(self).spec_position() <= final(self).spec_position(),
            r matches Ok(label) && label@ == byte_chars(
                unquoted_at(old(self).spec_bytes(), old(self).spec_position() as int, delimiters@).0,
            ),
            final(self).spec_position() == unquoted_at(
                old(self).spec_bytes(),
                old(self).spec_position() as int,
                delimiters@,
            ).1,
    {
        let ghost bytes = self.spec_bytes();
        let ghost start = self.spec_position() as int;
        proof {
            self.lemma_bytes_fit();
            lemma_first_where(bytes, start, Stop::AnyOf(delimiters@));
        }
        let mut label = String::new();
        if self.source.is_eof() {
            proof {
                assert(label@ =~= byte_chars(unquoted_at(bytes, start, delimiters@).0));
            }
            return Ok(label);
        }
        loop
            invariant
                bytes == old(self).spec_bytes(),
                start == old(self).spec_position(),
                self.spec_bytes() == bytes,
                start <= self.spec_position() <= bytes.len(),
                find_any(bytes, self.spec_position() as int, delimiters@) == find_any(
                    bytes,
                    start,
                    delimiters@,
                ),
                label@ == byte_chars(bytes.subrange(start, self.spec_position() as int)),
            ensures
                self.spec_bytes() == bytes,
                start <= self.spec_position() <= bytes.len(),
                self.spec_position() == find_any(bytes, start, delimiters@),
                label@ == byte_chars(bytes.subrange(start, self.spec_position() as int)),
            decreases bytes.len() - self.spec_position(),
        {
            let ghost here = self.spec_position() as int;
            match self.source.peek() {
                Some(b) => {
                    if contains_byte(delimiters, b) {
                        break ;
                    }
                    label.push(b as char);
                    self.source.next_byte();
                    proof {
                        assert(bytes.subrange(start, here + 1) =~= bytes.subrange(start, here).push(
                            b,
                        ));
                        assert(label@ =~= byte_chars(bytes.subrange(start, here + 1)));
                    }
                },
                None => {
                    break ;
                },
            }
        }
        Ok(label)
    }
}

} // verus!
