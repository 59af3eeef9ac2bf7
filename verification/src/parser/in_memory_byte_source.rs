//! A byte source that owns its whole input.

use vstd::prelude::*;
use vstd::slice::slice_subrange;
use vstd::slice::slice_to_vec;
use crate::parser::byte_source::ByteModel;
use crate::parser::byte_source::ByteSource;
use crate::parser::byte_source::bytes_of;

verus! {

/// A cursor over a buffer held in memory.
pub struct InMemoryByteSource {
    input: Vec<u8>,
    pos: usize,
}

impl InMemoryByteSource {
    /// A source over `bytes`, positioned at their start.
    pub fn from_vec(bytes: Vec<u8>) -> (r: Self)
        ensures
            bytes_of(&r) == bytes@,
            r.spec_position() == 0,
    {
        let r = InMemoryByteSource { input: bytes, pos: 0 };
        assert(bytes_of(&r) =~= bytes@);
        r
    }

    /// The bytes from `start` up to the cursor, when `start` does not lie past
    /// the cursor and the cursor does not lie past the end.
    pub fn slice_from(&self, start: usize) -> (r: Option<&[u8]>)
        ensures
            r is Some <==> start <= self.spec_position() <= bytes_of(self).len(),
            r is Some ==> r->0@ == bytes_of(self).subrange(
                start as int,
                self.spec_position() as int,
            ),
    {
        if start <= self.pos && self.pos <= self.input.len() {
            Some(slice_subrange(self.input.as_slice(), start, self.pos))
        } else {
            None
        }
    }
}

impl ByteModel for InMemoryByteSource {
    closed spec fn spec_len(&self) -> usize {
        self.input.len()
    }

    closed spec fn spec_byte(&self, index: usize) -> u8 {
        self.input@[index as int]
    }

    closed spec fn spec_position(&self) -> usize {
        self.pos
    }
}

impl ByteSource for InMemoryByteSource {
    fn peek(&mut self) -> (r: Option<u8>) {
        if self.pos < self.input.len() {
            Some(self.input[self.pos])
        } else {
            None
        }
    }

    fn next_byte(&mut self) -> (r: Option<u8>) {
        if self.pos < self.input.len() {
            let b: u8 = self.input[self.pos];
            self.pos = self.pos + 1;
            Some(b)
        } else {
            None
        }
    }

    fn peek_slice(&mut self, k: usize) -> (r: &[u8]) {
        let len: usize = self.input.len();
        if self.pos < len {
            let end: usize = if k <= len - self.pos {
                self.pos + k
            } else {
                len
            };
            slice_subrange(self.input.as_slice(), self.pos, end)
        } else {
            slice_subrange(self.input.as_slice(), 0, 0)
        }
    }

    fn get_context(&mut self, k: usize) -> (r: Vec<u8>) {
        let len: usize = self.input.len();
        if self.pos < len {
            let end: usize = if k <= len - self.pos {
                self.pos + k
            } else {
                len
            };
            slice_to_vec(slice_subrange(self.input.as_slice(), self.pos, end))
        } else {
            Vec::new()
        }
    }

    fn position(&self) -> (r: usize) {
        self.pos
    }

    fn set_position(&mut self, pos: usize) {
        self.pos = pos;
    }

    fn is_eof(&mut self) -> (r: bool) {
        self.pos >= self.input.len()
    }
}

} // verus!
