//! The cursor abstraction that every parser in this crate reads through.

use vstd::prelude::*;

verus! {

/// The byte under position `pos` of `bytes`, or `None` at or past the end.
pub open spec fn byte_at(bytes: Seq<u8>, pos: int) -> Option<u8> {
    if 0 <= pos < bytes.len() {
        Some(bytes[pos])
    } else {
        None
    }
}

/// The at most `k` bytes of `bytes` that start at `pos`.
pub open spec fn window(bytes: Seq<u8>, pos: int, k: int) -> Seq<u8> {
    if 0 <= pos < bytes.len() && 0 <= k {
        if pos + k <= bytes.len() {
            bytes.subrange(pos, pos + k)
        } else {
            bytes.subrange(pos, bytes.len() as int)
        }
    } else {
        Seq::empty()
    }
}

/// What a cursor stands for: a fixed sequence of bytes, given by their
/// number and by the byte at each offset, and a position in it. A source
/// states its model by overriding these functions; the defaults describe a
/// source without any byte.
pub trait ByteModel: Sized {
    /// The number of bytes.
    open spec fn spec_len(&self) -> usize {
        0
    }

    /// The byte at offset `index`.
    open spec fn spec_byte(&self, index: usize) -> u8 {
        0
    }

    /// The offset of the next byte to be read.
    open spec fn spec_position(&self) -> usize {
        0
    }
}

/// All bytes of `source`, from the first. Their number fits the machine's
/// offsets.
pub open spec fn bytes_of<S: ByteModel>(source: &S) -> Seq<u8> {
    Seq::new(source.spec_len() as nat, |i: int| source.spec_byte(i as usize))
}

/// A cursor over a fixed sequence of bytes.
///
/// Reading never changes the bytes; only `next_byte` and `set_position` move
/// the position. A position past the end is legal and reads as end of input.
pub trait ByteSource: ByteModel {
    /// The current byte, without consuming it.
    fn peek(&mut self) -> (r: Option<u8>)
        ensures
            bytes_of(final(self)) == bytes_of(old(self)),
            final(self).spec_position() == old(self).spec_position(),
            r == byte_at(bytes_of(old(self)), old(self).spec_position() as int),
    ;

    /// The current byte; the cursor moves past it when there is one.
    fn next_byte(&mut self) -> (r: Option<u8>)
        ensures
            bytes_of(final(self)) == bytes_of(old(self)),
            r == byte_at(bytes_of(old(self)), old(self).spec_position() as int),
            r is Some ==> final(self).spec_position() == old(self).spec_position() + 1,
            r is None ==> final(self).spec_position() == old(self).spec_position(),
    ;

    /// Up to `k` bytes from the current position, without consuming them.
    fn peek_slice(&mut self, k: usize) -> (r: &[u8])
        ensures
            bytes_of(final(self)) == bytes_of(old(self)),
            final(self).spec_position() == old(self).spec_position(),
            r@ == window(bytes_of(old(self)), old(self).spec_position() as int, k as int),
    ;

    /// Up to `k` bytes from the current position, as an owned buffer.
    fn get_context(&mut self, k: usize) -> (r: Vec<u8>)
        ensures
            bytes_of(final(self)) == bytes_of(old(self)),
            final(self).spec_position() == old(self).spec_position(),
            r@ == window(bytes_of(old(self)), old(self).spec_position() as int, k as int),
    ;

    /// The offset of the next byte to be read.
    fn position(&self) -> (r: usize)
        ensures
            r == self.spec_position(),
    ;

    /// Moves the cursor to the absolute offset `pos`.
    fn set_position(&mut self, pos: usize)
        ensures
            bytes_of(final(self)) == bytes_of(old(self)),
            final(self).spec_position() == pos,
    ;

    /// Whether the cursor stands at or past the end.
    fn is_eof(&mut self) -> (r: bool)
        ensures
            bytes_of(final(self)) == bytes_of(old(self)),
            final(self).spec_position() == old(self).spec_position(),
            r == (old(self).spec_position() >= bytes_of(old(self)).len()),
    ;
}

} // verus!
