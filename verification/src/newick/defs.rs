//! Constants of the Newick grammar.

use vstd::prelude::*;

verus! {

/// The number of leaves assumed for a tree of which nothing is known.
pub const DEFAULT_NUM_LEAVES_GUESS: usize = 10;

/// The bytes that end an unquoted label: brackets, comma, colon, semicolon
/// and whitespace.
pub open spec fn newick_delimiters() -> Seq<u8> {
    seq![40u8, 91u8, 44u8, 58u8, 59u8, 32u8, 10u8, 9u8, 13u8, 41u8, 93u8]
}

/// The bytes that end an unquoted label.
pub fn newick_label_delimiters() -> (r: [u8; 11])
    ensures
        r@ == newick_delimiters(),
{
    let r: [u8; 11] = [40, 91, 44, 58, 59, 32, 10, 9, 13, 41, 93];
    assert(r@ =~= newick_delimiters());
    r
}

} // verus!
