//! Keywords and block names of the NEXUS format.

use vstd::prelude::*;
use crate::parser::utils::chars_of;

verus! {

/// The bytes that end an unquoted label: space, comma, semicolon, tab, line
/// feed and carriage return.
pub open spec fn nexus_delimiters() -> Seq<u8> {
    seq![32u8, 44u8, 59u8, 9u8, 10u8, 13u8]
}

/// The file header, `#NEXUS`.
pub open spec fn header_word() -> Seq<u8> {
    seq![35u8, 78u8, 69u8, 88u8, 85u8, 83u8]
}

/// The keyword that opens a block, `Begin`.
pub open spec fn begin_word() -> Seq<u8> {
    seq![66u8, 101u8, 103u8, 105u8, 110u8]
}

/// The keyword that closes a block, `End;`.
pub open spec fn end_word() -> Seq<u8> {
    seq![69u8, 110u8, 100u8, 59u8]
}

/// The keyword `Dimensions`.
pub open spec fn dimensions_word() -> Seq<u8> {
    seq![68u8, 105u8, 109u8, 101u8, 110u8, 115u8, 105u8, 111u8, 110u8, 115u8]
}

/// The keyword `ntax`.
pub open spec fn ntax_word() -> Seq<u8> {
    seq![110u8, 116u8, 97u8, 120u8]
}

/// The keyword `Taxlabels`.
pub open spec fn taxlabels_word() -> Seq<u8> {
    seq![84u8, 97u8, 120u8, 108u8, 97u8, 98u8, 101u8, 108u8, 115u8]
}

/// The keyword `Translate`.
pub open spec fn translate_word() -> Seq<u8> {
    seq![84u8, 114u8, 97u8, 110u8, 115u8, 108u8, 97u8, 116u8, 101u8]
}

/// The keyword `tree`.
pub open spec fn tree_word() -> Seq<u8> {
    seq![116u8, 114u8, 101u8, 101u8]
}

/// The bytes that end an unquoted label.
pub fn nexus_label_delimiters() -> (r: [u8; 6])
    ensures
        r@ == nexus_delimiters(),
{
    let r: [u8; 6] = [32, 44, 59, 9, 10, 13];
    assert(r@ =~= nexus_delimiters());
    r
}

/// The file header, `#NEXUS`.
pub fn nexus_header() -> (r: [u8; 6])
    ensures
        r@ == header_word(),
{
    let r: [u8; 6] = [35, 78, 69, 88, 85, 83];
    assert(r@ =~= header_word());
    r
}

/// The keyword that opens a block.
pub fn block_begin() -> (r: [u8; 5])
    ensures
        r@ == begin_word(),
{
    let r: [u8; 5] = [66, 101, 103, 105, 110];
    assert(r@ =~= begin_word());
    r
}

/// The keyword that closes a block.
pub fn block_end() -> (r: [u8; 4])
    ensures
        r@ == end_word(),
{
    let r: [u8; 4] = [69, 110, 100, 59];
    assert(r@ =~= end_word());
    r
}

/// The keyword `Dimensions`.
pub fn dimensions() -> (r: [u8; 10])
    ensures
        r@ == dimensions_word(),
{
    let r: [u8; 10] = [68, 105, 109, 101, 110, 115, 105, 111, 110, 115];
    assert(r@ =~= dimensions_word());
    r
}

/// The keyword `ntax`.
pub fn ntax() -> (r: [u8; 4])
    ensures
        r@ == ntax_word(),
{
    let r: [u8; 4] = [110, 116, 97, 120];
    assert(r@ =~= ntax_word());
    r
}

/// The keyword `Taxlabels`.
pub fn taxlabels() -> (r: [u8; 9])
    ensures
        r@ == taxlabels_word(),
{
    let r: [u8; 9] = [84, 97, 120, 108, 97, 98, 101, 108, 115];
    assert(r@ =~= taxlabels_word());
    r
}

/// The keyword `Translate`.
pub fn translate() -> (r: [u8; 9])
    ensures
        r@ == translate_word(),
{
    let r: [u8; 9] = [84, 114, 97, 110, 115, 108, 97, 116, 101];
    assert(r@ =~= translate_word());
    r
}

/// The keyword `tree`.
pub fn tree() -> (r: [u8; 4])
    ensures
        r@ == tree_word(),
{
    let r: [u8; 4] = [116, 114, 101, 101];
    assert(r@ =~= tree_word());
    r
}

/// The kinds of block that a file may hold.
#[derive(Debug, Clone, PartialEq)]
pub enum NexusBlock {
    Taxa,
    Trees,
    Data,
    Characters,
    Distances,
    Sets,
    Assumptions,
    /// A block of any other name, which is kept as written.
    UnknownBlock(String),
}

/// The mathematical content of a `NexusBlock`.
pub ghost enum BlockKind {
    Taxa,
    Trees,
    Data,
    Characters,
    Distances,
    Sets,
    Assumptions,
    UnknownBlock(Seq<char>),
}

impl View for NexusBlock {
    type V = BlockKind;

    open spec fn view(&self) -> BlockKind {
        match self {
            NexusBlock::Taxa => BlockKind::Taxa,
            NexusBlock::Trees => BlockKind::Trees,
            NexusBlock::Data => BlockKind::Data,
            NexusBlock::Characters => BlockKind::Characters,
            NexusBlock::Distances => BlockKind::Distances,
            NexusBlock::Sets => BlockKind::Sets,
            NexusBlock::Assumptions => BlockKind::Assumptions,
            NexusBlock::UnknownBlock(name) => BlockKind::UnknownBlock(name@),
        }
    }
}

/// `c` with an upper-case ASCII letter mapped to its lower-case form.
pub open spec fn lower_char(c: char) -> char {
    if 'A' <= c <= 'Z' {
        ((c as u8) + 32) as char
    } else {
        c
    }
}

/// `s` with every upper-case ASCII letter mapped to its lower-case form.
pub open spec fn lower_text(s: Seq<char>) -> Seq<char> {
    Seq::new(s.len(), |i: int| lower_char(s[i]))
}

/// The kind of block that the name `name` stands for, whatever its case.
pub open spec fn block_of(name: Seq<char>) -> BlockKind {
    let lower = lower_text(name);
    if lower == "taxa"@ {
        BlockKind::Taxa
    } else if lower == "trees"@ {
        BlockKind::Trees
    } else if lower == "data"@ {
        BlockKind::Data
    } else if lower == "characters"@ {
        BlockKind::Characters
    } else if lower == "distances"@ {
        BlockKind::Distances
    } else if lower == "sets"@ {
        BlockKind::Sets
    } else if lower == "assumptions"@ {
        BlockKind::Assumptions
    } else {
        BlockKind::UnknownBlock(name)
    }
}

/// Whether `chars` spell `word`.
pub fn spells(chars: &Vec<char>, word: &str) -> (r: bool)
    ensures
        r == (chars@ == word@),
{
    let other = chars_of(word);
    if chars.len() != other.len() {
        return false;
    }
    let mut i: usize = 0;
    while i < chars.len()
        invariant
            i <= chars.len(),
            chars.len() == other.len(),
            other@ == word@,
            forall|k: int| 0 <= k < i ==> chars@[k] == other@[k],
        decreases chars.len() - i,
    {
        if chars[i] != other[i] {
            return false;
        }
        i = i + 1;
    }
    assert(chars@ =~= other@);
    true
}

impl NexusBlock {
    /// The kind of block that `name` stands for, whatever its case.
    pub fn from_name(name: &str) -> (r: Self)
        ensures
            r@ == block_of(name@),
    {
        let chars = chars_of(name);
        let mut lower: Vec<char> = Vec::new();
        let mut i: usize = 0;
        while i < chars.len()
            invariant
                i <= chars.len(),
                lower@.len() == i,
                forall|k: int| 0 <= k < i ==> lower@[k] == lower_char(chars@[k]),
            decreases chars.len() - i,
        {
            let c: char = chars[i];
            if 'A' <= c && c <= 'Z' {
                lower.push(((c as u8) + 32) as char);
            } else {
                lower.push(c);
            }
            i = i + 1;
        }
        assert(lower@ =~= lower_text(name@));
        if spells(&lower, "taxa") {
            NexusBlock::Taxa
        } else if spells(&lower, "trees") {
            NexusBlock::Trees
        } else if spells(&lower, "data") {
            NexusBlock::Data
        } else if spells(&lower, "characters") {
            NexusBlock::Characters
        } else if spells(&lower, "distances") {
            NexusBlock::Distances
        } else if spells(&lower, "sets") {
            NexusBlock::Sets
        } else if spells(&lower, "assumptions") {
            NexusBlock::Assumptions
        } else {
            NexusBlock::UnknownBlock(name.to_owned())
        }
    }

    /// Whether two blocks are of one kind, and of one name where the kind is
    /// unknown.
    pub fn same_as(&self, other: &NexusBlock) -> (r: bool)
        ensures
            r == (self@ == other@),
    {
        match (self, other) {
            (NexusBlock::Taxa, NexusBlock::Taxa) => true,
            (NexusBlock::Trees, NexusBlock::Trees) => true,
            (NexusBlock::Data, NexusBlock::Data) => true,
            (NexusBlock::Characters, NexusBlock::Characters) => true,
            (NexusBlock::Distances, NexusBlock::Distances) => true,
            (NexusBlock::Sets, NexusBlock::Sets) => true,
            (NexusBlock::Assumptions, NexusBlock::Assumptions) => true,
            (NexusBlock::UnknownBlock(a), NexusBlock::UnknownBlock(b)) => *a == *b,
            _ => false,
        }
    }
}

} // verus!
