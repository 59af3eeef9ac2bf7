//! Writing trees in Newick form.

use vstd::prelude::*;
use crate::model::label_storage::LabelStorage;
use vstd::string::*;
use crate::model::branch_length::BranchLength;
use crate::model::leaf_label_map::LeafLabelMap;
use crate::model::tree::CompactTree;
use crate::model::tree::NO_ROOT_SET_INDEX;
use crate::model::tree::TreeModel;
use crate::model::vertex::Vertex;
use crate::model::vertex::VertexIndex;
use crate::model::vertex::VertexModel;
use crate::newick::parser::push_chars;
use crate::parser::number::decimal_digits;
use crate::parser::number::push_decimal;
use crate::parser::utils::escape_label;
use crate::parser::utils::spec_escape;

verus! {

/// How the leaves of a tree are written.
#[derive(Debug, Clone, Copy, PartialEq, Eq, Structural)]
pub enum NewickStyle {
    /// By their labels, escaped where they need it.
    Label,
    /// By the indices of their labels, counted from zero.
    ZeroIndexed,
    /// By the indices of their labels, counted from one.
    OneIndexed,
}

/// How the leaf with label index `index` is written.
pub open spec fn leaf_text(style: NewickStyle, labels: Seq<Seq<char>>, index: usize) -> Seq<char> {
    match style {
        NewickStyle::Label => spec_escape(labels[index as int]),
        NewickStyle::ZeroIndexed => decimal_digits(index as nat),
        NewickStyle::OneIndexed => decimal_digits((index + 1) as nat),
    }
}

/// How a branch length is written: behind a colon, or not at all.
pub open spec fn length_text(length: Option<Seq<char>>) -> Seq<char> {
    match length {
        Some(text) => seq![':'] + text,
        None => Seq::empty(),
    }
}

/// How the subtree at `v` is written: a leaf by its label, any other vertex
/// by its two subtrees in parentheses; behind either the branch length, but
/// for the root.
pub open spec fn subtree_text(
    vs: Seq<VertexModel<usize>>,
    v: int,
    style: NewickStyle,
    labels: Seq<Seq<char>>,
) -> Seq<char>
    decreases v,
{
    if 0 <= v < vs.len() {
        match vs[v] {
            VertexModel::Leaf { label, branch_length, .. } => leaf_text(style, labels, label)
                + length_text(branch_length),
            VertexModel::Internal { children, branch_length, .. } => if children.0 < v
                && children.1 < v {
                seq!['('] + subtree_text(vs, children.0 as int, style, labels) + seq![',']
                    + subtree_text(vs, children.1 as int, style, labels) + seq![')'] + length_text(
                    branch_length,
                )
            } else {
                Seq::empty()
            },
            VertexModel::Root { children, .. } => if children.0 < v && children.1 < v {
                seq!['('] + subtree_text(vs, children.0 as int, style, labels) + seq![',']
                    + subtree_text(vs, children.1 as int, style, labels) + seq![')']
            } else {
                Seq::empty()
            },
        }
    } else {
        Seq::empty()
    }
}

/// How `tree` is written: the subtree at its root and a semicolon.
pub open spec fn tree_text(tree: TreeModel<usize>, style: NewickStyle, labels: Seq<Seq<char>>) -> Seq<
    char,
> {
    subtree_text(tree.vertices, tree.root_index as int, style, labels) + seq![';']
}

/// Whether the leaves of `vs` can be written in `style`: by label, each
/// index names a label; counted from one, each index has a successor.
pub open spec fn writable(vs: Seq<VertexModel<usize>>, style: NewickStyle, labels: Seq<Seq<char>>) -> bool {
    forall|i: int|
        0 <= i < vs.len() ==> match #[trigger] vs[i] {
            VertexModel::Leaf { label, .. } => match style {
                NewickStyle::Label => label < labels.len(),
                NewickStyle::ZeroIndexed => true,
                NewickStyle::OneIndexed => label < usize::MAX,
            },
            _ => true,
        }
}

/// Appends a branch length behind a colon, if there is one.
fn push_length(newick: &mut String, length: Option<&BranchLength>)
    ensures
        final(newick)@ == old(newick)@ + length_text(
            match length {
                Some(l) => Some(l@),
                None => None,
            },
        ),
{
    match length {
        Some(l) => {
            newick.push(':');
            push_chars(newick, l.chars());
            assert(newick@ =~= old(newick)@ + (seq![':'] + l@));
        },
        None => {
            assert(newick@ =~= old(newick)@ + Seq::<char>::empty());
        },
    }
}

/// Appends a leaf with label index `label`.
fn push_leaf(newick: &mut String, style: NewickStyle, leaf_label_map: &LeafLabelMap, label: usize)
    requires
        match style {
            NewickStyle::Label => label < leaf_label_map.spec_labels().len(),
            NewickStyle::ZeroIndexed => true,
            NewickStyle::OneIndexed => label < usize::MAX,
        },
    ensures
        final(newick)@ == old(newick)@ + leaf_text(style, leaf_label_map.spec_labels(), label),
{
    match style {
        NewickStyle::Label => {
            let text = leaf_label_map.get_label(label).unwrap();
            let escaped = escape_label(text);
            newick.append(escaped.as_str());
        },
        NewickStyle::ZeroIndexed => {
            push_decimal(newick, label);
        },
        NewickStyle::OneIndexed => {
            push_decimal(newick, label + 1);
        },
    }
}

/// Appends the two subtrees at `children` in parentheses.
fn push_pair(
    tree: &CompactTree,
    newick: &mut String,
    index: VertexIndex,
    children: (VertexIndex, VertexIndex),
    style: NewickStyle,
    leaf_label_map: &LeafLabelMap,
)
    requires
        tree@.wf(),
        index < tree@.vertices.len(),
        children.0 < index,
        children.1 < index,
        writable(tree@.vertices, style, leaf_label_map.spec_labels()),
    ensures
        final(newick)@ == old(newick)@ + (seq!['('] + subtree_text(
            tree@.vertices,
            children.0 as int,
            style,
            leaf_label_map.spec_labels(),
        ) + seq![','] + subtree_text(
            tree@.vertices,
            children.1 as int,
            style,
            leaf_label_map.spec_labels(),
        ) + seq![')']),
    decreases index, 0int,
{
    let ghost start = newick@;
    let ghost left = subtree_text(
        tree@.vertices,
        children.0 as int,
        style,
        leaf_label_map.spec_labels(),
    );
    let ghost right = subtree_text(
        tree@.vertices,
        children.1 as int,
        style,
        leaf_label_map.spec_labels(),
    );
    newick.push('(');
    build_newick(tree, newick, children.0, style, leaf_label_map);
    newick.push(',');
    assert(newick@ =~= start + (seq!['('] + left + seq![',']));
    build_newick(tree, newick, children.1, style, leaf_label_map);
    newick.push(')');
    assert(newick@ =~= start + (seq!['('] + left + seq![','] + right + seq![')']));
}

/// Appends the subtree at `index` to `newick`.
fn build_newick(
    tree: &CompactTree,
    newick: &mut String,
    index: VertexIndex,
    style: NewickStyle,
    leaf_label_map: &LeafLabelMap,
)
    requires
        tree@.wf(),
        index < tree@.vertices.len(),
        writable(tree@.vertices, style, leaf_label_map.spec_labels()),
    ensures
        final(newick)@ == old(newick)@ + subtree_text(
            tree@.vertices,
            index as int,
            style,
            leaf_label_map.spec_labels(),
        ),
    decreases index, 1int,
{
    let ghost vs = tree@.vertices;
    let ghost labels = leaf_label_map.spec_labels();
    let ghost start = newick@;
    let vertex = tree.vertex(index);
    assert(vs[index as int].children() matches Some(c) ==> c.0 < index && c.1 < index);
    match vertex {
        Vertex::Leaf { label, branch_length, .. } => {
            push_leaf(newick, style, leaf_label_map, *label);
            let ghost mid = newick@;
            push_length(newick, branch_length.as_ref());
            assert(newick@ =~= start + subtree_text(vs, index as int, style, labels));
        },
        Vertex::Internal { children, branch_length, .. } => {
            push_pair(tree, newick, index, *children, style, leaf_label_map);
            push_length(newick, branch_length.as_ref());
            assert(newick@ =~= start + subtree_text(vs, index as int, style, labels));
        },
        Vertex::Root { children, .. } => {
            push_pair(tree, newick, index, *children, style, leaf_label_map);
        },
    }
}

/// The tree in Newick form, with its semicolon: leaves by label or index as
/// `style` says, branch lengths as they are held, none for the root.
pub fn to_newick(style: NewickStyle, tree: &CompactTree, leaf_label_map: &LeafLabelMap) -> (r:
    String)
    requires
        tree@.wf(),
        tree@.root_index != NO_ROOT_SET_INDEX,
        writable(tree@.vertices, style, leaf_label_map.spec_labels()),
    ensures
        r@ == tree_text(tree@, style, leaf_label_map.spec_labels()),
{
    let mut newick = String::new();
    build_newick(tree, &mut newick, tree.root_index(), style, leaf_label_map);
    newick.push(';');
    proof {
        assert(newick@ =~= tree_text(tree@, style, leaf_label_map.spec_labels()));
    }
    newick
}

/// Whether the leaves of `tree` can be written in `style` with the labels of
/// `leaf_label_map`.
pub fn can_write(style: NewickStyle, tree: &CompactTree, leaf_label_map: &LeafLabelMap) -> (r:
    bool)
    ensures
        r == writable(tree@.vertices, style, leaf_label_map.spec_labels()),
{
    let count: usize = leaf_label_map.num_labels();
    let mut i: usize = 0;
    while i < tree.num_vertices()
        invariant
            i <= tree@.vertices.len(),
            count == leaf_label_map.spec_labels().len(),
            forall|k: int|
                0 <= k < i ==> match #[trigger] tree@.vertices[k] {
                    VertexModel::Leaf { label, .. } => match style {
                        NewickStyle::Label => label < count,
                        NewickStyle::ZeroIndexed => true,
                        NewickStyle::OneIndexed => label < usize::MAX,
                    },
                    _ => true,
                },
        decreases tree@.vertices.len() - i,
    {
        match tree.vertex(i).label() {
            Some(label) => {
                let fits: bool = match style {
                    NewickStyle::Label => *label < count,
                    NewickStyle::ZeroIndexed => true,
                    NewickStyle::OneIndexed => *label < usize::MAX,
                };
                if !fits {
                    assert(tree@.vertices[i as int] is Leaf);
                    return false;
                }
            },
            None => {},
        }
        i = i + 1;
    }
    true
}

impl CompactTree {
    /// The tree in Newick form. With no label map nothing can be written by
    /// label, and the text is empty.
    pub fn to_newick(&self, style: &NewickStyle, leaf_label_map: Option<&LeafLabelMap>) -> (r:
        String)
        requires
            self@.wf(),
            self@.root_index != NO_ROOT_SET_INDEX,
            leaf_label_map matches Some(map) ==> writable(
                self@.vertices,
                *style,
                map.spec_labels(),
            ),
            leaf_label_map is None ==> writable(self@.vertices, *style, Seq::empty()) || *style
                == NewickStyle::Label,
        ensures
            r@ == match leaf_label_map {
                Some(map) => tree_text(self@, *style, map.spec_labels()),
                None => if *style == NewickStyle::Label {
                    Seq::empty()
                } else {
                    tree_text(self@, *style, Seq::empty())
                },
            },
    {
        match leaf_label_map {
            Some(map) => to_newick(*style, self, map),
            None => {
                match style {
                    NewickStyle::Label => String::new(),
                    _ => {
                        let none = LeafLabelMap::new(0);
                        to_newick(*style, self, &none)
                    },
                }
            },
        }
    }
}

/// The number of decimal digits of `n`.
pub open spec fn digits_len(n: nat) -> nat
    decreases n,
{
    if n < 10 {
        1
    } else {
        1 + digits_len(n / 10)
    }
}

/// The number of decimal digits of all numbers from one up to `n`.
pub open spec fn digits_upto(n: nat) -> nat
    decreases n,
{
    if n == 0 {
        0
    } else {
        digits_upto((n - 1) as nat) + digits_len(n)
    }
}

/// The number of characters that the indices of `count` leaves take, written
/// from zero or from one.
pub open spec fn index_digits(count: nat, zero_indexed: bool) -> nat {
    if count == 0 {
        0
    } else if zero_indexed {
        1 + digits_upto((count - 1) as nat)
    } else {
        digits_upto(count)
    }
}

/// Ten to the power of `e`.
pub open spec fn pow10(e: nat) -> nat
    decreases e,
{
    if e == 0 {
        1
    } else {
        10 * pow10((e - 1) as nat)
    }
}

/// The numbers from ten to the power of `d - 1` up to the next power of ten
/// have `d` digits.
pub proof fn lemma_digits_in_decade(i: nat, d: nat)
    requires
        d >= 1,
        pow10((d - 1) as nat) <= i < 10 * pow10((d - 1) as nat),
    ensures
        digits_len(i) == d,
    decreases d,
{
    if d > 1 {
        lemma_digits_in_decade(i / 10, (d - 1) as nat);
    }
}

/// Numbers of `d` digits each add `d` digits each to the total.
pub proof fn lemma_digits_of_decade(low: nat, high: nat, d: nat)
    requires
        d >= 1,
        1 <= low <= high + 1,
        pow10((d - 1) as nat) <= low,
        high < 10 * pow10((d - 1) as nat),
    ensures
        digits_upto(high) == digits_upto((low - 1) as nat) + (high - low + 1) * d,
    decreases high - low + 1,
{
    if high >= low {
        lemma_digits_of_decade(low, (high - 1) as nat, d);
        lemma_digits_in_decade(high, d);
        assert((high - low + 1) * d == (high - 1 - low + 1) * d + d) by (nonlinear_arith);
    } else {
        assert((high - low + 1) * d == 0) by (nonlinear_arith)
            requires
                high - low + 1 == 0,
        ;
    }
}

/// The number of characters that the indices of `count` leaves take, written
/// from zero (`zero_indexed`) or from one; the largest machine word where it
/// would be more.
pub fn calculate_index_digit_capacity(count: usize, zero_indexed: bool) -> (r: usize)
    ensures
        r == (if index_digits(count as nat, zero_indexed) > usize::MAX {
            usize::MAX as nat
        } else {
            index_digits(count as nat, zero_indexed)
        }),
{
    if count == 0 {
        return 0;
    }
    let max_index: usize = if zero_indexed {
        count - 1
    } else {
        count
    };
    if max_index == 0 {
        return 1;
    }
    let base: u128 = if zero_indexed {
        1
    } else {
        0
    };
    let mut total: u128 = base;
    let mut low: usize = 1;
    let mut digits: usize = 1;
    loop
        invariant
            index_digits(count as nat, zero_indexed) == base + digits_upto(max_index as nat),
            base <= 1,
            1 <= digits <= low <= max_index,
            low == pow10((digits - 1) as nat),
            total == base + digits_upto((low - 1) as nat),
            total <= 1 + (low - 1) * digits,
        decreases max_index - low,
    {
        let last: bool = low > max_index / 10;
        let high: usize = if last {
            max_index
        } else {
            low * 10 - 1
        };
        let span: u128 = (high - low + 1) as u128;
        proof {
            lemma_digits_of_decade(low as nat, high as nat, digits as nat);
            assert(span * digits + (low - 1) * digits == high * digits) by (nonlinear_arith)
                requires
                    span == high - low + 1,
            ;
            assert(high * digits <= 0xffff_ffff_ffff_ffff * 0xffff_ffff_ffff_ffff) by (nonlinear_arith)
                requires
                    0 <= high <= 0xffff_ffff_ffff_ffff,
                    0 <= digits <= 0xffff_ffff_ffff_ffff,
            ;
        }
        total = total + span * (digits as u128);
        if last {
            return if total > usize::MAX as u128 {
                usize::MAX
            } else {
                total as usize
            };
        }
        proof {
            assert(high * digits <= (low * 10 - 1) * (digits + 1)) by (nonlinear_arith)
                requires
                    high == low * 10 - 1,
                    digits >= 1,
                    low >= 1,
            ;
        }
        low = low * 10;
        digits = digits + 1;
    }
}

} // verus!
