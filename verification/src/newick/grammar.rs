//! The Newick grammar as mathematics: what parsing a byte sequence from a
//! given offset comes to.
//!
//! ```text
//! tree     := vertex ';'
//! vertex   := leaf | internal
//! internal := '(' vertex ',' vertex ')' [branch]
//! leaf     := label [branch]
//! branch   := ':' number
//! ```
//!
//! Whitespace and comments in square brackets may stand between any two
//! tokens.

use vstd::prelude::*;
use crate::model::annotation::ValueModel;
use crate::model::branch_length::is_branch_length;
use crate::model::branch_length::is_float_text;
use crate::parser::number::signed_of;
use crate::parser::scan::body_start;
use crate::parser::scan::sequence_at;
use crate::parser::scan::unquoted_at;
use crate::model::label_resolver::Resolution;
use crate::model::label_resolver::ResolverModel;
use crate::model::label_resolver::labels_after;
use crate::model::label_resolver::resolution_message;
use crate::model::label_resolver::resolve_in;
use crate::model::label_storage::LabelStorage;
use crate::model::tree::TreeModel;
use crate::model::tree_builder::fresh_tree;
use crate::newick::defs::newick_delimiters;
use crate::parser::byte_source::byte_at;
use crate::parser::parsing_error::ErrorKind;
use crate::parser::parsing_error::ErrorModel;
use crate::parser::parsing_error::error_at;
use crate::parser::scan::Stop;
use crate::parser::scan::blank_end;
use crate::parser::scan::lemma_blank_end;
use crate::parser::scan::byte_chars;
use crate::parser::scan::first_where;
use crate::parser::scan::label_at;

verus! {

/// What a parse has come to so far: the tree under construction, the labels
/// of the store, and the leaves counted.
pub ghost struct Progress<LV> {
    pub tree: TreeModel<LV>,
    pub labels: Seq<Seq<char>>,
    pub leaves: nat,
}

/// How a step of a parse ends.
pub ghost enum Step<LV> {
    /// With success, in this state and at this offset. After a vertex, the
    /// vertex is the last of the arena.
    Done(Progress<LV>, int),
    /// With this error.
    Failed(ErrorModel),
}

/// How reading a pair of children ends.
pub ghost enum Pair<LV> {
    /// With success, in this state, at this offset and with these two
    /// children.
    Done(Progress<LV>, int, (usize, usize)),
    /// With this error.
    Failed(ErrorModel),
}

/// The position of the last vertex of `tree`.
pub open spec fn last_vertex<LV>(tree: TreeModel<LV>) -> usize {
    (tree.vertices.len() - 1) as usize
}

/// How reading an optional branch length ends.
pub ghost enum Branch {
    /// No colon follows; the offset is where the search for it ended.
    Absent(int),
    /// A length was read, as written, up to the offset.
    Present(Seq<char>, int),
    /// With this error.
    Failed(ErrorModel),
}

/// The error for a comment that is never closed, which is raised at the end
/// of the input.
pub open spec fn unclosed(bytes: Seq<u8>) -> ErrorModel {
    error_at(ErrorKind::UnclosedComment, bytes, bytes.len() as usize)
}

/// How the byte found in place of an expected one is reported.
pub open spec fn found_text(found: Option<u8>) -> Seq<char> {
    match found {
        Some(b) => "'"@ + seq![b as char] + "'"@,
        None => "end of input"@,
    }
}

/// The error for a missing punctuation mark: `what` names the mark and its
/// place.
pub open spec fn expected(what: Seq<char>, bytes: Seq<u8>, pos: int) -> ErrorModel {
    error_at(
        ErrorKind::InvalidNewickString(
            "Expected "@ + what + " but found "@ + found_text(byte_at(bytes, pos)),
        ),
        bytes,
        pos as usize,
    )
}

/// `p`, but no less than `floor`.
pub open spec fn at_least(p: int, floor: int) -> int {
    if p < floor {
        floor
    } else {
        p
    }
}

/// The bytes from `start` to `end`, read as characters.
pub open spec fn token_at(bytes: Seq<u8>, start: int, end: int) -> Seq<char> {
    if 0 <= start <= end <= bytes.len() {
        byte_chars(bytes.subrange(start, end))
    } else {
        Seq::empty()
    }
}

/// Reads an optional branch length from `pos`: blanks, a colon, blanks, and
/// the longest run of bytes that may stand in a number, which must be a
/// decimal number not below zero.
pub open spec fn spec_branch(bytes: Seq<u8>, pos: int) -> Branch {
    match blank_end(bytes, pos) {
        None => Branch::Failed(unclosed(bytes)),
        Some(colon) => if byte_at(bytes, colon) == Some(58u8) {
            match blank_end(bytes, colon + 1) {
                None => Branch::Failed(unclosed(bytes)),
                Some(start) => {
                    let end = first_where(bytes, start, Stop::NotNumeric);
                    let text = token_at(bytes, start, end);
                    if is_branch_length(text) {
                        Branch::Present(text, end)
                    } else {
                        Branch::Failed(
                            error_at(
                                ErrorKind::InvalidNewickString("Invalid branch length: "@ + text),
                                bytes,
                                end as usize,
                            ),
                        )
                    }
                },
            }
        } else {
            Branch::Absent(colon)
        },
    }
}

/// How reading a block of annotations ends.
pub ghost enum Notes {
    /// With these pairs of key and value, in the order read, and the cursor
    /// at this offset. Without a block there are no pairs.
    Block(Seq<(Seq<char>, ValueModel)>, int),
    /// With this error.
    Failed(ErrorModel),
}

/// The value that `text` is read as: a whole number where it is one, a
/// floating-point number where it is written as one, else the text.
pub open spec fn classify(text: Seq<char>) -> ValueModel {
    match signed_of(text) {
        Some(n) => ValueModel::Int(n),
        None => if is_float_text(text) {
            ValueModel::Float(text)
        } else {
            ValueModel::String(text)
        },
    }
}

/// The two bytes that open a block of annotations.
pub open spec fn notes_opener() -> Seq<u8> {
    seq![91u8, 38u8]
}

/// The one byte that ends a key.
pub open spec fn key_end() -> Seq<u8> {
    seq![61u8]
}

/// The two bytes that end a value.
pub open spec fn value_end() -> Seq<u8> {
    seq![44u8, 93u8]
}

/// The error for a malformed block of annotations, raised at `pos`.
pub open spec fn notes_error(message: Seq<char>, bytes: Seq<u8>, pos: int) -> ErrorModel {
    error_at(ErrorKind::InvalidNewickString(message), bytes, pos as usize)
}

/// Reads pairs `key=value`, separated by commas, up to a closing bracket.
/// Neither a key nor a value may be empty.
pub open spec fn spec_note_pairs(
    bytes: Seq<u8>,
    pos: int,
    notes: Seq<(Seq<char>, ValueModel)>,
) -> Notes
    decreases bytes.len() - pos,
{
    let key = unquoted_at(bytes, pos, key_end());
    if key.0.len() == 0 {
        Notes::Failed(notes_error("Empty annotation key"@, bytes, key.1))
    } else {
        let value = unquoted_at(bytes, body_start(bytes, key.1), value_end());
        if value.0.len() == 0 {
            Notes::Failed(
                notes_error(
                    "Empty annotation value for key '"@ + byte_chars(key.0) + "'"@,
                    bytes,
                    value.1,
                ),
            )
        } else {
            let found = notes.push((byte_chars(key.0), classify(byte_chars(value.0))));
            if byte_at(bytes, value.1) == Some(44u8) {
                if pos <= value.1 < bytes.len() {
                    spec_note_pairs(bytes, value.1 + 1, found)
                } else {
                    Notes::Failed(notes_error("Empty annotation key"@, bytes, value.1))
                }
            } else if byte_at(bytes, value.1) == Some(93u8) {
                Notes::Block(found, value.1 + 1)
            } else {
                Notes::Failed(
                    notes_error("Expected ']' at end of annotation block"@, bytes, value.1),
                )
            }
        }
    }
}

/// Reads a block of annotations, `[&key=value,...]`, if one opens at `pos`.
pub open spec fn spec_notes(bytes: Seq<u8>, pos: int) -> Notes {
    if sequence_at(bytes, pos, notes_opener()) {
        spec_note_pairs(bytes, pos + 2, Seq::empty())
    } else {
        Notes::Block(Seq::empty(), pos)
    }
}

/// The annotations read at `pos`, where annotations are read at all.
pub open spec fn notes_at(annotated: bool, bytes: Seq<u8>, pos: int) -> Notes {
    if annotated {
        spec_notes(bytes, pos)
    } else {
        Notes::Block(Seq::empty(), pos)
    }
}

/// `tree` with the pairs of `notes` put at vertex `vertex`, in their order.
pub open spec fn annotate_all<LV>(
    tree: TreeModel<LV>,
    notes: Seq<(Seq<char>, ValueModel)>,
    vertex: usize,
) -> TreeModel<LV> {
    TreeModel {
        annotations: tree.annotations + Seq::new(
            notes.len(),
            |i: int| (notes[i].0, vertex, notes[i].1),
        ),
        ..tree
    }
}

/// Reads a leaf from `pos`: a label, which is resolved, annotations where
/// they are read, and an optional branch length.
pub open spec fn spec_leaf<S: LabelStorage>(
    model: ResolverModel<<S::LabelRef as View>::V>,
    counting: bool,
    annotated: bool,
    bytes: Seq<u8>,
    pos: int,
    st: Progress<<S::LabelRef as View>::V>,
) -> Step<<S::LabelRef as View>::V> {
    let label = label_at(bytes, pos, newick_delimiters());
    let token = byte_chars(label.0);
    match resolve_in::<S>(model, st.labels, token) {
        Resolution::Resolved(reference) => {
            let leaves = if counting {
                st.leaves + 1
            } else {
                st.leaves
            };
            let labels = labels_after(model, st.labels, token);
            match notes_at(annotated, bytes, label.1) {
                Notes::Failed(e) => Step::Failed(e),
                Notes::Block(notes, after) => match spec_branch(bytes, after) {
                    Branch::Failed(e) => Step::Failed(e),
                    Branch::Absent(end) => Step::Done(
                        Progress {
                            tree: annotate_all(
                                st.tree.add_leaf(None, reference),
                                notes,
                                st.tree.vertices.len() as usize,
                            ),
                            labels,
                            leaves,
                        },
                        end,
                    ),
                    Branch::Present(text, end) => Step::Done(
                        Progress {
                            tree: annotate_all(
                                st.tree.add_leaf(Some(text), reference),
                                notes,
                                st.tree.vertices.len() as usize,
                            ),
                            labels,
                            leaves,
                        },
                        end,
                    ),
                },
            }
        },
        other => Step::Failed(
            error_at(
                ErrorKind::UnresolvedLabel(resolution_message(other, token)),
                bytes,
                label.1 as usize,
            ),
        ),
    }
}

/// Reads a vertex from `pos`: after blanks, an internal vertex when a
/// parenthesis opens, else a leaf.
pub open spec fn spec_vertex<S: LabelStorage>(
    model: ResolverModel<<S::LabelRef as View>::V>,
    counting: bool,
    annotated: bool,
    bytes: Seq<u8>,
    pos: int,
    st: Progress<<S::LabelRef as View>::V>,
) -> Step<<S::LabelRef as View>::V>
    decreases bytes.len() - pos, 2int,
{
    match blank_end(bytes, pos) {
        None => Step::Failed(unclosed(bytes)),
        Some(p) => {
            let start = at_least(p, pos);
            if byte_at(bytes, start) == Some(40u8) {
                spec_internal::<S>(model, counting, annotated, bytes, start, st)
            } else {
                spec_leaf::<S>(model, counting, annotated, bytes, start, st)
            }
        },
    }
}

/// Reads an internal vertex from `pos`: a pair of children and an optional
/// branch length.
pub open spec fn spec_internal<S: LabelStorage>(
    model: ResolverModel<<S::LabelRef as View>::V>,
    counting: bool,
    annotated: bool,
    bytes: Seq<u8>,
    pos: int,
    st: Progress<<S::LabelRef as View>::V>,
) -> Step<<S::LabelRef as View>::V>
    decreases bytes.len() - pos, 1int,
{
    match spec_children::<S>(model, counting, annotated, bytes, pos, st) {
        Pair::Failed(e) => Step::Failed(e),
        Pair::Done(after, at, children) => match notes_at(annotated, bytes, at) {
            Notes::Failed(e) => Step::Failed(e),
            Notes::Block(notes, noted) => match spec_branch(bytes, noted) {
                Branch::Failed(e) => Step::Failed(e),
                Branch::Absent(end) => Step::Done(
                    Progress {
                        tree: annotate_all(
                            after.tree.add_internal(children, None),
                            notes,
                            after.tree.vertices.len() as usize,
                        ),
                        ..after
                    },
                    end,
                ),
                Branch::Present(text, end) => Step::Done(
                    Progress {
                        tree: annotate_all(
                            after.tree.add_internal(children, Some(text)),
                            notes,
                            after.tree.vertices.len() as usize,
                        ),
                        ..after
                    },
                    end,
                ),
            },
        },
    }
}

/// Reads a pair of children from `pos`: an opening parenthesis, a vertex, a
/// comma, a vertex and a closing parenthesis. The children are the last
/// vertices of the two subtrees read.
pub open spec fn spec_children<S: LabelStorage>(
    model: ResolverModel<<S::LabelRef as View>::V>,
    counting: bool,
    annotated: bool,
    bytes: Seq<u8>,
    pos: int,
    st: Progress<<S::LabelRef as View>::V>,
) -> Pair<<S::LabelRef as View>::V>
    decreases bytes.len() - pos, 0int,
{
    if byte_at(bytes, pos) != Some(40u8) {
        Pair::Failed(expected("'(' before children"@, bytes, pos))
    } else {
        match spec_vertex::<S>(model, counting, annotated, bytes, pos + 1, st) {
            Step::Failed(e) => Pair::Failed(e),
            Step::Done(left, left_end) => match blank_end(bytes, left_end) {
                None => Pair::Failed(unclosed(bytes)),
                Some(comma) => if byte_at(bytes, comma) != Some(44u8) {
                    Pair::Failed(expected("',' between children"@, bytes, comma))
                } else {
                    match spec_vertex::<S>(
                        model,
                        counting,
                        annotated,
                        bytes,
                        at_least(comma, pos) + 1,
                        left,
                    ) {
                        Step::Failed(e) => Pair::Failed(e),
                        Step::Done(right, right_end) => match blank_end(bytes, right_end) {
                            None => Pair::Failed(unclosed(bytes)),
                            Some(close) => if byte_at(bytes, close) != Some(41u8) {
                                Pair::Failed(expected("')' after children"@, bytes, close))
                            } else {
                                Pair::Done(
                                    right,
                                    close + 1,
                                    (last_vertex(left.tree), last_vertex(right.tree)),
                                )
                            },
                        },
                    }
                },
            },
        }
    }
}

/// Reads a tree from `pos`: blanks, a pair of children, an optional branch
/// length, blanks and a semicolon.
pub open spec fn spec_root<S: LabelStorage>(
    model: ResolverModel<<S::LabelRef as View>::V>,
    counting: bool,
    annotated: bool,
    bytes: Seq<u8>,
    pos: int,
    st: Progress<<S::LabelRef as View>::V>,
) -> Step<<S::LabelRef as View>::V> {
    match blank_end(bytes, pos) {
        None => Step::Failed(unclosed(bytes)),
        Some(start) => match spec_children::<S>(model, counting, annotated, bytes, start, st) {
            Pair::Failed(e) => Step::Failed(e),
            Pair::Done(after, at, children) => match notes_at(annotated, bytes, at) {
                Notes::Failed(e) => Step::Failed(e),
                Notes::Block(notes, noted) => match spec_branch(bytes, noted) {
                    Branch::Failed(e) => Step::Failed(e),
                    Branch::Absent(end) => spec_close(bytes, after, children, notes, None, end),
                    Branch::Present(text, end) => spec_close(
                        bytes,
                        after,
                        children,
                        notes,
                        Some(text),
                        end,
                    ),
                },
            },
        },
    }
}

/// Ends a tree: after blanks a semicolon must stand, and the root is added
/// over `children` and gets the annotations `notes`.
pub open spec fn spec_close<LV>(
    bytes: Seq<u8>,
    after: Progress<LV>,
    children: (usize, usize),
    notes: Seq<(Seq<char>, ValueModel)>,
    length: Option<Seq<char>>,
    end: int,
) -> Step<LV> {
    match blank_end(bytes, end) {
        None => Step::Failed(unclosed(bytes)),
        Some(semicolon) => if byte_at(bytes, semicolon) != Some(59u8) {
            Step::Failed(expected("';' at end of tree"@, bytes, semicolon))
        } else {
            Step::Done(
                Progress {
                    tree: annotate_all(
                        after.tree.add_root(children, length),
                        notes,
                        after.tree.vertices.len() as usize,
                    ),
                    ..after
                },
                semicolon + 1,
            )
        },
    }
}

/// The tree with which the reading of a tree starts: empty, made for
/// `num_leaves` leaves, under the name `name`.
pub open spec fn named_fresh<LV>(num_leaves: usize, name: Option<Seq<char>>) -> TreeModel<LV> {
    TreeModel { name, ..fresh_tree::<LV>(num_leaves) }
}

/// The error for a tree that is to be made for no leaves at all.
pub open spec fn no_leaves(bytes: Seq<u8>, pos: int) -> ErrorModel {
    error_at(
        ErrorKind::InvalidNewickString("Cannot build a tree for zero leaves"@),
        bytes,
        pos as usize,
    )
}

/// Reads one whole tree from `pos` into a fresh arena. The number of leaves
/// is `num_leaves` when it is known, else it is counted from zero.
#[verifier::opaque]
pub open spec fn spec_tree_at<S: LabelStorage>(
    model: ResolverModel<<S::LabelRef as View>::V>,
    know: bool,
    annotated: bool,
    num_leaves: usize,
    name: Option<Seq<char>>,
    bytes: Seq<u8>,
    pos: int,
    labels: Seq<Seq<char>>,
) -> Step<<S::LabelRef as View>::V> {
    if num_leaves == 0 {
        Step::Failed(no_leaves(bytes, pos))
    } else {
        spec_root::<S>(
            model,
            !know,
            annotated,
            bytes,
            pos,
            Progress {
                tree: named_fresh(num_leaves, name),
                labels,
                leaves: if know {
                    num_leaves as nat
                } else {
                    0nat
                },
            },
        )
    }
}

/// How reading all trees of an input ends.
pub ghost enum Forest<LV> {
    /// With these trees, and the store holding these labels.
    Done(Seq<TreeModel<LV>>, Seq<Seq<char>>),
    /// With this error.
    Failed(ErrorModel),
}

/// Reads trees from `pos` until only blanks are left. The number of leaves
/// that the first tree has is taken as known for those that follow.
#[verifier::opaque]
pub open spec fn spec_forest<S: LabelStorage>(
    model: ResolverModel<<S::LabelRef as View>::V>,
    know: bool,
    annotated: bool,
    num_leaves: usize,
    bytes: Seq<u8>,
    pos: int,
    labels: Seq<Seq<char>>,
) -> Forest<<S::LabelRef as View>::V>
    decreases bytes.len() - pos,
{
    match blank_end(bytes, pos) {
        None => Forest::Failed(unclosed(bytes)),
        Some(start) => if start >= bytes.len() || start < pos {
            Forest::Done(Seq::empty(), labels)
        } else {
            match spec_tree_at::<S>(model, know, annotated, num_leaves, None, bytes, start, labels) {
                Step::Failed(e) => Forest::Failed(e),
                Step::Done(st, end) => if start < end <= bytes.len() {
                    match spec_forest::<S>(
                        model,
                        true,
                        annotated,
                        st.leaves as usize,
                        bytes,
                        end,
                        st.labels,
                    ) {
                        Forest::Failed(e) => Forest::Failed(e),
                        Forest::Done(rest, last) => Forest::Done(seq![st.tree] + rest, last),
                    }
                } else {
                    Forest::Done(seq![st.tree], st.labels)
                },
            }
        },
    }
}

/// `f` with `done` put before its trees.
pub open spec fn after_trees<LV>(done: Seq<TreeModel<LV>>, f: Forest<LV>) -> Forest<LV> {
    match f {
        Forest::Done(rest, labels) => Forest::Done(done + rest, labels),
        Forest::Failed(e) => Forest::Failed(e),
    }
}

/// Reading a forest is reading one tree and the forest behind it.
pub proof fn lemma_forest_step<S: LabelStorage>(
    model: ResolverModel<<S::LabelRef as View>::V>,
    know: bool,
    annotated: bool,
    num_leaves: usize,
    bytes: Seq<u8>,
    pos: int,
    labels: Seq<Seq<char>>,
    done: Seq<TreeModel<<S::LabelRef as View>::V>>,
)
    requires
        blank_end(bytes, pos) matches Some(start) && pos <= start < bytes.len() && (spec_tree_at::<
            S,
        >(model, know, annotated, num_leaves, None, bytes, start, labels) matches Step::Done(st, end) && start
            < end <= bytes.len()),
    ensures
        ({
            let start = blank_end(bytes, pos)->0;
            let st = spec_tree_at::<S>(model, know, annotated, num_leaves, None, bytes, start, labels)->Done_0;
            let end = spec_tree_at::<S>(model, know, annotated, num_leaves, None, bytes, start, labels)->Done_1;
            after_trees(done, spec_forest::<S>(model, know, annotated, num_leaves, bytes, pos, labels))
                == after_trees(
                done.push(st.tree),
                spec_forest::<S>(model, true, annotated, st.leaves as usize, bytes, end, st.labels),
            )
        }),
{
    let start = blank_end(bytes, pos)->0;
    reveal(spec_forest);
    let st = spec_tree_at::<S>(model, know, annotated, num_leaves, None, bytes, start, labels)->Done_0;
    let end = spec_tree_at::<S>(model, know, annotated, num_leaves, None, bytes, start, labels)->Done_1;
    match spec_forest::<S>(model, true, annotated, st.leaves as usize, bytes, end, st.labels) {
        Forest::Done(rest, last) => {
            assert(done + (seq![st.tree] + rest) =~= done.push(st.tree) + rest);
        },
        Forest::Failed(_) => {},
    }
}

/// Reading a forest where only blanks are left yields no tree, and reading
/// one whose next tree fails, or whose blanks hold a comment that is never
/// closed, fails in the same way.
pub proof fn lemma_forest_stop<S: LabelStorage>(
    model: ResolverModel<<S::LabelRef as View>::V>,
    know: bool,
    annotated: bool,
    num_leaves: usize,
    bytes: Seq<u8>,
    pos: int,
    labels: Seq<Seq<char>>,
    done: Seq<TreeModel<<S::LabelRef as View>::V>>,
)
    requires
        0 <= pos,
    ensures
        match blank_end(bytes, pos) {
            None => after_trees(
                done,
                spec_forest::<S>(model, know, annotated, num_leaves, bytes, pos, labels),
            ) == Forest::<<S::LabelRef as View>::V>::Failed(unclosed(bytes)),
            Some(start) => if start >= bytes.len() {
                after_trees(
                    done,
                    spec_forest::<S>(model, know, annotated, num_leaves, bytes, pos, labels),
                ) == Forest::Done(done, labels)
            } else {
                spec_tree_at::<S>(model, know, annotated, num_leaves, None, bytes, start, labels)
                    matches Step::Failed(e) ==> after_trees(
                    done,
                    spec_forest::<S>(model, know, annotated, num_leaves, bytes, pos, labels),
                ) == Forest::<<S::LabelRef as View>::V>::Failed(e)
            },
        },
{
    reveal(spec_forest);
    lemma_blank_end(bytes, pos);
    assert(done + Seq::<TreeModel<<S::LabelRef as View>::V>>::empty() =~= done);
}

} // verus!
