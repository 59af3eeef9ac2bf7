//! The block structure of a NEXUS file as mathematics: what each step of
//! reading it finds in a byte sequence.

use vstd::prelude::*;
use crate::model::label_resolver::ResolverModel;
use crate::model::label_resolver::integer_table_ok;
use crate::model::label_storage::LabelStorage;
use crate::model::label_storage::last_index_of;
use crate::model::label_storage::stored;
use crate::model::leaf_label_map::labels_known;
use crate::model::translation::Entry;
use crate::model::translation::table_insert;
use crate::model::tree::TreeModel;
use crate::newick::grammar::Forest;
use crate::newick::grammar::after_trees;
use crate::newick::grammar::Progress;
use crate::newick::grammar::Step;
use crate::newick::grammar::at_least;
use crate::newick::grammar::spec_tree_at;
use crate::newick::grammar::unclosed;
use crate::nexus::burnin::Burnin;
use crate::nexus::burnin::TreeCounts;
use crate::nexus::burnin::burnin_significant;
use crate::nexus::burnin::tree_counts;
use crate::nexus::defs::BlockKind;
use crate::nexus::defs::begin_word;
use crate::nexus::defs::block_of;
use crate::nexus::defs::dimensions_word;
use crate::nexus::defs::end_word;
use crate::nexus::defs::header_word;
use crate::nexus::defs::nexus_delimiters;
use crate::nexus::defs::ntax_word;
use crate::nexus::defs::taxlabels_word;
use crate::nexus::defs::translate_word;
use crate::nexus::defs::tree_word;
use crate::parser::byte_source::byte_at;
use crate::parser::number::decimal_digits;
use crate::parser::number::unsigned_of;
use crate::parser::parsing_error::ErrorKind;
use crate::parser::parsing_error::ErrorModel;
use crate::parser::parsing_error::error_at;
use crate::parser::scan::blank_end;
use crate::parser::scan::lemma_blank_end;
use crate::parser::scan::body_start;
use crate::parser::scan::byte_chars;
use crate::parser::scan::exhausted_at;
use crate::parser::scan::Stop;
use crate::parser::scan::find_byte;
use crate::parser::scan::lemma_first_where;
use crate::parser::scan::find_sequence;
use crate::parser::scan::label_at;
use crate::parser::scan::sequence_at;
use crate::parser::scan::unquoted_at;
use crate::parser::scan::whitespace_end;

verus! {

/// How a step that only moves the cursor ends.
pub ghost enum Seek {
    /// With the cursor at this offset.
    At(int),
    /// With this error.
    Failed(ErrorModel),
}

/// The error for a malformed taxon block, raised at `pos`.
pub open spec fn taxa_error(message: Seq<char>, bytes: Seq<u8>, pos: int) -> ErrorModel {
    error_at(ErrorKind::InvalidTaxaBlock(message), bytes, pos as usize)
}

/// The error for a malformed tree block, raised at `pos`.
pub open spec fn trees_error(message: Seq<char>, bytes: Seq<u8>, pos: int) -> ErrorModel {
    error_at(ErrorKind::InvalidTreesBlock(message), bytes, pos as usize)
}

/// The error for an input that ends too early, raised at `pos`.
pub open spec fn eof_error(bytes: Seq<u8>, pos: int) -> ErrorModel {
    error_at(ErrorKind::UnexpectedEOF, bytes, pos as usize)
}

/// Reads the file header: after blanks, `#NEXUS` in any case.
pub open spec fn spec_header(bytes: Seq<u8>, pos: int) -> Seek {
    match blank_end(bytes, pos) {
        None => Seek::Failed(unclosed(bytes)),
        Some(p) => if sequence_at(bytes, p, header_word()) {
            Seek::At(p + header_word().len())
        } else {
            Seek::Failed(error_at(ErrorKind::MissingNexusHeader, bytes, p as usize))
        },
    }
}

/// Moves behind the next `End;`, in any case.
pub open spec fn spec_block_end(bytes: Seq<u8>, pos: int) -> Seek {
    match find_sequence(bytes, pos, end_word()) {
        Some(at) => Seek::At(at + end_word().len()),
        None => Seek::Failed(eof_error(bytes, exhausted_at(bytes, pos, end_word()))),
    }
}

/// How reading a block header ends.
pub ghost enum Detected {
    /// With a block of this kind, whose body starts at this offset.
    Block(BlockKind, int),
    /// With this error.
    Failed(ErrorModel),
}

/// The one byte that ends a command.
pub open spec fn semicolon() -> Seq<u8> {
    seq![59u8]
}

/// Reads a block header: after blanks `Begin`, blanks, a name up to the
/// semicolon, and the semicolon.
pub open spec fn spec_detect(bytes: Seq<u8>, pos: int) -> Detected {
    match blank_end(bytes, pos) {
        None => Detected::Failed(unclosed(bytes)),
        Some(p) => if !sequence_at(bytes, p, begin_word()) {
            Detected::Failed(error_at(ErrorKind::InvalidFormatting, bytes, p as usize))
        } else {
            match blank_end(bytes, p + begin_word().len()) {
                None => Detected::Failed(unclosed(bytes)),
                Some(q) => {
                    let name = unquoted_at(bytes, q, semicolon());
                    Detected::Block(block_of(byte_chars(name.0)), body_start(bytes, name.1))
                },
            }
        },
    }
}

/// Skips blocks until one of kind `target` is met, whose header is read.
pub open spec fn spec_seek_block(bytes: Seq<u8>, pos: int, target: BlockKind) -> Seek
    decreases bytes.len() - pos,
{
    if pos < 0 || pos >= bytes.len() {
        Seek::Failed(eof_error(bytes, pos))
    } else {
        match spec_detect(bytes, pos) {
            Detected::Failed(e) => Seek::Failed(e),
            Detected::Block(kind, body) => if kind == target {
                Seek::At(body)
            } else {
                match spec_block_end(bytes, body) {
                    Seek::Failed(e) => Seek::Failed(e),
                    Seek::At(end) => if pos < end <= bytes.len() {
                        spec_seek_block(bytes, end, target)
                    } else {
                        Seek::Failed(eof_error(bytes, end))
                    },
                }
            },
        }
    }
}

/// How reading the number of taxa ends.
pub ghost enum Dimension {
    /// With this number, and the cursor at this offset.
    Value(usize, int),
    /// With this error.
    Failed(ErrorModel),
}

/// Reads `Dimensions ntax=<n>;`, the keywords in any case.
pub open spec fn spec_ntax(bytes: Seq<u8>, pos: int) -> Dimension {
    match blank_end(bytes, pos) {
        None => Dimension::Failed(unclosed(bytes)),
        Some(p) => if !sequence_at(bytes, p, dimensions_word()) {
            Dimension::Failed(taxa_error("Expected 'DIMENSIONS' in TAXA block."@, bytes, p))
        } else {
            let w = whitespace_end(bytes, p + dimensions_word().len());
            if !sequence_at(bytes, w, ntax_word()) {
                Dimension::Failed(taxa_error("Expected 'NTAX' in TAXA block."@, bytes, w))
            } else {
                let e = whitespace_end(bytes, w + ntax_word().len());
                if byte_at(bytes, e) != Some(61u8) {
                    Dimension::Failed(taxa_error("Expected '=' in TAXA block."@, bytes, e))
                } else {
                    let v = whitespace_end(bytes, e + 1);
                    let text = unquoted_at(bytes, v, semicolon());
                    match unsigned_of(byte_chars(text.0)) {
                        Some(n) => Dimension::Value(n, body_start(bytes, text.1)),
                        None => Dimension::Failed(
                            taxa_error(
                                "Cannot parse `ntax` value: "@ + byte_chars(text.0),
                                bytes,
                                text.1,
                            ),
                        ),
                    }
                }
            }
        },
    }
}

/// How reading the taxon labels ends.
pub ghost enum Taxa {
    /// With these labels in the store, and the cursor at this offset.
    Done(Seq<Seq<char>>, int),
    /// With this error.
    Failed(ErrorModel),
}

/// The words for a taxon list of the wrong length.
pub open spec fn count_message(count: nat, expected: usize) -> Seq<char> {
    "Number of parsed labels ("@ + decimal_digits(count) + ") did not match ntax value ("@
        + decimal_digits(expected as nat) + ")."@
}

/// Reads taxon labels up to a semicolon. Each label that is not empty is
/// stored and counted; `expected` labels must have been counted at the end.
/// A byte that is neither a label nor a semicolon is an error.
pub open spec fn spec_label_list(
    bytes: Seq<u8>,
    pos: int,
    labels: Seq<Seq<char>>,
    count: nat,
    expected: usize,
) -> Taxa
    decreases bytes.len() - pos,
{
    match blank_end(bytes, pos) {
        None => Taxa::Failed(unclosed(bytes)),
        Some(p) => if byte_at(bytes, p) == Some(59u8) {
            if count == expected {
                Taxa::Done(labels, p + 1)
            } else {
                Taxa::Failed(taxa_error(count_message(count, expected), bytes, p + 1))
            }
        } else {
            let label = label_at(bytes, p, nexus_delimiters());
            if !(p < label.1 <= bytes.len() && pos < label.1) {
                if p >= bytes.len() {
                    Taxa::Failed(eof_error(bytes, p))
                } else {
                    Taxa::Failed(taxa_error("Unexpected character in TAXLABELS."@, bytes, p))
                }
            } else if label.0.len() == 0 {
                spec_label_list(bytes, label.1, labels, count, expected)
            } else {
                spec_label_list(
                    bytes,
                    label.1,
                    stored(labels, byte_chars(label.0)),
                    count + 1,
                    expected,
                )
            }
        },
    }
}

/// Reads `Taxlabels <label>* ;` into an empty store.
pub open spec fn spec_taxlabels(bytes: Seq<u8>, pos: int, expected: usize) -> Taxa {
    match blank_end(bytes, pos) {
        None => Taxa::Failed(unclosed(bytes)),
        Some(p) => if !sequence_at(bytes, p, taxlabels_word()) {
            Taxa::Failed(taxa_error("Expected 'TAXLABELS' in TAXA block."@, bytes, p))
        } else {
            spec_label_list(bytes, p + taxlabels_word().len(), Seq::empty(), 0, expected)
        },
    }
}

/// Reads the taxon block: the number of taxa, the labels, and the rest of
/// the block up to its end.
pub open spec fn spec_taxa_block(bytes: Seq<u8>, pos: int) -> (Dimension, Taxa) {
    match spec_ntax(bytes, pos) {
        Dimension::Failed(e) => (Dimension::Failed(e), Taxa::Failed(e)),
        Dimension::Value(n, p) => match spec_taxlabels(bytes, p, n) {
            Taxa::Failed(e) => (Dimension::Value(n, p), Taxa::Failed(e)),
            Taxa::Done(labels, q) => match spec_block_end(bytes, q) {
                Seek::Failed(e) => (Dimension::Value(n, p), Taxa::Failed(e)),
                Seek::At(end) => (Dimension::Value(n, p), Taxa::Done(labels, end)),
            },
        },
    }
}

/// How reading the translation table ends.
pub ghost enum Translated {
    /// No table stands there, but a tree; the cursor rests before it.
    Absent(int),
    /// With this table, and the cursor behind its semicolon.
    Table(Seq<Entry>, int),
    /// With this error.
    Failed(ErrorModel),
}

/// The words for a byte that cannot follow a pair of the table.
pub open spec fn stray_message(b: u8) -> Seq<char> {
    "Unexpected char '"@ + seq![b as char] + "' in TRANSLATE."@
}

/// Reads pairs of key and label, separated by commas, up to a semicolon.
/// The table must hold `expected` entries at the end.
pub open spec fn spec_pairs(bytes: Seq<u8>, pos: int, entries: Seq<Entry>, expected: usize) ->
    Translated
    decreases bytes.len() - pos,
{
    match blank_end(bytes, pos) {
        None => Translated::Failed(unclosed(bytes)),
        Some(p) => {
            let key = label_at(bytes, p, nexus_delimiters());
            if byte_at(bytes, key.1) != Some(32u8) {
                Translated::Failed(
                    trees_error("Expected ' ' in between key and label."@, bytes, key.1),
                )
            } else {
                let label = label_at(bytes, key.1 + 1, nexus_delimiters());
                let w = whitespace_end(bytes, label.1);
                let table = table_insert(entries, byte_chars(key.0), byte_chars(label.0));
                if byte_at(bytes, w) == Some(44u8) {
                    spec_pairs(bytes, at_least(w + 1, pos + 1), table, expected)
                } else if byte_at(bytes, w) == Some(59u8) {
                    if table.len() == expected {
                        Translated::Table(table, w + 1)
                    } else {
                        Translated::Failed(
                            error_at(ErrorKind::InvalidTranslateCommand, bytes, (w + 1) as usize),
                        )
                    }
                } else {
                    match byte_at(bytes, w) {
                        Some(b) => Translated::Failed(trees_error(stray_message(b), bytes, w)),
                        None => Translated::Failed(eof_error(bytes, w)),
                    }
                }
            }
        },
    }
}

/// Reads the translation table, if one stands at the head of the tree block.
pub open spec fn spec_translate(bytes: Seq<u8>, pos: int, expected: usize) -> Translated {
    match blank_end(bytes, pos) {
        None => Translated::Failed(unclosed(bytes)),
        Some(p) => if sequence_at(bytes, p, translate_word()) {
            spec_pairs(bytes, p + translate_word().len(), Seq::empty(), expected)
        } else if sequence_at(bytes, p, tree_word()) {
            Translated::Absent(p)
        } else {
            Translated::Failed(
                taxa_error("Expected 'TRANSLATE' or first 'TREE' in TREES block."@, bytes, p),
            )
        },
    }
}

/// How skipping one tree command ends.
pub ghost enum Skipped {
    /// A tree was skipped; the cursor rests behind its semicolon.
    Tree(int),
    /// The end of the block stands there; the cursor rests before it.
    End(int),
    /// With this error.
    Failed(ErrorModel),
}

/// Skips one tree command without reading the tree: `tree`, anything up to
/// an equals sign, blanks, and anything up to a semicolon.
pub open spec fn spec_skip_tree(bytes: Seq<u8>, pos: int) -> Skipped {
    match blank_end(bytes, pos) {
        None => Skipped::Failed(unclosed(bytes)),
        Some(p) => if sequence_at(bytes, p, end_word()) {
            Skipped::End(p)
        } else if !sequence_at(bytes, p, tree_word()) {
            Skipped::Failed(trees_error("Expected 'tree' in tree command."@, bytes, p))
        } else {
            let eq = find_byte(bytes, p + tree_word().len(), 61u8);
            if eq >= bytes.len() {
                Skipped::Failed(trees_error("Expected '=' in tree command."@, bytes, eq))
            } else {
                match blank_end(bytes, eq + 1) {
                    None => Skipped::Failed(unclosed(bytes)),
                    Some(q) => {
                        let semi = find_byte(bytes, q, 59u8);
                        if semi >= bytes.len() {
                            Skipped::Failed(eof_error(bytes, semi))
                        } else {
                            Skipped::Tree(semi + 1)
                        }
                    },
                }
            }
        },
    }
}

/// How counting the trees of a block ends.
pub ghost enum Counted {
    /// With this many trees.
    Total(nat),
    /// With this error.
    Failed(ErrorModel),
}

/// Counts the tree commands from `pos` to the end of the block.
pub open spec fn spec_count(bytes: Seq<u8>, pos: int) -> Counted
    decreases bytes.len() - pos,
{
    match spec_skip_tree(bytes, pos) {
        Skipped::Failed(e) => Counted::Failed(e),
        Skipped::End(_) => Counted::Total(0),
        Skipped::Tree(end) => if end <= pos || pos < 0 {
            Counted::Total(0)
        } else {
            match spec_count(bytes, end) {
                Counted::Failed(e) => Counted::Failed(e),
                Counted::Total(n) => Counted::Total(n + 1),
            }
        },
    }
}

/// Skips `k` tree commands from `pos`; at the end of the block the cursor
/// stays where it is.
pub open spec fn spec_skip_trees(bytes: Seq<u8>, pos: int, k: nat) -> Seek
    decreases k,
{
    if k == 0 {
        Seek::At(pos)
    } else {
        match spec_skip_tree(bytes, pos) {
            Skipped::Failed(e) => Seek::Failed(e),
            Skipped::End(p) => spec_skip_trees(bytes, p, (k - 1) as nat),
            Skipped::Tree(p) => spec_skip_trees(bytes, p, (k - 1) as nat),
        }
    }
}

/// How reading one tree command ends.
pub ghost enum Single<LV> {
    /// A tree was read, which leaves this state and this offset.
    Tree(Progress<LV>, int),
    /// The end of the block stands there; the cursor rests before it.
    End(int),
    /// With this error.
    Failed(ErrorModel),
}

/// Reads one tree command: `tree`, a name, an equals sign, blanks, and a
/// tree in Newick form, which gets the name.
#[verifier::opaque]
pub open spec fn spec_single<S: LabelStorage>(
    model: ResolverModel<<S::LabelRef as View>::V>,
    know: bool,
    annotated: bool,
    num_leaves: usize,
    bytes: Seq<u8>,
    pos: int,
    labels: Seq<Seq<char>>,
) -> Single<<S::LabelRef as View>::V> {
    match blank_end(bytes, pos) {
        None => Single::Failed(unclosed(bytes)),
        Some(p) => if sequence_at(bytes, p, end_word()) {
            Single::End(p)
        } else if !sequence_at(bytes, p, tree_word()) {
            Single::Failed(trees_error("Expected 'TREE' in tree command."@, bytes, p))
        } else {
            let name = label_at(bytes, p + tree_word().len(), nexus_delimiters());
            let w = whitespace_end(bytes, name.1);
            if byte_at(bytes, w) != Some(61u8) {
                Single::Failed(
                    trees_error("Expected '=' after tree name in tree command."@, bytes, w),
                )
            } else {
                match blank_end(bytes, w + 1) {
                    None => Single::Failed(unclosed(bytes)),
                    Some(q) => match spec_tree_at::<S>(
                        model,
                        know,
                        annotated,
                        num_leaves,
                        Some(byte_chars(name.0)),
                        bytes,
                        q,
                        labels,
                    ) {
                        Step::Failed(e) => Single::Failed(e),
                        Step::Done(st, end) => Single::Tree(st, end),
                    },
                }
            }
        },
    }
}

/// Reads tree commands from `pos` to the end of the block.
#[verifier::opaque]
pub open spec fn spec_trees<S: LabelStorage>(
    model: ResolverModel<<S::LabelRef as View>::V>,
    know: bool,
    annotated: bool,
    num_leaves: usize,
    bytes: Seq<u8>,
    pos: int,
    labels: Seq<Seq<char>>,
) -> Forest<<S::LabelRef as View>::V>
    decreases bytes.len() - pos,
{
    match spec_single::<S>(model, know, annotated, num_leaves, bytes, pos, labels) {
        Single::Failed(e) => Forest::Failed(e),
        Single::End(_) => Forest::Done(Seq::empty(), labels),
        Single::Tree(st, end) => if !(0 <= pos < end <= bytes.len()) {
            Forest::Done(Seq::empty(), labels)
        } else {
            match spec_trees::<S>(model, true, annotated, st.leaves as usize, bytes, end, st.labels) {
                Forest::Failed(e) => Forest::Failed(e),
                Forest::Done(rest, last) => Forest::Done(seq![st.tree] + rest, last),
            }
        },
    }
}

/// Whether every key of `entries` is an unsigned decimal number.
pub open spec fn all_integer_keys(entries: Seq<Entry>) -> bool {
    forall|j: int| 0 <= j < entries.len() ==> unsigned_of((#[trigger] entries[j]).0) is Some
}

/// What a table resolver resolves by: each key, and the view of the
/// reference to the label it stands for.
pub open spec fn table_model<S: LabelStorage>(entries: Seq<Entry>, labels: Seq<Seq<char>>) -> Seq<
    (Seq<char>, <S::LabelRef as View>::V),
> {
    Seq::new(
        entries.len(),
        |j: int| (entries[j].0, S::spec_ref(labels, last_index_of(labels, entries[j].1))),
    )
}

/// The entry whose key is the number `number`.
pub open spec fn entry_of(entries: Seq<Entry>, number: int) -> int {
    choose|j: int| 0 <= j < entries.len() && #[trigger] unsigned_of(entries[j].0) == Some(
        number as usize,
    )
}

/// What an array resolver resolves by: for each number from one on, the view
/// of the reference to the label it stands for.
pub open spec fn array_model<S: LabelStorage>(entries: Seq<Entry>, labels: Seq<Seq<char>>) -> Seq<
    <S::LabelRef as View>::V,
> {
    Seq::new(
        labels.len(),
        |p: int|
            S::spec_ref(labels, last_index_of(labels, entries[entry_of(entries, p + 1)].1)),
    )
}

/// How choosing a resolver ends.
pub ghost enum Chosen<RV> {
    /// With a resolver that resolves by this.
    Model(ResolverModel<RV>),
    /// With this error.
    Failed(ErrorModel),
}

/// Chooses the resolver: a verbatim one without a table; with one, which
/// must have as many entries as there are taxa and translate to taxon labels
/// only, an array resolver where every key is a number, else a table
/// resolver. A table of numbers must name every position once.
pub open spec fn spec_choose<S: LabelStorage>(
    table: Option<Seq<Entry>>,
    labels: Seq<Seq<char>>,
    bytes: Seq<u8>,
    pos: int,
) -> Chosen<<S::LabelRef as View>::V> {
    match table {
        None => Chosen::Model(ResolverModel::Verbatim),
        Some(entries) => if entries.len() != labels.len() || !labels_known(entries, labels) {
            Chosen::Failed(error_at(ErrorKind::InvalidTranslateCommand, bytes, pos as usize))
        } else if all_integer_keys(entries) {
            if integer_table_ok(entries, labels) {
                Chosen::Model(ResolverModel::Array(array_model::<S>(entries, labels)))
            } else {
                Chosen::Failed(error_at(ErrorKind::InvalidTranslateCommand, bytes, pos as usize))
            }
        } else {
            Chosen::Model(ResolverModel::Table(table_model::<S>(entries, labels)))
        },
    }
}

/// Reads at most `k` tree commands from `pos`, one at a time. The end of the
/// block before the `k`-th tree is an error.
#[verifier::opaque]
pub open spec fn spec_take<S: LabelStorage>(
    model: ResolverModel<<S::LabelRef as View>::V>,
    know: bool,
    annotated: bool,
    num_leaves: usize,
    bytes: Seq<u8>,
    pos: int,
    labels: Seq<Seq<char>>,
    k: nat,
) -> Forest<<S::LabelRef as View>::V>
    decreases k,
{
    if k == 0 {
        Forest::Done(Seq::empty(), labels)
    } else {
        match spec_single::<S>(model, know, annotated, num_leaves, bytes, pos, labels) {
            Single::Failed(e) => Forest::Failed(e),
            Single::End(p) => Forest::Failed(eof_error(bytes, p)),
            Single::Tree(st, end) => match spec_take::<S>(
                model,
                true,
                annotated,
                st.leaves as usize,
                bytes,
                end,
                st.labels,
                (k - 1) as nat,
            ) {
                Forest::Failed(e) => Forest::Failed(e),
                Forest::Done(rest, last) => Forest::Done(seq![st.tree] + rest, last),
            },
        }
    }
}

/// Reading the trees of a block one at a time yields what reading them all
/// at once yields: where the block holds `k` trees from `pos` on, taking `k`
/// trees comes to the same trees and the same labels.
pub proof fn lemma_lazy_matches_eager<S: LabelStorage>(
    model: ResolverModel<<S::LabelRef as View>::V>,
    know: bool,
    annotated: bool,
    num_leaves: usize,
    bytes: Seq<u8>,
    pos: int,
    labels: Seq<Seq<char>>,
    k: nat,
)
    requires
        0 <= pos,
        spec_trees::<S>(model, know, annotated, num_leaves, bytes, pos, labels) matches Forest::Done(trees, _)
            && trees.len() == k,
    ensures
        spec_take::<S>(model, know, annotated, num_leaves, bytes, pos, labels, k) == spec_trees::<S>(
            model,
            know,
            annotated,
            num_leaves,
            bytes,
            pos,
            labels,
        ),
    decreases k,
{
    reveal(spec_trees);
    reveal(spec_take);
    match spec_single::<S>(model, know, annotated, num_leaves, bytes, pos, labels) {
        Single::Tree(st, end) => {
            if pos < end <= bytes.len() {
                match spec_trees::<S>(model, true, annotated, st.leaves as usize, bytes, end, st.labels) {
                    Forest::Done(rest, last) => {
                        assert((seq![st.tree] + rest).len() == rest.len() + 1);
                        lemma_lazy_matches_eager::<S>(
                            model,
                            true,
                            annotated,
                            st.leaves as usize,
                            bytes,
                            end,
                            st.labels,
                            (k - 1) as nat,
                        );
                    },
                    Forest::Failed(_) => {},
                }
            }
        },
        _ => {},
    }
}

/// How getting a file ready ends.
pub ghost enum Opened<LV> {
    /// With this number of taxa, a resolver that resolves by this model,
    /// these labels in the store, and the cursor before the first tree.
    Ready { num_leaves: usize, model: ResolverModel<LV>, labels: Seq<Seq<char>>, at: int },
    /// With this error.
    Failed(ErrorModel),
}

/// Ends the getting ready: the resolver is chosen where the table ended, and
/// the blanks before the first tree are skipped.
pub open spec fn spec_resolver_at<S: LabelStorage>(
    table: Option<Seq<Entry>>,
    num_leaves: usize,
    labels: Seq<Seq<char>>,
    bytes: Seq<u8>,
    pos: int,
) -> Opened<<S::LabelRef as View>::V> {
    match spec_choose::<S>(table, labels, bytes, pos) {
        Chosen::Failed(e) => Opened::Failed(e),
        Chosen::Model(model) => match blank_end(bytes, pos) {
            None => Opened::Failed(unclosed(bytes)),
            Some(at) => Opened::Ready { num_leaves, model, labels, at },
        },
    }
}

/// Gets a file ready for its trees: the header, the taxon block, the head of
/// the tree block with the translation table, and the resolver.
pub open spec fn spec_open<S: LabelStorage>(bytes: Seq<u8>, pos: int) -> Opened<
    <S::LabelRef as View>::V,
> {
    match spec_header(bytes, pos) {
        Seek::Failed(e) => Opened::Failed(e),
        Seek::At(after_header) => match spec_seek_block(bytes, after_header, BlockKind::Taxa) {
            Seek::Failed(e) => Opened::Failed(e),
            Seek::At(taxa) => match spec_taxa_block(bytes, taxa) {
                (Dimension::Value(n, _), Taxa::Done(labels, after_taxa)) => match spec_seek_block(
                    bytes,
                    after_taxa,
                    BlockKind::Trees,
                ) {
                    Seek::Failed(e) => Opened::Failed(e),
                    Seek::At(trees) => match spec_translate(bytes, trees, n) {
                        Translated::Failed(e) => Opened::Failed(e),
                        Translated::Absent(p) => spec_resolver_at::<S>(None, n, labels, bytes, p),
                        Translated::Table(entries, p) => spec_resolver_at::<S>(
                            Some(entries),
                            n,
                            labels,
                            bytes,
                            p,
                        ),
                    },
                },
                (_, Taxa::Failed(e)) => Opened::Failed(e),
                (Dimension::Failed(e), _) => Opened::Failed(e),
            },
        },
    }
}

/// A file that is ready for its trees to be handed out.
pub ghost struct Initialised<LV> {
    /// The number of taxa.
    pub num_leaves: usize,
    /// What the resolver resolves by.
    pub model: ResolverModel<LV>,
    /// The labels in the store.
    pub labels: Seq<Seq<char>>,
    /// Which trees are kept.
    pub counts: TreeCounts,
    /// The trees kept, where they were read at once.
    pub trees: Option<Seq<TreeModel<LV>>>,
    /// Where the cursor rests: before the first kept tree when trees are
    /// read on demand.
    pub position: int,
}

/// How getting the trees of a file ready ends.
pub ghost enum Init<LV> {
    /// With the file in this state.
    Ready(Initialised<LV>),
    /// With this error.
    Failed(ErrorModel),
}

/// `trees` without its first `k`.
pub open spec fn kept<LV>(trees: Seq<TreeModel<LV>>, k: usize) -> Seq<TreeModel<LV>> {
    if k >= trees.len() {
        Seq::empty()
    } else {
        trees.subrange(k as int, trees.len() as int)
    }
}

/// Gets the trees ready by counting first: the trees from `at` on are
/// counted, those dropped are skipped unread, and the others are read at
/// once, or left for later with the cursor before the first of them.
pub open spec fn spec_two_pass<S: LabelStorage>(
    bytes: Seq<u8>,
    at: int,
    num_leaves: usize,
    model: ResolverModel<<S::LabelRef as View>::V>,
    labels: Seq<Seq<char>>,
    annotated: bool,
    eager: bool,
    skip_first: bool,
    burnin: Burnin,
) -> Init<<S::LabelRef as View>::V> {
    match spec_count(bytes, at) {
        Counted::Failed(e) => Init::Failed(e),
        Counted::Total(total) => {
            let counts = tree_counts(skip_first, burnin, total as usize);
            match spec_skip_trees(bytes, at, counts.start_tree_pos as nat) {
                Seek::Failed(e) => Init::Failed(e),
                Seek::At(first) => if eager {
                    match spec_trees::<S>(model, true, annotated, num_leaves, bytes, first, labels) {
                        Forest::Failed(e) => Init::Failed(e),
                        Forest::Done(trees, last) => Init::Ready(
                            Initialised {
                                num_leaves,
                                model,
                                labels: last,
                                counts,
                                trees: Some(trees),
                                position: trees_end::<S>(
                                    model,
                                    true,
                                    annotated,
                                    num_leaves,
                                    bytes,
                                    first,
                                    labels,
                                ),
                            },
                        ),
                    }
                } else {
                    Init::Ready(
                        Initialised {
                            num_leaves,
                            model,
                            labels,
                            counts,
                            trees: None,
                            position: first,
                        },
                    )
                },
            }
        },
    }
}

/// Gets the trees ready in one pass: all trees from `at` on are read, and
/// those dropped are set aside.
pub open spec fn spec_one_pass<S: LabelStorage>(
    bytes: Seq<u8>,
    at: int,
    num_leaves: usize,
    model: ResolverModel<<S::LabelRef as View>::V>,
    labels: Seq<Seq<char>>,
    annotated: bool,
    skip_first: bool,
    burnin: Burnin,
) -> Init<<S::LabelRef as View>::V> {
    match spec_trees::<S>(model, true, annotated, num_leaves, bytes, at, labels) {
        Forest::Failed(e) => Init::Failed(e),
        Forest::Done(trees, last) => {
            let counts = tree_counts(skip_first, burnin, trees.len() as usize);
            Init::Ready(
                Initialised {
                    num_leaves,
                    model,
                    labels: last,
                    counts,
                    trees: Some(kept(trees, counts.start_tree_pos)),
                    position: trees_end::<S>(model, true, annotated, num_leaves, bytes, at, labels),
                },
            )
        },
    }
}

/// Gets the trees of a file ready.
///
/// Where trees are read on demand, or the burn-in is significant, the trees
/// are counted first. Else all trees are read in one pass.
pub open spec fn spec_init<S: LabelStorage>(
    bytes: Seq<u8>,
    pos: int,
    annotated: bool,
    eager: bool,
    skip_first: bool,
    burnin: Burnin,
) -> Init<<S::LabelRef as View>::V> {
    match spec_open::<S>(bytes, pos) {
        Opened::Failed(e) => Init::Failed(e),
        Opened::Ready { num_leaves, model, labels, at } => if !eager || burnin_significant(burnin) {
            spec_two_pass::<S>(
                bytes,
                at,
                num_leaves,
                model,
                labels,
                annotated,
                eager,
                skip_first,
                burnin,
            )
        } else {
            spec_one_pass::<S>(bytes, at, num_leaves, model, labels, annotated, skip_first, burnin)
        },
    }
}

/// Where the cursor rests after the tree commands from `pos` on were read:
/// before the end of the block.
#[verifier::opaque]
pub open spec fn trees_end<S: LabelStorage>(
    model: ResolverModel<<S::LabelRef as View>::V>,
    know: bool,
    annotated: bool,
    num_leaves: usize,
    bytes: Seq<u8>,
    pos: int,
    labels: Seq<Seq<char>>,
) -> int
    decreases bytes.len() - pos,
{
    match spec_single::<S>(model, know, annotated, num_leaves, bytes, pos, labels) {
        Single::Failed(_) => pos,
        Single::End(p) => p,
        Single::Tree(st, end) => if !(0 <= pos < end <= bytes.len()) {
            pos
        } else {
            trees_end::<S>(model, true, annotated, st.leaves as usize, bytes, end, st.labels)
        },
    }
}

/// Reading the trees of a block is reading one tree and the trees behind
/// it.
pub proof fn lemma_trees_step<S: LabelStorage>(
    model: ResolverModel<<S::LabelRef as View>::V>,
    know: bool,
    annotated: bool,
    num_leaves: usize,
    bytes: Seq<u8>,
    pos: int,
    labels: Seq<Seq<char>>,
    done: Seq<TreeModel<<S::LabelRef as View>::V>>,
)
    requires
        0 <= pos,
        spec_single::<S>(model, know, annotated, num_leaves, bytes, pos, labels) matches Single::Tree(_, end)
            && pos < end <= bytes.len(),
    ensures
        ({
            let st = spec_single::<S>(model, know, annotated, num_leaves, bytes, pos, labels)->Tree_0;
            let end = spec_single::<S>(model, know, annotated, num_leaves, bytes, pos, labels)->Tree_1;
            &&& after_trees(done, spec_trees::<S>(model, know, annotated, num_leaves, bytes, pos, labels))
                == after_trees(
                done.push(st.tree),
                spec_trees::<S>(model, true, annotated, st.leaves as usize, bytes, end, st.labels),
            )
            &&& trees_end::<S>(model, know, annotated, num_leaves, bytes, pos, labels) == trees_end::<S>(
                model,
                true,
                annotated,
                st.leaves as usize,
                bytes,
                end,
                st.labels,
            )
        }),
{
    reveal(spec_trees);
    reveal(trees_end);
    let st = spec_single::<S>(model, know, annotated, num_leaves, bytes, pos, labels)->Tree_0;
    let end = spec_single::<S>(model, know, annotated, num_leaves, bytes, pos, labels)->Tree_1;
    match spec_trees::<S>(model, true, annotated, st.leaves as usize, bytes, end, st.labels) {
        Forest::Done(rest, last) => {
            assert(done + (seq![st.tree] + rest) =~= done.push(st.tree) + rest);
        },
        Forest::Failed(_) => {},
    }
}

/// Reading the trees of a block that stands at its end yields no tree.
pub proof fn lemma_trees_end<S: LabelStorage>(
    model: ResolverModel<<S::LabelRef as View>::V>,
    know: bool,
    annotated: bool,
    num_leaves: usize,
    bytes: Seq<u8>,
    pos: int,
    labels: Seq<Seq<char>>,
    done: Seq<TreeModel<<S::LabelRef as View>::V>>,
)
    requires
        spec_single::<S>(model, know, annotated, num_leaves, bytes, pos, labels) is End,
    ensures
        after_trees(done, spec_trees::<S>(model, know, annotated, num_leaves, bytes, pos, labels))
            == Forest::Done(done, labels),
        trees_end::<S>(model, know, annotated, num_leaves, bytes, pos, labels) == spec_single::<S>(
            model,
            know,
            annotated,
            num_leaves,
            bytes,
            pos,
            labels,
        )->End_0,
{
    reveal(spec_trees);
    reveal(trees_end);
    assert(done + Seq::<TreeModel<<S::LabelRef as View>::V>>::empty() =~= done);
}

/// Taking trees one at a time is taking one tree and those behind it.
pub proof fn lemma_take_step<S: LabelStorage>(
    model: ResolverModel<<S::LabelRef as View>::V>,
    know: bool,
    annotated: bool,
    num_leaves: usize,
    bytes: Seq<u8>,
    pos: int,
    labels: Seq<Seq<char>>,
    k: nat,
    done: Seq<TreeModel<<S::LabelRef as View>::V>>,
)
    requires
        k > 0,
        spec_single::<S>(model, know, annotated, num_leaves, bytes, pos, labels) is Tree,
    ensures
        ({
            let st = spec_single::<S>(model, know, annotated, num_leaves, bytes, pos, labels)->Tree_0;
            let end = spec_single::<S>(model, know, annotated, num_leaves, bytes, pos, labels)->Tree_1;
            after_trees(done, spec_take::<S>(model, know, annotated, num_leaves, bytes, pos, labels, k))
                == after_trees(
                done.push(st.tree),
                spec_take::<S>(
                    model,
                    true,
                    annotated,
                    st.leaves as usize,
                    bytes,
                    end,
                    st.labels,
                    (k - 1) as nat,
                ),
            )
        }),
{
    reveal(spec_take);
    let st = spec_single::<S>(model, know, annotated, num_leaves, bytes, pos, labels)->Tree_0;
    let end = spec_single::<S>(model, know, annotated, num_leaves, bytes, pos, labels)->Tree_1;
    match spec_take::<S>(model, true, annotated, st.leaves as usize, bytes, end, st.labels, (k - 1) as nat) {
        Forest::Done(rest, last) => {
            assert(done + (seq![st.tree] + rest) =~= done.push(st.tree) + rest);
        },
        Forest::Failed(_) => {},
    }
}

/// Taking no tree yields none, and taking one where the next tree fails or
/// the block ends fails.
pub proof fn lemma_take_stop<S: LabelStorage>(
    model: ResolverModel<<S::LabelRef as View>::V>,
    know: bool,
    annotated: bool,
    num_leaves: usize,
    bytes: Seq<u8>,
    pos: int,
    labels: Seq<Seq<char>>,
    k: nat,
    done: Seq<TreeModel<<S::LabelRef as View>::V>>,
)
    ensures
        k == 0 ==> after_trees(
            done,
            spec_take::<S>(model, know, annotated, num_leaves, bytes, pos, labels, k),
        ) == Forest::Done(done, labels),
        k > 0 ==> match spec_single::<S>(model, know, annotated, num_leaves, bytes, pos, labels) {
            Single::Failed(e) => after_trees(
                done,
                spec_take::<S>(model, know, annotated, num_leaves, bytes, pos, labels, k),
            ) == Forest::<<S::LabelRef as View>::V>::Failed(e),
            Single::End(p) => after_trees(
                done,
                spec_take::<S>(model, know, annotated, num_leaves, bytes, pos, labels, k),
            ) == Forest::<<S::LabelRef as View>::V>::Failed(eof_error(bytes, p)),
            Single::Tree(_, _) => true,
        },
{
    reveal(spec_take);
    assert(done + Seq::<TreeModel<<S::LabelRef as View>::V>>::empty() =~= done);
}

/// Reading the trees of a block fails where reading its next tree fails.
pub proof fn lemma_trees_fail<S: LabelStorage>(
    model: ResolverModel<<S::LabelRef as View>::V>,
    know: bool,
    annotated: bool,
    num_leaves: usize,
    bytes: Seq<u8>,
    pos: int,
    labels: Seq<Seq<char>>,
    done: Seq<TreeModel<<S::LabelRef as View>::V>>,
)
    requires
        spec_single::<S>(model, know, annotated, num_leaves, bytes, pos, labels) is Failed,
    ensures
        after_trees(
            done,
            spec_trees::<S>(model, know, annotated, num_leaves, bytes, pos, labels),
        ) == Forest::<<S::LabelRef as View>::V>::Failed(
            spec_single::<S>(model, know, annotated, num_leaves, bytes, pos, labels)->Failed_0,
        ),
{
    reveal(spec_trees);
}

/// Skipping trees from an offset that is not below zero ends at one that is
/// not.
pub proof fn lemma_skip_trees_end(bytes: Seq<u8>, pos: int, k: nat)
    requires
        0 <= pos,
    ensures
        spec_skip_trees(bytes, pos, k) matches Seek::At(end) ==> 0 <= end,
    decreases k,
{
    if k > 0 {
        lemma_blank_end(bytes, pos);
        match spec_skip_tree(bytes, pos) {
            Skipped::End(p) => {
                lemma_skip_trees_end(bytes, p, (k - 1) as nat);
            },
            Skipped::Tree(p) => {
                let start = blank_end(bytes, pos)->0;
                lemma_first_where(bytes, start + tree_word().len(), Stop::Byte(61u8));
                let eq = find_byte(bytes, start + tree_word().len(), 61u8);
                lemma_blank_end(bytes, eq + 1);
                lemma_first_where(bytes, blank_end(bytes, eq + 1)->0, Stop::Byte(59u8));
                lemma_skip_trees_end(bytes, p, (k - 1) as nat);
            },
            _ => {},
        }
    }
}

/// Reading on demand hands out the trees that reading at once holds, where
/// both count the trees first and the trees read at once are as many as were
/// counted: both skip the same trees unread, and taking the kept trees one at
/// a time from where the cursor rests yields the trees and the labels of
/// reading them at once.
pub proof fn lemma_lazy_file_matches_eager<S: LabelStorage>(
    bytes: Seq<u8>,
    at: int,
    num_leaves: usize,
    model: ResolverModel<<S::LabelRef as View>::V>,
    labels: Seq<Seq<char>>,
    annotated: bool,
    skip_first: bool,
    burnin: Burnin,
)
    requires
        0 <= at,
        spec_two_pass::<S>(bytes, at, num_leaves, model, labels, annotated, true, skip_first, burnin)
            matches Init::Ready(eager) && eager.trees is Some && eager.trees->0.len()
            == eager.counts.num_trees,
    ensures
        spec_two_pass::<S>(
            bytes,
            at,
            num_leaves,
            model,
            labels,
            annotated,
            false,
            skip_first,
            burnin,
        ) matches Init::Ready(lazy) && ({
            let eager = spec_two_pass::<S>(
                bytes,
                at,
                num_leaves,
                model,
                labels,
                annotated,
                true,
                skip_first,
                burnin,
            )->Ready_0;
            &&& lazy.counts == eager.counts
            &&& lazy.trees is None
            &&& spec_take::<S>(
                model,
                true,
                annotated,
                num_leaves,
                bytes,
                lazy.position,
                lazy.labels,
                lazy.counts.num_trees as nat,
            ) == Forest::Done(eager.trees->0, eager.labels)
        }),
{
    match spec_count(bytes, at) {
        Counted::Total(total) => {
            let counts = tree_counts(skip_first, burnin, total as usize);
            lemma_skip_trees_end(bytes, at, counts.start_tree_pos as nat);
            match spec_skip_trees(bytes, at, counts.start_tree_pos as nat) {
                Seek::At(first) => {
                    lemma_lazy_matches_eager::<S>(
                        model,
                        true,
                        annotated,
                        num_leaves,
                        bytes,
                        first,
                        labels,
                        counts.num_trees as nat,
                    );
                },
                _ => {},
            }
        },
        _ => {},
    }
}

} // verus!
