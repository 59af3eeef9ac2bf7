//! The parser for NEXUS files: it gets a file ready, and hands out its trees
//! at once or on demand.

use vstd::prelude::*;
use vstd::string::*;
use crate::model::label_resolver::LabelResolver;
use crate::model::label_resolver::is_key;
use crate::model::label_resolver::pairs_model;
use crate::model::label_resolver::refs_model;
use crate::model::label_storage::LabelStorage;
use crate::model::translation::Entry;
use crate::model::translation::Translation;
use crate::model::shape::well_built;
use crate::model::tree::TreeModel;
use crate::model::tree_builder::TreeBuilder;
use crate::newick::grammar::Forest;
use crate::newick::grammar::after_trees;
use crate::newick::parser::NewickParser;
use crate::newick::parser::RefView;
use crate::nexus::blocks::parse_nexus_header;
use crate::nexus::blocks::parse_taxa_block;
use crate::nexus::blocks::parse_tree_block_translate;
use crate::nexus::blocks::skip_until_block;
use crate::nexus::blocks::trees_error_here;
use crate::nexus::burnin::Burnin;
use crate::nexus::burnin::ReadStrategy;
use crate::nexus::burnin::TreeCounts;
use crate::nexus::burnin::configure_tree_counts;
use crate::nexus::burnin::use_buffered;
use crate::nexus::defs::NexusBlock;
use crate::nexus::defs::block_end;
use crate::nexus::defs::nexus_label_delimiters;
use crate::nexus::defs::tree;
use crate::nexus::grammar::Chosen;
use crate::nexus::grammar::Counted;
use crate::nexus::grammar::Init;
use crate::nexus::grammar::Opened;
use crate::nexus::grammar::Seek;
use crate::nexus::grammar::Single;
use crate::nexus::grammar::Skipped;
use crate::nexus::grammar::array_model;
use crate::nexus::grammar::entry_of;
use crate::nexus::grammar::kept;
use crate::nexus::grammar::lemma_trees_end;
use crate::nexus::grammar::lemma_trees_step;
use crate::nexus::grammar::lemma_take_step;
use crate::nexus::grammar::lemma_take_stop;
use crate::nexus::grammar::lemma_trees_fail;
use crate::nexus::grammar::spec_choose;
use crate::nexus::grammar::spec_count;
use crate::nexus::grammar::spec_init;
use crate::nexus::grammar::spec_open;
use crate::nexus::grammar::spec_single;
use crate::nexus::grammar::spec_skip_tree;
use crate::nexus::grammar::spec_skip_trees;
use crate::nexus::grammar::spec_take;
use crate::nexus::grammar::spec_trees;
use crate::nexus::grammar::table_model;
use crate::nexus::grammar::trees_end;
use crate::parser::byte_parser::ByteParser;
use crate::parser::byte_parser::ConsumeMode;
use crate::parser::byte_source::ByteSource;
use crate::parser::number::parse_unsigned;
use crate::parser::number::unsigned_of;
use crate::parser::parsing_error::ParsingError;
use crate::parser::scan::Stop;
use crate::parser::scan::lemma_blank_end;
use crate::parser::scan::lemma_first_where;
use crate::parser::scan::lemma_label_at;

verus! {

/// The entries of an optional table.
pub open spec fn table_view(table: Option<Translation>) -> Option<Seq<Entry>> {
    match table {
        Some(t) => Some(t.spec_entries()),
        None => None,
    }
}

/// Whether every key of `table` is an unsigned decimal number.
pub fn keys_are_numbers(table: &Translation) -> (r: bool)
    ensures
        r == crate::nexus::grammar::all_integer_keys(table.spec_entries()),
{
    let mut j: usize = 0;
    while j < table.len()
        invariant
            j <= table.spec_entries().len(),
            forall|k: int|
                0 <= k < j ==> unsigned_of((#[trigger] table.spec_entries()[k]).0) is Some,
        decreases table.spec_entries().len() - j,
    {
        if parse_unsigned(table.key_at(j).as_str()).is_none() {
            assert(unsigned_of(table.spec_entries()[j as int].0) is None);
            return false;
        }
        j = j + 1;
    }
    true
}

/// Chooses the resolver for the trees of a file: a verbatim one without a
/// table, an array resolver for a table of numbers, else a table resolver.
/// A table that does not fit the taxon list is an error.
pub fn choose_resolver<B: ByteSource, S: LabelStorage>(
    parser: &mut ByteParser<B>,
    label_storage: S,
    table: Option<Translation>,
) -> (r: Result<LabelResolver<S>, ParsingError>)
    ensures
        final(parser).spec_bytes() == old(parser).spec_bytes(),
        final(parser).spec_position() == old(parser).spec_position(),
        match spec_choose::<S>(
            table_view(table),
            label_storage.spec_labels(),
            old(parser).spec_bytes(),
            old(parser).spec_position() as int,
        ) {
            Chosen::Model(model) => r matches Ok(resolver) && resolver.spec_model() == model
                && resolver.spec_storage() == label_storage,
            Chosen::Failed(e) => r matches Err(x) && x@ == e,
        },
{
    let translation = match table {
        None => {
            return Ok(LabelResolver::new_verbatim_labels_resolver(label_storage));
        },
        Some(t) => t,
    };
    let ghost entries = translation.spec_entries();
    let ghost labels = label_storage.spec_labels();
    if translation.len() != label_storage.num_labels() {
        return Err(ParsingError::invalid_translate_command(parser));
    }
    if keys_are_numbers(&translation) {
        match LabelResolver::<S>::integer_table(&translation, &label_storage) {
            Some(index_array) => {
                proof {
                    assert forall|p: int| 0 <= p < labels.len() implies refs_model(index_array@)[p]
                        == array_model::<S>(entries, labels)[p] by {
                        assert(is_key(entries, p + 1));
                        let j = entry_of(entries, p + 1);
                        assert(unsigned_of(entries[j].0) == Some((p + 1) as usize));
                        assert(index_array@[unsigned_of(entries[j].0)->0 - 1]@ == S::spec_ref(
                            labels,
                            crate::model::label_storage::last_index_of(labels, entries[j].1),
                        ));
                    }
                    assert(refs_model(index_array@) =~= array_model::<S>(entries, labels));
                }
                Ok(LabelResolver::NexusIntegerLabels { index_array, storage: label_storage })
            },
            None => Err(ParsingError::invalid_translate_command(parser)),
        }
    } else {
        match LabelResolver::<S>::label_table(&translation, &label_storage) {
            Some(index_map) => {
                proof {
                    assert(pairs_model(index_map@) =~= table_model::<S>(entries, labels));
                }
                Ok(LabelResolver::NexusLabels { index_map, storage: label_storage })
            },
            None => Err(ParsingError::invalid_translate_command(parser)),
        }
    }
}

/// Skips one tree command without reading its tree. Returns whether there
/// was one; `false` at the end of the block.
pub fn skip_tree<B: ByteSource>(parser: &mut ByteParser<B>) -> (r: Result<bool, ParsingError>)
    ensures
        final(parser).spec_bytes() == old(parser).spec_bytes(),
        match spec_skip_tree(old(parser).spec_bytes(), old(parser).spec_position() as int) {
            Skipped::Tree(end) => r matches Ok(true) && final(parser).spec_position() == end
                && old(parser).spec_position() < end,
            Skipped::End(end) => r matches Ok(false) && final(parser).spec_position() == end
                && old(parser).spec_position() <= end,
            Skipped::Failed(e) => r matches Err(x) && x@ == e,
        },
{
    let ghost bytes = parser.spec_bytes();
    proof {
        parser.lemma_bytes_fit();
        lemma_blank_end(bytes, parser.spec_position() as int);
    }
    match parser.skip_comment_and_whitespace() {
        Ok(()) => {},
        Err(e) => {
            return Err(e);
        },
    }
    let end = block_end();
    if parser.peek_is_sequence(end.as_slice()) {
        return Ok(false);
    }
    let word = tree();
    if !parser.consume_if_sequence(word.as_slice()) {
        return Err(trees_error_here(parser, "Expected 'tree' in tree command."));
    }
    proof {
        lemma_first_where(bytes, parser.spec_position() as int, Stop::Byte(61u8));
    }
    if !parser.consume_until(61, ConsumeMode::Exclusive) {
        return Err(trees_error_here(parser, "Expected '=' in tree command."));
    }
    parser.next();
    proof {
        lemma_blank_end(bytes, parser.spec_position() as int);
    }
    match parser.skip_comment_and_whitespace() {
        Ok(()) => {},
        Err(e) => {
            return Err(e);
        },
    }
    proof {
        lemma_first_where(bytes, parser.spec_position() as int, Stop::Byte(59u8));
    }
    if !parser.consume_until(59, ConsumeMode::Inclusive) {
        return Err(ParsingError::unexpected_eof(parser));
    }
    Ok(true)
}

/// Counts the tree commands up to the end of the block. The cursor is put
/// back where it was.
pub fn count_trees<B: ByteSource>(parser: &mut ByteParser<B>) -> (r: Result<usize, ParsingError>)
    ensures
        final(parser).spec_bytes() == old(parser).spec_bytes(),
        match spec_count(old(parser).spec_bytes(), old(parser).spec_position() as int) {
            Counted::Total(n) => r == Ok::<usize, ParsingError>(n as usize) && n <= usize::MAX
                && final(parser).spec_position() == old(parser).spec_position(),
            Counted::Failed(e) => r matches Err(x) && x@ == e,
        },
{
    let ghost bytes = parser.spec_bytes();
    let ghost start = parser.spec_position() as int;
    let saved: usize = parser.position();
    let mut count: usize = 0;
    proof {
        parser.lemma_bytes_fit();
    }
    loop
        invariant
            bytes == old(parser).spec_bytes(),
            start == old(parser).spec_position(),
            saved == start,
            parser.spec_bytes() == bytes,
            bytes.len() <= usize::MAX,
            start <= parser.spec_position(),
            count <= parser.spec_position() - start,
            match spec_count(bytes, parser.spec_position() as int) {
                Counted::Total(n) => spec_count(bytes, start) == Counted::Total((n + count) as nat),
                Counted::Failed(e) => spec_count(bytes, start) == Counted::Failed(e),
            },
        decreases bytes.len() - parser.spec_position(),
    {
        match skip_tree(parser) {
            Ok(more) => {
                if !more {
                    parser.set_position(saved);
                    return Ok(count);
                }
                count = count + 1;
            },
            Err(e) => {
                return Err(e);
            },
        }
    }
}

/// Skips `k` tree commands; at the end of the block nothing more is
/// skipped.
pub fn skip_trees<B: ByteSource>(parser: &mut ByteParser<B>, k: usize) -> (r: Result<
    (),
    ParsingError,
>)
    ensures
        final(parser).spec_bytes() == old(parser).spec_bytes(),
        match spec_skip_trees(
            old(parser).spec_bytes(),
            old(parser).spec_position() as int,
            k as nat,
        ) {
            Seek::At(end) => r is Ok && final(parser).spec_position() == end,
            Seek::Failed(e) => r matches Err(x) && x@ == e,
        },
{
    let ghost bytes = parser.spec_bytes();
    let ghost start = parser.spec_position() as int;
    let mut i: usize = 0;
    while i < k
        invariant
            bytes == old(parser).spec_bytes(),
            start == old(parser).spec_position(),
            parser.spec_bytes() == bytes,
            i <= k,
            spec_skip_trees(bytes, parser.spec_position() as int, (k - i) as nat)
                == spec_skip_trees(bytes, start, k as nat),
        decreases k - i,
    {
        match skip_tree(parser) {
            Ok(_) => {},
            Err(e) => {
                return Err(e);
            },
        }
        i = i + 1;
    }
    Ok(())
}

/// Reads one tree command: `tree <name> = <tree>;`. Returns `None` at the
/// end of the block.
#[verifier::rlimit(40)]
pub fn parse_single_tree<B: ByteSource, T: TreeBuilder>(
    parser: &mut ByteParser<B>,
    newick: &mut NewickParser<T>,
) -> (r: Result<Option<T::Tree>, ParsingError>)
    ensures
        final(parser).spec_bytes() == old(parser).spec_bytes(),
        match spec_single::<T::Storage>(
            old(newick).spec_model(),
            old(newick).spec_know_num_leaves(),
            old(newick).spec_annotated(),
            old(newick).spec_num_leaves(),
            old(parser).spec_bytes(),
            old(parser).spec_position() as int,
            old(newick).spec_labels(),
        ) {
            Single::Tree(st, end) => {
                &&& r matches Ok(Some(tree))
                &&& T::spec_tree(&tree) == st.tree
                &&& well_built(st.tree)
                &&& final(newick).spec_labels() == st.labels
                &&& final(newick).spec_num_leaves() == st.leaves
                &&& final(newick).spec_know_num_leaves()
                &&& final(newick).spec_model() == old(newick).spec_model()
                &&& final(newick).spec_annotated() == old(newick).spec_annotated()
                &&& final(parser).spec_position() == end
                &&& old(parser).spec_position() < end <= old(parser).spec_bytes().len()
            },
            Single::End(end) => {
                &&& r matches Ok(None)
                &&& *final(newick) == *old(newick)
                &&& final(parser).spec_position() == end
                &&& old(parser).spec_position() <= end
            },
            Single::Failed(e) => r matches Err(x) && x@ == e,
        },
{
    reveal(spec_single);
    let ghost bytes = parser.spec_bytes();
    proof {
        parser.lemma_bytes_fit();
        lemma_blank_end(bytes, parser.spec_position() as int);
    }
    match parser.skip_comment_and_whitespace() {
        Ok(()) => {},
        Err(e) => {
            return Err(e);
        },
    }
    let end = block_end();
    if parser.peek_is_sequence(end.as_slice()) {
        return Ok(None);
    }
    let word = tree();
    if !parser.consume_if_sequence(word.as_slice()) {
        return Err(trees_error_here(parser, "Expected 'TREE' in tree command."));
    }
    let delimiters = nexus_label_delimiters();
    proof {
        lemma_label_at(bytes, parser.spec_position() as int, delimiters@);
    }
    let name = match parser.parse_label(delimiters.as_slice()) {
        Ok(n) => n,
        Err(e) => {
            return Err(e);
        },
    };
    proof {
        lemma_first_where(bytes, parser.spec_position() as int, Stop::NotWhitespace);
    }
    parser.skip_whitespace();
    if !parser.consume_if(61) {
        return Err(trees_error_here(parser, "Expected '=' after tree name in tree command."));
    }
    proof {
        lemma_blank_end(bytes, parser.spec_position() as int);
    }
    match parser.skip_comment_and_whitespace() {
        Ok(()) => {},
        Err(e) => {
            return Err(e);
        },
    }
    match newick.parse_str_and_name(parser, Some(name)) {
        Ok(tree) => Ok(Some(tree)),
        Err(e) => Err(e),
    }
}

/// Reads the tree commands up to the end of the block and adds their trees
/// to `trees`.
#[verifier::rlimit(60)]
pub fn parse_tree_block_trees<B: ByteSource, T: TreeBuilder>(
    parser: &mut ByteParser<B>,
    newick: &mut NewickParser<T>,
    trees: &mut Vec<T::Tree>,
) -> (r: Result<(), ParsingError>)
    ensures
        final(parser).spec_bytes() == old(parser).spec_bytes(),
        match spec_trees::<T::Storage>(
            old(newick).spec_model(),
            old(newick).spec_know_num_leaves(),
            old(newick).spec_annotated(),
            old(newick).spec_num_leaves(),
            old(parser).spec_bytes(),
            old(parser).spec_position() as int,
            old(newick).spec_labels(),
        ) {
            Forest::Done(found, labels) => {
                &&& r is Ok
                &&& final(trees)@.len() == old(trees)@.len() + found.len()
                &&& forall|i: int|
                    0 <= i < old(trees)@.len() ==> #[trigger] final(trees)@[i] == old(trees)@[i]
                &&& forall|i: int|
                    0 <= i < found.len() ==> T::spec_tree(
                        &#[trigger] final(trees)@[old(trees)@.len() + i],
                    ) == found[i]
                &&& forall|i: int|
                    0 <= i < found.len() ==> well_built(#[trigger] found[i])
                &&& final(newick).spec_labels() == labels
                &&& final(newick).spec_model() == old(newick).spec_model()
                &&& final(newick).spec_annotated() == old(newick).spec_annotated()
                &&& final(parser).spec_position() == trees_end::<T::Storage>(
                    old(newick).spec_model(),
                    old(newick).spec_know_num_leaves(),
                    old(newick).spec_annotated(),
                    old(newick).spec_num_leaves(),
                    old(parser).spec_bytes(),
                    old(parser).spec_position() as int,
                    old(newick).spec_labels(),
                )
            },
            Forest::Failed(e) => r matches Err(x) && x@ == e,
        },
{
    let ghost bytes = parser.spec_bytes();
    let ghost model = newick.spec_model();
    let ghost whole = spec_trees::<T::Storage>(
        model,
        newick.spec_know_num_leaves(),
        newick.spec_annotated(),
        newick.spec_num_leaves(),
        bytes,
        parser.spec_position() as int,
        newick.spec_labels(),
    );
    let ghost whole_end = trees_end::<T::Storage>(
        model,
        newick.spec_know_num_leaves(),
        newick.spec_annotated(),
        newick.spec_num_leaves(),
        bytes,
        parser.spec_position() as int,
        newick.spec_labels(),
    );
    let ghost mut done: Seq<TreeModel<RefView<T>>> = Seq::empty();
    proof {
        match whole {
            Forest::Done(rest, _) => {
                assert(done + rest =~= rest);
            },
            Forest::Failed(_) => {},
        }
    }
    loop
        invariant
            bytes == old(parser).spec_bytes(),
            parser.spec_bytes() == bytes,
            newick.spec_model() == model,
            model == old(newick).spec_model(),
            newick.spec_annotated() == old(newick).spec_annotated(),
            whole == spec_trees::<T::Storage>(
                old(newick).spec_model(),
                old(newick).spec_know_num_leaves(),
                old(newick).spec_annotated(),
                old(newick).spec_num_leaves(),
                old(parser).spec_bytes(),
                old(parser).spec_position() as int,
                old(newick).spec_labels(),
            ),
            whole_end == trees_end::<T::Storage>(
                old(newick).spec_model(),
                old(newick).spec_know_num_leaves(),
                old(newick).spec_annotated(),
                old(newick).spec_num_leaves(),
                old(parser).spec_bytes(),
                old(parser).spec_position() as int,
                old(newick).spec_labels(),
            ),
            trees@.len() == old(trees)@.len() + done.len(),
            forall|i: int| 0 <= i < old(trees)@.len() ==> #[trigger] trees@[i] == old(trees)@[i],
            forall|i: int|
                0 <= i < done.len() ==> T::spec_tree(&#[trigger] trees@[old(trees)@.len() + i])
                    == done[i],
            forall|i: int|
                0 <= i < done.len() ==> well_built(#[trigger] done[i]),
            whole == after_trees(
                done,
                spec_trees::<T::Storage>(
                    model,
                    newick.spec_know_num_leaves(),
                    newick.spec_annotated(),
                    newick.spec_num_leaves(),
                    bytes,
                    parser.spec_position() as int,
                    newick.spec_labels(),
                ),
            ),
            whole_end == trees_end::<T::Storage>(
                model,
                newick.spec_know_num_leaves(),
                newick.spec_annotated(),
                newick.spec_num_leaves(),
                bytes,
                parser.spec_position() as int,
                newick.spec_labels(),
            ),
        decreases bytes.len() - parser.spec_position(),
    {
        let ghost here = parser.spec_position() as int;
        let ghost know = newick.spec_know_num_leaves();
        let ghost annotated = newick.spec_annotated();
        let ghost leaves = newick.spec_num_leaves();
        let ghost labels = newick.spec_labels();
        match parse_single_tree(parser, newick) {
            Ok(Some(tree)) => {
                proof {
                    lemma_trees_step::<T::Storage>(
                        model,
                        know,
                        annotated,
                        leaves,
                        bytes,
                        here,
                        labels,
                        done,
                    );
                    let st = spec_single::<T::Storage>(
                        model,
                        know,
                        annotated,
                        leaves,
                        bytes,
                        here,
                        labels,
                    )->Tree_0;
                    done = done.push(st.tree);
                }
                trees.push(tree);
            },
            Ok(None) => {
                proof {
                    lemma_trees_end::<T::Storage>(
                        model,
                        know,
                        annotated,
                        leaves,
                        bytes,
                        here,
                        labels,
                        done,
                    );
                }
                return Ok(());
            },
            Err(e) => {
                proof {
                    lemma_trees_fail::<T::Storage>(
                        model,
                        know,
                        annotated,
                        leaves,
                        bytes,
                        here,
                        labels,
                        done,
                    );
                }
                return Err(e);
            },
        }
    }
}

/// Gets a file ready for its trees: reads the header, the taxon block and
/// the head of the tree block, gives `newick` the resolver and the number of
/// taxa, and moves to the first tree. Returns the number of taxa.
pub fn open_file<B: ByteSource, T: TreeBuilder>(
    parser: &mut ByteParser<B>,
    newick: &mut NewickParser<T>,
) -> (r: Result<usize, ParsingError>)
    ensures
        final(parser).spec_bytes() == old(parser).spec_bytes(),
        match spec_open::<T::Storage>(old(parser).spec_bytes(), old(parser).spec_position() as int) {
            Opened::Ready { num_leaves, model, labels, at } => {
                &&& r == Ok::<usize, ParsingError>(num_leaves)
                &&& final(newick).spec_model() == model
                &&& final(newick).spec_labels() == labels
                &&& final(newick).spec_num_leaves() == num_leaves
                &&& final(newick).spec_know_num_leaves()
                &&& final(newick).spec_annotated() == old(newick).spec_annotated()
                &&& final(parser).spec_position() == at
            },
            Opened::Failed(e) => r matches Err(x) && x@ == e,
        },
{
    match parse_nexus_header(parser) {
        Ok(()) => {},
        Err(e) => {
            return Err(e);
        },
    }
    match skip_until_block(parser, NexusBlock::Taxa) {
        Ok(()) => {},
        Err(e) => {
            return Err(e);
        },
    }
    let (num_leaves, label_storage) = match parse_taxa_block::<B, T>(parser) {
        Ok(found) => found,
        Err(e) => {
            return Err(e);
        },
    };
    match skip_until_block(parser, NexusBlock::Trees) {
        Ok(()) => {},
        Err(e) => {
            return Err(e);
        },
    }
    let table = match parse_tree_block_translate(parser, num_leaves) {
        Ok(t) => t,
        Err(e) => {
            return Err(e);
        },
    };
    let resolver = match choose_resolver(parser, label_storage, table) {
        Ok(chosen) => chosen,
        Err(e) => {
            return Err(e);
        },
    };
    newick.set_num_leaves(num_leaves);
    newick.set_resolver(resolver);
    proof {
        parser.lemma_bytes_fit();
    }
    match parser.skip_comment_and_whitespace() {
        Ok(()) => {},
        Err(e) => {
            return Err(e);
        },
    }
    Ok(num_leaves)
}

/// How the trees of a file are handed out.
pub enum TreeParsingMode<T: TreeBuilder> {
    /// All kept trees were read at once and are held here.
    Eager { trees: Vec<T::Tree> },
    /// Trees are read on demand, the first kept one from this offset.
    Lazy { start_byte_pos: usize },
}

/// The models of `trees`.
pub open spec fn tree_models<T: TreeBuilder>(trees: Seq<T::Tree>) -> Seq<TreeModel<RefView<T>>> {
    Seq::new(trees.len(), |i: int| T::spec_tree(&trees[i]))
}

/// A NEXUS file that is ready for its trees to be handed out.
pub struct NexusParser<B: ByteSource, T: TreeBuilder> {
    mode: TreeParsingMode<T>,
    newick_parser: NewickParser<T>,
    byte_parser: ByteParser<B>,
    skip_first: bool,
    burnin: Burnin,
    num_leaves: usize,
    counts: TreeCounts,
    tree_pos: usize,
}

impl<B: ByteSource, T: TreeBuilder> NexusParser<B, T> {
    /// The bytes of the file.
    pub closed spec fn spec_bytes(&self) -> Seq<u8> {
        self.byte_parser.spec_bytes()
    }

    /// The offset of the cursor.
    pub closed spec fn spec_position(&self) -> usize {
        self.byte_parser.spec_position()
    }

    /// The parser that reads the trees.
    pub closed spec fn spec_newick(&self) -> NewickParser<T> {
        self.newick_parser
    }

    /// The number of taxa.
    pub closed spec fn spec_num_leaves(&self) -> usize {
        self.num_leaves
    }

    /// Which trees are kept.
    pub closed spec fn spec_counts(&self) -> TreeCounts {
        self.counts
    }

    /// The position of the tree that is handed out next.
    pub closed spec fn spec_tree_pos(&self) -> usize {
        self.tree_pos
    }

    /// The kept trees, where they were read at once.
    pub closed spec fn spec_trees(&self) -> Option<Seq<TreeModel<RefView<T>>>> {
        match self.mode {
            TreeParsingMode::Eager { trees } => Some(tree_models::<T>(trees@)),
            TreeParsingMode::Lazy { .. } => None,
        }
    }

    /// The offset of the first kept tree, where trees are read on demand.
    pub closed spec fn spec_start_byte(&self) -> Option<usize> {
        match self.mode {
            TreeParsingMode::Eager { .. } => None,
            TreeParsingMode::Lazy { start_byte_pos } => Some(start_byte_pos),
        }
    }

    /// Whether the position of the next tree lies among the kept trees.
    pub open spec fn wf(&self) -> bool {
        &&& self.spec_counts().start_tree_pos + self.spec_counts().num_trees <= usize::MAX
        &&& self.spec_counts().start_tree_pos <= self.spec_tree_pos()
            <= self.spec_counts().start_tree_pos + self.spec_counts().num_trees
    }

    /// Whether the parser differs from `other` at most in the cursor, the
    /// labels stored and the position of the next tree.
    pub open spec fn same_file(&self, other: &Self) -> bool {
        &&& self.spec_bytes() == other.spec_bytes()
        &&& self.spec_num_leaves() == other.spec_num_leaves()
        &&& self.spec_counts() == other.spec_counts()
        &&& self.spec_trees() == other.spec_trees()
        &&& self.spec_start_byte() == other.spec_start_byte()
        &&& self.spec_newick().spec_model() == other.spec_newick().spec_model()
        &&& self.spec_newick().spec_annotated() == other.spec_newick().spec_annotated()
    }

    /// Whether the parser is in the state `state`, over the bytes `bytes`.
    pub open spec fn initialised(
        &self,
        state: crate::nexus::grammar::Initialised<RefView<T>>,
        bytes: Seq<u8>,
        annotated: bool,
        eager: bool,
    ) -> bool {
        &&& self.wf()
        &&& self.spec_newick().spec_annotated() == annotated
        &&& self.spec_bytes() == bytes
        &&& self.spec_num_leaves() == state.num_leaves
        &&& self.spec_newick().spec_model() == state.model
        &&& self.spec_newick().spec_labels() == state.labels
        &&& !eager ==> self.spec_newick().spec_num_leaves() == state.num_leaves
            && self.spec_newick().spec_know_num_leaves()
        &&& self.spec_counts() == state.counts
        &&& self.spec_tree_pos() == state.counts.start_tree_pos
        &&& self.spec_trees() == state.trees
        &&& self.spec_position() == state.position
        &&& eager ==> self.spec_start_byte() is None
        &&& !eager ==> self.spec_start_byte() == Some(state.position as usize)
        &&& state.trees matches Some(trees) ==> forall|i: int|
            0 <= i < trees.len() ==> well_built(#[trigger] trees[i])
    }

    /// Gets the trees ready by counting first.
    #[verifier::rlimit(60)]
    fn two_pass(
        byte_parser: ByteParser<B>,
        newick: NewickParser<T>,
        num_leaves: usize,
        eager: bool,
        burnin: Burnin,
        skip_first: bool,
    ) -> (r: Result<Self, ParsingError>)
        requires
            newick.spec_know_num_leaves(),
            newick.spec_num_leaves() == num_leaves,
        ensures
            match crate::nexus::grammar::spec_two_pass::<T::Storage>(
                byte_parser.spec_bytes(),
                byte_parser.spec_position() as int,
                num_leaves,
                newick.spec_model(),
                newick.spec_labels(),
                newick.spec_annotated(),
                eager,
                skip_first,
                burnin,
            ) {
                Init::Ready(state) => r matches Ok(parser) && parser.initialised(
                    state,
                    byte_parser.spec_bytes(),
                    newick.spec_annotated(),
                    eager,
                ),
                Init::Failed(e) => r matches Err(x) && x@ == e,
            },
    {
        let mut cursor = byte_parser;
        let mut newick = newick;
        let total: usize = match count_trees(&mut cursor) {
            Ok(n) => n,
            Err(e) => {
                return Err(e);
            },
        };
        let counts = configure_tree_counts(skip_first, burnin, total);
        match skip_trees(&mut cursor, counts.start_tree_pos) {
            Ok(()) => {},
            Err(e) => {
                return Err(e);
            },
        }
        if eager {
            let mut trees: Vec<T::Tree> = Vec::new();
            let ghost first = cursor.spec_position() as int;
            let ghost found = spec_trees::<T::Storage>(
                newick.spec_model(),
                true,
                newick.spec_annotated(),
                num_leaves,
                cursor.spec_bytes(),
                first,
                newick.spec_labels(),
            );
            match parse_tree_block_trees(&mut cursor, &mut newick, &mut trees) {
                Ok(()) => {},
                Err(e) => {
                    return Err(e);
                },
            }
            let parser = NexusParser {
                mode: TreeParsingMode::Eager { trees },
                newick_parser: newick,
                byte_parser: cursor,
                skip_first,
                burnin,
                num_leaves,
                counts,
                tree_pos: counts.start_tree_pos,
            };
            proof {
                assert(parser.spec_trees()->0 =~= found->Done_0);
            }
            Ok(parser)
        } else {
            let start_byte_pos: usize = cursor.position();
            Ok(
                NexusParser {
                    mode: TreeParsingMode::Lazy { start_byte_pos },
                    newick_parser: newick,
                    byte_parser: cursor,
                    skip_first,
                    burnin,
                    num_leaves,
                    counts,
                    tree_pos: counts.start_tree_pos,
                },
            )
        }
    }

    /// Gets the trees ready in one pass.
    #[verifier::rlimit(60)]
    fn one_pass(
        byte_parser: ByteParser<B>,
        newick: NewickParser<T>,
        num_leaves: usize,
        burnin: Burnin,
        skip_first: bool,
    ) -> (r: Result<Self, ParsingError>)
        requires
            newick.spec_know_num_leaves(),
            newick.spec_num_leaves() == num_leaves,
        ensures
            match crate::nexus::grammar::spec_one_pass::<T::Storage>(
                byte_parser.spec_bytes(),
                byte_parser.spec_position() as int,
                num_leaves,
                newick.spec_model(),
                newick.spec_labels(),
                newick.spec_annotated(),
                skip_first,
                burnin,
            ) {
                Init::Ready(state) => r matches Ok(parser) && parser.initialised(
                    state,
                    byte_parser.spec_bytes(),
                    newick.spec_annotated(),
                    true,
                ),
                Init::Failed(e) => r matches Err(x) && x@ == e,
            },
    {
        let mut cursor = byte_parser;
        let mut newick_parser = newick;
        let mut all_trees: Vec<T::Tree> = Vec::new();
        let ghost found = spec_trees::<T::Storage>(
            newick.spec_model(),
            true,
            newick.spec_annotated(),
            num_leaves,
            byte_parser.spec_bytes(),
            byte_parser.spec_position() as int,
            newick.spec_labels(),
        );
        match parse_tree_block_trees(&mut cursor, &mut newick_parser, &mut all_trees) {
            Ok(()) => {},
            Err(e) => {
                return Err(e);
            },
        }
        let ghost all = tree_models::<T>(all_trees@);
        proof {
            assert(all =~= found->Done_0);
        }
        let counts = configure_tree_counts(skip_first, burnin, all_trees.len());
        let trees = if counts.start_tree_pos == 0 {
            all_trees
        } else if counts.start_tree_pos >= all_trees.len() {
            Vec::new()
        } else {
            all_trees.split_off(counts.start_tree_pos)
        };
        let parser = NexusParser {
            mode: TreeParsingMode::Eager { trees },
            newick_parser,
            byte_parser: cursor,
            skip_first,
            burnin,
            num_leaves,
            counts,
            tree_pos: counts.start_tree_pos,
        };
        proof {
            let rest = kept(all, counts.start_tree_pos);
            assert(parser.spec_trees()->0 =~= rest);
            assert forall|i: int| 0 <= i < rest.len() implies well_built(#[trigger] rest[i]) by {
                assert(rest[i] == all[counts.start_tree_pos + i]);
                assert(well_built(found->Done_0[counts.start_tree_pos + i]));
            }
        }
        Ok(parser)
    }

    /// Gets the file behind `byte_parser` ready.
    ///
    /// Where trees are read on demand, or the burn-in is significant, the
    /// trees are counted first, those dropped are skipped unread, and the
    /// others are read at once or left for later. Else all trees are read and
    /// those dropped are set aside.
    pub fn new(
        byte_parser: ByteParser<B>,
        tree_builder: T,
        eager: bool,
        burnin: Burnin,
        skip_first: bool,
        parse_annotations: bool,
    ) -> (r: Result<Self, ParsingError>)
        ensures
            match spec_init::<T::Storage>(
                byte_parser.spec_bytes(),
                byte_parser.spec_position() as int,
                parse_annotations,
                eager,
                skip_first,
                burnin,
            ) {
                Init::Ready(state) => r matches Ok(parser) && parser.initialised(
                    state,
                    byte_parser.spec_bytes(),
                    parse_annotations,
                    eager,
                ),
                Init::Failed(e) => r matches Err(x) && x@ == e,
            },
    {
        let mut cursor = byte_parser;
        let mut newick = NewickParser::new(tree_builder);
        newick.set_parse_annotations(parse_annotations);
        let num_leaves: usize = match open_file(&mut cursor, &mut newick) {
            Ok(n) => n,
            Err(e) => {
                return Err(e);
            },
        };
        if !eager || burnin.significant() {
            Self::two_pass(cursor, newick, num_leaves, eager, burnin, skip_first)
        } else {
            Self::one_pass(cursor, newick, num_leaves, burnin, skip_first)
        }
    }

    /// Goes back to the first kept tree. Where trees are read on demand the
    /// cursor goes back to where that tree starts.
    pub fn reset(&mut self)
        ensures
            final(self).same_file(old(self)),
            final(self).spec_tree_pos() == old(self).spec_counts().start_tree_pos,
            final(self).spec_newick() == old(self).spec_newick(),
            final(self).spec_position() == match old(self).spec_start_byte() {
                Some(start) => start,
                None => old(self).spec_position(),
            },
            old(self).spec_counts().start_tree_pos + old(self).spec_counts().num_trees
                <= usize::MAX ==> final(self).wf(),
    {
        self.tree_pos = self.counts.start_tree_pos;
        match self.mode {
            TreeParsingMode::Lazy { start_byte_pos } => {
                self.byte_parser.set_position(start_byte_pos);
            },
            TreeParsingMode::Eager { .. } => {},
        }
    }

    /// The number of taxa, as the taxon block gives it.
    pub fn num_leaves(&self) -> (r: usize)
        ensures
            r == self.spec_num_leaves(),
    {
        self.num_leaves
    }

    /// The number of trees kept.
    pub fn num_trees(&self) -> (r: usize)
        ensures
            r == self.spec_counts().num_trees,
    {
        self.counts.num_trees
    }

    /// The number of trees in the file, those dropped included.
    pub fn num_total_trees(&self) -> (r: usize)
        ensures
            r == self.spec_counts().num_total_trees,
    {
        self.counts.num_total_trees
    }

    /// The label store of the file.
    pub fn label_storage(&self) -> (r: &T::Storage)
        ensures
            *r == self.spec_newick().spec_resolver().spec_storage(),
    {
        self.newick_parser.label_storage()
    }

    /// Gives up the parser for the label store of the file.
    pub fn into_label_storage(self) -> (r: T::Storage)
        ensures
            r == self.spec_newick().spec_resolver().spec_storage(),
    {
        self.newick_parser.into_label_storage()
    }

    /// The next of the trees that were read at once; `None` behind the last,
    /// and always where trees are read on demand.
    pub fn next_tree_ref(&mut self) -> (r: Option<&T::Tree>)
        requires
            old(self).wf(),
        ensures
            final(self).wf(),
            final(self).same_file(old(self)),
            final(self).spec_newick() == old(self).spec_newick(),
            final(self).spec_position() == old(self).spec_position(),
            match old(self).spec_trees() {
                Some(trees) => {
                    let at = old(self).spec_tree_pos() - old(self).spec_counts().start_tree_pos;
                    if old(self).spec_tree_pos() < old(self).spec_counts().start_tree_pos + old(
                        self,
                    ).spec_counts().num_trees && at < trees.len() {
                        &&& r matches Some(tree)
                        &&& T::spec_tree(tree) == trees[at]
                        &&& final(self).spec_tree_pos() == old(self).spec_tree_pos() + 1
                    } else {
                        r is None && final(self).spec_tree_pos() == old(self).spec_tree_pos()
                    }
                },
                None => r is None && final(self).spec_tree_pos() == old(self).spec_tree_pos(),
            },
    {
        match &self.mode {
            TreeParsingMode::Eager { trees } => {
                if self.tree_pos < self.counts.start_tree_pos + self.counts.num_trees
                    && self.tree_pos - self.counts.start_tree_pos < trees.len() {
                    let tree = &trees[self.tree_pos - self.counts.start_tree_pos];
                    self.tree_pos = self.tree_pos + 1;
                    Some(tree)
                } else {
                    None
                }
            },
            TreeParsingMode::Lazy { .. } => None,
        }
    }

    /// Reads the next kept tree; `None` behind the last, and always where
    /// the trees were read at once. The end of the block before the last
    /// kept tree is an error.
    pub fn next_tree(&mut self) -> (r: Result<Option<T::Tree>, ParsingError>)
        requires
            old(self).wf(),
        ensures
            final(self).spec_bytes() == old(self).spec_bytes(),
            if old(self).spec_trees() is Some || old(self).spec_tree_pos() >= old(
                self,
            ).spec_counts().start_tree_pos + old(self).spec_counts().num_trees {
                &&& r matches Ok(None)
                &&& final(self).wf()
                &&& final(self).same_file(old(self))
                &&& final(self).spec_newick() == old(self).spec_newick()
                &&& final(self).spec_position() == old(self).spec_position()
                &&& final(self).spec_tree_pos() == old(self).spec_tree_pos()
            } else {
                match spec_single::<T::Storage>(
                    old(self).spec_newick().spec_model(),
                    old(self).spec_newick().spec_know_num_leaves(),
                    old(self).spec_newick().spec_annotated(),
                    old(self).spec_newick().spec_num_leaves(),
                    old(self).spec_bytes(),
                    old(self).spec_position() as int,
                    old(self).spec_newick().spec_labels(),
                ) {
                    Single::Tree(st, end) => {
                        &&& r matches Ok(Some(tree))
                        &&& T::spec_tree(&tree) == st.tree
                        &&& well_built(st.tree)
                        &&& final(self).wf()
                        &&& final(self).same_file(old(self))
                        &&& final(self).spec_newick().spec_labels() == st.labels
                        &&& final(self).spec_newick().spec_num_leaves() == st.leaves
                        &&& final(self).spec_newick().spec_know_num_leaves()
                        &&& final(self).spec_position() == end
                        &&& final(self).spec_tree_pos() == old(self).spec_tree_pos() + 1
                    },
                    Single::End(end) => r matches Err(x) && x@ == crate::nexus::grammar::eof_error(
                        old(self).spec_bytes(),
                        end,
                    ),
                    Single::Failed(e) => r matches Err(x) && x@ == e,
                }
            },
    {
        match &self.mode {
            TreeParsingMode::Eager { .. } => {
                return Ok(None);
            },
            TreeParsingMode::Lazy { .. } => {},
        }
        if self.tree_pos >= self.counts.start_tree_pos + self.counts.num_trees {
            return Ok(None);
        }
        match parse_single_tree(&mut self.byte_parser, &mut self.newick_parser) {
            Ok(Some(tree)) => {
                self.tree_pos = self.tree_pos + 1;
                Ok(Some(tree))
            },
            Ok(None) => Err(ParsingError::unexpected_eof(&mut self.byte_parser)),
            Err(e) => Err(e),
        }
    }

    /// Gives up the parser for the kept trees and the label store.
    ///
    /// Where the trees were read at once these are handed out. Else the
    /// parser goes back to the first kept tree and reads them all, one at a
    /// time.
    pub fn into_results(self) -> (r: Result<(Vec<T::Tree>, T::Storage), ParsingError>)
        requires
            self.wf(),
        ensures
            match self.spec_trees() {
                Some(trees) => r matches Ok(found) && tree_models::<T>(found.0@) == trees
                    && found.1 == self.spec_newick().spec_resolver().spec_storage(),
                None => match spec_take::<T::Storage>(
                    self.spec_newick().spec_model(),
                    self.spec_newick().spec_know_num_leaves(),
                    self.spec_newick().spec_annotated(),
                    self.spec_newick().spec_num_leaves(),
                    self.spec_bytes(),
                    self.spec_start_byte()->0 as int,
                    self.spec_newick().spec_labels(),
                    self.spec_counts().num_trees as nat,
                ) {
                    Forest::Done(trees, labels) => r matches Ok(found) && tree_models::<T>(
                        found.0@,
                    ) == trees && found.1.spec_labels() == labels,
                    Forest::Failed(e) => r matches Err(x) && x@ == e,
                },
            },
    {
        let mut this = self;
        match this.mode {
            TreeParsingMode::Eager { trees } => {
                return Ok((trees, this.newick_parser.into_label_storage()));
            },
            TreeParsingMode::Lazy { .. } => {},
        }
        this.reset();
        let ghost bytes = this.spec_bytes();
        let ghost model = this.spec_newick().spec_model();
        let ghost last: usize = (this.spec_counts().start_tree_pos
            + this.spec_counts().num_trees) as usize;
        let ghost whole = spec_take::<T::Storage>(
            model,
            this.spec_newick().spec_know_num_leaves(),
            this.spec_newick().spec_annotated(),
            this.spec_newick().spec_num_leaves(),
            bytes,
            this.spec_position() as int,
            this.spec_newick().spec_labels(),
            this.spec_counts().num_trees as nat,
        );
        let ghost mut done: Seq<TreeModel<RefView<T>>> = Seq::empty();
        let mut all_trees: Vec<T::Tree> = Vec::new();
        proof {
            match whole {
                Forest::Done(rest, _) => {
                    assert(done + rest =~= rest);
                },
                Forest::Failed(_) => {},
            }
        }
        loop
            invariant
                this.wf(),
                this.spec_trees() is None,
                this.same_file(&self),
                this.spec_bytes() == bytes,
                this.spec_newick().spec_model() == model,
                last == this.spec_counts().start_tree_pos + this.spec_counts().num_trees,
                whole == spec_take::<T::Storage>(
                    self.spec_newick().spec_model(),
                    self.spec_newick().spec_know_num_leaves(),
                    self.spec_newick().spec_annotated(),
                    self.spec_newick().spec_num_leaves(),
                    self.spec_bytes(),
                    self.spec_start_byte()->0 as int,
                    self.spec_newick().spec_labels(),
                    self.spec_counts().num_trees as nat,
                ),
                tree_models::<T>(all_trees@) == done,
                whole == after_trees(
                    done,
                    spec_take::<T::Storage>(
                        model,
                        this.spec_newick().spec_know_num_leaves(),
                        this.spec_newick().spec_annotated(),
                        this.spec_newick().spec_num_leaves(),
                        bytes,
                        this.spec_position() as int,
                        this.spec_newick().spec_labels(),
                        (last - this.spec_tree_pos()) as nat,
                    ),
                ),
            decreases last - this.spec_tree_pos(),
        {
            let ghost here = this.spec_position() as int;
            let ghost know = this.spec_newick().spec_know_num_leaves();
            let ghost leaves = this.spec_newick().spec_num_leaves();
            let ghost labels = this.spec_newick().spec_labels();
            let ghost left = (last - this.spec_tree_pos()) as nat;
            proof {
                lemma_take_stop::<T::Storage>(
                    model,
                    know,
                    self.spec_newick().spec_annotated(),
                    leaves,
                    bytes,
                    here,
                    labels,
                    left,
                    done,
                );
            }
            match this.next_tree() {
                Ok(Some(tree)) => {
                    proof {
                        lemma_take_step::<T::Storage>(
                            model,
                            know,
                            self.spec_newick().spec_annotated(),
                            leaves,
                            bytes,
                            here,
                            labels,
                            left,
                            done,
                        );
                        let st = spec_single::<T::Storage>(
                            model,
                            know,
                            self.spec_newick().spec_annotated(),
                            leaves,
                            bytes,
                            here,
                            labels,
                        )->Tree_0;
                        done = done.push(st.tree);
                    }
                    all_trees.push(tree);
                    proof {
                        assert(tree_models::<T>(all_trees@) =~= done);
                    }
                },
                Ok(None) => {
                    proof {
                        assert(done + Seq::<TreeModel<RefView<T>>>::empty() =~= done);
                    }
                    return Ok((all_trees, this.newick_parser.into_label_storage()));
                },
                Err(e) => {
                    return Err(e);
                },
            }
        }
    }
}

/// What is asked of the reading of a NEXUS file, before the file is opened.
pub struct NexusParserBuilder<T: TreeBuilder> {
    eager: bool,
    path: String,
    read_strategy: ReadStrategy,
    burnin: Burnin,
    skip_first: bool,
    parse_annotations: bool,
    tree_builder: T,
}

impl NexusParserBuilder<crate::model::compact_tree_builder::CompactTreeBuilder> {
    /// The settings for the file at `path`: trees are read at once into
    /// compact trees, none is dropped, and the size of the file decides how
    /// it is read.
    pub fn for_file(path: &str) -> (r: Self)
        ensures
            r.spec_path() == path@,
            r.spec_eager(),
            !r.spec_annotated(),
            r.spec_burnin() == Burnin::Count(0),
            !r.spec_skip_first(),
            r.spec_read_strategy() == ReadStrategy::Automatic,
    {
        NexusParserBuilder {
            eager: true,
            path: path.to_owned(),
            read_strategy: ReadStrategy::Automatic,
            burnin: Burnin::Count(0),
            skip_first: false,
            parse_annotations: false,
            tree_builder: crate::model::compact_tree_builder::CompactTreeBuilder::new(),
        }
    }
}

impl<T: TreeBuilder> NexusParserBuilder<T> {
    /// The path of the file.
    pub closed spec fn spec_path(&self) -> Seq<char> {
        self.path@
    }

    /// Whether trees are read at once.
    pub closed spec fn spec_eager(&self) -> bool {
        self.eager
    }

    /// The burn-in.
    pub closed spec fn spec_burnin(&self) -> Burnin {
        self.burnin
    }

    /// Whether the first tree is skipped.
    pub closed spec fn spec_skip_first(&self) -> bool {
        self.skip_first
    }

    /// How the file is read.
    pub closed spec fn spec_read_strategy(&self) -> ReadStrategy {
        self.read_strategy
    }

    /// The builder of the trees.
    pub closed spec fn spec_tree_builder(&self) -> T {
        self.tree_builder
    }

    /// Whether blocks of annotations are read as data.
    pub closed spec fn spec_annotated(&self) -> bool {
        self.parse_annotations
    }

    /// Whether `other` asks for the same, but for what the setters of mode,
    /// burn-in, first tree and way of reading change.
    pub open spec fn same_but(&self, other: &Self) -> bool {
        &&& self.spec_path() == other.spec_path()
        &&& self.spec_tree_builder() == other.spec_tree_builder()
        &&& self.spec_annotated() == other.spec_annotated()
    }

    /// The same settings, with blocks of annotations read as data.
    pub fn with_annotations(self) -> (r: Self)
        ensures
            r.spec_path() == self.spec_path(),
            r.spec_tree_builder() == self.spec_tree_builder(),
            r.spec_annotated(),
            r.spec_eager() == self.spec_eager(),
            r.spec_burnin() == self.spec_burnin(),
            r.spec_skip_first() == self.spec_skip_first(),
            r.spec_read_strategy() == self.spec_read_strategy(),
    {
        let mut builder = self;
        builder.parse_annotations = true;
        builder
    }

    /// The same settings, with trees read at once.
    pub fn eager(self) -> (r: Self)
        ensures
            r.same_but(&self),
            r.spec_eager(),
            r.spec_burnin() == self.spec_burnin(),
            r.spec_skip_first() == self.spec_skip_first(),
            r.spec_read_strategy() == self.spec_read_strategy(),
    {
        let mut builder = self;
        builder.eager = true;
        builder
    }

    /// The same settings, with trees read on demand.
    pub fn lazy(self) -> (r: Self)
        ensures
            r.same_but(&self),
            !r.spec_eager(),
            r.spec_burnin() == self.spec_burnin(),
            r.spec_skip_first() == self.spec_skip_first(),
            r.spec_read_strategy() == self.spec_read_strategy(),
    {
        let mut builder = self;
        builder.eager = false;
        builder
    }

    /// The same settings, with `burnin` as burn-in.
    pub fn with_burnin(self, burnin: Burnin) -> (r: Self)
        ensures
            r.same_but(&self),
            r.spec_eager() == self.spec_eager(),
            r.spec_burnin() == burnin,
            r.spec_skip_first() == self.spec_skip_first(),
            r.spec_read_strategy() == self.spec_read_strategy(),
    {
        let mut builder = self;
        builder.burnin = burnin;
        builder
    }

    /// The same settings, with the first tree skipped.
    pub fn with_skip_first(self) -> (r: Self)
        ensures
            r.same_but(&self),
            r.spec_eager() == self.spec_eager(),
            r.spec_burnin() == self.spec_burnin(),
            r.spec_skip_first(),
            r.spec_read_strategy() == self.spec_read_strategy(),
    {
        let mut builder = self;
        builder.skip_first = true;
        builder
    }

    /// The same settings, with the file read through a buffer.
    pub fn with_buffered_source(self) -> (r: Self)
        ensures
            r.same_but(&self),
            r.spec_eager() == self.spec_eager(),
            r.spec_burnin() == self.spec_burnin(),
            r.spec_skip_first() == self.spec_skip_first(),
            r.spec_read_strategy() == ReadStrategy::Buffered,
    {
        let mut builder = self;
        builder.read_strategy = ReadStrategy::Buffered;
        builder
    }

    /// The same settings, with the file read into memory as a whole.
    pub fn with_in_memory_source(self) -> (r: Self)
        ensures
            r.same_but(&self),
            r.spec_eager() == self.spec_eager(),
            r.spec_burnin() == self.spec_burnin(),
            r.spec_skip_first() == self.spec_skip_first(),
            r.spec_read_strategy() == ReadStrategy::InMemory,
    {
        let mut builder = self;
        builder.read_strategy = ReadStrategy::InMemory;
        builder
    }

    /// The same settings, with `tree_builder` to build the trees.
    pub fn with_tree_builder<T2: TreeBuilder>(self, tree_builder: T2) -> (r: NexusParserBuilder<
        T2,
    >)
        ensures
            r.spec_path() == self.spec_path(),
            r.spec_tree_builder() == tree_builder,
            r.spec_annotated() == self.spec_annotated(),
            r.spec_eager() == self.spec_eager(),
            r.spec_burnin() == self.spec_burnin(),
            r.spec_skip_first() == self.spec_skip_first(),
            r.spec_read_strategy() == self.spec_read_strategy(),
    {
        NexusParserBuilder {
            eager: self.eager,
            path: self.path,
            read_strategy: self.read_strategy,
            burnin: self.burnin,
            skip_first: self.skip_first,
            parse_annotations: self.parse_annotations,
            tree_builder,
        }
    }

    /// The path of the file.
    pub fn path(&self) -> (r: &String)
        ensures
            r@ == self.spec_path(),
    {
        &self.path
    }

    /// Whether a file of `file_size` bytes is to be read through a buffer.
    pub fn reads_buffered(&self, file_size: u64) -> (r: bool)
        ensures
            r == match self.spec_read_strategy() {
                ReadStrategy::Buffered => true,
                ReadStrategy::InMemory => false,
                ReadStrategy::Automatic => file_size
                    >= crate::nexus::burnin::AUTO_IN_MEMORY_THRESHOLD,
            },
    {
        use_buffered(self.read_strategy, file_size)
    }

    /// Gets the file ready whose bytes `source` hands out. See
    /// `NexusParser::new`.
    pub fn build<B: ByteSource>(self, source: B) -> (r: Result<NexusParser<B, T>, ParsingError>)
        ensures
            match spec_init::<T::Storage>(
                crate::parser::byte_source::bytes_of(&source),
                source.spec_position() as int,
                self.spec_annotated(),
                self.spec_eager(),
                self.spec_skip_first(),
                self.spec_burnin(),
            ) {
                Init::Ready(state) => r matches Ok(parser) && parser.initialised(
                    state,
                    crate::parser::byte_source::bytes_of(&source),
                    self.spec_annotated(),
                    self.spec_eager(),
                ),
                Init::Failed(e) => r matches Err(x) && x@ == e,
            },
    {
        NexusParser::new(
            ByteParser::new(source),
            self.tree_builder,
            self.eager,
            self.burnin,
            self.skip_first,
            self.parse_annotations,
        )
    }
}

} // verus!
