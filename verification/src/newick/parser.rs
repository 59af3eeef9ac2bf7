//! The parser for trees written as nested parentheses.

use vstd::prelude::*;
use crate::model::label_storage::LabelStorage;
use vstd::string::*;
use crate::model::annotation::AnnotationValue;
use crate::model::annotation::ValueModel;
use crate::model::branch_length::BranchLength;
use crate::model::branch_length::check_float_text;
use crate::newick::grammar::Notes;
use crate::newick::grammar::annotate_all;
use crate::newick::grammar::classify;
use crate::newick::grammar::key_end;
use crate::newick::grammar::notes_at;
use crate::newick::grammar::notes_opener;
use crate::newick::grammar::spec_note_pairs;
use crate::newick::grammar::spec_notes;
use crate::newick::grammar::value_end;
use crate::parser::number::parse_signed;
use crate::parser::utils::chars_of;
use crate::model::compact_tree_builder::CompactTreeBuilder;
use crate::model::label_resolver::LabelResolver;
use crate::model::label_resolver::ResolverModel;
use crate::model::leaf_label_map::LeafLabelMap;
use crate::model::shape::extends;
use crate::model::shape::lemma_join;
use crate::model::shape::lemma_leaf_subtree;
use crate::model::shape::lemma_leaf_wf;
use crate::model::shape::lemma_parent_wf;
use crate::model::shape::lemma_root;
use crate::model::shape::lemma_subtree_kept;
use crate::model::shape::lemma_tops_adoptable;
use crate::model::shape::subtree_ok;
use crate::model::simple_tree_builder::SimpleLabelStorage;
use crate::model::simple_tree_builder::SimpleTreeBuilder;
use crate::model::shape::well_built;
use crate::model::tree::TreeModel;
use crate::model::tree_builder::TreeBuilder;
use crate::model::vertex::VertexIndex;
use crate::newick::defs::DEFAULT_NUM_LEAVES_GUESS;
use crate::newick::defs::newick_label_delimiters;
use crate::newick::grammar::Branch;
use crate::newick::grammar::Pair;
use crate::newick::grammar::Progress;
use crate::newick::grammar::Step;
use crate::newick::grammar::spec_branch;
use crate::newick::grammar::spec_children;
use crate::newick::grammar::spec_internal;
use crate::newick::grammar::spec_leaf;
use crate::newick::grammar::spec_root;
use crate::newick::grammar::spec_vertex;
use crate::newick::grammar::Forest;
use crate::newick::grammar::spec_forest;
use crate::newick::grammar::after_trees;
use crate::newick::grammar::lemma_forest_step;
use crate::newick::grammar::lemma_forest_stop;
use crate::parser::scan::blank_end;
use crate::newick::grammar::spec_tree_at;
use crate::parser::parsing_error::ParsingErrorType;
use crate::newick::grammar::token_at;
use crate::parser::byte_parser::ByteParser;
use crate::parser::byte_source::ByteSource;
use crate::parser::parsing_error::ParsingError;
use crate::parser::scan::Stop;
use crate::parser::scan::first_where;
use crate::parser::scan::is_numeric;
use crate::parser::scan::lemma_blank_end;
use crate::parser::scan::lemma_first_where;
use crate::parser::scan::lemma_label_at;

verus! {

/// The keys and values of `pairs`.
pub open spec fn pairs_view(pairs: Seq<(String, AnnotationValue)>) -> Seq<(Seq<char>, ValueModel)> {
    Seq::new(pairs.len(), |i: int| (pairs[i].0@, pairs[i].1@))
}

/// The view of the label references of a builder's trees.
pub type RefView<T> = <<T as TreeBuilder>::LabelRef as View>::V;

/// Whether `after` is `before` with one finished subtree added at its end and
/// nothing else changed.
pub open spec fn grown<LV>(before: TreeModel<LV>, after: TreeModel<LV>) -> bool {
    &&& after.wf()
    &&& after.root_index == before.root_index
    &&& after.name == before.name
    &&& after.num_leaves_init == before.num_leaves_init
    &&& extends(after.vertices, before.vertices)
    &&& subtree_ok(after.vertices, before.vertices.len() as int, after.vertices.len() as int)
}

/// Whether `after` is `before` with two finished subtrees added at its end,
/// whose top vertices are `children`, and nothing else changed.
pub open spec fn grown_twice<LV>(
    before: TreeModel<LV>,
    after: TreeModel<LV>,
    children: (usize, usize),
) -> bool {
    &&& after.wf()
    &&& after.root_index == before.root_index
    &&& after.name == before.name
    &&& after.num_leaves_init == before.num_leaves_init
    &&& extends(after.vertices, before.vertices)
    &&& subtree_ok(after.vertices, before.vertices.len() as int, children.0 + 1)
    &&& subtree_ok(after.vertices, children.0 + 1, after.vertices.len() as int)
    &&& children.1 == after.vertices.len() - 1
}

/// Whether `b` may stand in a decimal number.
pub fn is_numeric_byte(b: u8) -> (r: bool)
    ensures
        r == is_numeric(b),
{
    (48 <= b && b <= 57) || b == 46 || b == 45 || b == 43 || b == 101 || b == 69
}

/// Appends `chars` to `out`.
pub fn push_chars(out: &mut String, chars: &Vec<char>)
    ensures
        final(out)@ == old(out)@ + chars@,
{
    let mut i: usize = 0;
    while i < chars.len()
        invariant
            i <= chars.len(),
            out@ == old(out)@ + chars@.take(i as int),
        decreases chars.len() - i,
    {
        out.push(chars[i]);
        proof {
            assert(chars@.take(i + 1) =~= chars@.take(i as int).push(chars@[i as int]));
            assert(out@ =~= old(out)@ + chars@.take(i + 1));
        }
        i = i + 1;
    }
    proof {
        assert(chars@.take(chars.len() as int) =~= chars@);
    }
}

/// The text in which the byte found in place of an expected one is reported.
pub fn push_found(out: &mut String, found: Option<u8>)
    ensures
        final(out)@ == old(out)@ + crate::newick::grammar::found_text(found),
{
    match found {
        Some(b) => {
            out.append("'");
            out.push(b as char);
            out.append("'");
            proof {
                assert(out@ =~= old(out)@ + ("'"@ + seq![b as char] + "'"@));
            }
        },
        None => {
            out.append("end of input");
        },
    }
}

/// The error for a punctuation mark that is missing at the parser's
/// position; `what` names the mark and its place.
pub fn expected_error<B: ByteSource>(parser: &mut ByteParser<B>, what: &str) -> (r: ParsingError)
    ensures
        final(parser).spec_bytes() == old(parser).spec_bytes(),
        final(parser).spec_position() == old(parser).spec_position(),
        r@ == crate::newick::grammar::expected(
            what@,
            old(parser).spec_bytes(),
            old(parser).spec_position() as int,
        ),
{
    let found = parser.peek();
    let mut message = String::from_str("Expected ");
    message.append(what);
    message.append(" but found ");
    push_found(&mut message, found);
    proof {
        assert(message@ =~= "Expected "@ + what@ + " but found "@
            + crate::newick::grammar::found_text(found));
    }
    ParsingError::invalid_newick_string(parser, message)
}

/// Reads an optional branch length: blanks, a colon, blanks and a decimal
/// number that is not below zero.
pub fn parse_branch_length<B: ByteSource>(parser: &mut ByteParser<B>) -> (r: Result<
    Option<BranchLength>,
    ParsingError,
>)
    ensures
        final(parser).spec_bytes() == old(parser).spec_bytes(),
        old(parser).spec_position() <= final(parser).spec_position(),
        match spec_branch(old(parser).spec_bytes(), old(parser).spec_position() as int) {
            Branch::Absent(end) => r matches Ok(None) && final(parser).spec_position() == end,
            Branch::Present(text, end) => r matches Ok(Some(b)) && b@ == text
                && final(parser).spec_position() == end,
            Branch::Failed(e) => r matches Err(x) && x@ == e,
        },
{
    let ghost bytes = parser.spec_bytes();
    proof {
        parser.lemma_bytes_fit();
    }
    match parser.skip_comment_and_whitespace() {
        Ok(()) => {},
        Err(e) => {
            return Err(e);
        },
    }
    if !parser.consume_if(58) {
        return Ok(None);
    }
    match parser.skip_comment_and_whitespace() {
        Ok(()) => {},
        Err(e) => {
            return Err(e);
        },
    }
    let ghost start = parser.spec_position() as int;
    let mut token: Vec<char> = Vec::new();
    proof {
        assert(token@ =~= token_at(bytes, start, start));
    }
    loop
        invariant_except_break
            first_where(bytes, parser.spec_position() as int, Stop::NotNumeric) == first_where(
                bytes,
                start,
                Stop::NotNumeric,
            ),
        invariant
            bytes == old(parser).spec_bytes(),
            parser.spec_bytes() == bytes,
            0 <= start <= parser.spec_position(),
            old(parser).spec_position() <= start,
            token@ == token_at(bytes, start, parser.spec_position() as int),
        ensures
            parser.spec_position() == first_where(bytes, start, Stop::NotNumeric),
        decreases bytes.len() - parser.spec_position(),
    {
        let ghost here = parser.spec_position() as int;
        match parser.peek() {
            Some(b) => {
                if is_numeric_byte(b) {
                    token.push(b as char);
                    parser.next();
                    proof {
                        assert(bytes.subrange(start, here + 1) =~= bytes.subrange(start, here).push(
                            b,
                        ));
                        assert(token@ =~= token_at(bytes, start, here + 1));
                    }
                } else {
                    break ;
                }
            },
            None => {
                break ;
            },
        }
    }
    let mut message = String::from_str("Invalid branch length: ");
    push_chars(&mut message, &token);
    match BranchLength::from_chars(token) {
        Some(length) => Ok(Some(length)),
        None => Err(ParsingError::invalid_newick_string(parser, message)),
    }
}

/// Reads `text` as a value: a whole number where it is one, a
/// floating-point number where it is written as one, else the text.
pub fn classify_value(text: String) -> (r: AnnotationValue)
    ensures
        r@ == classify(text@),
{
    let chars = chars_of(text.as_str());
    match parse_signed(&chars) {
        Some(n) => AnnotationValue::Int(n),
        None => {
            if check_float_text(&chars) {
                AnnotationValue::Float(text)
            } else {
                AnnotationValue::String(text)
            }
        },
    }
}

/// Reads a block of annotations, `[&key=value,...]`, if one opens at the
/// cursor. Without one nothing is read and there are no pairs.
pub fn parse_annotations<B: ByteSource>(parser: &mut ByteParser<B>) -> (r: Result<
    Vec<(String, AnnotationValue)>,
    ParsingError,
>)
    ensures
        final(parser).spec_bytes() == old(parser).spec_bytes(),
        match spec_notes(old(parser).spec_bytes(), old(parser).spec_position() as int) {
            Notes::Block(notes, end) => r matches Ok(found) && pairs_view(found@) == notes
                && final(parser).spec_position() == end && old(parser).spec_position() <= end,
            Notes::Failed(e) => r matches Err(x) && x@ == e,
        },
{
    let ghost bytes = parser.spec_bytes();
    let ghost start = parser.spec_position() as int;
    proof {
        parser.lemma_bytes_fit();
    }
    let mut found: Vec<(String, AnnotationValue)> = Vec::new();
    assert(pairs_view(found@) =~= Seq::<(Seq<char>, ValueModel)>::empty());
    let opener: [u8; 2] = [91, 38];
    assert(opener@ =~= notes_opener());
    if !parser.consume_if_sequence(opener.as_slice()) {
        return Ok(found);
    }
    let equals: [u8; 1] = [61];
    assert(equals@ =~= key_end());
    let ends: [u8; 2] = [44, 93];
    assert(ends@ =~= value_end());
    loop
        invariant
            bytes == old(parser).spec_bytes(),
            start == old(parser).spec_position(),
            parser.spec_bytes() == bytes,
            bytes.len() <= usize::MAX,
            equals@ == key_end(),
            ends@ == value_end(),
            start <= parser.spec_position(),
            spec_note_pairs(bytes, parser.spec_position() as int, pairs_view(found@))
                == spec_notes(bytes, start),
        decreases bytes.len() - parser.spec_position(),
    {
        let ghost here = parser.spec_position() as int;
        let ghost so_far = pairs_view(found@);
        proof {
            lemma_first_where(bytes, here, Stop::AnyOf(key_end()));
        }
        let key = match parser.parse_unquoted_label(equals.as_slice()) {
            Ok(k) => k,
            Err(e) => {
                return Err(e);
            },
        };
        if key.as_str().is_empty() {
            let message = String::from_str("Empty annotation key");
            return Err(ParsingError::invalid_newick_string(parser, message));
        }
        parser.next();
        proof {
            lemma_first_where(bytes, parser.spec_position() as int, Stop::AnyOf(value_end()));
        }
        let text = match parser.parse_unquoted_label(ends.as_slice()) {
            Ok(t) => t,
            Err(e) => {
                return Err(e);
            },
        };
        if text.as_str().is_empty() {
            let mut message = String::from_str("Empty annotation value for key '");
            message.append(key.as_str());
            message.append("'");
            return Err(ParsingError::invalid_newick_string(parser, message));
        }
        let value = classify_value(text);
        found.push((key, value));
        proof {
            assert(pairs_view(found@) =~= so_far.push((key@, value@)));
        }
        if parser.consume_if(44) {
            continue ;
        }
        if !parser.consume_if(93) {
            let message = String::from_str("Expected ']' at end of annotation block");
            return Err(ParsingError::invalid_newick_string(parser, message));
        }
        return Ok(found);
    }
}

/// A parser for binary trees in Newick form.
///
/// It drives a tree builder and resolves tip labels through a label
/// resolver. The number of leaves of a tree is a hint for the builder: it is
/// given, or counted while the first tree is read and taken as known from
/// then on.
pub struct NewickParser<T: TreeBuilder> {
    know_num_leaves: bool,
    num_leaves: usize,
    tree_builder: T,
    resolver: LabelResolver<T::Storage>,
    parse_annotations: bool,
}

impl<T: TreeBuilder> NewickParser<T> {
    /// Whether blocks of annotations are read as data.
    pub closed spec fn spec_annotated(&self) -> bool {
        self.parse_annotations
    }

    /// The tree under construction; `None` between trees.
    pub closed spec fn spec_tree(&self) -> Option<TreeModel<RefView<T>>> {
        self.tree_builder.spec_current()
    }

    /// The resolver that the parser owns.
    pub closed spec fn spec_resolver(&self) -> LabelResolver<T::Storage> {
        self.resolver
    }

    /// What the resolver resolves by.
    pub open spec fn spec_model(&self) -> ResolverModel<RefView<T>> {
        self.spec_resolver().spec_model()
    }

    /// The labels held by the store of the resolver.
    pub open spec fn spec_labels(&self) -> Seq<Seq<char>> {
        self.spec_resolver().spec_labels()
    }

    /// The number of leaves given, or counted so far.
    pub closed spec fn spec_num_leaves(&self) -> usize {
        self.num_leaves
    }

    /// Whether the number of leaves is known.
    pub closed spec fn spec_know_num_leaves(&self) -> bool {
        self.know_num_leaves
    }

    /// The builder that the parser owns.
    pub closed spec fn spec_builder(&self) -> T {
        self.tree_builder
    }

    /// The state that a parse has reached.
    pub open spec fn progress(&self) -> Progress<RefView<T>> {
        Progress {
            tree: self.spec_tree()->0,
            labels: self.spec_labels(),
            leaves: self.spec_num_leaves() as nat,
        }
    }

    /// Whether the parser is in the state `st`, with the resolver and the
    /// knowledge of the number of leaves that `before` has.
    pub open spec fn reached(&self, before: &Self, st: Progress<RefView<T>>) -> bool {
        &&& self.spec_tree() == Some(st.tree)
        &&& self.spec_labels() == st.labels
        &&& self.spec_num_leaves() == st.leaves
        &&& self.spec_model() == before.spec_model()
        &&& self.spec_know_num_leaves() == before.spec_know_num_leaves()
        &&& self.spec_annotated() == before.spec_annotated()
    }

    /// Whether a vertex may be read: a tree is under construction, its arena
    /// is ordered, and leaves counted are leaves of the arena.
    pub open spec fn ready(&self) -> bool {
        &&& self.spec_tree() is Some
        &&& self.spec_tree()->0.wf()
        &&& !self.spec_know_num_leaves() ==> self.spec_num_leaves()
            <= self.spec_tree()->0.vertices.len()
    }

    /// A parser that drives `tree_builder` and stores labels as they are.
    pub fn new(tree_builder: T) -> (r: Self)
        ensures
            r.spec_builder() == tree_builder,
            r.spec_resolver() is VerbatimLabels,
            r.spec_labels() == Seq::<Seq<char>>::empty(),
            r.spec_num_leaves() == DEFAULT_NUM_LEAVES_GUESS,
            !r.spec_know_num_leaves(),
            !r.spec_annotated(),
    {
        let storage = T::create_storage(DEFAULT_NUM_LEAVES_GUESS);
        let resolver = LabelResolver::new_verbatim_labels_resolver(storage);
        NewickParser {
            know_num_leaves: false,
            num_leaves: DEFAULT_NUM_LEAVES_GUESS,
            tree_builder,
            resolver,
            parse_annotations: false,
        }
    }

    /// The same parser, told that every tree has `num_leaves` leaves.
    pub fn with_num_leaves(self, num_leaves: usize) -> (r: Self)
        ensures
            r.spec_builder() == self.spec_builder(),
            r.spec_resolver() == self.spec_resolver(),
            r.spec_num_leaves() == num_leaves,
            r.spec_know_num_leaves(),
            r.spec_annotated() == self.spec_annotated(),
    {
        let mut parser = self;
        parser.num_leaves = num_leaves;
        parser.know_num_leaves = true;
        parser
    }

    /// Tells the parser that every tree has `num_leaves` leaves.
    pub fn set_num_leaves(&mut self, num_leaves: usize)
        ensures
            final(self).spec_builder() == old(self).spec_builder(),
            final(self).spec_resolver() == old(self).spec_resolver(),
            final(self).spec_num_leaves() == num_leaves,
            final(self).spec_know_num_leaves(),
            final(self).spec_annotated() == old(self).spec_annotated(),
    {
        self.num_leaves = num_leaves;
        self.know_num_leaves = true;
    }

    /// The same parser with `resolver` in place of its resolver.
    pub fn with_resolver(self, resolver: LabelResolver<T::Storage>) -> (r: Self)
        ensures
            r.spec_builder() == self.spec_builder(),
            r.spec_resolver() == resolver,
            r.spec_num_leaves() == self.spec_num_leaves(),
            r.spec_know_num_leaves() == self.spec_know_num_leaves(),
            r.spec_annotated() == self.spec_annotated(),
    {
        let mut parser = self;
        parser.resolver = resolver;
        parser
    }

    /// Puts `resolver` in place of the parser's resolver.
    pub fn set_resolver(&mut self, resolver: LabelResolver<T::Storage>)
        ensures
            final(self).spec_builder() == old(self).spec_builder(),
            final(self).spec_resolver() == resolver,
            final(self).spec_num_leaves() == old(self).spec_num_leaves(),
            final(self).spec_know_num_leaves() == old(self).spec_know_num_leaves(),
            final(self).spec_annotated() == old(self).spec_annotated(),
    {
        self.resolver = resolver;
    }

    /// The same parser, set to read blocks of annotations as data.
    pub fn with_annotations(self) -> (r: Self)
        ensures
            r.spec_builder() == self.spec_builder(),
            r.spec_resolver() == self.spec_resolver(),
            r.spec_num_leaves() == self.spec_num_leaves(),
            r.spec_know_num_leaves() == self.spec_know_num_leaves(),
            r.spec_annotated(),
    {
        let mut parser = self;
        parser.parse_annotations = true;
        parser
    }

    /// Sets whether blocks of annotations are read as data.
    pub fn set_parse_annotations(&mut self, parse_annotations: bool)
        ensures
            final(self).spec_builder() == old(self).spec_builder(),
            final(self).spec_resolver() == old(self).spec_resolver(),
            final(self).spec_num_leaves() == old(self).spec_num_leaves(),
            final(self).spec_know_num_leaves() == old(self).spec_know_num_leaves(),
            final(self).spec_annotated() == parse_annotations,
    {
        self.parse_annotations = parse_annotations;
    }

    /// Puts the pairs of `notes` at the vertex at position `vertex` of the
    /// tree under construction.
    fn add_annotations(&mut self, notes: Vec<(String, AnnotationValue)>, vertex: VertexIndex)
        requires
            old(self).spec_tree() is Some,
        ensures
            final(self).spec_tree() == Some(
                annotate_all(old(self).spec_tree()->0, pairs_view(notes@), vertex),
            ),
            final(self).spec_resolver() == old(self).spec_resolver(),
            final(self).spec_num_leaves() == old(self).spec_num_leaves(),
            final(self).spec_know_num_leaves() == old(self).spec_know_num_leaves(),
            final(self).spec_annotated() == old(self).spec_annotated(),
    {
        let ghost base = self.spec_tree()->0;
        let ghost all = pairs_view(notes@);
        let mut rest = notes;
        let mut turned: Vec<(String, AnnotationValue)> = Vec::new();
        while rest.len() > 0
            invariant
                rest@.len() + turned@.len() == all.len(),
                forall|i: int| 0 <= i < rest@.len() ==> pairs_view(rest@)[i] == all[i],
                forall|i: int|
                    0 <= i < turned@.len() ==> pairs_view(turned@)[i] == all[all.len() - 1 - i],
            decreases rest.len(),
        {
            let ghost before = pairs_view(rest@);
            let ghost done = pairs_view(turned@);
            let entry = rest.pop().unwrap();
            turned.push(entry);
            proof {
                assert(pairs_view(rest@) =~= before.drop_last());
                assert(pairs_view(turned@) =~= done.push(before.last()));
            }
        }
        proof {
            assert(all.take(0) =~= Seq::<(Seq<char>, ValueModel)>::empty());
            assert(annotate_all(base, all.take(0), vertex).annotations =~= base.annotations);
        }
        let ghost mut added: int = 0;
        while turned.len() > 0
            invariant
                self.spec_resolver() == old(self).spec_resolver(),
                self.spec_num_leaves() == old(self).spec_num_leaves(),
                self.spec_know_num_leaves() == old(self).spec_know_num_leaves(),
                self.spec_annotated() == old(self).spec_annotated(),
                0 <= added <= all.len(),
                added + turned@.len() == all.len(),
                forall|i: int|
                    0 <= i < turned@.len() ==> pairs_view(turned@)[i] == all[all.len() - 1 - i],
                self.spec_tree() == Some(annotate_all(base, all.take(added), vertex)),
            decreases turned.len(),
        {
            let ghost before = pairs_view(turned@);
            let (key, value) = turned.pop().unwrap();
            proof {
                assert(pairs_view(turned@) =~= before.drop_last());
                assert((key@, value@) == before[before.len() - 1]);
                assert((key@, value@) == all[added]);
            }
            self.tree_builder.add_annotation(key, vertex, value);
            proof {
                let now = annotate_all(base, all.take(added + 1), vertex);
                let then = annotate_all(base, all.take(added), vertex);
                assert(now.annotations =~= then.annotations.push(
                    (all[added].0, vertex, all[added].1),
                ));
                added = added + 1;
            }
        }
        proof {
            assert(all.take(added) =~= all);
        }
    }

    /// Gives up the parser for its builder and its resolver.
    pub fn into_parts(self) -> (r: (T, LabelResolver<T::Storage>))
        ensures
            r.0 == self.spec_builder(),
            r.1 == self.spec_resolver(),
    {
        (self.tree_builder, self.resolver)
    }

    /// Gives up the parser for the label store of its resolver.
    pub fn into_label_storage(self) -> (r: T::Storage)
        ensures
            r == self.spec_resolver().spec_storage(),
    {
        self.resolver.into_label_storage()
    }

    /// The label store of the resolver.
    pub fn label_storage(&self) -> (r: &T::Storage)
        ensures
            *r == self.spec_resolver().spec_storage(),
    {
        self.resolver.label_storage()
    }

    /// Reads the annotations at the cursor, where annotations are read at
    /// all.
    fn read_notes<B: ByteSource>(&self, parser: &mut ByteParser<B>) -> (r: Result<
        Vec<(String, AnnotationValue)>,
        ParsingError,
    >)
        ensures
            final(parser).spec_bytes() == old(parser).spec_bytes(),
            match notes_at(
                self.spec_annotated(),
                old(parser).spec_bytes(),
                old(parser).spec_position() as int,
            ) {
                Notes::Block(notes, end) => r matches Ok(found) && pairs_view(found@) == notes
                    && final(parser).spec_position() == end && old(parser).spec_position()
                    <= end,
                Notes::Failed(e) => r matches Err(x) && x@ == e,
            },
    {
        if self.parse_annotations {
            parse_annotations(parser)
        } else {
            let found: Vec<(String, AnnotationValue)> = Vec::new();
            assert(pairs_view(found@) =~= Seq::<(Seq<char>, ValueModel)>::empty());
            Ok(found)
        }
    }

    /// Reads a leaf and adds it to the tree under construction.
    fn parse_leaf<B: ByteSource>(&mut self, parser: &mut ByteParser<B>) -> (r: Result<
        VertexIndex,
        ParsingError,
    >)
        requires
            old(self).ready(),
        ensures
            final(parser).spec_bytes() == old(parser).spec_bytes(),
            match spec_leaf::<T::Storage>(
                old(self).spec_model(),
                !old(self).spec_know_num_leaves(),
                old(self).spec_annotated(),
                old(parser).spec_bytes(),
                old(parser).spec_position() as int,
                old(self).progress(),
            ) {
                Step::Done(st, end) => {
                    &&& r matches Ok(v)
                    &&& v == st.tree.vertices.len() - 1
                    &&& final(self).reached(old(self), st)
                    &&& final(parser).spec_position() == end
                    &&& old(parser).spec_position() <= end
                    &&& final(self).ready()
                    &&& grown(old(self).spec_tree()->0, st.tree)
                },
                Step::Failed(e) => r matches Err(x) && x@ == e,
            },
    {
        let ghost bytes = parser.spec_bytes();
        let ghost pos = parser.spec_position() as int;
        let ghost tree = self.spec_tree()->0;
        let delimiters = newick_label_delimiters();
        proof {
            lemma_label_at(bytes, pos, delimiters@);
        }
        let label = match parser.parse_label(delimiters.as_slice()) {
            Ok(l) => l,
            Err(e) => {
                return Err(e);
            },
        };
        let label_ref = match self.resolver.resolve_label(label.as_str()) {
            Ok(reference) => reference,
            Err(e) => {
                return Err(ParsingError::unresolved_label(parser, e.0));
            },
        };
        let notes = match self.read_notes(parser) {
            Ok(n) => n,
            Err(e) => {
                return Err(e);
            },
        };
        let branch = match parse_branch_length(parser) {
            Ok(b) => b,
            Err(e) => {
                return Err(e);
            },
        };
        let ghost length = crate::model::vertex::length_view(branch);
        let ghost reference = label_ref@;
        let index = self.tree_builder.add_leaf(branch, label_ref);
        if !self.know_num_leaves {
            self.num_leaves = self.num_leaves + 1;
        }
        proof {
            lemma_leaf_wf(tree, length, reference);
            lemma_leaf_subtree(tree, length, reference);
        }
        self.add_annotations(notes, index);
        Ok(index)
    }

    /// Reads a vertex, leaf or internal, and adds it to the tree under
    /// construction.
    fn parse_vertex<B: ByteSource>(&mut self, parser: &mut ByteParser<B>) -> (r: Result<
        VertexIndex,
        ParsingError,
    >)
        requires
            old(self).ready(),
        ensures
            final(parser).spec_bytes() == old(parser).spec_bytes(),
            match spec_vertex::<T::Storage>(
                old(self).spec_model(),
                !old(self).spec_know_num_leaves(),
                old(self).spec_annotated(),
                old(parser).spec_bytes(),
                old(parser).spec_position() as int,
                old(self).progress(),
            ) {
                Step::Done(st, end) => {
                    &&& r matches Ok(v)
                    &&& v == st.tree.vertices.len() - 1
                    &&& final(self).reached(old(self), st)
                    &&& final(parser).spec_position() == end
                    &&& old(parser).spec_position() <= end
                    &&& final(self).ready()
                    &&& grown(old(self).spec_tree()->0, st.tree)
                },
                Step::Failed(e) => r matches Err(x) && x@ == e,
            },
        decreases old(parser).spec_bytes().len() - old(parser).spec_position(), 2int,
    {
        proof {
            parser.lemma_bytes_fit();
            lemma_blank_end(parser.spec_bytes(), parser.spec_position() as int);
        }
        match parser.skip_comment_and_whitespace() {
            Ok(()) => {},
            Err(e) => {
                return Err(e);
            },
        }
        if parser.peek_is(40) {
            self.parse_internal_vertex(parser)
        } else {
            self.parse_leaf(parser)
        }
    }

    /// Reads an internal vertex: a pair of children and an optional branch
    /// length.
    fn parse_internal_vertex<B: ByteSource>(&mut self, parser: &mut ByteParser<B>) -> (r: Result<
        VertexIndex,
        ParsingError,
    >)
        requires
            old(self).ready(),
        ensures
            final(parser).spec_bytes() == old(parser).spec_bytes(),
            match spec_internal::<T::Storage>(
                old(self).spec_model(),
                !old(self).spec_know_num_leaves(),
                old(self).spec_annotated(),
                old(parser).spec_bytes(),
                old(parser).spec_position() as int,
                old(self).progress(),
            ) {
                Step::Done(st, end) => {
                    &&& r matches Ok(v)
                    &&& v == st.tree.vertices.len() - 1
                    &&& final(self).reached(old(self), st)
                    &&& final(parser).spec_position() == end
                    &&& old(parser).spec_position() <= end
                    &&& final(self).ready()
                    &&& grown(old(self).spec_tree()->0, st.tree)
                },
                Step::Failed(e) => r matches Err(x) && x@ == e,
            },
        decreases old(parser).spec_bytes().len() - old(parser).spec_position(), 1int,
    {
        let ghost before = self.spec_tree()->0;
        let children = match self.parse_children(parser) {
            Ok(c) => c,
            Err(e) => {
                return Err(e);
            },
        };
        let ghost after = self.spec_tree()->0;
        let notes = match self.read_notes(parser) {
            Ok(n) => n,
            Err(e) => {
                return Err(e);
            },
        };
        let branch = match parse_branch_length(parser) {
            Ok(b) => b,
            Err(e) => {
                return Err(e);
            },
        };
        let ghost length = crate::model::vertex::length_view(branch);
        proof {
            lemma_tops_adoptable(after, before.vertices.len() as int, children.0 + 1);
        }
        let index = self.tree_builder.add_internal(children, branch);
        proof {
            lemma_join(after, before.vertices.len() as int, children.0 + 1, length);
            lemma_parent_wf(after, children, length);
        }
        self.add_annotations(notes, index);
        Ok(index)
    }

    /// Reads a pair of children in parentheses.
    fn parse_children<B: ByteSource>(&mut self, parser: &mut ByteParser<B>) -> (r: Result<
        (VertexIndex, VertexIndex),
        ParsingError,
    >)
        requires
            old(self).ready(),
        ensures
            final(parser).spec_bytes() == old(parser).spec_bytes(),
            match spec_children::<T::Storage>(
                old(self).spec_model(),
                !old(self).spec_know_num_leaves(),
                old(self).spec_annotated(),
                old(parser).spec_bytes(),
                old(parser).spec_position() as int,
                old(self).progress(),
            ) {
                Pair::Done(st, end, children) => {
                    &&& r == Ok::<(VertexIndex, VertexIndex), ParsingError>(children)
                    &&& final(self).reached(old(self), st)
                    &&& final(parser).spec_position() == end
                    &&& old(parser).spec_position() < end
                    &&& final(self).ready()
                    &&& grown_twice(old(self).spec_tree()->0, st.tree, children)
                },
                Pair::Failed(e) => r matches Err(x) && x@ == e,
            },
        decreases old(parser).spec_bytes().len() - old(parser).spec_position(), 0int,
    {
        let ghost bytes = parser.spec_bytes();
        let ghost pos = parser.spec_position() as int;
        let ghost before = self.spec_tree()->0;
        proof {
            parser.lemma_bytes_fit();
        }
        if !parser.consume_if(40) {
            return Err(expected_error(parser, "'(' before children"));
        }
        let left_index = match self.parse_vertex(parser) {
            Ok(v) => v,
            Err(e) => {
                return Err(e);
            },
        };
        let ghost left = self.spec_tree()->0;
        proof {
            lemma_blank_end(bytes, parser.spec_position() as int);
        }
        match parser.skip_comment_and_whitespace() {
            Ok(()) => {},
            Err(e) => {
                return Err(e);
            },
        }
        if !parser.consume_if(44) {
            return Err(expected_error(parser, "',' between children"));
        }
        let right_index = match self.parse_vertex(parser) {
            Ok(v) => v,
            Err(e) => {
                return Err(e);
            },
        };
        let ghost right = self.spec_tree()->0;
        proof {
            lemma_blank_end(bytes, parser.spec_position() as int);
        }
        match parser.skip_comment_and_whitespace() {
            Ok(()) => {},
            Err(e) => {
                return Err(e);
            },
        }
        if !parser.consume_if(41) {
            return Err(expected_error(parser, "')' after children"));
        }
        proof {
            lemma_subtree_kept(
                left.vertices,
                right.vertices,
                before.vertices.len() as int,
                left.vertices.len() as int,
            );
            assert forall|i: int| 0 <= i < before.vertices.len() implies #[trigger] right.vertices[i]
                == before.vertices[i] by {
                assert(left.vertices[i] == before.vertices[i]);
                assert(right.vertices[i] == left.vertices[i]);
            }
        }
        Ok((left_index, right_index))
    }

    /// Reads a tree up to its semicolon and adds its root.
    fn parse_root<B: ByteSource>(&mut self, parser: &mut ByteParser<B>) -> (r: Result<
        (),
        ParsingError,
    >)
        requires
            old(self).ready(),
            old(self).spec_tree()->0.vertices.len() == 0,
        ensures
            final(parser).spec_bytes() == old(parser).spec_bytes(),
            match spec_root::<T::Storage>(
                old(self).spec_model(),
                !old(self).spec_know_num_leaves(),
                old(self).spec_annotated(),
                old(parser).spec_bytes(),
                old(parser).spec_position() as int,
                old(self).progress(),
            ) {
                Step::Done(st, end) => {
                    &&& r is Ok
                    &&& final(self).reached(old(self), st)
                    &&& final(parser).spec_position() == end
                    &&& old(parser).spec_position() < end <= old(parser).spec_bytes().len()
                    &&& well_built(st.tree)
                    &&& !old(self).spec_know_num_leaves() ==> st.leaves <= st.tree.vertices.len()
                },
                Step::Failed(e) => r matches Err(x) && x@ == e,
            },
    {
        let ghost bytes = parser.spec_bytes();
        proof {
            parser.lemma_bytes_fit();
            lemma_blank_end(bytes, parser.spec_position() as int);
        }
        match parser.skip_comment_and_whitespace() {
            Ok(()) => {},
            Err(e) => {
                return Err(e);
            },
        }
        let children = match self.parse_children(parser) {
            Ok(c) => c,
            Err(e) => {
                return Err(e);
            },
        };
        let ghost after = self.spec_tree()->0;
        let notes = match self.read_notes(parser) {
            Ok(n) => n,
            Err(e) => {
                return Err(e);
            },
        };
        let branch = match parse_branch_length(parser) {
            Ok(b) => b,
            Err(e) => {
                return Err(e);
            },
        };
        proof {
            lemma_blank_end(bytes, parser.spec_position() as int);
        }
        match parser.skip_comment_and_whitespace() {
            Ok(()) => {},
            Err(e) => {
                return Err(e);
            },
        }
        if !parser.consume_if(59) {
            return Err(expected_error(parser, "';' at end of tree"));
        }
        let ghost length = crate::model::vertex::length_view(branch);
        proof {
            lemma_tops_adoptable(after, 0, children.0 + 1);
        }
        let index = self.tree_builder.add_root(children, branch);
        proof {
            lemma_root(after, children.0 + 1, length);
            lemma_parent_wf(after, children, length);
        }
        self.add_annotations(notes, index);
        Ok(())
    }

    /// Reads one tree, which gets the name `tree_name`.
    ///
    /// On success the tree is a rooted structure in which every link is
    /// answered, it holds one vertex less than twice its leaves, and the
    /// number of its leaves is known from then on. A parser told to expect no
    /// leaves at all fails.
    pub fn parse_str_and_name<B: ByteSource>(
        &mut self,
        parser: &mut ByteParser<B>,
        tree_name: Option<String>,
    ) -> (r: Result<T::Tree, ParsingError>)
        ensures
            final(parser).spec_bytes() == old(parser).spec_bytes(),
            match spec_tree_at::<T::Storage>(
                old(self).spec_model(),
                old(self).spec_know_num_leaves(),
                old(self).spec_annotated(),
                old(self).spec_num_leaves(),
                name_view(tree_name),
                old(parser).spec_bytes(),
                old(parser).spec_position() as int,
                old(self).spec_labels(),
            ) {
                Step::Done(st, end) => {
                    &&& r matches Ok(tree)
                    &&& T::spec_tree(&tree) == st.tree
                    &&& final(self).spec_tree() is None
                    &&& final(self).spec_labels() == st.labels
                    &&& final(self).spec_num_leaves() == st.leaves
                    &&& final(self).spec_know_num_leaves()
                    &&& final(self).spec_model() == old(self).spec_model()
                    &&& final(self).spec_annotated() == old(self).spec_annotated()
                    &&& final(parser).spec_position() == end
                    &&& old(parser).spec_position() < end <= old(parser).spec_bytes().len()
                    &&& well_built(st.tree)
                },
                Step::Failed(e) => r matches Err(x) && x@ == e,
            },
    {
        reveal(spec_tree_at);
        if self.num_leaves == 0 {
            let message = String::from_str("Cannot build a tree for zero leaves");
            return Err(ParsingError::invalid_newick_string(parser, message));
        }
        self.tree_builder.init_next(self.num_leaves);
        match tree_name {
            Some(name) => {
                self.tree_builder.set_name(name);
            },
            None => {},
        }
        if !self.know_num_leaves {
            self.num_leaves = 0;
        }
        match self.parse_root(parser) {
            Ok(()) => {},
            Err(e) => {
                return Err(e);
            },
        }
        self.know_num_leaves = true;
        match self.tree_builder.finish_tree() {
            Some(tree) => Ok(tree),
            None => Err(ParsingError::without_context(ParsingErrorType::BuilderNotInitialized)),
        }
    }

    /// Reads one tree. See `parse_str_and_name`.
    pub fn parse_str<B: ByteSource>(&mut self, parser: &mut ByteParser<B>) -> (r: Result<
        T::Tree,
        ParsingError,
    >)
        ensures
            final(parser).spec_bytes() == old(parser).spec_bytes(),
            match spec_tree_at::<T::Storage>(
                old(self).spec_model(),
                old(self).spec_know_num_leaves(),
                old(self).spec_annotated(),
                old(self).spec_num_leaves(),
                None,
                old(parser).spec_bytes(),
                old(parser).spec_position() as int,
                old(self).spec_labels(),
            ) {
                Step::Done(st, end) => {
                    &&& r matches Ok(tree)
                    &&& T::spec_tree(&tree) == st.tree
                    &&& final(self).spec_tree() is None
                    &&& final(self).spec_labels() == st.labels
                    &&& final(self).spec_num_leaves() == st.leaves
                    &&& final(self).spec_know_num_leaves()
                    &&& final(self).spec_model() == old(self).spec_model()
                    &&& final(self).spec_annotated() == old(self).spec_annotated()
                    &&& final(parser).spec_position() == end
                    &&& old(parser).spec_position() < end <= old(parser).spec_bytes().len()
                    &&& well_built(st.tree)
                },
                Step::Failed(e) => r matches Err(x) && x@ == e,
            },
    {
        self.parse_str_and_name(parser, None)
    }

    /// Reads the next tree of an input that holds trees and blanks only;
    /// `None` where only blanks are left.
    fn parse_next<B: ByteSource>(&mut self, parser: &mut ByteParser<B>) -> (r: Result<
        Option<T::Tree>,
        ParsingError,
    >)
        ensures
            final(parser).spec_bytes() == old(parser).spec_bytes(),
            match blank_end(old(parser).spec_bytes(), old(parser).spec_position() as int) {
                None => r matches Err(x) && x@ == crate::newick::grammar::unclosed(
                    old(parser).spec_bytes(),
                ),
                Some(start) => if start >= old(parser).spec_bytes().len() {
                    &&& r matches Ok(None)
                    &&& *final(self) == *old(self)
                    &&& old(parser).spec_position() <= start
                } else {
                    match spec_tree_at::<T::Storage>(
                        old(self).spec_model(),
                        old(self).spec_know_num_leaves(),
                        old(self).spec_annotated(),
                        old(self).spec_num_leaves(),
                        None,
                        old(parser).spec_bytes(),
                        start,
                        old(self).spec_labels(),
                    ) {
                        Step::Done(st, end) => {
                            &&& r matches Ok(Some(tree))
                            &&& T::spec_tree(&tree) == st.tree
                            &&& well_built(st.tree)
                            &&& final(self).spec_labels() == st.labels
                            &&& final(self).spec_num_leaves() == st.leaves
                            &&& final(self).spec_know_num_leaves()
                            &&& final(self).spec_model() == old(self).spec_model()
                            &&& final(self).spec_annotated() == old(self).spec_annotated()
                            &&& final(parser).spec_position() == end
                            &&& old(parser).spec_position() <= start < end
                                <= old(parser).spec_bytes().len()
                        },
                        Step::Failed(e) => r matches Err(x) && x@ == e,
                    }
                },
            },
    {
        proof {
            parser.lemma_bytes_fit();
            lemma_blank_end(parser.spec_bytes(), parser.spec_position() as int);
        }
        match parser.skip_comment_and_whitespace() {
            Ok(()) => {},
            Err(e) => {
                return Err(e);
            },
        }
        if parser.is_eof() {
            return Ok(None);
        }
        match self.parse_str(parser) {
            Ok(tree) => Ok(Some(tree)),
            Err(e) => Err(e),
        }
    }

    /// Reads all trees of the input, which holds nothing else but blanks.
    pub fn parse_all<B: ByteSource>(&mut self, byte_parser: ByteParser<B>) -> (r: Result<
        Vec<T::Tree>,
        ParsingError,
    >)
        ensures
            match spec_forest::<T::Storage>(
                old(self).spec_model(),
                old(self).spec_know_num_leaves(),
                old(self).spec_annotated(),
                old(self).spec_num_leaves(),
                byte_parser.spec_bytes(),
                byte_parser.spec_position() as int,
                old(self).spec_labels(),
            ) {
                Forest::Done(trees, labels) => {
                    &&& r matches Ok(found)
                    &&& found@.len() == trees.len()
                    &&& forall|i: int|
                        0 <= i < trees.len() ==> T::spec_tree(&#[trigger] found@[i]) == trees[i]
                    &&& forall|i: int|
                        0 <= i < trees.len() ==> well_built(#[trigger] trees[i])
                    &&& final(self).spec_labels() == labels
                    &&& final(self).spec_model() == old(self).spec_model()
                    &&& final(self).spec_annotated() == old(self).spec_annotated()
                },
                Forest::Failed(e) => r matches Err(x) && x@ == e,
            },
    {
        let ghost bytes = byte_parser.spec_bytes();
        let ghost model = self.spec_model();
        let ghost annotated = self.spec_annotated();
        let ghost whole = spec_forest::<T::Storage>(
            model,
            self.spec_know_num_leaves(),
            annotated,
            self.spec_num_leaves(),
            bytes,
            byte_parser.spec_position() as int,
            self.spec_labels(),
        );
        let ghost mut done: Seq<TreeModel<RefView<T>>> = Seq::empty();
        let mut trees: Vec<T::Tree> = Vec::new();
        let mut cursor = byte_parser;
        proof {
            match whole {
                Forest::Done(rest, _) => {
                    assert(done + rest =~= rest);
                },
                Forest::Failed(_) => {},
            }
        }
        loop
            invariant
                cursor.spec_bytes() == bytes,
                self.spec_model() == model,
                self.spec_annotated() == annotated,
                model == old(self).spec_model(),
                annotated == old(self).spec_annotated(),
                whole == spec_forest::<T::Storage>(
                    old(self).spec_model(),
                    old(self).spec_know_num_leaves(),
                    old(self).spec_annotated(),
                    old(self).spec_num_leaves(),
                    byte_parser.spec_bytes(),
                    byte_parser.spec_position() as int,
                    old(self).spec_labels(),
                ),
                trees@.len() == done.len(),
                forall|i: int| 0 <= i < done.len() ==> T::spec_tree(&#[trigger] trees@[i]) == done[i],
                forall|i: int|
                    0 <= i < done.len() ==> well_built(#[trigger] done[i]),
                whole == after_trees(
                    done,
                    spec_forest::<T::Storage>(
                        model,
                        self.spec_know_num_leaves(),
                        annotated,
                        self.spec_num_leaves(),
                        bytes,
                        cursor.spec_position() as int,
                        self.spec_labels(),
                    ),
                ),
            decreases bytes.len() - cursor.spec_position(),
        {
            let ghost here = cursor.spec_position() as int;
            let ghost know = self.spec_know_num_leaves();
            let ghost leaves = self.spec_num_leaves();
            let ghost labels = self.spec_labels();
            proof {
                lemma_forest_stop::<T::Storage>(
                    model,
                    know,
                    annotated,
                    leaves,
                    bytes,
                    here,
                    labels,
                    done,
                );
            }
            match self.parse_next(&mut cursor) {
                Ok(Some(tree)) => {
                    proof {
                        lemma_forest_step::<T::Storage>(
                            model,
                            know,
                            annotated,
                            leaves,
                            bytes,
                            here,
                            labels,
                            done,
                        );
                        let at = blank_end(bytes, here)->0;
                        let st = spec_tree_at::<T::Storage>(
                            model,
                            know,
                            annotated,
                            leaves,
                            None,
                            bytes,
                            at,
                            labels,
                        )->Done_0;
                        done = done.push(st.tree);
                    }
                    trees.push(tree);
                },
                Ok(None) => {
                    return Ok(trees);
                },
                Err(e) => {
                    return Err(e);
                },
            }
        }
    }
}

/// The view of an optional name.
pub open spec fn name_view(name: Option<String>) -> Option<Seq<char>> {
    match name {
        Some(n) => Some(n@),
        None => None,
    }
}

impl NewickParser<CompactTreeBuilder> {
    /// A parser for compact trees that stores labels as they are in a fresh
    /// label map and counts the leaves of its first tree.
    pub fn new_compact_defaults() -> (r: Self)
        ensures
            r.spec_resolver() is VerbatimLabels,
            r.spec_labels() == Seq::<Seq<char>>::empty(),
            r.spec_num_leaves() == DEFAULT_NUM_LEAVES_GUESS,
            !r.spec_know_num_leaves(),
            !r.spec_annotated(),
            r.spec_tree() is None,
    {
        NewickParser {
            know_num_leaves: false,
            num_leaves: DEFAULT_NUM_LEAVES_GUESS,
            tree_builder: CompactTreeBuilder::new(),
            resolver: LabelResolver::VerbatimLabels(LeafLabelMap::new(DEFAULT_NUM_LEAVES_GUESS)),
            parse_annotations: false,
        }
    }
}

impl NewickParser<SimpleTreeBuilder> {
    /// A parser for simple trees that stores labels as they are in a fresh
    /// store and counts the leaves of its first tree.
    pub fn new_simple_defaults() -> (r: Self)
        ensures
            r.spec_resolver() is VerbatimLabels,
            r.spec_labels() == Seq::<Seq<char>>::empty(),
            r.spec_num_leaves() == DEFAULT_NUM_LEAVES_GUESS,
            !r.spec_know_num_leaves(),
            !r.spec_annotated(),
            r.spec_tree() is None,
    {
        NewickParser {
            know_num_leaves: false,
            num_leaves: DEFAULT_NUM_LEAVES_GUESS,
            tree_builder: SimpleTreeBuilder::new(),
            resolver: LabelResolver::VerbatimLabels(SimpleLabelStorage::new()),
            parse_annotations: false,
        }
    }
}

/// Hands out the trees of an input one at a time.
pub struct NewickIterator<B: ByteSource, T: TreeBuilder> {
    parser: NewickParser<T>,
    byte_parser: ByteParser<B>,
    done: bool,
}

impl<T: TreeBuilder> NewickParser<T> {
    /// Gives up the parser for an iterator over the trees of `byte_parser`.
    pub fn into_iter<B: ByteSource>(self, byte_parser: ByteParser<B>) -> (r: NewickIterator<B, T>)
        ensures
            r.spec_parser() == self,
            r.spec_bytes() == byte_parser.spec_bytes(),
            r.spec_position() == byte_parser.spec_position(),
            !r.spec_done(),
    {
        NewickIterator { parser: self, byte_parser, done: false }
    }
}

impl<B: ByteSource, T: TreeBuilder> NewickIterator<B, T> {
    /// The parser that reads the trees.
    pub closed spec fn spec_parser(&self) -> NewickParser<T> {
        self.parser
    }

    /// The bytes of the input.
    pub closed spec fn spec_bytes(&self) -> Seq<u8> {
        self.byte_parser.spec_bytes()
    }

    /// The offset of the cursor.
    pub closed spec fn spec_position(&self) -> usize {
        self.byte_parser.spec_position()
    }

    /// Whether the iterator has come to its end.
    pub closed spec fn spec_done(&self) -> bool {
        self.done
    }

    /// Gives up the iterator for its parser.
    pub fn into_parser(self) -> (r: NewickParser<T>)
        ensures
            r == self.spec_parser(),
    {
        self.parser
    }

    /// Reads the next tree. `None` at the end; the end comes with the end of
    /// the input behind a tree, and with the first error, which is handed
    /// out. A comment that is never closed behind a tree is handed out in
    /// place of the tree.
    pub fn next_tree(&mut self) -> (r: Option<Result<T::Tree, ParsingError>>)
        ensures
            final(self).spec_bytes() == old(self).spec_bytes(),
            old(self).spec_done() ==> r is None && final(self).spec_done(),
            !old(self).spec_done() ==> match spec_tree_at::<T::Storage>(
                old(self).spec_parser().spec_model(),
                old(self).spec_parser().spec_know_num_leaves(),
                old(self).spec_parser().spec_annotated(),
                old(self).spec_parser().spec_num_leaves(),
                None,
                old(self).spec_bytes(),
                old(self).spec_position() as int,
                old(self).spec_parser().spec_labels(),
            ) {
                Step::Done(st, end) => match blank_end(old(self).spec_bytes(), end) {
                    Some(rest) => {
                        &&& r matches Some(Ok(tree))
                        &&& T::spec_tree(&tree) == st.tree
                        &&& well_built(st.tree)
                        &&& final(self).spec_position() == rest
                        &&& final(self).spec_done() == (rest >= old(self).spec_bytes().len())
                        &&& final(self).spec_parser().spec_labels() == st.labels
                        &&& final(self).spec_parser().spec_num_leaves() == st.leaves
                        &&& final(self).spec_parser().spec_know_num_leaves()
                        &&& final(self).spec_parser().spec_model() == old(
                            self,
                        ).spec_parser().spec_model()
                        &&& final(self).spec_parser().spec_annotated() == old(
                            self,
                        ).spec_parser().spec_annotated()
                    },
                    None => r matches Some(Err(x)) && x@ == crate::newick::grammar::unclosed(
                        old(self).spec_bytes(),
                    ) && final(self).spec_done(),
                },
                Step::Failed(e) => r matches Some(Err(x)) && x@ == e && final(self).spec_done(),
            },
    {
        if self.done {
            return None;
        }
        proof {
            self.byte_parser.lemma_bytes_fit();
        }
        match self.parser.parse_str(&mut self.byte_parser) {
            Ok(tree) => {
                match self.byte_parser.skip_comment_and_whitespace() {
                    Ok(()) => {},
                    Err(e) => {
                        self.done = true;
                        return Some(Err(e));
                    },
                }
                if self.byte_parser.is_eof() {
                    self.done = true;
                }
                Some(Ok(tree))
            },
            Err(e) => {
                self.done = true;
                Some(Err(e))
            },
        }
    }
}

} // verus!
