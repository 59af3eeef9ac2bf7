//! The store and the builder for trees whose leaves hold their labels.

use vstd::prelude::*;
use vstd::string::*;
use crate::model::label_storage::LabelStorage;
use crate::model::label_storage::find_last;
use crate::model::label_storage::lemma_last_index_of;
use crate::model::label_storage::lemma_stored;
use crate::model::label_storage::texts;
use crate::model::annotation::AnnotationValue;
use crate::model::branch_length::BranchLength;
use crate::model::tree::GenTree;
use crate::model::tree::SimpleTree;
use crate::model::tree::TreeModel;
use crate::model::tree_builder::TreeBuilder;
use crate::model::vertex::VertexIndex;

verus! {

/// Builds `SimpleTree`s, whose leaves hold their labels.
#[derive(Debug)]
pub struct SimpleTreeBuilder {
    current_tree: Option<SimpleTree>,
}

impl SimpleTreeBuilder {
    /// An empty builder.
    pub fn new() -> (r: Self)
        ensures
            r.spec_current() is None,
    {
        SimpleTreeBuilder { current_tree: None }
    }
}

impl TreeBuilder for SimpleTreeBuilder {
    type LabelRef = String;

    type Tree = SimpleTree;

    type Storage = SimpleLabelStorage;

    closed spec fn spec_current(&self) -> Option<TreeModel<Seq<char>>> {
        match self.current_tree {
            Some(t) => Some(t@),
            None => None,
        }
    }

    open spec fn spec_tree(tree: &SimpleTree) -> TreeModel<Seq<char>> {
        tree@
    }

    fn create_storage(capacity: usize) -> (r: SimpleLabelStorage) {
        SimpleLabelStorage::with_capacity(capacity)
    }

    fn init_next(&mut self, num_leaves: usize) {
        self.current_tree = Some(GenTree::new(num_leaves));
    }

    fn add_leaf(&mut self, branch_len: Option<BranchLength>, label: String) -> (r: VertexIndex) {
        let mut tree = self.current_tree.take().unwrap();
        let r = tree.add_leaf(branch_len, label);
        self.current_tree = Some(tree);
        r
    }

    fn add_internal(
        &mut self,
        children: (VertexIndex, VertexIndex),
        branch_len: Option<BranchLength>,
    ) -> (r: VertexIndex) {
        let mut tree = self.current_tree.take().unwrap();
        let r = tree.add_internal_vertex(children, branch_len);
        self.current_tree = Some(tree);
        r
    }

    fn add_root(
        &mut self,
        children: (VertexIndex, VertexIndex),
        branch_len: Option<BranchLength>,
    ) -> (r: VertexIndex) {
        let mut tree = self.current_tree.take().unwrap();
        let r = tree.add_root(children, branch_len);
        self.current_tree = Some(tree);
        r
    }

    fn add_annotation(&mut self, key: String, vertex: VertexIndex, value: AnnotationValue) {
        let mut tree = self.current_tree.take().unwrap();
        tree.add_annotation(key, vertex, value);
        self.current_tree = Some(tree);
    }

    fn set_name(&mut self, tree_name: String) {
        match self.current_tree.take() {
            Some(tree) => {
                self.current_tree = Some(tree.with_name(tree_name));
            },
            None => {},
        }
    }

    fn finish_tree(&mut self) -> (r: Option<SimpleTree>) {
        self.current_tree.take()
    }
}

/// A store whose references are the labels themselves.
#[derive(Debug)]
pub struct SimpleLabelStorage {
    labels: Vec<String>,
}

impl SimpleLabelStorage {
    /// An empty store.
    pub fn new() -> (r: Self)
        ensures
            r.spec_labels() == Seq::<Seq<char>>::empty(),
    {
        let r = SimpleLabelStorage { labels: Vec::new() };
        assert(r.spec_labels() =~= Seq::<Seq<char>>::empty());
        r
    }
}

impl LabelStorage for SimpleLabelStorage {
    type LabelRef = String;

    closed spec fn spec_labels(&self) -> Seq<Seq<char>> {
        texts(self.labels@)
    }

    /// The reference to a label is its text.
    open spec fn spec_ref(labels: Seq<Seq<char>>, index: int) -> Seq<char> {
        labels[index]
    }

    proof fn lemma_cloned_ref(a: String, b: String) {
    }

    fn with_capacity(num_labels: usize) -> (r: Self) {
        let r = SimpleLabelStorage { labels: Vec::with_capacity(num_labels) };
        assert(r.spec_labels() =~= Seq::<Seq<char>>::empty());
        r
    }

    fn store_and_ref(&mut self, label: &str) -> (r: String) {
        let key = label.to_owned();
        proof {
            lemma_last_index_of(self.spec_labels(), label@);
            lemma_stored(self.spec_labels(), label@);
        }
        match find_last(&self.labels, &key, self.labels.len()) {
            Some(_) => {},
            None => {
                self.labels.push(label.to_owned());
                assert(self.spec_labels() =~= old(self).spec_labels().push(label@));
            },
        }
        key
    }

    fn check_and_ref(&self, label: &str) -> (r: Option<String>) {
        let key = label.to_owned();
        proof {
            lemma_last_index_of(self.spec_labels(), label@);
        }
        match find_last(&self.labels, &key, self.labels.len()) {
            Some(_) => Some(key),
            None => None,
        }
    }

    fn index_to_ref(&self, index: usize) -> (r: String) {
        self.labels[index].clone()
    }

    fn num_labels(&self) -> (r: usize) {
        self.labels.len()
    }
}

} // verus!
