//! The builder for trees whose leaves refer to a shared label map.

use vstd::prelude::*;
use crate::model::annotation::AnnotationValue;
use crate::model::branch_length::BranchLength;
use crate::model::leaf_label_map::LeafLabelMap;
use crate::model::tree::CompactTree;
use crate::model::tree::GenTree;
use crate::model::tree::LabelIndex;
use crate::model::tree::TreeModel;
use crate::model::tree_builder::TreeBuilder;
use crate::model::vertex::VertexIndex;

verus! {

/// Builds `CompactTree`s, whose leaves hold indices into a `LeafLabelMap`.
#[derive(Debug)]
pub struct CompactTreeBuilder {
    current_tree: Option<CompactTree>,
}

impl CompactTreeBuilder {
    /// An empty builder.
    pub fn new() -> (r: Self)
        ensures
            r.spec_current() is None,
    {
        CompactTreeBuilder { current_tree: None }
    }
}

impl TreeBuilder for CompactTreeBuilder {
    type LabelRef = LabelIndex;

    type Tree = CompactTree;

    type Storage = LeafLabelMap;

    closed spec fn spec_current(&self) -> Option<TreeModel<usize>> {
        match self.current_tree {
            Some(t) => Some(t@),
            None => None,
        }
    }

    open spec fn spec_tree(tree: &CompactTree) -> TreeModel<usize> {
        tree@
    }

    /// An empty label map, made for `capacity` labels.
    fn create_storage(capacity: usize) -> (r: LeafLabelMap)
        ensures
            r.spec_num_leaves() == capacity,
    {
        LeafLabelMap::new(capacity)
    }

    fn init_next(&mut self, num_leaves: usize) {
        self.current_tree = Some(GenTree::new(num_leaves));
    }

    fn add_leaf(&mut self, branch_len: Option<BranchLength>, label: LabelIndex) -> (r:
        VertexIndex) {
        let mut tree = self.current_tree.take().unwrap();
        let r = tree.add_leaf(branch_len, label);
        self.current_tree = Some(tree);
        r
    }

    fn add_internal(
        &mut self,
        children: (VertexIndex, VertexIndex),
        branch_len: Option<BranchLength>,
    ) -> (r: VertexIndex) {
        let mut tree = self.current_tree.take().unwrap();
        let r = tree.add_internal_vertex(children, branch_len);
        self.current_tree = Some(tree);
        r
    }

    fn add_root(
        &mut self,
        children: (VertexIndex, VertexIndex),
        branch_len: Option<BranchLength>,
    ) -> (r: VertexIndex) {
        let mut tree = self.current_tree.take().unwrap();
        let r = tree.add_root(children, branch_len);
        self.current_tree = Some(tree);
        r
    }

    fn add_annotation(&mut self, key: String, vertex: VertexIndex, value: AnnotationValue) {
        let mut tree = self.current_tree.take().unwrap();
        tree.add_annotation(key, vertex, value);
        self.current_tree = Some(tree);
    }

    fn set_name(&mut self, tree_name: String) {
        match self.current_tree.take() {
            Some(tree) => {
                self.current_tree = Some(tree.with_name(tree_name));
            },
            None => {},
        }
    }

    fn finish_tree(&mut self) -> (r: Option<CompactTree>) {
        self.current_tree.take()
    }
}

} // verus!
