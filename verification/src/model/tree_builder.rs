//! The interface through which a parser assembles a tree without knowing how
//! the tree is kept.

use vstd::prelude::*;
use crate::model::annotation::AnnotationValue;
use crate::model::branch_length::BranchLength;
use crate::model::label_storage::LabelStorage;
use crate::model::tree::NO_ROOT_SET_INDEX;
use crate::model::tree::TreeModel;
use crate::model::vertex::VertexIndex;
use crate::model::vertex::length_view;

verus! {

/// The tree that a builder holds right after it was prepared for
/// `num_leaves` leaves.
pub open spec fn fresh_tree<LV>(num_leaves: usize) -> TreeModel<LV> {
    TreeModel {
        num_leaves_init: num_leaves,
        vertices: Seq::empty(),
        root_index: NO_ROOT_SET_INDEX,
        name: None,
        annotations: Seq::empty(),
    }
}

/// Builds trees vertex by vertex, bottom up.
///
/// A builder is empty, or it holds the tree under construction. `init_next`
/// starts a tree, the `add_*` methods and `set_name` extend it, and
/// `finish_tree` hands it out and leaves the builder empty. The model of the
/// tree under construction is an arena, whatever the builder makes of it.
pub trait TreeBuilder: Sized {
    /// What a leaf keeps to refer to its label.
    type LabelRef: View + Clone;

    /// The trees that the builder makes.
    type Tree;

    /// The label store whose references the builder takes.
    type Storage: LabelStorage<LabelRef = Self::LabelRef>;

    /// The tree under construction; `None` while the builder is empty.
    spec fn spec_current(&self) -> Option<TreeModel<<Self::LabelRef as View>::V>>;

    /// The arena that a finished tree stands for.
    spec fn spec_tree(tree: &Self::Tree) -> TreeModel<<Self::LabelRef as View>::V>;

    /// A label store for the trees to come. `capacity` is the number of
    /// labels to expect.
    fn create_storage(capacity: usize) -> (r: Self::Storage)
        ensures
            r.spec_labels() == Seq::<Seq<char>>::empty(),
    ;

    /// Starts a tree of `num_leaves` leaves; what was under construction is
    /// dropped.
    fn init_next(&mut self, num_leaves: usize)
        requires
            num_leaves > 0,
        ensures
            final(self).spec_current() == Some(
                fresh_tree::<<Self::LabelRef as View>::V>(num_leaves),
            ),
    ;

    /// Adds a leaf and returns its position.
    fn add_leaf(&mut self, branch_len: Option<BranchLength>, label: Self::LabelRef) -> (r:
        VertexIndex)
        requires
            old(self).spec_current() is Some,
            old(self).spec_current()->0.wf(),
        ensures
            r == old(self).spec_current()->0.vertices.len(),
            r < usize::MAX,
            final(self).spec_current() == Some(
                old(self).spec_current()->0.add_leaf(length_view(branch_len), label@),
            ),
    ;

    /// Adds an internal vertex over `children` and returns its position.
    fn add_internal(
        &mut self,
        children: (VertexIndex, VertexIndex),
        branch_len: Option<BranchLength>,
    ) -> (r: VertexIndex)
        requires
            old(self).spec_current() is Some,
            old(self).spec_current()->0.wf(),
            old(self).spec_current()->0.adoptable(children),
        ensures
            r == old(self).spec_current()->0.vertices.len(),
            r < usize::MAX,
            final(self).spec_current() == Some(
                old(self).spec_current()->0.add_internal(children, length_view(branch_len)),
            ),
    ;

    /// Adds the root over `children` and returns its position.
    fn add_root(
        &mut self,
        children: (VertexIndex, VertexIndex),
        branch_len: Option<BranchLength>,
    ) -> (r: VertexIndex)
        requires
            old(self).spec_current() is Some,
            old(self).spec_current()->0.wf(),
            old(self).spec_current()->0.adoptable(children),
        ensures
            r == old(self).spec_current()->0.vertices.len(),
            r < usize::MAX,
            final(self).spec_current() == Some(
                old(self).spec_current()->0.add_root(children, length_view(branch_len)),
            ),
    ;

    /// Puts `value` under `key` at the vertex at position `vertex`.
    fn add_annotation(&mut self, key: String, vertex: VertexIndex, value: AnnotationValue)
        requires
            old(self).spec_current() is Some,
        ensures
            final(self).spec_current() == Some(
                old(self).spec_current()->0.annotate(key@, vertex, value@),
            ),
    ;

    /// Names the tree under construction, if there is one.
    fn set_name(&mut self, tree_name: String)
        ensures
            final(self).spec_current() == match old(self).spec_current() {
                Some(t) => Some(TreeModel { name: Some(tree_name@), ..t }),
                None => None,
            },
    ;

    /// Hands out the tree under construction and leaves the builder empty.
    fn finish_tree(&mut self) -> (r: Option<Self::Tree>)
        ensures
            final(self).spec_current() is None,
            r is Some == old(self).spec_current() is Some,
            r matches Some(t) ==> Self::spec_tree(&t) == old(self).spec_current()->0,
    ;
}

} // verus!
