//! Binary trees kept in an arena: a growable array of vertices that refer to
//! each other by position.

use vstd::prelude::*;
use crate::model::annotation::AnnotationValue;
use crate::model::annotation::Annotations;
use crate::model::annotation::Note;
use crate::model::annotation::ValueModel;
use crate::model::branch_length::BranchLength;
use crate::model::vertex::NO_PARENT_SET;
use crate::model::vertex::Vertex;
use crate::model::vertex::VertexIndex;
use crate::model::vertex::VertexModel;
use crate::model::vertex::length_view;

verus! {

/// The root index of a tree whose root has not been added yet.
pub const NO_ROOT_SET_INDEX: VertexIndex = usize::MAX;

/// The position of a label in a shared label map.
pub type LabelIndex = usize;

/// A tree whose leaves refer to their labels by position in a shared map.
pub type CompactTree = GenTree<LabelIndex>;

/// A tree whose leaves hold their labels.
pub type SimpleTree = GenTree<String>;

/// A label that can say whether it is fit for a tree of a given size.
pub trait ValidLabel: View + Sized {
    /// Whether a label with view `label` is fit for a tree of `num_leaves`
    /// leaves.
    spec fn spec_valid_for_tree(label: Self::V, num_leaves: usize) -> bool;

    /// Whether the label is fit for a tree of `num_leaves` leaves.
    fn is_valid_for_tree(&self, num_leaves: usize) -> (r: bool)
        ensures
            r == Self::spec_valid_for_tree(self@, num_leaves),
    ;
}

impl ValidLabel for LabelIndex {
    /// An index is fit when it lies below the number of leaves.
    open spec fn spec_valid_for_tree(label: usize, num_leaves: usize) -> bool {
        label < num_leaves
    }

    fn is_valid_for_tree(&self, num_leaves: usize) -> (r: bool) {
        *self < num_leaves
    }
}

impl ValidLabel for String {
    /// A text is fit when it is not empty.
    open spec fn spec_valid_for_tree(label: Seq<char>, num_leaves: usize) -> bool {
        label.len() > 0
    }

    fn is_valid_for_tree(&self, num_leaves: usize) -> (r: bool) {
        !self.as_str().is_empty()
    }
}

/// The mathematical content of a tree: its vertices in arena order, the
/// position of its root, its name and the number of leaves it was made for.
pub ghost struct TreeModel<LV> {
    pub num_leaves_init: usize,
    pub vertices: Seq<VertexModel<LV>>,
    pub root_index: usize,
    pub name: Option<Seq<char>>,
    pub annotations: Seq<Note>,
}

/// How many of the first `n` vertices are leaves.
pub open spec fn leaves_in<LV>(vs: Seq<VertexModel<LV>>, n: int) -> nat
    decreases n,
{
    if n <= 0 {
        0
    } else {
        leaves_in(vs, n - 1) + if vs[n - 1] is Leaf {
            1nat
        } else {
            0nat
        }
    }
}

/// How many of the first `n` vertices are internal vertices.
pub open spec fn internals_in<LV>(vs: Seq<VertexModel<LV>>, n: int) -> nat
    decreases n,
{
    if n <= 0 {
        0
    } else {
        internals_in(vs, n - 1) + if vs[n - 1] is Internal {
            1nat
        } else {
            0nat
        }
    }
}

/// How many of the first `n` vertices are roots.
pub open spec fn roots_in<LV>(vs: Seq<VertexModel<LV>>, n: int) -> nat
    decreases n,
{
    if n <= 0 {
        0
    } else {
        roots_in(vs, n - 1) + if vs[n - 1] is Root {
            1nat
        } else {
            0nat
        }
    }
}

/// How many of the first `n` vertices still wait for their parent.
pub open spec fn orphans_in<LV>(vs: Seq<VertexModel<LV>>, n: int) -> nat
    decreases n,
{
    if n <= 0 {
        0
    } else {
        orphans_in(vs, n - 1) + if vs[n - 1].is_orphan() {
            1nat
        } else {
            0nat
        }
    }
}

/// Whether every vertex carries its own position and has its children before
/// it. Every arena built through `GenTree` is so.
pub open spec fn arena_ordered<LV>(vs: Seq<VertexModel<LV>>) -> bool {
    forall|i: int|
        0 <= i < vs.len() ==> (#[trigger] vs[i]).index() == i && (vs[i].children() matches Some(
            c,
        ) ==> c.0 < i && c.1 < i)
}

/// The checks that validation makes of the vertex at position `i`: it carries
/// its own position, its children lie in the arena and name it as their
/// parent, and unless it is the root it has a parent that lies in the arena
/// and names it as a child.
pub open spec fn vertex_ok<LV>(vs: Seq<VertexModel<LV>>, i: int) -> bool {
    &&& vs[i].index() == i
    &&& vs[i].children() matches Some(c) ==> {
        &&& c.0 < vs.len()
        &&& c.1 < vs.len()
        &&& vs[c.0 as int].parent() == Some(i as usize)
        &&& vs[c.1 as int].parent() == Some(i as usize)
    }
    &&& !(vs[i] is Root) ==> {
        &&& vs[i].parent() matches Some(p)
        &&& p < vs.len()
        &&& vs[p as int].children() matches Some(c)
        &&& (c.0 == i || c.1 == i)
    }
}

/// Whether the arena is a rooted structure in which every link is answered:
/// the root index names a root, which is the only one; every vertex passes
/// `vertex_ok`; and the leaves are half of the vertices, rounded up.
pub open spec fn structure_ok<LV>(vs: Seq<VertexModel<LV>>, root_index: usize) -> bool {
    &&& root_index != NO_ROOT_SET_INDEX
    &&& root_index < vs.len()
    &&& vs[root_index as int] is Root
    &&& forall|i: int| 0 <= i < vs.len() ==> #[trigger] vertex_ok(vs, i)
    &&& forall|i: int| 0 <= i < vs.len() && #[trigger] vs[i] is Root ==> i == root_index
    &&& leaves_in(vs, vs.len() as int) == (vs.len() + 1) / 2
}

/// Whether the label of the vertex at position `i`, if it is a leaf, is fit
/// for a tree of as many leaves as the arena holds.
pub open spec fn label_ok<L: ValidLabel>(vs: Seq<VertexModel<L::V>>, i: int) -> bool {
    vs[i] matches VertexModel::Leaf { label, .. } ==> L::spec_valid_for_tree(
        label,
        leaves_in(vs, vs.len() as int) as usize,
    )
}

/// Whether every leaf has a fit label.
pub open spec fn labels_ok<L: ValidLabel>(vs: Seq<VertexModel<L::V>>) -> bool {
    forall|i: int| 0 <= i < vs.len() ==> #[trigger] label_ok::<L>(vs, i)
}

/// The counts of an arena's first `n` vertices are bounded by `n`.
pub proof fn lemma_counts_bounded<LV>(vs: Seq<VertexModel<LV>>, n: int)
    requires
        0 <= n,
    ensures
        leaves_in(vs, n) + internals_in(vs, n) + roots_in(vs, n) == n,
        orphans_in(vs, n) <= n,
    decreases n,
{
    if n > 0 {
        lemma_counts_bounded(vs, n - 1);
    }
}

/// A binary tree kept in an arena.
#[derive(Debug)]
pub struct GenTree<L> {
    num_leaves_init: usize,
    vertices: Vec<Vertex<L>>,
    root_index: VertexIndex,
    name: Option<String>,
    annotations: Option<Annotations>,
}

impl<L: View> View for GenTree<L> {
    type V = TreeModel<L::V>;

    closed spec fn view(&self) -> TreeModel<L::V> {
        TreeModel {
            num_leaves_init: self.num_leaves_init,
            vertices: Seq::new(self.vertices@.len(), |i: int| self.vertices@[i]@),
            root_index: self.root_index,
            name: match self.name {
                Some(n) => Some(n@),
                None => None,
            },
            annotations: match self.annotations {
                Some(a) => a@,
                None => Seq::empty(),
            },
        }
    }
}

impl<LV> TreeModel<LV> {
    /// Whether the arena is ordered and its root index, if set, names a root.
    pub open spec fn wf(self) -> bool {
        &&& arena_ordered(self.vertices)
        &&& self.root_index != NO_ROOT_SET_INDEX ==> self.root_index < self.vertices.len()
            && self.vertices[self.root_index as int] is Root
    }

    /// The tree after a leaf was added.
    pub open spec fn add_leaf(self, branch_length: Option<Seq<char>>, label: LV) -> Self {
        TreeModel {
            vertices: self.vertices.push(
                VertexModel::Leaf {
                    index: self.vertices.len() as usize,
                    label,
                    parent: NO_PARENT_SET,
                    branch_length,
                },
            ),
            ..self
        }
    }

    /// The vertices after `children` got the next position as their parent.
    pub open spec fn adopt(self, children: (usize, usize)) -> Seq<VertexModel<LV>> {
        let parent = self.vertices.len() as usize;
        let first = self.vertices.update(
            children.0 as int,
            self.vertices[children.0 as int].with_parent(parent),
        );
        first.update(children.1 as int, first[children.1 as int].with_parent(parent))
    }

    /// The tree after an internal vertex over `children` was added.
    pub open spec fn add_internal(
        self,
        children: (usize, usize),
        branch_length: Option<Seq<char>>,
    ) -> Self {
        TreeModel {
            vertices: self.adopt(children).push(
                VertexModel::Internal {
                    index: self.vertices.len() as usize,
                    parent: NO_PARENT_SET,
                    children,
                    branch_length,
                },
            ),
            ..self
        }
    }

    /// The tree after the root over `children` was added.
    pub open spec fn add_root(
        self,
        children: (usize, usize),
        branch_length: Option<Seq<char>>,
    ) -> Self {
        TreeModel {
            vertices: self.adopt(children).push(
                VertexModel::Root { index: self.vertices.len() as usize, children, branch_length },
            ),
            root_index: self.vertices.len() as usize,
            ..self
        }
    }

    /// The tree after `value` was put under `key` at vertex `vertex`.
    pub open spec fn annotate(self, key: Seq<char>, vertex: usize, value: ValueModel) -> Self {
        TreeModel { annotations: self.annotations.push((key, vertex, value)), ..self }
    }

    /// Whether `children` may be given a parent: both lie in the arena and
    /// neither is a root.
    pub open spec fn adoptable(self, children: (usize, usize)) -> bool {
        &&& children.0 < self.vertices.len()
        &&& children.1 < self.vertices.len()
        &&& !(self.vertices[children.0 as int] is Root)
        &&& !(self.vertices[children.1 as int] is Root)
    }
}

impl<L: View> GenTree<L> {
    /// An empty tree, to be filled with `num_leaves` leaves.
    pub fn new(num_leaves: usize) -> (r: Self)
        requires
            num_leaves > 0,
        ensures
            r@ == (TreeModel::<L::V> {
                num_leaves_init: num_leaves,
                vertices: Seq::empty(),
                root_index: NO_ROOT_SET_INDEX,
                name: None,
                annotations: Seq::empty(),
            }),
            r@.wf(),
    {
        let capacity: usize = if num_leaves <= usize::MAX / 4 {
            2 * num_leaves - 1
        } else {
            0
        };
        let r = GenTree {
            num_leaves_init: num_leaves,
            name: None,
            root_index: NO_ROOT_SET_INDEX,
            vertices: Vec::with_capacity(capacity),
            annotations: None,
        };
        assert(r@.vertices =~= Seq::empty());
        r
    }

    /// The same tree under the name `name`.
    pub fn with_name(self, name: String) -> (r: Self)
        ensures
            r@ == (TreeModel { name: Some(name@), ..self@ }),
    {
        let mut t = self;
        t.name = Some(name);
        t
    }

    /// Gives `children` the next position as their parent.
    fn adopt(&mut self, children: (VertexIndex, VertexIndex))
        requires
            old(self)@.wf(),
            old(self)@.adoptable(children),
        ensures
            final(self)@ == (TreeModel { vertices: old(self)@.adopt(children), ..old(self)@ }),
    {
        let index: usize = self.vertices.len();
        self.vertices[children.0].set_parent(index);
        self.vertices[children.1].set_parent(index);
        assert(self@.vertices =~= old(self)@.adopt(children));
    }

    /// Adds the root over `children` and returns its position.
    pub fn add_root(
        &mut self,
        children: (VertexIndex, VertexIndex),
        branch_length: Option<BranchLength>,
    ) -> (index: VertexIndex)
        requires
            old(self)@.wf(),
            old(self)@.adoptable(children),
        ensures
            index == old(self)@.vertices.len(),
            index < usize::MAX,
            final(self)@ == old(self)@.add_root(children, length_view(branch_length)),
            final(self)@.wf(),
    {
        let index: usize = self.vertices.len();
        self.adopt(children);
        self.vertices.push(Vertex::new_root(index, children, branch_length));
        assert(self.vertices.len() == self.vertices@.len());
        self.root_index = index;
        assert(self@.vertices =~= old(self)@.add_root(
            children,
            length_view(branch_length),
        ).vertices);
        index
    }

    /// Adds the root over `children`, without a branch length.
    pub fn add_root_without_branch(&mut self, children: (VertexIndex, VertexIndex)) -> (index:
        VertexIndex)
        requires
            old(self)@.wf(),
            old(self)@.adoptable(children),
        ensures
            index == old(self)@.vertices.len(),
            index < usize::MAX,
            final(self)@ == old(self)@.add_root(children, None),
            final(self)@.wf(),
    {
        self.add_root(children, None)
    }

    /// Adds an internal vertex over `children` and returns its position.
    pub fn add_internal_vertex(
        &mut self,
        children: (VertexIndex, VertexIndex),
        branch_length: Option<BranchLength>,
    ) -> (index: VertexIndex)
        requires
            old(self)@.wf(),
            old(self)@.adoptable(children),
        ensures
            index == old(self)@.vertices.len(),
            index < usize::MAX,
            final(self)@ == old(self)@.add_internal(children, length_view(branch_length)),
            final(self)@.wf(),
    {
        let index: usize = self.vertices.len();
        self.adopt(children);
        self.vertices.push(Vertex::new_internal(index, children, branch_length));
        assert(self.vertices.len() == self.vertices@.len());
        assert(self@.vertices =~= old(self)@.add_internal(
            children,
            length_view(branch_length),
        ).vertices);
        index
    }

    /// Adds a leaf and returns its position.
    pub fn add_leaf(&mut self, branch_length: Option<BranchLength>, label: L) -> (index:
        VertexIndex)
        requires
            old(self)@.wf(),
        ensures
            index == old(self)@.vertices.len(),
            index < usize::MAX,
            final(self)@ == old(self)@.add_leaf(length_view(branch_length), label@),
            final(self)@.wf(),
    {
        let index: usize = self.vertices.len();
        self.vertices.push(Vertex::new_leaf(index, branch_length, label));
        assert(self.vertices.len() == self.vertices@.len());
        assert(self@.vertices =~= old(self)@.add_leaf(length_view(branch_length), label@).vertices);
        index
    }

    /// Puts `value` under `key` at the vertex at position `vertex_index`.
    /// The per-key arrays cover the vertices that the tree was made for, and
    /// grow where a vertex lies behind them.
    pub fn add_annotation(&mut self, key: String, vertex_index: VertexIndex, value: AnnotationValue)
        ensures
            final(self)@ == old(self)@.annotate(key@, vertex_index, value@),
    {
        let mut notes = match self.annotations.take() {
            Some(a) => a,
            None => {
                let expected: usize = if 0 < self.num_leaves_init && self.num_leaves_init
                    <= usize::MAX / 2 {
                    2 * self.num_leaves_init - 1
                } else {
                    self.vertices.len()
                };
                Annotations::new(expected)
            },
        };
        notes.add(key, vertex_index, value);
        self.annotations = Some(notes);
    }

    /// The annotations of the vertices; `None` while there are none.
    pub fn annotations(&self) -> (r: Option<&Annotations>)
        ensures
            r matches Some(a) ==> a@ == self@.annotations,
            r is None ==> self@.annotations.len() == 0,
    {
        self.annotations.as_ref()
    }

    /// The name of the tree, if it has one.
    pub fn name(&self) -> (r: Option<&String>)
        ensures
            r is Some == self@.name is Some,
            r matches Some(n) ==> Some(n@) == self@.name,
    {
        self.name.as_ref()
    }

    /// Names the tree.
    pub fn set_name(&mut self, name: String)
        ensures
            final(self)@ == (TreeModel { name: Some(name@), ..old(self)@ }),
    {
        self.name = Some(name);
    }

    /// Whether the root has been added.
    pub fn is_root_set(&self) -> (r: bool)
        ensures
            r == (self@.root_index != NO_ROOT_SET_INDEX),
    {
        self.root_index != NO_ROOT_SET_INDEX
    }

    /// The root.
    pub fn root(&self) -> (r: &Vertex<L>)
        requires
            self@.wf(),
            self@.root_index != NO_ROOT_SET_INDEX,
        ensures
            r@ == self@.vertices[self@.root_index as int],
    {
        &self.vertices[self.root_index]
    }

    /// The position of the root, or `NO_ROOT_SET_INDEX`.
    pub fn root_index(&self) -> (r: VertexIndex)
        ensures
            r == self@.root_index,
    {
        self.root_index
    }

    /// The vertex at position `index`.
    pub fn vertex(&self, index: usize) -> (r: &Vertex<L>)
        requires
            index < self@.vertices.len(),
        ensures
            r@ == self@.vertices[index as int],
    {
        &self.vertices[index]
    }

    /// The number of leaves the tree was made for.
    pub fn num_leaves_init(&self) -> (r: usize)
        ensures
            r == self@.num_leaves_init,
    {
        self.num_leaves_init
    }

    /// The number of leaves in the arena.
    pub fn num_leaves(&self) -> (r: usize)
        ensures
            r == leaves_in(self@.vertices, self@.vertices.len() as int),
    {
        let mut count: usize = 0;
        let mut i: usize = 0;
        while i < self.vertices.len()
            invariant
                i <= self.vertices.len(),
                count == leaves_in(self@.vertices, i as int),
                count <= i,
            decreases self.vertices.len() - i,
        {
            if self.vertices[i].is_leaf() {
                count = count + 1;
            }
            i = i + 1;
        }
        count
    }

    /// The number of internal vertices in the arena, the root not counted.
    pub fn num_internal(&self) -> (r: usize)
        ensures
            r == internals_in(self@.vertices, self@.vertices.len() as int),
    {
        let mut count: usize = 0;
        let mut i: usize = 0;
        while i < self.vertices.len()
            invariant
                i <= self.vertices.len(),
                count == internals_in(self@.vertices, i as int),
                count <= i,
            decreases self.vertices.len() - i,
        {
            if self.vertices[i].is_internal() {
                count = count + 1;
            }
            i = i + 1;
        }
        count
    }

    /// The number of vertices in the arena.
    pub fn num_vertices(&self) -> (r: usize)
        ensures
            r == self@.vertices.len(),
    {
        self.vertices.len()
    }

    /// Whether every vertex but the root has a branch length.
    pub fn vertices_have_branch_lengths(&self) -> (r: bool)
        ensures
            r == forall|i: int|
                0 <= i < self@.vertices.len() && !(#[trigger] self@.vertices[i] is Root)
                    ==> self@.vertices[i].branch_length() is Some,
    {
        let mut i: usize = 0;
        while i < self.vertices.len()
            invariant
                i <= self.vertices.len(),
                forall|k: int|
                    0 <= k < i && !(#[trigger] self@.vertices[k] is Root)
                        ==> self@.vertices[k].branch_length() is Some,
            decreases self.vertices.len() - i,
        {
            let v = &self.vertices[i];
            if !v.is_root() && !v.has_branch_length() {
                assert(!(self@.vertices[i as int] is Root));
                return false;
            }
            i = i + 1;
        }
        true
    }
}

impl<L: ValidLabel> GenTree<L> {
    /// Whether the arena is a rooted structure in which every link is
    /// answered and every leaf has a fit label.
    pub open spec fn spec_valid(&self) -> bool {
        structure_ok(self@.vertices, self@.root_index) && labels_ok::<L>(self@.vertices)
    }

    /// A tree in which every link is answered is valid exactly when every
    /// leaf has a fit label.
    pub proof fn lemma_valid_by_labels(&self)
        requires
            structure_ok(self@.vertices, self@.root_index),
        ensures
            self.spec_valid() == labels_ok::<L>(self@.vertices),
    {
    }

    /// Validates the tree in one pass over the arena. Nothing is changed.
    pub fn is_valid(&self) -> (r: bool)
        ensures
            r == self.spec_valid(),
    {
        let n: usize = self.vertices.len();
        if self.root_index == NO_ROOT_SET_INDEX {
            return false;
        }
        if self.root_index >= n {
            return false;
        }
        if !self.vertices[self.root_index].is_root() {
            return false;
        }
        let total_leaves: usize = self.num_leaves();
        let ghost vs = self@.vertices;
        let mut leaf_count: usize = 0;
        let mut index: usize = 0;
        while index < n
            invariant
                index <= n,
                n == self.vertices.len(),
                vs == self@.vertices,
                self.root_index < n,
                self.root_index != NO_ROOT_SET_INDEX,
                vs[self.root_index as int] is Root,
                total_leaves == leaves_in(vs, n as int),
                leaf_count == leaves_in(vs, index as int),
                leaf_count <= index,
                forall|k: int| 0 <= k < index ==> #[trigger] vertex_ok(vs, k),
                forall|k: int| 0 <= k < index ==> #[trigger] label_ok::<L>(vs, k),
                forall|k: int| 0 <= k < index && #[trigger] vs[k] is Root ==> k == self.root_index,
            decreases n - index,
        {
            let vertex = &self.vertices[index];
            if vertex.index() != index {
                assert(!vertex_ok(vs, index as int));
                return false;
            }
            if vertex.is_root() && index != self.root_index {
                assert(vs[index as int] is Root);
                return false;
            }
            if vertex.is_leaf() {
                leaf_count = leaf_count + 1;
            }
            match vertex.children() {
                Some((left, right)) => {
                    if left >= n || right >= n {
                        assert(!vertex_ok(vs, index as int));
                        return false;
                    }
                    let left_parent = self.vertices[left].parent_index();
                    let right_parent = self.vertices[right].parent_index();
                    let both: bool = match (left_parent, right_parent) {
                        (Some(a), Some(b)) => a == index && b == index,
                        _ => false,
                    };
                    if !both {
                        assert(!vertex_ok(vs, index as int));
                        return false;
                    }
                },
                None => {},
            }
            if !vertex.is_root() {
                match vertex.parent_index() {
                    None => {
                        assert(!vertex_ok(vs, index as int));
                        return false;
                    },
                    Some(parent_index) => {
                        if parent_index >= n {
                            assert(!vertex_ok(vs, index as int));
                            return false;
                        }
                        match self.vertices[parent_index].children() {
                            Some((left, right)) => {
                                if left != index && right != index {
                                    assert(!vertex_ok(vs, index as int));
                                    return false;
                                }
                            },
                            None => {
                                assert(!vertex_ok(vs, index as int));
                                return false;
                            },
                        }
                    },
                }
            }
            match vertex.label() {
                Some(label) => {
                    if !label.is_valid_for_tree(total_leaves) {
                        assert(!label_ok::<L>(vs, index as int));
                        return false;
                    }
                },
                None => {},
            }
            assert(vertex_ok(vs, index as int));
            assert(label_ok::<L>(vs, index as int));
            index = index + 1;
        }
        let expected: usize = n / 2 + n % 2;
        leaf_count == expected
    }
}

} // verus!
