//! The vertices of a binary tree: root, internal vertex and leaf.

use vstd::prelude::*;
use crate::model::branch_length::BranchLength;

verus! {

/// The position of a vertex in its tree's arena.
pub type VertexIndex = usize;

/// The parent field of a vertex whose parent has not been added yet.
pub const NO_PARENT_SET: VertexIndex = usize::MAX;

/// A vertex of a binary tree. Each vertex carries its own arena index.
///
/// `L` is how a leaf refers to its label: an index into a shared label map,
/// or the label itself.
#[derive(Debug)]
pub enum Vertex<L> {
    /// The root: two children and no parent.
    Root { index: VertexIndex, children: (VertexIndex, VertexIndex), branch_length: Option<BranchLength> },
    /// An internal vertex: a parent and two children.
    Internal {
        index: VertexIndex,
        parent: VertexIndex,
        children: (VertexIndex, VertexIndex),
        branch_length: Option<BranchLength>,
    },
    /// A leaf: a parent and a label.
    Leaf { index: VertexIndex, label: L, parent: VertexIndex, branch_length: Option<BranchLength> },
}

/// The mathematical content of a vertex, over the view of its label.
pub ghost enum VertexModel<LV> {
    Root { index: usize, children: (usize, usize), branch_length: Option<Seq<char>> },
    Internal {
        index: usize,
        parent: usize,
        children: (usize, usize),
        branch_length: Option<Seq<char>>,
    },
    Leaf { index: usize, label: LV, parent: usize, branch_length: Option<Seq<char>> },
}

/// The written form of an optional branch length.
pub open spec fn length_view(b: Option<BranchLength>) -> Option<Seq<char>> {
    match b {
        Some(l) => Some(l@),
        None => None,
    }
}

impl<LV> VertexModel<LV> {
    /// The arena index that the vertex carries.
    pub open spec fn index(self) -> usize {
        match self {
            VertexModel::Root { index, .. } => index,
            VertexModel::Internal { index, .. } => index,
            VertexModel::Leaf { index, .. } => index,
        }
    }

    /// The two children of a root or an internal vertex.
    pub open spec fn children(self) -> Option<(usize, usize)> {
        match self {
            VertexModel::Root { children, .. } => Some(children),
            VertexModel::Internal { children, .. } => Some(children),
            VertexModel::Leaf { .. } => None,
        }
    }

    /// The parent of an internal vertex or a leaf, once it is set.
    pub open spec fn parent(self) -> Option<usize> {
        match self {
            VertexModel::Root { .. } => None,
            VertexModel::Internal { parent, .. } => if parent == NO_PARENT_SET {
                None
            } else {
                Some(parent)
            },
            VertexModel::Leaf { parent, .. } => if parent == NO_PARENT_SET {
                None
            } else {
                Some(parent)
            },
        }
    }

    /// The branch length, as written, if the vertex has one.
    pub open spec fn branch_length(self) -> Option<Seq<char>> {
        match self {
            VertexModel::Root { branch_length, .. } => branch_length,
            VertexModel::Internal { branch_length, .. } => branch_length,
            VertexModel::Leaf { branch_length, .. } => branch_length,
        }
    }

    /// The label of a leaf.
    pub open spec fn label(self) -> Option<LV> {
        match self {
            VertexModel::Leaf { label, .. } => Some(label),
            _ => None,
        }
    }

    /// The vertex with its parent field set to `parent`. A root stays as it
    /// is.
    pub open spec fn with_parent(self, parent: usize) -> Self {
        match self {
            VertexModel::Root { .. } => self,
            VertexModel::Internal { index, children, branch_length, .. } => VertexModel::Internal {
                index,
                parent,
                children,
                branch_length,
            },
            VertexModel::Leaf { index, label, branch_length, .. } => VertexModel::Leaf {
                index,
                label,
                parent,
                branch_length,
            },
        }
    }

    /// An internal vertex or a leaf whose parent has not been set.
    pub open spec fn is_orphan(self) -> bool {
        !(self is Root) && self.parent() is None
    }
}

impl<L: View> View for Vertex<L> {
    type V = VertexModel<L::V>;

    open spec fn view(&self) -> VertexModel<L::V> {
        match self {
            Vertex::Root { index, children, branch_length } => VertexModel::Root {
                index: *index,
                children: *children,
                branch_length: length_view(*branch_length),
            },
            Vertex::Internal { index, parent, children, branch_length } => VertexModel::Internal {
                index: *index,
                parent: *parent,
                children: *children,
                branch_length: length_view(*branch_length),
            },
            Vertex::Leaf { index, label, parent, branch_length } => VertexModel::Leaf {
                index: *index,
                label: label@,
                parent: *parent,
                branch_length: length_view(*branch_length),
            },
        }
    }
}

impl<L: View> Vertex<L> {
    /// A root at arena position `index`.
    pub fn new_root(
        index: VertexIndex,
        children: (VertexIndex, VertexIndex),
        branch_length: Option<BranchLength>,
    ) -> (r: Self)
        ensures
            r@ == (VertexModel::<L::V>::Root {
                index,
                children,
                branch_length: length_view(branch_length),
            }),
    {
        Vertex::Root { index, children, branch_length }
    }

    /// An internal vertex at arena position `index`, its parent not yet set.
    pub fn new_internal(
        index: VertexIndex,
        children: (VertexIndex, VertexIndex),
        branch_length: Option<BranchLength>,
    ) -> (r: Self)
        ensures
            r@ == (VertexModel::<L::V>::Internal {
                index,
                parent: NO_PARENT_SET,
                children,
                branch_length: length_view(branch_length),
            }),
    {
        Vertex::Internal { index, parent: NO_PARENT_SET, children, branch_length }
    }

    /// A leaf at arena position `index`, its parent not yet set.
    pub fn new_leaf(index: VertexIndex, branch_length: Option<BranchLength>, label: L) -> (r: Self)
        ensures
            r@ == (VertexModel::Leaf {
                index,
                label: label@,
                parent: NO_PARENT_SET,
                branch_length: length_view(branch_length),
            }),
    {
        Vertex::Leaf { index, label, parent: NO_PARENT_SET, branch_length }
    }

    /// The arena index that the vertex carries.
    pub fn index(&self) -> (r: VertexIndex)
        ensures
            r == self@.index(),
    {
        match self {
            Vertex::Root { index, .. } => *index,
            Vertex::Internal { index, .. } => *index,
            Vertex::Leaf { index, .. } => *index,
        }
    }

    /// Whether the vertex has a branch length.
    pub fn has_branch_length(&self) -> (r: bool)
        ensures
            r == self@.branch_length() is Some,
    {
        match self {
            Vertex::Root { branch_length, .. } => branch_length.is_some(),
            Vertex::Internal { branch_length, .. } => branch_length.is_some(),
            Vertex::Leaf { branch_length, .. } => branch_length.is_some(),
        }
    }

    /// The branch length of the vertex, if it has one.
    pub fn branch_length(&self) -> (r: Option<&BranchLength>)
        ensures
            r is Some == self@.branch_length() is Some,
            r matches Some(b) ==> Some(b@) == self@.branch_length(),
    {
        match self {
            Vertex::Root { branch_length, .. } => branch_length.as_ref(),
            Vertex::Internal { branch_length, .. } => branch_length.as_ref(),
            Vertex::Leaf { branch_length, .. } => branch_length.as_ref(),
        }
    }

    /// The label of a leaf; `None` for any other vertex.
    pub fn label(&self) -> (r: Option<&L>)
        ensures
            r is Some == self@ is Leaf,
            r matches Some(l) ==> Some(l@) == self@.label(),
    {
        match self {
            Vertex::Leaf { label, .. } => Some(label),
            _ => None,
        }
    }

    /// Whether the vertex is a leaf.
    pub fn is_leaf(&self) -> (r: bool)
        ensures
            r == self@ is Leaf,
    {
        match self {
            Vertex::Leaf { .. } => true,
            _ => false,
        }
    }

    /// Whether the vertex is an internal vertex.
    pub fn is_internal(&self) -> (r: bool)
        ensures
            r == self@ is Internal,
    {
        match self {
            Vertex::Internal { .. } => true,
            _ => false,
        }
    }

    /// Whether the vertex is the root.
    pub fn is_root(&self) -> (r: bool)
        ensures
            r == self@ is Root,
    {
        match self {
            Vertex::Root { .. } => true,
            _ => false,
        }
    }

    /// The two children of a root or an internal vertex; `None` for a leaf.
    pub fn children(&self) -> (r: Option<(VertexIndex, VertexIndex)>)
        ensures
            r == self@.children(),
    {
        match self {
            Vertex::Root { children, .. } => Some(*children),
            Vertex::Internal { children, .. } => Some(*children),
            Vertex::Leaf { .. } => None,
        }
    }

    /// Sets the parent of an internal vertex or a leaf.
    pub fn set_parent(&mut self, parent: VertexIndex)
        requires
            !(old(self)@ is Root),
        ensures
            final(self)@ == old(self)@.with_parent(parent),
    {
        match self {
            Vertex::Root { .. } => {},
            Vertex::Internal { parent: p, .. } => {
                *p = parent;
            },
            Vertex::Leaf { parent: p, .. } => {
                *p = parent;
            },
        }
    }

    /// The parent of an internal vertex or a leaf, once it is set; `None` for
    /// the root.
    pub fn parent_index(&self) -> (r: Option<VertexIndex>)
        ensures
            r == self@.parent(),
    {
        match self {
            Vertex::Internal { parent, .. } => {
                if *parent == NO_PARENT_SET {
                    None
                } else {
                    Some(*parent)
                }
            },
            Vertex::Leaf { parent, .. } => {
                if *parent == NO_PARENT_SET {
                    None
                } else {
                    Some(*parent)
                }
            },
            Vertex::Root { .. } => None,
        }
    }

    /// Whether the vertex has its parent set. Never so for the root.
    pub fn has_parent(&self) -> (r: bool)
        ensures
            r == self@.parent() is Some,
    {
        self.parent_index().is_some()
    }
}

} // verus!
