//! The shape of an arena that is filled bottom up: every finished subtree
//! lies in a range of its own, with its top vertex last.

use vstd::prelude::*;
use crate::model::tree::TreeModel;
use crate::model::tree::internals_in;
use crate::model::tree::leaves_in;
use crate::model::tree::lemma_counts_bounded;
use crate::model::tree::roots_in;
use crate::model::tree::structure_ok;
use crate::model::tree::vertex_ok;
use crate::model::vertex::VertexModel;

verus! {

/// The checks on the vertex at position `i` of a subtree that fills the
/// range from `lo` to `hi`: it carries its own position and is no root, its
/// children lie in the range before it and name it as their parent, and
/// unless it is the last of the range its parent lies in the range behind it
/// and names it as a child.
pub open spec fn inner_ok<LV>(vs: Seq<VertexModel<LV>>, lo: int, hi: int, i: int) -> bool {
    &&& vs[i].index() == i
    &&& !(vs[i] is Root)
    &&& vs[i].children() matches Some(c) ==> {
        &&& lo <= c.0 < i
        &&& lo <= c.1 < i
        &&& vs[c.0 as int].parent() == Some(i as usize)
        &&& vs[c.1 as int].parent() == Some(i as usize)
    }
    &&& i < hi - 1 ==> {
        &&& vs[i].parent() matches Some(p)
        &&& i < p < hi
        &&& vs[p as int].children() matches Some(c)
        &&& (c.0 == i || c.1 == i)
    }
}

/// Whether the vertices from `lo` to `hi` are one finished subtree: its top
/// vertex is the last of the range and waits for its parent, every vertex
/// passes `inner_ok`, and the range holds one leaf more than internal
/// vertices.
pub open spec fn subtree_ok<LV>(vs: Seq<VertexModel<LV>>, lo: int, hi: int) -> bool {
    &&& 0 <= lo < hi <= vs.len()
    &&& hi <= usize::MAX
    &&& vs[hi - 1].is_orphan()
    &&& forall|i: int| lo <= i < hi ==> #[trigger] inner_ok(vs, lo, hi, i)
    &&& leaves_in(vs, hi) - leaves_in(vs, lo) == internals_in(vs, hi) - internals_in(vs, lo) + 1
    &&& roots_in(vs, hi) == roots_in(vs, lo)
}

/// Whether `before` is the start of `after`.
pub open spec fn extends<LV>(after: Seq<VertexModel<LV>>, before: Seq<VertexModel<LV>>) -> bool {
    &&& before.len() <= after.len()
    &&& forall|i: int| 0 <= i < before.len() ==> #[trigger] after[i] == before[i]
}

/// Counts over a common start agree.
pub proof fn lemma_counts_agree<LV>(a: Seq<VertexModel<LV>>, b: Seq<VertexModel<LV>>, n: int)
    requires
        0 <= n <= a.len(),
        n <= b.len(),
        forall|i: int|
            0 <= i < n ==> ((#[trigger] a[i]) is Leaf == b[i] is Leaf) && (a[i] is Internal
                == b[i] is Internal) && (a[i] is Root == b[i] is Root),
    ensures
        leaves_in(a, n) == leaves_in(b, n),
        internals_in(a, n) == internals_in(b, n),
        roots_in(a, n) == roots_in(b, n),
    decreases n,
{
    if n > 0 {
        lemma_counts_agree(a, b, n - 1);
    }
}

/// A finished subtree stays one when vertices are added behind it.
pub proof fn lemma_subtree_kept<LV>(
    before: Seq<VertexModel<LV>>,
    after: Seq<VertexModel<LV>>,
    lo: int,
    hi: int,
)
    requires
        subtree_ok(before, lo, hi),
        hi <= after.len(),
        forall|i: int| 0 <= i < hi ==> #[trigger] after[i] == before[i],
    ensures
        subtree_ok(after, lo, hi),
{
    lemma_counts_agree(before, after, hi);
    lemma_counts_agree(before, after, lo);
    assert forall|i: int| lo <= i < hi implies #[trigger] inner_ok(after, lo, hi, i) by {
        assert(inner_ok(before, lo, hi, i));
    }
}

/// Adding a leaf keeps the arena ordered.
pub proof fn lemma_leaf_wf<LV>(t: TreeModel<LV>, length: Option<Seq<char>>, label: LV)
    requires
        t.wf(),
        t.vertices.len() < usize::MAX,
    ensures
        t.add_leaf(length, label).wf(),
        extends(t.add_leaf(length, label).vertices, t.vertices),
{
    let n = t.add_leaf(length, label);
    assert forall|i: int| 0 <= i < n.vertices.len() implies (#[trigger] n.vertices[i]).index() == i
        && (n.vertices[i].children() matches Some(c) ==> c.0 < i && c.1 < i) by {
        if i < t.vertices.len() {
            assert(n.vertices[i] == t.vertices[i]);
        }
    }
}

/// A leaf added at the end of the arena is a finished subtree.
pub proof fn lemma_leaf_subtree<LV>(t: TreeModel<LV>, length: Option<Seq<char>>, label: LV)
    requires
        t.vertices.len() < usize::MAX,
    ensures
        subtree_ok(
            t.add_leaf(length, label).vertices,
            t.vertices.len() as int,
            t.vertices.len() as int + 1,
        ),
{
    let n = t.add_leaf(length, label).vertices;
    let lo = t.vertices.len() as int;
    lemma_counts_agree(t.vertices, n, lo);
    assert(inner_ok(n, lo, lo + 1, lo));
}

/// Giving two vertices a parent keeps every vertex of its kind, with its
/// position and its children.
pub proof fn lemma_adopt<LV>(t: TreeModel<LV>, children: (usize, usize))
    requires
        t.adoptable(children),
    ensures
        t.adopt(children).len() == t.vertices.len(),
        forall|i: int|
            0 <= i < t.vertices.len() ==> {
                &&& (#[trigger] t.adopt(children)[i]) == (if i == children.0 || i == children.1 {
                    t.vertices[i].with_parent(t.vertices.len() as usize)
                } else {
                    t.vertices[i]
                })
                &&& t.adopt(children)[i].index() == t.vertices[i].index()
                &&& t.adopt(children)[i].children() == t.vertices[i].children()
                &&& t.adopt(children)[i] is Leaf == t.vertices[i] is Leaf
                &&& t.adopt(children)[i] is Internal == t.vertices[i] is Internal
                &&& t.adopt(children)[i] is Root == t.vertices[i] is Root
            },
{
}

/// Adding an internal vertex or a root keeps the arena ordered.
pub proof fn lemma_parent_wf<LV>(t: TreeModel<LV>, children: (usize, usize), length: Option<Seq<char>>)
    requires
        t.wf(),
        t.adoptable(children),
        t.vertices.len() < usize::MAX,
    ensures
        t.add_internal(children, length).wf(),
        t.add_root(children, length).wf(),
{
    lemma_adopt(t, children);
    let a = t.add_internal(children, length);
    assert forall|i: int| 0 <= i < a.vertices.len() implies (#[trigger] a.vertices[i]).index() == i
        && (a.vertices[i].children() matches Some(c) ==> c.0 < i && c.1 < i) by {
        if i < t.vertices.len() {
            assert(a.vertices[i] == t.adopt(children)[i]);
        }
    }
    let r = t.add_root(children, length);
    assert forall|i: int| 0 <= i < r.vertices.len() implies (#[trigger] r.vertices[i]).index() == i
        && (r.vertices[i].children() matches Some(c) ==> c.0 < i && c.1 < i) by {
        if i < t.vertices.len() {
            assert(r.vertices[i] == t.adopt(children)[i]);
        }
    }
}

/// The top vertices of two finished subtrees that lie side by side at the end
/// of the arena may be given a parent.
pub proof fn lemma_tops_adoptable<LV>(t: TreeModel<LV>, lo: int, mid: int)
    requires
        subtree_ok(t.vertices, lo, mid),
        subtree_ok(t.vertices, mid, t.vertices.len() as int),
    ensures
        t.adoptable(((mid - 1) as usize, (t.vertices.len() - 1) as usize)),
{
    assert(inner_ok(t.vertices, lo, mid, mid - 1));
    assert(inner_ok(t.vertices, mid, t.vertices.len() as int, t.vertices.len() - 1));
}

/// Two finished subtrees that lie side by side at the end of the arena become
/// one when an internal vertex is added over their top vertices.
pub proof fn lemma_join<LV>(
    t: TreeModel<LV>,
    lo: int,
    mid: int,
    length: Option<Seq<char>>,
)
    requires
        subtree_ok(t.vertices, lo, mid),
        subtree_ok(t.vertices, mid, t.vertices.len() as int),
        t.vertices.len() < usize::MAX,
    ensures
        t.adoptable(((mid - 1) as usize, (t.vertices.len() - 1) as usize)),
        subtree_ok(
            t.add_internal(((mid - 1) as usize, (t.vertices.len() - 1) as usize), length).vertices,
            lo,
            t.vertices.len() as int + 1,
        ),
        forall|i: int|
            0 <= i < lo ==> #[trigger] t.add_internal(
                ((mid - 1) as usize, (t.vertices.len() - 1) as usize),
                length,
            ).vertices[i] == t.vertices[i],
{
    let vs = t.vertices;
    let hi = vs.len() as int;
    let children = ((mid - 1) as usize, (hi - 1) as usize);
    assert(inner_ok(vs, lo, mid, mid - 1));
    assert(inner_ok(vs, mid, hi, hi - 1));
    lemma_adopt(t, children);
    let n = t.add_internal(children, length).vertices;
    lemma_counts_agree(vs, n, hi);
    lemma_counts_agree(vs, n, lo);
    assert forall|i: int| lo <= i < hi + 1 implies #[trigger] inner_ok(n, lo, hi + 1, i) by {
        if i < mid {
            assert(inner_ok(vs, lo, mid, i));
            if i < mid - 1 {
                let p = vs[i].parent()->0;
                assert(inner_ok(vs, lo, mid, p as int));
            }
            if vs[i].children() is Some {
                let c = vs[i].children()->0;
                assert(inner_ok(vs, lo, mid, c.0 as int));
                assert(inner_ok(vs, lo, mid, c.1 as int));
            }
        } else if i < hi {
            assert(inner_ok(vs, mid, hi, i));
            if i < hi - 1 {
                let p = vs[i].parent()->0;
                assert(inner_ok(vs, mid, hi, p as int));
            }
            if vs[i].children() is Some {
                let c = vs[i].children()->0;
                assert(inner_ok(vs, mid, hi, c.0 as int));
                assert(inner_ok(vs, mid, hi, c.1 as int));
            }
        }
    }
}

/// Two finished subtrees that fill the arena become a tree when the root is
/// added over their top vertices: every link is answered, the root is the
/// only one, and the arena holds one vertex less than twice its leaves.
pub proof fn lemma_root<LV>(t: TreeModel<LV>, mid: int, length: Option<Seq<char>>)
    requires
        subtree_ok(t.vertices, 0, mid),
        subtree_ok(t.vertices, mid, t.vertices.len() as int),
        t.vertices.len() < usize::MAX,
    ensures
        t.adoptable(((mid - 1) as usize, (t.vertices.len() - 1) as usize)),
        ({
            let done = t.add_root(((mid - 1) as usize, (t.vertices.len() - 1) as usize), length);
            &&& structure_ok(done.vertices, done.root_index)
            &&& done.vertices.len() == 2 * leaves_in(done.vertices, done.vertices.len() as int) - 1
            &&& roots_in(done.vertices, done.vertices.len() as int) == 1
        }),
{
    let vs = t.vertices;
    let hi = vs.len() as int;
    let children = ((mid - 1) as usize, (hi - 1) as usize);
    assert(inner_ok(vs, 0, mid, mid - 1));
    assert(inner_ok(vs, mid, hi, hi - 1));
    lemma_adopt(t, children);
    let done = t.add_root(children, length);
    let n = done.vertices;
    lemma_counts_agree(vs, n, hi);
    lemma_counts_bounded(n, hi + 1);
    assert(roots_in(vs, 0) == 0);
    assert(leaves_in(vs, 0) == 0);
    assert(internals_in(vs, 0) == 0);
    assert forall|i: int| 0 <= i < n.len() implies #[trigger] vertex_ok(n, i) by {
        if i < mid {
            assert(inner_ok(vs, 0, mid, i));
            if i < mid - 1 {
                let p = vs[i].parent()->0;
                assert(inner_ok(vs, 0, mid, p as int));
            }
            if vs[i].children() is Some {
                let c = vs[i].children()->0;
                assert(inner_ok(vs, 0, mid, c.0 as int));
                assert(inner_ok(vs, 0, mid, c.1 as int));
            }
        } else if i < hi {
            assert(inner_ok(vs, mid, hi, i));
            if i < hi - 1 {
                let p = vs[i].parent()->0;
                assert(inner_ok(vs, mid, hi, p as int));
            }
            if vs[i].children() is Some {
                let c = vs[i].children()->0;
                assert(inner_ok(vs, mid, hi, c.0 as int));
                assert(inner_ok(vs, mid, hi, c.1 as int));
            }
        }
    }
    assert forall|i: int| 0 <= i < n.len() && #[trigger] n[i] is Root implies i
        == done.root_index by {
        if i < mid {
            assert(inner_ok(vs, 0, mid, i));
        } else if i < hi {
            assert(inner_ok(vs, mid, hi, i));
        }
    }
}

/// Whether `tree` is what reading a tree leaves: an ordered arena in which
/// every link is answered, with one root, and with one vertex less than
/// twice its leaves.
pub open spec fn well_built<LV>(tree: TreeModel<LV>) -> bool {
    &&& tree.wf()
    &&& structure_ok(tree.vertices, tree.root_index)
    &&& tree.vertices.len() == 2 * leaves_in(tree.vertices, tree.vertices.len() as int) - 1
    &&& roots_in(tree.vertices, tree.vertices.len() as int) == 1
}

} // verus!
