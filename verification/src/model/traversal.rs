//! Walks over a tree: children before their parent, or parents before their
//! children. Both keep their own stack and change nothing.

use vstd::prelude::*;
use crate::model::tree::GenTree;
use crate::model::tree::NO_ROOT_SET_INDEX;
use crate::model::tree::TreeModel;
use crate::model::tree::arena_ordered;
use crate::model::vertex::VertexIndex;
use crate::model::vertex::VertexModel;

verus! {

/// The vertices below and at `v`, children before their parent, the first
/// child before the second.
pub open spec fn post_order_of<LV>(vs: Seq<VertexModel<LV>>, v: int) -> Seq<usize>
    decreases v,
{
    if 0 <= v < vs.len() {
        match vs[v].children() {
            Some(c) => if c.0 < v && c.1 < v {
                post_order_of(vs, c.0 as int) + post_order_of(vs, c.1 as int) + seq![v as usize]
            } else {
                seq![v as usize]
            },
            None => seq![v as usize],
        }
    } else {
        Seq::empty()
    }
}

/// The vertices at and below `v`, parents before their children, the first
/// child before the second.
pub open spec fn pre_order_of<LV>(vs: Seq<VertexModel<LV>>, v: int) -> Seq<usize>
    decreases v,
{
    if 0 <= v < vs.len() {
        match vs[v].children() {
            Some(c) => if c.0 < v && c.1 < v {
                seq![v as usize] + pre_order_of(vs, c.0 as int) + pre_order_of(vs, c.1 as int)
            } else {
                seq![v as usize]
            },
            None => seq![v as usize],
        }
    } else {
        Seq::empty()
    }
}

/// The walk over the whole tree, children first; empty without a root.
pub open spec fn post_order<LV>(tree: TreeModel<LV>) -> Seq<usize> {
    if tree.root_index == NO_ROOT_SET_INDEX {
        Seq::empty()
    } else {
        post_order_of(tree.vertices, tree.root_index as int)
    }
}

/// The walk over the whole tree, parents first; empty without a root.
pub open spec fn pre_order<LV>(tree: TreeModel<LV>) -> Seq<usize> {
    if tree.root_index == NO_ROOT_SET_INDEX {
        Seq::empty()
    } else {
        pre_order_of(tree.vertices, tree.root_index as int)
    }
}

/// What a stack of the walk with children first still has to yield: from the
/// top down, a vertex itself where its children are done, else all below and
/// at it.
pub open spec fn pending_post<LV>(vs: Seq<VertexModel<LV>>, stack: Seq<(usize, bool)>) -> Seq<
    usize,
>
    decreases stack.len(),
{
    if stack.len() == 0 {
        Seq::empty()
    } else {
        (if stack.last().1 {
            seq![stack.last().0]
        } else {
            post_order_of(vs, stack.last().0 as int)
        }) + pending_post(vs, stack.drop_last())
    }
}

/// How much work a stack of the walk with children first stands for.
pub open spec fn weight_post<LV>(vs: Seq<VertexModel<LV>>, stack: Seq<(usize, bool)>) -> nat
    decreases stack.len(),
{
    if stack.len() == 0 {
        0
    } else {
        (if stack.last().1 {
            1nat
        } else {
            2 * post_order_of(vs, stack.last().0 as int).len()
        }) + weight_post(vs, stack.drop_last())
    }
}

/// What a stack of the walk with parents first still has to yield.
pub open spec fn pending_pre<LV>(vs: Seq<VertexModel<LV>>, stack: Seq<usize>) -> Seq<usize>
    decreases stack.len(),
{
    if stack.len() == 0 {
        Seq::empty()
    } else {
        pre_order_of(vs, stack.last() as int) + pending_pre(vs, stack.drop_last())
    }
}

/// How much work a stack of the walk with parents first stands for.
pub open spec fn weight_pre<LV>(vs: Seq<VertexModel<LV>>, stack: Seq<usize>) -> nat
    decreases stack.len(),
{
    if stack.len() == 0 {
        0
    } else {
        pre_order_of(vs, stack.last() as int).len() + weight_pre(vs, stack.drop_last())
    }
}

/// A walk from a vertex of the arena yields that vertex at least.
pub proof fn lemma_walk_not_empty<LV>(vs: Seq<VertexModel<LV>>, v: int)
    requires
        0 <= v < vs.len(),
    ensures
        post_order_of(vs, v).len() >= 1,
        pre_order_of(vs, v).len() >= 1,
{
}

/// What pushing an entry does to a stack of the walk with children first.
pub proof fn lemma_push_post<LV>(
    vs: Seq<VertexModel<LV>>,
    stack: Seq<(usize, bool)>,
    entry: (usize, bool),
)
    ensures
        pending_post(vs, stack.push(entry)) == (if entry.1 {
            seq![entry.0]
        } else {
            post_order_of(vs, entry.0 as int)
        }) + pending_post(vs, stack),
        weight_post(vs, stack.push(entry)) == (if entry.1 {
            1nat
        } else {
            2 * post_order_of(vs, entry.0 as int).len()
        }) + weight_post(vs, stack),
{
    assert(stack.push(entry).drop_last() =~= stack);
}

/// What pushing a vertex does to a stack of the walk with parents first.
pub proof fn lemma_push_pre<LV>(vs: Seq<VertexModel<LV>>, stack: Seq<usize>, v: usize)
    ensures
        pending_pre(vs, stack.push(v)) == pre_order_of(vs, v as int) + pending_pre(vs, stack),
        weight_pre(vs, stack.push(v)) == pre_order_of(vs, v as int).len() + weight_pre(vs, stack),
{
    assert(stack.push(v).drop_last() =~= stack);
}

impl<L: View> GenTree<L> {
    /// The positions of the vertices, children before their parent. Each
    /// call walks the tree anew from its root.
    pub fn post_order_iter(&self) -> (r: Vec<VertexIndex>)
        requires
            self@.wf(),
        ensures
            r@ == post_order(self@),
    {
        let mut out: Vec<VertexIndex> = Vec::new();
        let mut stack: Vec<(VertexIndex, bool)> = Vec::new();
        if !self.is_root_set() {
            return out;
        }
        let ghost vs = self@.vertices;
        let root: usize = self.root_index();
        stack.push((root, false));
        proof {
            lemma_push_post(vs, Seq::<(usize, bool)>::empty(), (root, false));
            assert(stack@ =~= Seq::<(usize, bool)>::empty().push((root, false)));
            assert(out@ + pending_post(vs, stack@) =~= post_order_of(vs, root as int));
        }
        while stack.len() > 0
            invariant
                vs == self@.vertices,
                arena_ordered(vs),
                forall|k: int| 0 <= k < stack@.len() ==> (#[trigger] stack@[k]).0 < vs.len(),
                out@ + pending_post(vs, stack@) == post_order_of(vs, root as int),
            decreases weight_post(vs, stack@),
        {
            let ghost before = stack@;
            let (index, children_visited) = stack.pop().unwrap();
            let ghost rest = stack@;
            assert(rest =~= before.drop_last());
            proof {
                lemma_walk_not_empty(vs, index as int);
                assert(before =~= rest.push((index, children_visited)));
                lemma_push_post(vs, rest, (index, children_visited));
            }
            let vertex = self.vertex(index);
            let children = vertex.children();
            if children_visited || children.is_none() {
                out.push(index);
                proof {
                    assert(out@ + pending_post(vs, rest) =~= post_order_of(vs, root as int));
                }
            } else {
                let (left, right) = children.unwrap();
                stack.push((index, true));
                let ghost one = stack@;
                stack.push((right, false));
                let ghost two = stack@;
                stack.push((left, false));
                proof {
                    lemma_push_post(vs, rest, (index, true));
                    lemma_push_post(vs, one, (right, false));
                    lemma_push_post(vs, two, (left, false));
                    lemma_walk_not_empty(vs, left as int);
                    lemma_walk_not_empty(vs, right as int);
                    assert(pending_post(vs, stack@) =~= post_order_of(vs, index as int)
                        + pending_post(vs, rest));
                    assert(out@ + pending_post(vs, stack@) =~= post_order_of(vs, root as int));
                    assert(post_order_of(vs, index as int).len() == post_order_of(
                        vs,
                        left as int,
                    ).len() + post_order_of(vs, right as int).len() + 1);
                    assert(weight_post(vs, stack@) < weight_post(vs, before));
                }
            }
        }
        proof {
            assert(out@ + Seq::<usize>::empty() =~= out@);
        }
        out
    }

    /// The positions of the vertices, parents before their children. Each
    /// call walks the tree anew from its root.
    pub fn pre_order_iter(&self) -> (r: Vec<VertexIndex>)
        requires
            self@.wf(),
        ensures
            r@ == pre_order(self@),
    {
        let mut out: Vec<VertexIndex> = Vec::new();
        let mut stack: Vec<VertexIndex> = Vec::new();
        if !self.is_root_set() {
            return out;
        }
        let ghost vs = self@.vertices;
        let root: usize = self.root_index();
        stack.push(root);
        proof {
            lemma_push_pre(vs, Seq::<usize>::empty(), root);
            assert(stack@ =~= Seq::<usize>::empty().push(root));
            assert(out@ + pending_pre(vs, stack@) =~= pre_order_of(vs, root as int));
        }
        while stack.len() > 0
            invariant
                vs == self@.vertices,
                arena_ordered(vs),
                forall|k: int| 0 <= k < stack@.len() ==> #[trigger] stack@[k] < vs.len(),
                out@ + pending_pre(vs, stack@) == pre_order_of(vs, root as int),
            decreases weight_pre(vs, stack@),
        {
            let ghost before = stack@;
            let index: usize = stack.pop().unwrap();
            let ghost rest = stack@;
            assert(rest =~= before.drop_last());
            proof {
                lemma_walk_not_empty(vs, index as int);
                assert(before =~= rest.push(index));
                lemma_push_pre(vs, rest, index);
            }
            let vertex = self.vertex(index);
            out.push(index);
            match vertex.children() {
                Some((left, right)) => {
                    stack.push(right);
                    let ghost one = stack@;
                    stack.push(left);
                    proof {
                        lemma_push_pre(vs, rest, right);
                        lemma_push_pre(vs, one, left);
                        lemma_walk_not_empty(vs, left as int);
                        lemma_walk_not_empty(vs, right as int);
                        assert(pre_order_of(vs, index as int) =~= seq![index] + pre_order_of(
                            vs,
                            left as int,
                        ) + pre_order_of(vs, right as int));
                        assert(out@ + pending_pre(vs, stack@) =~= pre_order_of(vs, root as int));
                        assert(weight_pre(vs, stack@) < weight_pre(vs, before));
                    }
                },
                None => {
                    proof {
                        assert(out@ + pending_pre(vs, rest) =~= pre_order_of(vs, root as int));
                    }
                },
            }
        }
        proof {
            assert(out@ + Seq::<usize>::empty() =~= out@);
        }
        out
    }
}

} // verus!
