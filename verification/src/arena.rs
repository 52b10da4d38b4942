//! The arena of tree nodes that a forest keeps, held in an `indextree`
//! arena, with what `indextree` does to it stated over a model.
//!
//! A node is known by the one-based index of its slot (`usize::from` of its
//! `NodeId`); among live nodes that index picks one node. The model of an
//! arena maps the index of every live node to its data, its parent and its
//! children in order.
use vstd::prelude::*;
use indextree::Arena;
use core::num::NonZeroUsize;

verus! {

#[verifier::external_type_specification]
#[verifier::external_body]
#[verifier::reject_recursive_types(T)]
pub struct ExArena<T>(Arena<T>);

/// A live node of an arena: its data, the index of its parent, and the
/// indices of its children in insertion order.
pub type ArenaNode = (u64, Option<usize>, Seq<usize>);

/// The live nodes of an arena, by index.
pub uninterp spec fn arena_nodes(arena: Arena<u64>) -> Map<usize, ArenaNode>;

/// The node reached from `x` by following `k` parent links.
pub open spec fn ancestor_at(m: Map<usize, ArenaNode>, x: usize, k: nat) -> Option<usize>
    decreases k,
{
    if k == 0 {
        Some(x)
    } else {
        match m[x].1 {
            Some(p) => ancestor_at(m, p, (k - 1) as nat),
            None => None,
        }
    }
}

/// The live nodes of the subtree rooted at `r`: `r` and its descendants.
pub open spec fn subtree(m: Map<usize, ArenaNode>, r: usize) -> Set<usize> {
    Set::new(|x: usize| m.contains_key(x) && exists|k: nat| ancestor_at(m, x, k) == Some(r))
}

/// Whether a node index differs from `n`.
pub open spec fn other_than(n: usize) -> spec_fn(usize) -> bool {
    |c: usize| c != n
}

/// The arena after `n` was unlinked from its parent; its children stay.
pub open spec fn detached(m: Map<usize, ArenaNode>, n: usize) -> Map<usize, ArenaNode> {
    match m[n].1 {
        Some(p) => m.insert(p, (m[p].0, m[p].1, m[p].2.filter(other_than(n)))).insert(
            n,
            (m[n].0, None, m[n].2),
        ),
        None => m,
    }
}

/// The arena after `c` was appended as the last child of `p`.
pub open spec fn appended(m: Map<usize, ArenaNode>, p: usize, c: usize) -> Map<usize, ArenaNode> {
    m.insert(p, (m[p].0, m[p].1, m[p].2.push(c))).insert(c, (m[c].0, Some(p), m[c].2))
}

/// The arena after the subtree rooted at `r` was removed.
pub open spec fn removed_subtree(m: Map<usize, ArenaNode>, r: usize) -> Map<usize, ArenaNode> {
    detached(m, r).remove_keys(subtree(m, r))
}

/// `Arena::new`: the new arena holds no node.
#[verifier::external_body]
pub(crate) fn arena_new() -> (r: Arena<u64>)
    ensures
        arena_nodes(r).dom() == Set::<usize>::empty(),
{
    Arena::new()
}

/// `Arena::new_node`: the data goes into a slot that holds no live node, as
/// a node without parent and children, and the index of that slot is
/// returned. The other nodes do not change. (`new_node` panics only when the
/// arena already has `usize::MAX` slots, which its `Vec` of nodes, each
/// larger than a byte, cannot reach.)
#[verifier::external_body]
pub(crate) fn arena_new_node(arena: &mut Arena<u64>, data: u64) -> (r: usize)
    ensures
        !arena_nodes(*old(arena)).contains_key(r),
        arena_nodes(*final(arena)) == arena_nodes(*old(arena)).insert(
            r,
            (data, None, Seq::<usize>::empty()),
        ),
{
    usize::from(arena.new_node(data))
}

/// `NodeId::append`: `child` becomes the last child of `parent`. It is
/// called here only on a `child` without parent and children, which can
/// be no ancestor of `parent`, so it does not panic.
#[verifier::external_body]
pub(crate) fn arena_append(arena: &mut Arena<u64>, parent: usize, child: usize)
    requires
        arena_nodes(*old(arena)).contains_key(parent),
        arena_nodes(*old(arena)).contains_key(child),
        parent != child,
        arena_nodes(*old(arena))[child].1 is None,
        arena_nodes(*old(arena))[child].2.len() == 0,
    ensures
        arena_nodes(*final(arena)) == appended(arena_nodes(*old(arena)), parent, child),
{
    let p = arena.get_node_id_at(NonZeroUsize::new(parent).unwrap()).unwrap();
    let c = arena.get_node_id_at(NonZeroUsize::new(child).unwrap()).unwrap();
    p.append(c, arena);
}

/// `NodeId::detach`: `node` is unlinked from its parent and siblings; its
/// children stay.
#[verifier::external_body]
pub(crate) fn arena_detach(arena: &mut Arena<u64>, node: usize)
    requires
        arena_nodes(*old(arena)).contains_key(node),
    ensures
        arena_nodes(*final(arena)) == detached(arena_nodes(*old(arena)), node),
{
    let n = arena.get_node_id_at(NonZeroUsize::new(node).unwrap()).unwrap();
    n.detach(arena);
}

/// `NodeId::remove_subtree`: `node` is unlinked from its parent, and it and
/// all its descendants are removed.
#[verifier::external_body]
pub(crate) fn arena_remove_subtree(arena: &mut Arena<u64>, node: usize)
    requires
        arena_nodes(*old(arena)).contains_key(node),
    ensures
        arena_nodes(*final(arena)) == removed_subtree(arena_nodes(*old(arena)), node),
{
    let n = arena.get_node_id_at(NonZeroUsize::new(node).unwrap()).unwrap();
    n.remove_subtree(arena);
}

/// `NodeId::traverse`: the edges of a walk of the subtree rooted at `node`,
/// each as `(true, index)` for a start edge and `(false, index)` for an end
/// edge. Every edge names a node of the subtree and every node of the
/// subtree has a start edge. The depth-first pre-order in which
/// `indextree` yields the edges, and that each node has exactly one start
/// and one end edge, is not stated.
#[verifier::external_body]
pub(crate) fn arena_traverse(arena: &Arena<u64>, node: usize) -> (r: Vec<(bool, usize)>)
    requires
        arena_nodes(*arena).contains_key(node),
    ensures
        forall|i: int|
            0 <= i < r.len() ==> #[trigger] subtree(arena_nodes(*arena), node).contains(r@[i].1),
        forall|x: usize|
            #[trigger] subtree(arena_nodes(*arena), node).contains(x) ==> exists|i: int|
                0 <= i < r.len() && r@[i] == (true, x),
{
    let n = arena.get_node_id_at(NonZeroUsize::new(node).unwrap()).unwrap();
    let mut edges = Vec::new();
    for edge in n.traverse(arena) {
        match edge {
            indextree::NodeEdge::Start(id) => edges.push((true, usize::from(id))),
            indextree::NodeEdge::End(id) => edges.push((false, usize::from(id))),
        }
    }
    edges
}

/// `Arena::get_data`: the data of a live node.
#[verifier::external_body]
pub(crate) fn arena_get_data(arena: &Arena<u64>, node: usize) -> (r: Option<u64>)
    requires
        arena_nodes(*arena).contains_key(node),
    ensures
        r == Some(arena_nodes(*arena)[node].0),
{
    let n = arena.get_node_id_at(NonZeroUsize::new(node).unwrap()).unwrap();
    arena.get_data(n).copied()
}

} // verus!
