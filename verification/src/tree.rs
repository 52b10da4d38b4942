//! A forest of widget trees: one main root, at most one pending root and
//! any number of detached roots, all kept in one `indextree` arena, with a
//! map from each widget id to the arena node that holds it.
use vstd::prelude::*;
use std::collections::HashMap;
use indextree::Arena;
use crate::arena::{
    ArenaNode, appended, arena_append, arena_detach, arena_get_data, arena_new, arena_new_node,
    arena_nodes, arena_remove_subtree, arena_traverse, detached, removed_subtree, subtree,
    ancestor_at, other_than,
};

verus! {

broadcast use vstd::std_specs::hash::group_hash_axioms;

/// A contract requires to retrieve some `T` from a type.
pub trait Get<T> {
    /// Retrieves a `T` value from a type.
    fn get(&self) -> T;
}

/// A contract requires to retrieve some `T` from a type if exists,
/// otherwise none.
pub trait GetCarefully<T> {
    /// Retrieves a `Option<&T>` value from a type.
    fn get_carefully(&self) -> Option<&T>;
}

/// Every child names its parent back.
pub open spec fn children_point_back(m: Map<usize, ArenaNode>) -> bool {
    forall|n: usize, i: int|
        #![trigger m[n].2[i]]
        m.contains_key(n) && 0 <= i < m[n].2.len() ==> m.contains_key(m[n].2[i]) && m[m[n].2[i]].1
            == Some(n)
}

/// Every parent is live, lists its child, and is not the child itself.
pub open spec fn parents_list_children(m: Map<usize, ArenaNode>) -> bool {
    forall|n: usize|
        #![trigger m[n].1]
        m.contains_key(n) && m[n].1 is Some ==> m.contains_key(m[n].1->0) && m[m[n].1->0].2.contains(
            n,
        ) && m[n].1->0 != n
}

/// No child is listed twice.
pub open spec fn children_distinct(m: Map<usize, ArenaNode>) -> bool {
    forall|n: usize| #[trigger] m.contains_key(n) ==> m[n].2.no_duplicates()
}

/// No live node is its own proper ancestor.
pub open spec fn acyclic(m: Map<usize, ArenaNode>) -> bool {
    forall|x: usize, k: nat|
        #![trigger ancestor_at(m, x, k)]
        m.contains_key(x) && k > 0 ==> ancestor_at(m, x, k) != Some(x)
}

/// The arena is well formed: children and parents name each other, no
/// child is listed twice, and the parent links have no cycle.
pub open spec fn tree_wf(m: Map<usize, ArenaNode>) -> bool {
    &&& children_point_back(m)
    &&& parents_list_children(m)
    &&& children_distinct(m)
    &&& acyclic(m)
}

/// Every id of the index names a live node that holds that id.
pub open spec fn index_wf(m: Map<usize, ArenaNode>, index: Map<u64, usize>) -> bool {
    forall|k: u64|
        #[trigger] index.contains_key(k) ==> m.contains_key(index[k]) && m[index[k]].0 == k
}

/// The ids held by the given nodes.
pub open spec fn ids_of(m: Map<usize, ArenaNode>, s: Set<usize>) -> Set<u64> {
    s.map(|x: usize| m[x].0)
}

/// A forest of trees of nodes stored in an arena.
///
/// It allows fast use, retrieve, change and delete nodes within the same
/// forest. A forest has a single main root, and each operation where a root
/// is not mentioned applies to the main root.
///
/// A node is known by its widget id; the arena node holds that id, and the
/// index maps each id to its arena node.
pub struct Forest {
    arena: Arena<u64>,
    main_root: u64,
    pending_root: Option<u64>,
    detached_roots: Vec<u64>,
    id_to_node: HashMap<u64, usize>,
}

impl Forest {
    /// The live nodes of the arena, by index.
    pub closed spec fn nodes(&self) -> Map<usize, ArenaNode> {
        arena_nodes(self.arena)
    }

    /// The arena node of each known id.
    pub closed spec fn index(&self) -> Map<u64, usize> {
        self.id_to_node@
    }

    pub closed spec fn main_root(&self) -> u64 {
        self.main_root
    }

    pub closed spec fn pending_root(&self) -> Option<u64> {
        self.pending_root
    }

    pub closed spec fn detached_roots(&self) -> Seq<u64> {
        self.detached_roots@
    }

    /// Whether `id` is one of the roots: the main root, the pending root or
    /// a detached root.
    pub open spec fn is_root_id(&self, id: u64) -> bool {
        self.main_root() == id || self.pending_root() == Some(id) || self.detached_roots().contains(
            id,
        )
    }

    /// The forest is well formed.
    pub open spec fn wf(&self) -> bool {
        &&& tree_wf(self.nodes())
        &&& index_wf(self.nodes(), self.index())
        &&& self.detached_roots().no_duplicates()
    }

    /// Creates a new forest with a single main root node.
    pub fn new(root_node: u64) -> (r: Self)
        ensures
            r.wf(),
            r.main_root() == root_node,
            r.pending_root() is None,
            r.detached_roots() == Seq::<u64>::empty(),
            r.index().dom() == set![root_node],
            r.nodes() == Map::<usize, ArenaNode>::empty().insert(
                r.index()[root_node],
                (root_node, None, Seq::<usize>::empty()),
            ),
    {
        let mut arena = arena_new();
        let root_node_id = arena_new_node(&mut arena, root_node);
        let mut id_to_node: HashMap<u64, usize> = HashMap::new();
        id_to_node.insert(root_node, root_node_id);
        let r = Self {
            arena,
            main_root: root_node,
            pending_root: None,
            detached_roots: Vec::new(),
            id_to_node,
        };
        assert(r.nodes() =~= Map::<usize, ArenaNode>::empty().insert(
            root_node_id,
            (root_node, None, Seq::<usize>::empty()),
        ));
        assert(r.index().dom() =~= set![root_node]);
        r
    }

    /// Creates a new pending root that is not the main root. The pending
    /// tree can be used for a specific merge with the main tree.
    pub fn new_pending_root(&mut self, pending_root_node: u64)
        requires
            old(self).wf(),
        ensures
            final(self).wf(),
            !old(self).nodes().contains_key(final(self).index()[pending_root_node]),
            final(self).nodes() == old(self).nodes().insert(
                final(self).index()[pending_root_node],
                (pending_root_node, None, Seq::<usize>::empty()),
            ),
            final(self).index() == old(self).index().insert(
                pending_root_node,
                final(self).index()[pending_root_node],
            ),
            final(self).pending_root() == Some(pending_root_node),
            final(self).main_root() == old(self).main_root(),
            final(self).detached_roots() == old(self).detached_roots(),
    {
        let pending_root_node_id = arena_new_node(&mut self.arena, pending_root_node);
        self.id_to_node.insert(pending_root_node, pending_root_node_id);
        self.pending_root = Some(pending_root_node);
        assert(self.index() == old(self).index().insert(pending_root_node, pending_root_node_id));
        proof {
            lemma_new_node_keeps_wf(old(self).nodes(), old(self).index(), pending_root_node_id, pending_root_node);
        }
    }

    /// Creates and attaches a node to a specific parent node. Returns
    /// whether the parent is known; nothing changes when it is not.
    pub fn append_node(&mut self, parent: u64, node: u64) -> (r: bool)
        requires
            old(self).wf(),
        ensures
            final(self).wf(),
            r == old(self).index().contains_key(parent),
            r ==> {
                let c = final(self).index()[node];
                &&& !old(self).nodes().contains_key(c)
                &&& final(self).nodes() == appended(
                    old(self).nodes().insert(c, (node, None, Seq::<usize>::empty())),
                    old(self).index()[parent],
                    c,
                )
                &&& final(self).index() == old(self).index().insert(node, c)
            },
            !r ==> final(self).nodes() == old(self).nodes() && final(self).index() == old(
                self,
            ).index(),
            final(self).main_root() == old(self).main_root(),
            final(self).pending_root() == old(self).pending_root(),
            final(self).detached_roots() == old(self).detached_roots(),
    {
        let parent_node_id = match self.id_to_node.get(&parent) {
            Some(id) => *id,
            None => return false,
        };
        let ghost before = self.nodes();
        let child_node_id = arena_new_node(&mut self.arena, node);
        proof {
            lemma_new_node_keeps_wf(before, old(self).index(), child_node_id, node);
        }
        arena_append(&mut self.arena, parent_node_id, child_node_id);
        self.id_to_node.insert(node, child_node_id);
        assert(self.index() == old(self).index().insert(node, child_node_id));
        proof {
            let m1 = before.insert(child_node_id, (node, None, Seq::<usize>::empty()));
            lemma_append_keeps_wf(m1, old(self).index().insert(node, child_node_id), parent_node_id, child_node_id);
        }
        true
    }

    /// Detaches a subtree by a particular node using its id. The subtree
    /// moves to detached trees with its root as the detached root.
    ///
    /// The operation cannot be applied to one of roots: main root, detached
    /// tree roots, pending tree roots. If provided node id is one of root,
    /// this method will silently do nothing; so it does for an unknown id.
    pub fn detach_subtree(&mut self, node_id: u64)
        requires
            old(self).wf(),
        ensures
            final(self).wf(),
            old(self).is_root_id(node_id) || !old(self).index().contains_key(node_id) ==> {
                &&& final(self).nodes() == old(self).nodes()
                &&& final(self).detached_roots() == old(self).detached_roots()
            },
            !old(self).is_root_id(node_id) && old(self).index().contains_key(node_id) ==> {
                &&& final(self).nodes() == detached(old(self).nodes(), old(self).index()[node_id])
                &&& final(self).detached_roots() == old(self).detached_roots().push(node_id)
            },
            final(self).index() == old(self).index(),
            final(self).main_root() == old(self).main_root(),
            final(self).pending_root() == old(self).pending_root(),
    {
        if self.is_root(&node_id) {
            return ;
        }
        let subtree_node_id = match self.id_to_node.get(&node_id) {
            Some(id) => *id,
            None => return ,
        };
        arena_detach(&mut self.arena, subtree_node_id);
        self.detached_roots.push(node_id);
        proof {
            lemma_detach_keeps_wf(old(self).nodes(), old(self).index(), subtree_node_id);
        }
    }

    /// Eventually removes and deletes a subtree by a particular node using
    /// its id. The subtree after this operation won't exist and it cannot be
    /// undone: its nodes leave the arena and their ids leave the index.
    ///
    /// The operation cannot be applied to one of roots: main root, detached
    /// tree roots, pending tree roots. If provided node id is one of root,
    /// this method will silently do nothing; so it does for an unknown id.
    pub fn remove_subtree(&mut self, node_id: u64)
        requires
            old(self).wf(),
        ensures
            final(self).wf(),
            old(self).is_root_id(node_id) || !old(self).index().contains_key(node_id) ==> {
                &&& final(self).nodes() == old(self).nodes()
                &&& final(self).index() == old(self).index()
            },
            !old(self).is_root_id(node_id) && old(self).index().contains_key(node_id) ==> {
                let r = old(self).index()[node_id];
                &&& final(self).nodes() == removed_subtree(old(self).nodes(), r)
                &&& final(self).index() == old(self).index().remove_keys(
                    ids_of(old(self).nodes(), subtree(old(self).nodes(), r)),
                )
            },
            final(self).main_root() == old(self).main_root(),
            final(self).pending_root() == old(self).pending_root(),
            final(self).detached_roots() == old(self).detached_roots(),
    {
        if self.is_root(&node_id) {
            return ;
        }
        let subtree_node_id = match self.id_to_node.get(&node_id) {
            Some(id) => *id,
            None => return ,
        };
        let ghost m = self.nodes();
        let ghost s = subtree(m, subtree_node_id);
        let ghost index0 = self.index();
        let edges = arena_traverse(&self.arena, subtree_node_id);
        let mut i: usize = 0;
        while i < edges.len()
            invariant
                self.nodes() == m,
                self.index_removal_frame(index0, m, edges@, i as int),
                0 <= i <= edges.len(),
                s == subtree(m, subtree_node_id),
                m.contains_key(subtree_node_id),
                forall|j: int| 0 <= j < edges.len() ==> #[trigger] s.contains(edges@[j].1),
                self.main_root() == old(self).main_root(),
                self.pending_root() == old(self).pending_root(),
                self.detached_roots() == old(self).detached_roots(),
            decreases edges.len() - i,
        {
            let ghost prev = self.index();
            let (is_start, node) = edges[i];
            if is_start {
                assert(s.contains(edges@[i as int].1));
                let id = arena_get_data(&self.arena, node).unwrap();
                self.id_to_node.remove(&id);
                assert(self.index() == prev.remove(id));
            }
            proof {
                assert forall|k: u64| #[trigger] self.index().contains_key(k) == (index0.contains_key(k)
                    && !started_id(m, edges@, i + 1, k)) by {
                    lemma_started_step(m, edges@, i as int, k);
                }
            }
            i = i + 1;
        }
        assert(self.index_removal_frame(index0, m, edges@, edges.len() as int));
        let ghost index1 = self.index();
        arena_remove_subtree(&mut self.arena, subtree_node_id);
        assert(self.index() == index1);
        proof {
            assert forall|k: u64| started_id(m, edges@, edges.len() as int, k) == ids_of(m, s).contains(k) by {
                if started_id(m, edges@, edges.len() as int, k) {
                    let j = choose|j: int| 0 <= j < edges.len() && edges@[j].0 && #[trigger] m[edges@[j].1].0 == k;
                    assert(s.contains(edges@[j].1));
                }
                if ids_of(m, s).contains(k) {
                    let x = choose|x: usize| s.contains(x) && m[x].0 == k;
                    let j = choose|j: int| 0 <= j < edges.len() && edges@[j] == (true, x);
                    assert(edges@[j].0 && m[edges@[j].1].0 == k);
                }
            }
            assert(i == edges.len());
            assert(self.index_removal_frame(index0, m, edges@, edges.len() as int));
            assert forall|k: u64| #[trigger] self.index().contains_key(k) == index0.remove_keys(
                ids_of(m, s),
            ).contains_key(k) by {
                assert(self.index().contains_key(k) == (index0.contains_key(k) && !started_id(
                    m,
                    edges@,
                    edges.len() as int,
                    k,
                )));
            }
            assert(self.index() =~= index0.remove_keys(ids_of(m, s)));
            lemma_remove_keeps_wf(m, index0, subtree_node_id);
        }
    }

    /// The index before a removal, less the ids of the nodes whose start
    /// edge is among the first `i` edges.
    closed spec fn index_removal_frame(&self, index0: Map<u64, usize>, m: Map<usize, ArenaNode>, edges: Seq<(bool, usize)>, i: int) -> bool {
        &&& forall|k: u64| #[trigger] self.index().contains_key(k) == (index0.contains_key(k)
            && !started_id(m, edges, i, k))
        &&& forall|k: u64| #[trigger] self.index().contains_key(k) ==> self.index()[k] == index0[k]
    }

    /// Checks whether a node is one of roots.
    fn is_root(&self, node_id: &u64) -> (r: bool)
        ensures
            r == self.is_root_id(*node_id),
    {
        if self.main_root == *node_id {
            return true;
        }
        if let Some(pending_root_id) = &self.pending_root {
            if *pending_root_id == *node_id {
                return true;
            }
        }
        let mut i: usize = 0;
        while i < self.detached_roots.len()
            invariant
                0 <= i <= self.detached_roots.len(),
                forall|j: int| 0 <= j < i ==> self.detached_roots@[j] != *node_id,
            decreases self.detached_roots.len() - i,
        {
            if self.detached_roots[i] == *node_id {
                return true;
            }
            i = i + 1;
        }
        false
    }
}

/// Adding a fresh node without links keeps the forest well formed, and
/// indexing it by its id too.
proof fn lemma_new_node_keeps_wf(m: Map<usize, ArenaNode>, index: Map<u64, usize>, n: usize, id: u64)
    requires
        tree_wf(m),
        index_wf(m, index),
        !m.contains_key(n),
    ensures
        tree_wf(m.insert(n, (id, None, Seq::<usize>::empty()))),
        index_wf(m.insert(n, (id, None, Seq::<usize>::empty())), index),
        index_wf(m.insert(n, (id, None, Seq::<usize>::empty())), index.insert(id, n)),
{
    let m1 = m.insert(n, (id, None, Seq::<usize>::empty()));
    assert forall|x: usize, i: int| m1.contains_key(x) && 0 <= i < m1[x].2.len() implies m1.contains_key(
        #[trigger] m1[x].2[i],
    ) && m1[m1[x].2[i]].1 == Some(x) by {
        assert(x != n);
        assert(m[x].2[i] != n);
    }
    assert forall|x: usize| m1.contains_key(x) && #[trigger] m1[x].1 is Some implies m1.contains_key(
        m1[x].1->0,
    ) && m1[m1[x].1->0].2.contains(x) && m1[x].1->0 != x by {
        assert(x != n);
    }
    lemma_acyclic_back(m1, m);
}

/// Appending a node without links under a live parent keeps the forest
/// well formed.
proof fn lemma_append_keeps_wf(m: Map<usize, ArenaNode>, index: Map<u64, usize>, p: usize, c: usize)
    requires
        tree_wf(m),
        index_wf(m, index),
        m.contains_key(p),
        m.contains_key(c),
        p != c,
        m[c].1 is None,
        m[c].2.len() == 0,
    ensures
        tree_wf(appended(m, p, c)),
        index_wf(appended(m, p, c), index),
{
    let m1 = appended(m, p, c);
    assert(!m[p].2.contains(c)) by {
        if m[p].2.contains(c) {
            let i = choose|i: int| 0 <= i < m[p].2.len() && m[p].2[i] == c;
            assert(m[m[p].2[i]].1 == Some(p));
        }
    }
    assert forall|x: usize, i: int| m1.contains_key(x) && 0 <= i < m1[x].2.len() implies m1.contains_key(
        #[trigger] m1[x].2[i],
    ) && m1[m1[x].2[i]].1 == Some(x) by {
        if x == p {
            if i < m[p].2.len() {
                assert(m1[x].2[i] == m[p].2[i]);
                assert(m[p].2[i] != c);
            }
        } else if x == c {
        } else {
            assert(m[x].2[i] != c);
        }
    }
    assert forall|x: usize| m1.contains_key(x) && #[trigger] m1[x].1 is Some implies m1.contains_key(
        m1[x].1->0,
    ) && m1[m1[x].1->0].2.contains(x) && m1[x].1->0 != x by {
        if x == c {
            assert(m1[p].2[m[p].2.len() as int] == c);
        } else {
            let q = m[x].1->0;
            assert(m[q].2.contains(x));
            if q == p {
                let j = choose|j: int| 0 <= j < m[p].2.len() && m[p].2[j] == x;
                assert(m1[p].2[j] == x);
            } else if q == c {
                assert(false);
            }
        }
    }
    assert forall|x: usize| #[trigger] m1.contains_key(x) implies m1[x].2.no_duplicates() by {
        if x == p {
            let s = m[p].2.push(c);
            assert forall|i: int, j: int| 0 <= i < s.len() && 0 <= j < s.len() && i != j implies s[i]
                != s[j] by {
                if i < m[p].2.len() && j < m[p].2.len() {
                } else if i < m[p].2.len() {
                    assert(m[p].2.contains(s[i]));
                } else if j < m[p].2.len() {
                    assert(m[p].2.contains(s[j]));
                }
            }
        }
    }
    assert(parents_list_children(m1));
    assert forall|x: usize, k: nat| m1.contains_key(x) && k > 0 implies #[trigger] ancestor_at(
        m1,
        x,
        k,
    ) != Some(x) by {
        if ancestor_at(m1, x, k) == Some(x) {
            if x == c {
                assert(ancestor_at(m1, p, (k - 1) as nat) == Some(c));
                lemma_subtree_up_k(m1, c, p, (k - 1) as nat);
            } else {
                assert forall|z: usize| z != c implies #[trigger] m1[z].1 == m[z].1 by {}
                lemma_append_chain(m, m1, c, x, k, x);
            }
        }
    }
}

} // verus!

verus! {

/// Whether the id of a node with a start edge among the first `i` edges is `k`.
pub open spec fn started_id(m: Map<usize, ArenaNode>, edges: Seq<(bool, usize)>, i: int, k: u64) -> bool {
    exists|j: int| 0 <= j < i && edges[j].0 && #[trigger] m[edges[j].1].0 == k
}

} // verus!

verus! {

/// The ids started among the first `i + 1` edges are those among the first
/// `i` and the id of edge `i` if it is a start edge.
proof fn lemma_started_step(m: Map<usize, ArenaNode>, edges: Seq<(bool, usize)>, i: int, k: u64)
    requires
        0 <= i < edges.len(),
    ensures
        started_id(m, edges, i + 1, k) == (started_id(m, edges, i, k) || (edges[i].0 && m[edges[i].1].0
            == k)),
{
    if started_id(m, edges, i + 1, k) && !(edges[i].0 && m[edges[i].1].0 == k) {
        let j = choose|j: int| 0 <= j < i + 1 && edges[j].0 && #[trigger] m[edges[j].1].0 == k;
        assert(j != i);
    }
    if edges[i].0 && m[edges[i].1].0 == k {
        assert(0 <= i < i + 1 && edges[i].0 && m[edges[i].1].0 == k);
    }
    if started_id(m, edges, i, k) {
        let j = choose|j: int| 0 <= j < i && edges[j].0 && #[trigger] m[edges[j].1].0 == k;
        assert(0 <= j < i + 1);
    }
}

/// Filtering a sequence without duplicates keeps it without duplicates.
proof fn lemma_filter_no_duplicates(s: Seq<usize>, n: usize)
    requires
        s.no_duplicates(),
    ensures
        s.filter(other_than(n)).no_duplicates(),
    decreases s.len(),
{
    reveal(Seq::filter);
    if s.len() > 0 {
        let t = s.drop_last();
        assert(t.no_duplicates());
        lemma_filter_no_duplicates(t, n);
        let f = t.filter(other_than(n));
        if other_than(n)(s.last()) {
            if f.contains(s.last()) {
                t.lemma_filter_contains_rev(other_than(n), s.last());
                let j = choose|j: int| 0 <= j < t.len() && t[j] == s.last();
                assert(s[j] == s[s.len() - 1]);
            }
            assert(s.filter(other_than(n)) == f.push(s.last()));
            let g = f.push(s.last());
            assert forall|i: int, j: int| 0 <= i < g.len() && 0 <= j < g.len() && i != j implies g[i]
                != g[j] by {
                if i == f.len() {
                    assert(f.contains(g[j]));
                } else if j == f.len() {
                    assert(f.contains(g[i]));
                }
            }
        }
    }
}

/// Unlinking a live node keeps the forest well formed; the live nodes and
/// their data stay.
proof fn lemma_detach_keeps_wf(m: Map<usize, ArenaNode>, index: Map<u64, usize>, n: usize)
    requires
        tree_wf(m),
        index_wf(m, index),
        m.contains_key(n),
    ensures
        tree_wf(detached(m, n)),
        index_wf(detached(m, n), index),
        detached(m, n).dom() == m.dom(),
        forall|x: usize| #[trigger] m.contains_key(x) ==> detached(m, n)[x].0 == m[x].0,
        forall|x: usize| m.contains_key(x) && x != n ==> #[trigger] detached(m, n)[x].1 == m[x].1,
        forall|x: usize| m.contains_key(x) ==> (#[trigger] detached(m, n)[x].2).to_set().subset_of(
            m[x].2.to_set(),
        ),
        detached(m, n)[n].1 is None,
{
    broadcast use vstd::seq_lib::group_seq_properties;
    let m1 = detached(m, n);
    if m[n].1 is Some {
        let p = m[n].1->0;
        let fl = m[p].2.filter(other_than(n));
        assert(p != n);
        assert(m1.dom() =~= m.dom());
        assert forall|x: usize, i: int| m1.contains_key(x) && 0 <= i < m1[x].2.len() implies m1.contains_key(
            #[trigger] m1[x].2[i],
        ) && m1[m1[x].2[i]].1 == Some(x) by {
            if x == p {
                let c = fl[i];
                m[p].2.lemma_filter_pred(other_than(n), i);
                assert(fl.contains(c));
                m[p].2.lemma_filter_contains_rev(other_than(n), c);
                let j = choose|j: int| 0 <= j < m[p].2.len() && m[p].2[j] == c;
                assert(m[m[p].2[j]].1 == Some(p));
            } else {
                let c = m[x].2[i];
                assert(m[c].1 == Some(x));
            }
        }
        assert forall|x: usize| m1.contains_key(x) && #[trigger] m1[x].1 is Some implies m1.contains_key(
            m1[x].1->0,
        ) && m1[m1[x].1->0].2.contains(x) && m1[x].1->0 != x by {
            let q = m[x].1->0;
            assert(m[q].2.contains(x));
            if q == p && x != n {
                let j = choose|j: int| 0 <= j < m[p].2.len() && m[p].2[j] == x;
                m[p].2.lemma_filter_contains(other_than(n), j);
            }
        }
        assert forall|x: usize| #[trigger] m1.contains_key(x) implies m1[x].2.no_duplicates() by {
            if x == p {
                lemma_filter_no_duplicates(m[p].2, n);
            }
        }
        assert forall|x: usize| m.contains_key(x) implies (#[trigger] m1[x].2).to_set().subset_of(
            m[x].2.to_set(),
        ) by {
            if x == p {
                assert forall|c: usize| fl.to_set().contains(c) implies m[p].2.to_set().contains(c) by {
                    m[p].2.lemma_filter_contains_rev(other_than(n), c);
                }
            }
        }
        lemma_acyclic_back(m1, m);
    }
}

/// A node of a subtree other than its root has its parent in the subtree.
proof fn lemma_subtree_parent(m: Map<usize, ArenaNode>, r: usize, x: usize)
    requires
        tree_wf(m),
        subtree(m, r).contains(x),
        x != r,
    ensures
        m[x].1 is Some,
        subtree(m, r).contains(m[x].1->0),
{
    let k = choose|k: nat| ancestor_at(m, x, k) == Some(r);
    assert(k != 0);
    assert(ancestor_at(m, m[x].1->0, (k - 1) as nat) == Some(r));
}

/// The children of a node of a subtree are in the subtree.
proof fn lemma_subtree_child(m: Map<usize, ArenaNode>, r: usize, q: usize, c: usize)
    requires
        tree_wf(m),
        subtree(m, r).contains(q),
        m[q].2.contains(c),
    ensures
        subtree(m, r).contains(c),
{
    let k = choose|k: nat| ancestor_at(m, q, k) == Some(r);
    let i = choose|i: int| 0 <= i < m[q].2.len() && m[q].2[i] == c;
    assert(m[m[q].2[i]].1 == Some(q));
    assert(ancestor_at(m, c, k + 1) == Some(r));
}

/// Removing the subtree of a live node keeps the forest well formed, with
/// the ids of the removed nodes taken out of the index.
proof fn lemma_remove_keeps_wf(m: Map<usize, ArenaNode>, index: Map<u64, usize>, r: usize)
    requires
        tree_wf(m),
        index_wf(m, index),
        m.contains_key(r),
    ensures
        tree_wf(removed_subtree(m, r)),
        index_wf(removed_subtree(m, r), index.remove_keys(ids_of(m, subtree(m, r)))),
{
    broadcast use vstd::seq_lib::group_seq_properties;
    let s = subtree(m, r);
    let md = detached(m, r);
    let m2 = removed_subtree(m, r);
    lemma_detach_keeps_wf(m, index, r);
    assert(ancestor_at(m, r, 0) == Some(r));
    assert(s.contains(r));
    assert forall|x: usize, i: int| m2.contains_key(x) && 0 <= i < m2[x].2.len() implies m2.contains_key(
        #[trigger] m2[x].2[i],
    ) && m2[m2[x].2[i]].1 == Some(x) by {
        let c = md[x].2[i];
        assert(md[c].1 == Some(x));
        if s.contains(c) {
            assert(c != r);
            lemma_subtree_parent(m, r, c);
        }
    }
    assert forall|x: usize| m2.contains_key(x) && #[trigger] m2[x].1 is Some implies m2.contains_key(
        m2[x].1->0,
    ) && m2[m2[x].1->0].2.contains(x) && m2[x].1->0 != x by {
        let q = md[x].1->0;
        assert(md[q].2.contains(x));
        if s.contains(q) {
            assert(md[q].2.to_set().contains(x));
            lemma_subtree_child(m, r, q, x);
        }
    }
    assert forall|x: usize| #[trigger] m2.contains_key(x) implies m2[x].2.no_duplicates() by {
        assert(md.contains_key(x));
    }
    let index2 = index.remove_keys(ids_of(m, s));
    assert forall|k: u64| #[trigger] index2.contains_key(k) implies m2.contains_key(index2[k])
        && m2[index2[k]].0 == k by {
        let y = index[k];
        if s.contains(y) {
            assert(ids_of(m, s).contains(m[y].0));
        }
    }
    lemma_acyclic_back(m2, md);
}

} // verus!

verus! {

/// Filtering out an index that a sequence does not hold gives it back.
proof fn lemma_filter_absent(s: Seq<usize>, n: usize)
    requires
        !s.contains(n),
    ensures
        s.filter(other_than(n)) == s,
    decreases s.len(),
{
    reveal(Seq::filter);
    if s.len() > 0 {
        let t = s.drop_last();
        assert(!t.contains(n)) by {
            if t.contains(n) {
                let j = choose|j: int| 0 <= j < t.len() && t[j] == n;
                assert(s[j] == n);
            }
        }
        lemma_filter_absent(t, n);
        assert(s.last() != n) by {
            assert(s[s.len() - 1] == s.last());
        }
        assert(t.push(s.last()) =~= s);
    }
}

/// Detaching a node makes it a root without parent and keeps its subtree:
/// the detached subtree has the same nodes, with the same data, as before,
/// and the former parent is not among them.
pub proof fn law_detach_keeps_subtree(m: Map<usize, ArenaNode>, r: usize)
    requires
        tree_wf(m),
        m.contains_key(r),
    ensures
        detached(m, r)[r].1 is None,
        subtree(detached(m, r), r) == subtree(m, r),
        forall|x: usize| #[trigger] subtree(m, r).contains(x) ==> detached(m, r)[x].0 == m[x].0,
        m[r].1 is Some ==> !subtree(detached(m, r), r).contains(m[r].1->0),
{
    if m[r].1 is Some {
        let p = m[r].1->0;
        if subtree(m, r).contains(p) {
            let k = choose|k: nat| ancestor_at(m, p, k) == Some(r);
            assert(ancestor_at(m, r, k + 1) == Some(r));
        }
    }
    let md = detached(m, r);
    lemma_detach_keeps_wf(m, Map::empty(), r);
    assert forall|x: usize, k: nat| m.contains_key(x) && ancestor_at(m, x, k) == Some(r) implies exists|
        j: nat,
    | ancestor_at(md, x, j) == Some(r) by {
        lemma_chain_old_to_new(m, r, x, k);
    }
    assert forall|x: usize, k: nat| m.contains_key(x) && ancestor_at(md, x, k) == Some(r) implies exists|
        j: nat,
    | ancestor_at(m, x, j) == Some(r) by {
        lemma_chain_new_to_old(m, r, x, k);
    }
    assert forall|x: usize| subtree(md, r).contains(x) == subtree(m, r).contains(x) by {
        if subtree(m, r).contains(x) {
            let k = choose|k: nat| ancestor_at(m, x, k) == Some(r);
            lemma_chain_old_to_new(m, r, x, k);
        }
        if subtree(md, r).contains(x) {
            let k = choose|k: nat| ancestor_at(md, x, k) == Some(r);
            lemma_chain_new_to_old(m, r, x, k);
        }
    }
    assert(subtree(md, r) =~= subtree(m, r));
}

proof fn lemma_chain_old_to_new(m: Map<usize, ArenaNode>, r: usize, x: usize, k: nat)
    requires
        tree_wf(m),
        m.contains_key(r),
        m.contains_key(x),
        ancestor_at(m, x, k) == Some(r),
    ensures
        exists|j: nat| ancestor_at(detached(m, r), x, j) == Some(r),
    decreases k,
{
    lemma_detach_keeps_wf(m, Map::empty(), r);
    if x == r {
        assert(ancestor_at(detached(m, r), x, 0) == Some(r));
    } else {
        let p = m[x].1->0;
        lemma_chain_old_to_new(m, r, p, (k - 1) as nat);
        let j = choose|j: nat| ancestor_at(detached(m, r), p, j) == Some(r);
        assert(ancestor_at(detached(m, r), x, j + 1) == Some(r));
    }
}

proof fn lemma_chain_new_to_old(m: Map<usize, ArenaNode>, r: usize, x: usize, k: nat)
    requires
        tree_wf(m),
        m.contains_key(r),
        m.contains_key(x),
        ancestor_at(detached(m, r), x, k) == Some(r),
    ensures
        exists|j: nat| ancestor_at(m, x, j) == Some(r),
    decreases k,
{
    lemma_detach_keeps_wf(m, Map::empty(), r);
    if x == r {
        assert(ancestor_at(m, x, 0) == Some(r));
    } else {
        let md = detached(m, r);
        let p = md[x].1->0;
        lemma_chain_new_to_old(m, r, p, (k - 1) as nat);
        let j = choose|j: nat| ancestor_at(m, p, j) == Some(r);
        assert(ancestor_at(m, x, j + 1) == Some(r));
    }
}

/// After a subtree is removed, none of its nodes is left in the arena and
/// none of their ids in the index; every other node keeps its data.
pub proof fn law_removed_subtree_is_gone(
    m: Map<usize, ArenaNode>,
    index: Map<u64, usize>,
    r: usize,
)
    requires
        tree_wf(m),
        index_wf(m, index),
        m.contains_key(r),
    ensures
        forall|x: usize| #[trigger]
            subtree(m, r).contains(x) ==> !removed_subtree(m, r).contains_key(x),
        forall|x: usize|
            #![trigger subtree(m, r).contains(x)]
            #![trigger removed_subtree(m, r).contains_key(x)]
            m.contains_key(x) && !subtree(m, r).contains(x) ==> removed_subtree(m, r).contains_key(x)
                && removed_subtree(m, r)[x].0 == m[x].0,
        forall|x: usize| #[trigger]
            subtree(m, r).contains(x) ==> !index.remove_keys(ids_of(m, subtree(m, r))).contains_key(
                m[x].0,
            ),
{
    lemma_detach_keeps_wf(m, index, r);
    assert forall|x: usize| #[trigger] subtree(m, r).contains(x) implies !index.remove_keys(
        ids_of(m, subtree(m, r)),
    ).contains_key(m[x].0) by {
        assert(ids_of(m, subtree(m, r)).contains(m[x].0));
    }
}

/// An appended node is the last child of its parent, has the parent as
/// its own, and lies in the parent's subtree.
pub proof fn law_appended_is_child(m: Map<usize, ArenaNode>, p: usize, c: usize, id: u64)
    requires
        tree_wf(m),
        m.contains_key(p),
        !m.contains_key(c),
    ensures
        ({
            let m1 = appended(m.insert(c, (id, None, Seq::<usize>::empty())), p, c);
            &&& m1[c] == (id, Some(p), Seq::<usize>::empty())
            &&& m1[p].2 == m[p].2.push(c)
            &&& subtree(m1, p).contains(c)
        }),
{
    let m1 = appended(m.insert(c, (id, None, Seq::<usize>::empty())), p, c);
    assert(ancestor_at(m1, c, 1) == ancestor_at(m1, p, 0));
}

/// Removing the subtree of a node that was just appended as a leaf undoes
/// the append: the arena comes back as it was, and so does the index when
/// the id was not indexed before.
pub proof fn law_remove_undoes_append(
    m: Map<usize, ArenaNode>,
    index: Map<u64, usize>,
    p: usize,
    c: usize,
    id: u64,
)
    requires
        tree_wf(m),
        index_wf(m, index),
        m.contains_key(p),
        !m.contains_key(c),
        !index.contains_key(id),
    ensures
        ({
            let m1 = appended(m.insert(c, (id, None, Seq::<usize>::empty())), p, c);
            &&& removed_subtree(m1, c) == m
            &&& index.insert(id, c).remove_keys(ids_of(m1, subtree(m1, c))) == index
        }),
{
    let m0 = m.insert(c, (id, None, Seq::<usize>::empty()));
    let m1 = appended(m0, p, c);
    lemma_new_node_keeps_wf(m, index, c, id);
    lemma_append_keeps_wf(m0, index, p, c);
    assert(p != c);
    assert(!m[p].2.contains(c)) by {
        if m[p].2.contains(c) {
            let i = choose|i: int| 0 <= i < m[p].2.len() && m[p].2[i] == c;
            assert(m.contains_key(m[p].2[i]));
        }
    }
    m[p].2.lemma_filter_push(c, other_than(c));
    lemma_filter_absent(m[p].2, c);
    assert(ancestor_at(m1, c, 0) == Some(c));
    assert forall|x: usize| subtree(m1, c).contains(x) implies x == c by {
        lemma_subtree_up(m1, c, x);
    }
    assert(subtree(m1, c) =~= set![c]);
    assert(removed_subtree(m1, c) =~= m);
    assert(ids_of(m1, set![c]) =~= set![id]);
    assert(index.insert(id, c).remove_keys(set![id]) =~= index);
}

/// A node of the subtree of a childless node is that node itself.
proof fn lemma_subtree_up(m: Map<usize, ArenaNode>, c: usize, q: usize)
    requires
        tree_wf(m),
        m.contains_key(c),
        m[c].2.len() == 0,
        subtree(m, c).contains(q),
    ensures
        q == c,
{
    let k = choose|k: nat| ancestor_at(m, q, k) == Some(c);
    lemma_subtree_up_k(m, c, q, k);
}

proof fn lemma_subtree_up_k(m: Map<usize, ArenaNode>, c: usize, q: usize, k: nat)
    requires
        parents_list_children(m),
        m.contains_key(c),
        m[c].2.len() == 0,
        m.contains_key(q),
        ancestor_at(m, q, k) == Some(c),
    ensures
        q == c,
    decreases k,
{
    if q != c {
        let p = m[q].1->0;
        assert(m[p].2.contains(q));
        lemma_subtree_up_k(m, c, p, (k - 1) as nat);
    }
}

} // verus!

verus! {

/// A chain of parent links in `m1` is one in `m` when every live node of
/// `m1` with a parent has that parent in `m` too, and the parent is live.
proof fn lemma_chain_back(m1: Map<usize, ArenaNode>, m: Map<usize, ArenaNode>, x: usize, k: nat, y: usize)
    requires
        forall|z: usize|
            #![trigger m1[z].1]
            m1.contains_key(z) && m1[z].1 is Some ==> m.contains_key(z) && m[z].1 == m1[z].1
                && m1.contains_key(m1[z].1->0),
        m1.contains_key(x),
        ancestor_at(m1, x, k) == Some(y),
    ensures
        ancestor_at(m, x, k) == Some(y),
    decreases k,
{
    if k > 0 {
        let q = m1[x].1->0;
        lemma_chain_back(m1, m, q, (k - 1) as nat, y);
    }
}

/// An arena whose parent links are among those of an acyclic arena is
/// acyclic.
proof fn lemma_acyclic_back(m1: Map<usize, ArenaNode>, m: Map<usize, ArenaNode>)
    requires
        forall|z: usize|
            #![trigger m1[z].1]
            m1.contains_key(z) && m1[z].1 is Some ==> m.contains_key(z) && m[z].1 == m1[z].1
                && m1.contains_key(m1[z].1->0),
        acyclic(m),
    ensures
        acyclic(m1),
{
    assert forall|x: usize, k: nat| m1.contains_key(x) && k > 0 implies #[trigger] ancestor_at(
        m1,
        x,
        k,
    ) != Some(x) by {
        if ancestor_at(m1, x, k) == Some(x) {
            assert(m1[x].1 is Some);
            lemma_chain_back(m1, m, x, k, x);
        }
    }
}

/// A chain of parent links in an arena after appending `c` that starts
/// elsewhere than `c` never passes `c`, so it is one before the append.
proof fn lemma_append_chain(
    m0: Map<usize, ArenaNode>,
    m1: Map<usize, ArenaNode>,
    c: usize,
    x: usize,
    k: nat,
    y: usize,
)
    requires
        parents_list_children(m1),
        m1.contains_key(c),
        m1[c].2.len() == 0,
        forall|z: usize| z != c ==> #[trigger] m1[z].1 == m0[z].1,
        x != c,
        m1.contains_key(x),
        ancestor_at(m1, x, k) == Some(y),
    ensures
        ancestor_at(m0, x, k) == Some(y),
    decreases k,
{
    if k > 0 {
        let q = m1[x].1->0;
        assert(m1[q].2.contains(x));
        assert(q != c);
        assert(m0[x].1 == m1[x].1);
        lemma_append_chain(m0, m1, c, q, (k - 1) as nat, y);
    }
}

/// The roots of a forest are its main root, its pending root and its
/// detached roots, and nothing else.
pub proof fn law_roots(f: &Forest, x: u64)
    ensures
        f.is_root_id(x) <==> (x == f.main_root() || f.pending_root() == Some(x)
            || f.detached_roots().contains(x)),
        f.is_root_id(f.main_root()),
        f.pending_root() matches Some(p) ==> f.is_root_id(p),
{
}

/// A detached root is one of the roots, so detaching it again, or
/// removing its subtree, does nothing.
pub proof fn law_detached_root_is_root(f: &Forest, x: u64)
    requires
        f.detached_roots().contains(x),
    ensures
        f.is_root_id(x),
{
}

} // verus!
