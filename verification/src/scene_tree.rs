//! The scene tree: nodes by id, the root, and a cache from node paths
//! (`/Root/Player`) to ids kept in insertion order.
use vstd::prelude::*;
use crate::engine_core::node::{has_tag_in, strings_contain, uuid_string, uuid_text, NodeId, NodeType};
use crate::kernel::error::EngineError;
use crate::scene::{copy_ids, same_node_data, SceneNodeData};
use crate::text::{owned, str_eq};

verus! {

/// The ids of `ns`, in order.
pub open spec fn ids_of(ns: Seq<SceneNodeData>) -> Seq<NodeId> {
    ns.map_values(|n: SceneNodeData| n.id)
}

/// The nodes of `ns` by id (a later entry wins; ids are distinct in a tree).
pub open spec fn node_map(ns: Seq<SceneNodeData>) -> Map<NodeId, SceneNodeData>
    decreases ns.len(),
{
    if ns.len() == 0 {
        Map::empty()
    } else {
        node_map(ns.drop_last()).insert(ns.last().id, ns.last())
    }
}

/// The node of `ns` at position `i` is the one `node_map` gives for its id,
/// and the ids of `ns` are exactly the keys of `node_map`.
#[verifier::spinoff_prover]
proof fn lemma_node_map(ns: Seq<SceneNodeData>)
    requires
        ids_of(ns).no_duplicates(),
    ensures
        forall|i: int| 0 <= i < ns.len() ==> #[trigger] node_map(ns).contains_key(ns[i].id) && node_map(ns)[ns[i].id] == ns[i],
        forall|id: NodeId| node_map(ns).contains_key(id) <==> ids_of(ns).contains(id),
    decreases ns.len(),
{
    if ns.len() > 0 {
        let init = ns.drop_last();
        assert(ids_of(init) =~= ids_of(ns).drop_last());
        assert forall|a: int, b: int| 0 <= a < b < ids_of(init).len() implies ids_of(init)[a] != ids_of(init)[b] by {
            assert(ids_of(ns)[a] == ids_of(init)[a] && ids_of(ns)[b] == ids_of(init)[b]);
        }
        lemma_node_map(init);
        assert forall|i: int| 0 <= i < ns.len() implies #[trigger] node_map(ns).contains_key(ns[i].id) && node_map(ns)[ns[i].id] == ns[i] by {
            assert(node_map(ns) == node_map(init).insert(ns.last().id, ns.last()));
            if i < ns.len() - 1 {
                assert(ns[i] == init[i]);
                assert(ids_of(ns)[i] != ids_of(ns)[ns.len() - 1]);
                assert(node_map(init).contains_key(init[i].id) && node_map(init)[init[i].id] == init[i]);
            } else {
                assert(ns[i] == ns.last());
            }
        }
        assert forall|id: NodeId| node_map(ns).contains_key(id) <==> ids_of(ns).contains(id) by {
            if ids_of(ns).contains(id) {
                let k = choose|k: int| 0 <= k < ids_of(ns).len() && ids_of(ns)[k] == id;
                assert(ns[k].id == id);
            }
            if ids_of(init).contains(id) {
                let k = choose|k: int| 0 <= k < ids_of(init).len() && ids_of(init)[k] == id;
                assert(ids_of(ns)[k] == id);
            }
            if id == ns.last().id {
                assert(ids_of(ns)[ns.len() - 1] == id);
            }
            if ids_of(ns).contains(id) && id != ns.last().id {
                let k = choose|k: int| 0 <= k < ids_of(ns).len() && ids_of(ns)[k] == id;
                assert(k < ns.len() - 1);
                assert(ids_of(init)[k] == id);
            }
        }
    }
}

/// Replacing the node at position `i` by one with the same id changes only
/// that id's entry of `node_map`.
proof fn lemma_node_map_update(ns: Seq<SceneNodeData>, i: int, n: SceneNodeData)
    requires
        ids_of(ns).no_duplicates(),
        0 <= i < ns.len(),
        ns[i].id == n.id,
    ensures
        node_map(ns.update(i, n)) == node_map(ns).insert(n.id, n),
        ids_of(ns.update(i, n)) == ids_of(ns),
    decreases ns.len(),
{
    assert(ids_of(ns.update(i, n)) =~= ids_of(ns));
    let init = ns.drop_last();
    if i == ns.len() - 1 {
        assert(ns.update(i, n).drop_last() =~= init);
        assert(node_map(ns.update(i, n)) =~= node_map(ns).insert(n.id, n));
    } else {
        assert(ids_of(init) =~= ids_of(ns).drop_last());
        assert forall|a: int, b: int| 0 <= a < b < ids_of(init).len() implies ids_of(init)[a] != ids_of(init)[b] by {
            assert(ids_of(ns)[a] == ids_of(init)[a] && ids_of(ns)[b] == ids_of(init)[b]);
        }
        lemma_node_map_update(init, i, n);
        assert(ns.update(i, n).drop_last() =~= init.update(i, n));
        assert(ns.update(i, n).last() == ns.last());
        assert(ids_of(ns)[i] != ids_of(ns)[ns.len() - 1]);
        assert(node_map(ns.update(i, n)) =~= node_map(ns).insert(n.id, n));
    }
}

/// Pushing a node with a new id keeps the ids distinct.
proof fn lemma_push_distinct(ns: Seq<SceneNodeData>, n: SceneNodeData)
    requires
        ids_of(ns).no_duplicates(),
        !ids_of(ns).contains(n.id),
    ensures
        ids_of(ns.push(n)).no_duplicates(),
{
    assert(ids_of(ns.push(n)) =~= ids_of(ns).push(n.id));
    assert forall|a: int, b: int| 0 <= a < b < ids_of(ns.push(n)).len() implies ids_of(ns.push(n))[a] != ids_of(ns.push(n))[b] by {
        if b == ns.len() {
            assert(ids_of(ns)[a] == ids_of(ns.push(n))[a]);
        }
    }
}

/// The id found at key `k` of a path cache (the first entry of that key).
pub open spec fn path_lookup(ps: Seq<(Seq<char>, NodeId)>, k: Seq<char>) -> Option<NodeId>
    decreases ps.len(),
{
    if ps.len() == 0 {
        None
    } else if ps[0].0 == k {
        Some(ps[0].1)
    } else {
        path_lookup(ps.drop_first(), k)
    }
}

/// The cache with key `k` mapped to `v`: the entry of that key keeps its
/// place, a new key goes last.
pub open spec fn path_insert(ps: Seq<(Seq<char>, NodeId)>, k: Seq<char>, v: NodeId) -> Seq<(Seq<char>, NodeId)>
    decreases ps.len(),
{
    if ps.len() == 0 {
        seq![(k, v)]
    } else if ps[0].0 == k {
        seq![(k, v)] + ps.drop_first()
    } else {
        seq![ps[0]] + path_insert(ps.drop_first(), k, v)
    }
}

/// The first key whose entry holds `v`.
pub open spec fn first_key_of(ps: Seq<(Seq<char>, NodeId)>, v: NodeId) -> Option<Seq<char>>
    decreases ps.len(),
{
    if ps.len() == 0 {
        None
    } else if ps[0].1 == v {
        Some(ps[0].0)
    } else {
        first_key_of(ps.drop_first(), v)
    }
}

/// The cache without the (first) entry of key `k`, order kept.
pub open spec fn path_remove(ps: Seq<(Seq<char>, NodeId)>, k: Seq<char>) -> Seq<(Seq<char>, NodeId)>
    decreases ps.len(),
{
    if ps.len() == 0 {
        ps
    } else if ps[0].0 == k {
        ps.drop_first()
    } else {
        seq![ps[0]] + path_remove(ps.drop_first(), k)
    }
}

/// The keys of a path cache, in order.
pub open spec fn keys_of(ps: Seq<(Seq<char>, NodeId)>) -> Seq<Seq<char>> {
    ps.map_values(|e: (Seq<char>, NodeId)| e.0)
}

/// The path of a node named `name` under the parent `parent`: the parent's
/// cached path, a `/` and the name; `/` and the name when the parent is
/// absent or has no cached path.
pub open spec fn child_path(ps: Seq<(Seq<char>, NodeId)>, parent: Option<NodeId>, name: Seq<char>) -> Seq<char> {
    match parent {
        Some(pid) => match first_key_of(ps, pid) {
            Some(pp) => pp + seq!['/'] + name,
            None => seq!['/'] + name,
        },
        None => seq!['/'] + name,
    }
}

/// A path filed in the cache leads to what it was filed with.
pub proof fn law_filed_path_leads_to_node(ps: Seq<(Seq<char>, NodeId)>, k: Seq<char>, v: NodeId)
    ensures
        path_lookup(path_insert(ps, k, v), k) == Some(v),
    decreases ps.len(),
{
    if ps.len() > 0 && ps[0].0 != k {
        law_filed_path_leads_to_node(ps.drop_first(), k, v);
        assert((seq![ps[0]] + path_insert(ps.drop_first(), k, v)).drop_first() =~= path_insert(ps.drop_first(), k, v));
    }
}

/// Inserting at the first entry of key `k` replaces that entry's value.
proof fn lemma_path_insert_at(ps: Seq<(Seq<char>, NodeId)>, k: Seq<char>, v: NodeId, i: int)
    requires
        0 <= i < ps.len(),
        ps[i].0 == k,
        forall|j: int| 0 <= j < i ==> ps[j].0 != k,
    ensures
        path_insert(ps, k, v) == ps.update(i, (k, v)),
    decreases i,
{
    if i == 0 {
        assert(path_insert(ps, k, v) =~= ps.update(0, (k, v)));
    } else {
        let t = ps.drop_first();
        assert forall|j: int| 0 <= j < i - 1 implies t[j].0 != k by {
            assert(t[j] == ps[j + 1]);
        }
        lemma_path_insert_at(t, k, v, i - 1);
        assert(path_insert(ps, k, v) =~= ps.update(i, (k, v)));
    }
}

/// Inserting a new key appends its entry.
proof fn lemma_path_insert_new(ps: Seq<(Seq<char>, NodeId)>, k: Seq<char>, v: NodeId)
    requires
        forall|j: int| 0 <= j < ps.len() ==> ps[j].0 != k,
    ensures
        path_insert(ps, k, v) == ps.push((k, v)),
    decreases ps.len(),
{
    if ps.len() > 0 {
        let t = ps.drop_first();
        assert forall|j: int| 0 <= j < t.len() implies t[j].0 != k by {
            assert(t[j] == ps[j + 1]);
        }
        lemma_path_insert_new(t, k, v);
        assert(path_insert(ps, k, v) =~= ps.push((k, v)));
    } else {
        assert(path_insert(ps, k, v) =~= ps.push((k, v)));
    }
}

/// Removing the first entry of key `k`, at `i`.
proof fn lemma_path_remove_at(ps: Seq<(Seq<char>, NodeId)>, k: Seq<char>, i: int)
    requires
        0 <= i < ps.len(),
        ps[i].0 == k,
        forall|j: int| 0 <= j < i ==> ps[j].0 != k,
    ensures
        path_remove(ps, k) == ps.remove(i),
    decreases i,
{
    if i == 0 {
        assert(path_remove(ps, k) =~= ps.remove(0));
    } else {
        let t = ps.drop_first();
        assert forall|j: int| 0 <= j < i - 1 implies t[j].0 != k by {
            assert(t[j] == ps[j + 1]);
        }
        lemma_path_remove_at(t, k, i - 1);
        assert(path_remove(ps, k) =~= ps.remove(i));
    }
}

/// Removing an absent key changes nothing.
proof fn lemma_path_remove_absent(ps: Seq<(Seq<char>, NodeId)>, k: Seq<char>)
    requires
        forall|j: int| 0 <= j < ps.len() ==> ps[j].0 != k,
    ensures
        path_remove(ps, k) == ps,
    decreases ps.len(),
{
    if ps.len() > 0 {
        let t = ps.drop_first();
        assert forall|j: int| 0 <= j < t.len() implies t[j].0 != k by {
            assert(t[j] == ps[j + 1]);
        }
        lemma_path_remove_absent(t, k);
        assert(path_remove(ps, k) =~= ps);
    }
}

/// Keys stay distinct when one is replaced in place or a new one appended,
/// and when an entry is dropped.
proof fn lemma_keys_distinct(ps: Seq<(Seq<char>, NodeId)>, k: Seq<char>, v: NodeId)
    requires
        keys_of(ps).no_duplicates(),
    ensures
        keys_of(path_insert(ps, k, v)).no_duplicates(),
        keys_of(path_remove(ps, k)).no_duplicates(),
        keys_of(path_insert(ps, k, v)).contains(k),
    decreases ps.len(),
{
    if ps.len() > 0 {
        let t = ps.drop_first();
        assert(keys_of(t) =~= keys_of(ps).drop_first());
        assert forall|a: int, b: int| 0 <= a < b < keys_of(t).len() implies keys_of(t)[a] != keys_of(t)[b] by {
            assert(keys_of(ps)[a + 1] == keys_of(t)[a] && keys_of(ps)[b + 1] == keys_of(t)[b]);
        }
        lemma_keys_distinct(t, k, v);
        if ps[0].0 == k {
            assert(keys_of(path_insert(ps, k, v)) =~= keys_of(ps));
            assert(keys_of(path_remove(ps, k)) =~= keys_of(t));
            assert(keys_of(path_insert(ps, k, v))[0] == k);
        } else {
            let ins = path_insert(t, k, v);
            assert(keys_of(path_insert(ps, k, v)) =~= seq![ps[0].0] + keys_of(ins));
            assert(keys_of(path_insert(ps, k, v))[0] == ps[0].0);
            lemma_insert_keys_subset(t, k, v);
            assert forall|a: int, b: int| 0 <= a < b < keys_of(path_insert(ps, k, v)).len()
                implies keys_of(path_insert(ps, k, v))[a] != keys_of(path_insert(ps, k, v))[b] by {
                let ks = keys_of(path_insert(ps, k, v));
                if a == 0 {
                    assert(ks[b] == keys_of(ins)[b - 1]);
                    assert(keys_of(ins).contains(ks[b]));
                    if ks[b] == ps[0].0 {
                        assert(ps[0].0 != k);
                        assert(keys_of(t).contains(ps[0].0));
                        let m = choose|m: int| 0 <= m < keys_of(t).len() && keys_of(t)[m] == ps[0].0;
                        assert(keys_of(ps)[m + 1] == keys_of(ps)[0]);
                    }
                } else {
                    assert(ks[a] == keys_of(ins)[a - 1] && ks[b] == keys_of(ins)[b - 1]);
                }
            }
            assert(keys_of(ins).contains(k));
            let m = choose|m: int| 0 <= m < keys_of(ins).len() && keys_of(ins)[m] == k;
            assert(keys_of(path_insert(ps, k, v))[m + 1] == k);
            let rem = path_remove(t, k);
            assert(keys_of(path_remove(ps, k)) =~= seq![ps[0].0] + keys_of(rem));
            lemma_remove_keys_subset(t, k);
            assert forall|a: int, b: int| 0 <= a < b < keys_of(path_remove(ps, k)).len()
                implies keys_of(path_remove(ps, k))[a] != keys_of(path_remove(ps, k))[b] by {
                let ks = keys_of(path_remove(ps, k));
                if a == 0 {
                    assert(ks[b] == keys_of(rem)[b - 1]);
                    assert(keys_of(rem).contains(ks[b]));
                    if ks[b] == ps[0].0 {
                        assert(keys_of(t).contains(ps[0].0));
                        let m = choose|m: int| 0 <= m < keys_of(t).len() && keys_of(t)[m] == ps[0].0;
                        assert(keys_of(ps)[m + 1] == keys_of(ps)[0]);
                    }
                } else {
                    assert(ks[a] == keys_of(rem)[a - 1] && ks[b] == keys_of(rem)[b - 1]);
                }
            }
        }
    } else {
        assert(keys_of(path_insert(ps, k, v)) =~= seq![k]);
        assert(keys_of(path_insert(ps, k, v))[0] == k);
    }
}

/// The keys after an insert are the old ones and the new one.
proof fn lemma_insert_keys_subset(ps: Seq<(Seq<char>, NodeId)>, k: Seq<char>, v: NodeId)
    ensures
        forall|x: Seq<char>| keys_of(path_insert(ps, k, v)).contains(x) ==> x == k || keys_of(ps).contains(x),
    decreases ps.len(),
{
    if ps.len() > 0 {
        let t = ps.drop_first();
        lemma_insert_keys_subset(t, k, v);
        assert forall|x: Seq<char>| keys_of(path_insert(ps, k, v)).contains(x) implies x == k || keys_of(ps).contains(x) by {
            let ks = keys_of(path_insert(ps, k, v));
            let m = choose|m: int| 0 <= m < ks.len() && ks[m] == x;
            if ps[0].0 == k {
                if m > 0 {
                    assert(ks[m] == keys_of(ps)[m]);
                }
            } else {
                if m == 0 {
                    assert(keys_of(ps)[0] == x);
                } else {
                    assert(ks[m] == keys_of(path_insert(t, k, v))[m - 1]);
                    assert(keys_of(path_insert(t, k, v)).contains(x));
                    if x != k {
                        assert(keys_of(t).contains(x));
                        let n = choose|n: int| 0 <= n < keys_of(t).len() && keys_of(t)[n] == x;
                        assert(keys_of(ps)[n + 1] == x);
                    }
                }
            }
        }
    } else {
        assert forall|x: Seq<char>| keys_of(path_insert(ps, k, v)).contains(x) implies x == k || keys_of(ps).contains(x) by {
            assert(keys_of(path_insert(ps, k, v)) =~= seq![k]);
        }
    }
}

/// The keys after a removal are among the old ones.
proof fn lemma_remove_keys_subset(ps: Seq<(Seq<char>, NodeId)>, k: Seq<char>)
    ensures
        forall|x: Seq<char>| keys_of(path_remove(ps, k)).contains(x) ==> keys_of(ps).contains(x),
    decreases ps.len(),
{
    if ps.len() > 0 {
        let t = ps.drop_first();
        lemma_remove_keys_subset(t, k);
        assert forall|x: Seq<char>| keys_of(path_remove(ps, k)).contains(x) implies keys_of(ps).contains(x) by {
            let ks = keys_of(path_remove(ps, k));
            let m = choose|m: int| 0 <= m < ks.len() && ks[m] == x;
            if ps[0].0 == k {
                assert(ks[m] == keys_of(ps)[m + 1]);
            } else if m == 0 {
                assert(keys_of(ps)[0] == x);
            } else {
                assert(ks[m] == keys_of(path_remove(t, k))[m - 1]);
                assert(keys_of(path_remove(t, k)).contains(x));
                assert(keys_of(t).contains(x));
                let n = choose|n: int| 0 <= n < keys_of(t).len() && keys_of(t)[n] == x;
                assert(keys_of(ps)[n + 1] == x);
            }
        }
    }
}

/// The node `b` is `a` with children `cs`.
pub open spec fn with_children(a: SceneNodeData, b: SceneNodeData, cs: Seq<NodeId>) -> bool {
    &&& b.children@ == cs
    &&& b.id == a.id
    &&& b.name == a.name
    &&& b.node_type == a.node_type
    &&& b.enabled == a.enabled
    &&& b.visible == a.visible
    &&& b.tags == a.tags
    &&& b.parent == a.parent
    &&& b.properties == a.properties
}

/// The node `b` is `a` with parent `p`.
pub open spec fn with_parent(a: SceneNodeData, b: SceneNodeData, p: Option<NodeId>) -> bool {
    &&& b.parent == p
    &&& b.id == a.id
    &&& b.name == a.name
    &&& b.node_type == a.node_type
    &&& b.enabled == a.enabled
    &&& b.visible == a.visible
    &&& b.tags == a.tags
    &&& b.children == a.children
    &&& b.properties == a.properties
}

/// The scene tree.
#[derive(Debug)]
pub struct SceneTree {
    nodes: Vec<SceneNodeData>,
    root: Option<NodeId>,
    paths: Vec<(String, NodeId)>,
}

impl SceneTree {
    /// The nodes by id.
    pub closed spec fn spec_nodes(&self) -> Map<NodeId, SceneNodeData> {
        node_map(self.nodes@)
    }

    pub closed spec fn spec_root(&self) -> Option<NodeId> {
        self.root
    }

    /// The path cache: paths and the ids they lead to, in insertion order.
    pub closed spec fn spec_paths(&self) -> Seq<(Seq<char>, NodeId)> {
        self.paths@.map_values(|e: (String, NodeId)| (e.0@, e.1))
    }

    /// Node ids and cached paths are distinct.
    pub closed spec fn wf(&self) -> bool {
        &&& ids_of(self.nodes@).no_duplicates()
        &&& keys_of(self.spec_paths()).no_duplicates()
    }

    /// An empty tree.
    pub fn new() -> (t: SceneTree)
        ensures
            t.wf(),
            t.spec_nodes() == Map::<NodeId, SceneNodeData>::empty(),
            t.spec_root() is None,
            t.spec_paths() == Seq::<(Seq<char>, NodeId)>::empty(),
    {
        let t = SceneTree { nodes: Vec::new(), root: None, paths: Vec::new() };
        assert(t.spec_paths() =~= Seq::<(Seq<char>, NodeId)>::empty());
        assert(ids_of(t.nodes@) =~= Seq::<NodeId>::empty());
        assert(keys_of(t.spec_paths()) =~= Seq::<Seq<char>>::empty());
        t
    }

    /// Position of the node `id` in storage.
    fn node_position(&self, id: NodeId) -> (r: Option<usize>)
        requires
            self.wf(),
        ensures
            match r {
                Some(i) => i < self.nodes@.len() && self.nodes@[i as int].id == id && self.spec_nodes().contains_key(id)
                    && self.spec_nodes()[id] == self.nodes@[i as int],
                None => !self.spec_nodes().contains_key(id),
            },
    {
        proof {
            lemma_node_map(self.nodes@);
        }
        let mut i: usize = 0;
        while i < self.nodes.len()
            invariant
                i <= self.nodes@.len(),
                self.wf(),
                forall|j: int| 0 <= j < i ==> self.nodes@[j].id != id,
            decreases self.nodes@.len() - i,
        {
            if self.nodes[i].id == id {
                proof {
                    lemma_node_map(self.nodes@);
                }
                return Some(i);
            }
            i = i + 1;
        }
        assert(!ids_of(self.nodes@).contains(id)) by {
            if ids_of(self.nodes@).contains(id) {
                let k = choose|k: int| 0 <= k < ids_of(self.nodes@).len() && ids_of(self.nodes@)[k] == id;
                assert(self.nodes@[k].id == id);
            }
        }
        None
    }

    /// Stores a node, replacing the node of the same id.
    fn put_node(&mut self, node: SceneNodeData)
        requires
            old(self).wf(),
        ensures
            final(self).wf(),
            final(self).spec_nodes() == old(self).spec_nodes().insert(node.id, node),
            final(self).spec_root() == old(self).spec_root(),
            final(self).spec_paths() == old(self).spec_paths(),
    {
        let ghost before = self.nodes@;
        match self.node_position(node.id) {
            Some(i) => {
                let ghost n = node;
                self.nodes.set(i, node);
                proof {
                    lemma_node_map_update(before, i as int, n);
                }
            },
            None => {
                proof {
                    lemma_node_map(before);
                }
                let ghost n = node;
                self.nodes.push(node);
                proof {
                    lemma_push_distinct(before, n);
                    assert(self.nodes@.drop_last() =~= before);
                }
            },
        }
    }

    /// The node `id`.
    pub fn get(&self, id: NodeId) -> (r: Option<&SceneNodeData>)
        requires
            self.wf(),
        ensures
            match r {
                Some(n) => self.spec_nodes().contains_key(id) && *n == self.spec_nodes()[id],
                None => !self.spec_nodes().contains_key(id),
            },
    {
        match self.node_position(id) {
            Some(i) => Some(&self.nodes[i]),
            None => None,
        }
    }

    /// The root's id.
    pub fn root(&self) -> (r: Option<NodeId>)
        ensures
            r == self.spec_root(),
    {
        self.root
    }

    /// Number of nodes.
    pub fn node_count(&self) -> (n: usize)
        requires
            self.wf(),
        ensures
            n == self.spec_nodes().dom().len(),
    {
        proof {
            lemma_node_map(self.nodes@);
            ids_of(self.nodes@).unique_seq_to_set();
            assert(self.spec_nodes().dom() =~= ids_of(self.nodes@).to_set());
        }
        self.nodes.len()
    }
}

/// The first entry of key `k` is at `i`: the lookup finds its value.
proof fn lemma_lookup_at(ps: Seq<(Seq<char>, NodeId)>, k: Seq<char>, i: int)
    requires
        0 <= i < ps.len(),
        ps[i].0 == k,
        forall|j: int| 0 <= j < i ==> ps[j].0 != k,
    ensures
        path_lookup(ps, k) == Some(ps[i].1),
    decreases i,
{
    if i > 0 {
        let t = ps.drop_first();
        assert forall|j: int| 0 <= j < i - 1 implies t[j].0 != k by {
            assert(t[j] == ps[j + 1]);
        }
        lemma_lookup_at(t, k, i - 1);
    }
}

/// No entry has key `k`: the lookup finds nothing.
proof fn lemma_lookup_absent(ps: Seq<(Seq<char>, NodeId)>, k: Seq<char>)
    requires
        forall|j: int| 0 <= j < ps.len() ==> ps[j].0 != k,
    ensures
        path_lookup(ps, k) is None,
    decreases ps.len(),
{
    if ps.len() > 0 {
        let t = ps.drop_first();
        assert forall|j: int| 0 <= j < t.len() implies t[j].0 != k by {
            assert(t[j] == ps[j + 1]);
        }
        lemma_lookup_absent(t, k);
    }
}

/// The first entry holding `v` is at `i`: its key is the first key of `v`.
proof fn lemma_first_key_at(ps: Seq<(Seq<char>, NodeId)>, v: NodeId, i: int)
    requires
        0 <= i < ps.len(),
        ps[i].1 == v,
        forall|j: int| 0 <= j < i ==> ps[j].1 != v,
    ensures
        first_key_of(ps, v) == Some(ps[i].0),
    decreases i,
{
    if i > 0 {
        let t = ps.drop_first();
        assert forall|j: int| 0 <= j < i - 1 implies t[j].1 != v by {
            assert(t[j] == ps[j + 1]);
        }
        lemma_first_key_at(t, v, i - 1);
    }
}

/// No entry holds `v`: it has no key.
proof fn lemma_first_key_absent(ps: Seq<(Seq<char>, NodeId)>, v: NodeId)
    requires
        forall|j: int| 0 <= j < ps.len() ==> ps[j].1 != v,
    ensures
        first_key_of(ps, v) is None,
    decreases ps.len(),
{
    if ps.len() > 0 {
        let t = ps.drop_first();
        assert forall|j: int| 0 <= j < t.len() implies t[j].1 != v by {
            assert(t[j] == ps[j + 1]);
        }
        lemma_first_key_absent(t, v);
    }
}

/// A freshly made node named `name` of type `t`.
pub open spec fn fresh_node(n: SceneNodeData, name: Seq<char>, t: NodeType) -> bool {
    &&& n.id.0 != 0
    &&& n.name@ == name
    &&& n.node_type == t
    &&& n.enabled
    &&& n.visible
    &&& n.tags@.len() == 0
    &&& n.parent is None
    &&& n.children@.len() == 0
}

impl SceneTree {
    /// Position of the cache entry of path `k`.
    fn key_index(&self, k: &str) -> (r: Option<usize>)
        ensures
            match r {
                Some(i) => i < self.paths@.len() && self.spec_paths()[i as int].0 == k@
                    && forall|j: int| 0 <= j < i ==> self.spec_paths()[j].0 != k@,
                None => forall|j: int| 0 <= j < self.spec_paths().len() ==> self.spec_paths()[j].0 != k@,
            },
    {
        let mut i: usize = 0;
        while i < self.paths.len()
            invariant
                i <= self.paths@.len(),
                forall|j: int| 0 <= j < i ==> self.spec_paths()[j].0 != k@,
            decreases self.paths@.len() - i,
        {
            if str_eq(self.paths[i].0.as_str(), k) {
                return Some(i);
            }
            i = i + 1;
        }
        None
    }

    /// Position of the first cache entry leading to `v`.
    fn value_index(&self, v: NodeId) -> (r: Option<usize>)
        ensures
            match r {
                Some(i) => i < self.paths@.len() && self.spec_paths()[i as int].1 == v
                    && forall|j: int| 0 <= j < i ==> self.spec_paths()[j].1 != v,
                None => forall|j: int| 0 <= j < self.spec_paths().len() ==> self.spec_paths()[j].1 != v,
            },
    {
        let mut i: usize = 0;
        while i < self.paths.len()
            invariant
                i <= self.paths@.len(),
                forall|j: int| 0 <= j < i ==> self.spec_paths()[j].1 != v,
            decreases self.paths@.len() - i,
        {
            if self.paths[i].1 == v {
                return Some(i);
            }
            i = i + 1;
        }
        None
    }

    /// Maps path `k` to `v` in the cache.
    fn insert_path(&mut self, k: String, v: NodeId)
        requires
            old(self).wf(),
        ensures
            final(self).wf(),
            final(self).spec_paths() == path_insert(old(self).spec_paths(), k@, v),
            final(self).spec_nodes() == old(self).spec_nodes(),
            final(self).spec_root() == old(self).spec_root(),
    {
        let ghost ps = self.spec_paths();
        let ghost kv = k@;
        proof {
            lemma_keys_distinct(ps, kv, v);
        }
        match self.key_index(k.as_str()) {
            Some(i) => {
                self.paths.set(i, (k, v));
                proof {
                    lemma_path_insert_at(ps, kv, v, i as int);
                    assert(self.spec_paths() =~= ps.update(i as int, (kv, v)));
                }
            },
            None => {
                self.paths.push((k, v));
                proof {
                    lemma_path_insert_new(ps, kv, v);
                    assert(self.spec_paths() =~= ps.push((kv, v)));
                }
            },
        }
    }

    /// The path of a node named `name` under `parent`.
    fn compute_path(&self, parent: Option<NodeId>, name: &str) -> (p: String)
        ensures
            p@ == child_path(self.spec_paths(), parent, name@),
    {
        proof {
            reveal_strlit("/");
        }
        match parent {
            Some(pid) => match self.value_index(pid) {
                Some(j) => {
                    proof {
                        lemma_first_key_at(self.spec_paths(), pid, j as int);
                    }
                    let mut p = self.paths[j].0.clone();
                    p.append("/");
                    p.append(name);
                    p
                },
                None => {
                    proof {
                        lemma_first_key_absent(self.spec_paths(), pid);
                    }
                    let mut p = owned("/");
                    p.append(name);
                    p
                },
            },
            None => {
                let mut p = owned("/");
                p.append(name);
                p
            },
        }
    }

    /// Creates the root node, named `name`, of type `Node`.
    pub fn create_root(&mut self, name: &str) -> (id: NodeId)
        requires
            old(self).wf(),
        ensures
            final(self).wf(),
            final(self).spec_root() == Some(id),
            final(self).spec_nodes().contains_key(id),
            fresh_node(final(self).spec_nodes()[id], name@, NodeType::Node),
            final(self).spec_nodes() == old(self).spec_nodes().insert(id, final(self).spec_nodes()[id]),
            final(self).spec_paths() == path_insert(old(self).spec_paths(), seq!['/'] + name@, id),
            path_lookup(final(self).spec_paths(), seq!['/'] + name@) == Some(id),
    {
        let data = SceneNodeData::new(name, NodeType::Node);
        let id = data.id;
        self.root = Some(id);
        proof {
            reveal_strlit("/");
        }
        let mut path = owned("/");
        path.append(name);
        assert("/"@ =~= seq!['/']);
        assert(path@ =~= seq!['/'] + name@);
        self.insert_path(path, id);
        let ghost d = data;
        self.put_node(data);
        assert(self.spec_nodes()[id] == d);
        assert(self.spec_nodes() =~= old(self).spec_nodes().insert(id, self.spec_nodes()[id]));
        proof {
            law_filed_path_leads_to_node(old(self).spec_paths(), seq!['/'] + name@, id);
        }
        id
    }

    /// Adds a node under `parent_id` (or at the top level), caching its path.
    /// A parent that is not in the tree is refused with `NodeNotFound`; a
    /// top-level node becomes the root when there is none.
    pub fn add_node(&mut self, node: SceneNodeData, parent_id: Option<NodeId>) -> (r: Result<NodeId, EngineError>)
        requires
            old(self).wf(),
        ensures
            final(self).wf(),
            match parent_id {
                Some(pid) => !old(self).spec_nodes().contains_key(pid) ==> {
                    &&& r matches Err(EngineError::NodeNotFound { path }) && path@ == uuid_text(pid.0)
                    &&& final(self).spec_nodes() == old(self).spec_nodes()
                    &&& final(self).spec_paths() == old(self).spec_paths()
                    &&& final(self).spec_root() == old(self).spec_root()
                },
                None => true,
            },
            (parent_id matches Some(pid) ==> old(self).spec_nodes().contains_key(pid)) ==> {
                &&& r == Ok::<NodeId, EngineError>(node.id)
                &&& final(self).spec_nodes().contains_key(node.id)
                &&& with_parent(node, final(self).spec_nodes()[node.id], parent_id)
                &&& final(self).spec_paths() == path_insert(old(self).spec_paths(),
                    child_path(old(self).spec_paths(), parent_id, node.name@), node.id)
                &&& path_lookup(final(self).spec_paths(), child_path(old(self).spec_paths(), parent_id, node.name@)) == Some(node.id)
                &&& match parent_id {
                    Some(pid) => {
                        &&& final(self).spec_root() == old(self).spec_root()
                        &&& final(self).spec_nodes() == old(self).spec_nodes()
                            .insert(pid, final(self).spec_nodes()[pid])
                            .insert(node.id, final(self).spec_nodes()[node.id])
                        &&& pid != node.id ==> with_children(old(self).spec_nodes()[pid], final(self).spec_nodes()[pid],
                            old(self).spec_nodes()[pid].children@.push(node.id))
                    },
                    None => {
                        &&& final(self).spec_root() == (if old(self).spec_root() is None {
                            Some(node.id)
                        } else {
                            old(self).spec_root()
                        })
                        &&& final(self).spec_nodes() == old(self).spec_nodes().insert(node.id, final(self).spec_nodes()[node.id])
                    },
                }
            },
    {
        let id = node.id;
        let ghost n0 = node;
        let mut node = node;
        node.parent = parent_id;
        let ghost n1 = node;
        match parent_id {
            Some(pid) => {
                match self.node_position(pid) {
                    None => {
                        return Err(EngineError::NodeNotFound { path: uuid_string(pid.0) });
                    },
                    Some(i) => {
                        let ghost before = self.nodes@;
                        let ghost pold = self.nodes@[i as int];
                        self.nodes[i].children.push(id);
                        proof {
                            let pnew = self.nodes@[i as int];
                            assert(self.nodes@ == before.update(i as int, pnew));
                            lemma_node_map_update(before, i as int, pnew);
                            assert(with_children(pold, pnew, pold.children@.push(id)));
                        }
                    },
                }
            },
            None => {
                if self.root.is_none() {
                    self.root = Some(id);
                }
            },
        }
        let ghost mid = self.spec_nodes();
        let path = self.compute_path(parent_id, node.name.as_str());
        proof {
            law_filed_path_leads_to_node(self.spec_paths(), path@, id);
        }
        self.insert_path(path, id);
        self.put_node(node);
        proof {
            assert(self.spec_nodes()[id] == n1);
            assert(with_parent(n0, n1, parent_id));
            match parent_id {
                Some(pid) => {
                    if pid != id {
                        assert(self.spec_nodes()[pid] == mid[pid]);
                    }
                    assert(self.spec_nodes() =~= old(self).spec_nodes().insert(pid, self.spec_nodes()[pid]).insert(id, self.spec_nodes()[id]));
                },
                None => {
                    assert(self.spec_nodes() =~= old(self).spec_nodes().insert(id, self.spec_nodes()[id]));
                },
            }
        }
        Ok(id)
    }

    /// The node at path `path`.
    pub fn get_by_path(&self, path: &str) -> (r: Option<&SceneNodeData>)
        requires
            self.wf(),
        ensures
            match path_lookup(self.spec_paths(), path@) {
                Some(id) => match r {
                    Some(n) => self.spec_nodes().contains_key(id) && *n == self.spec_nodes()[id],
                    None => !self.spec_nodes().contains_key(id),
                },
                None => r is None,
            },
    {
        match self.key_index(path) {
            Some(i) => {
                proof {
                    lemma_lookup_at(self.spec_paths(), path@, i as int);
                }
                let id = self.paths[i].1;
                self.get(id)
            },
            None => {
                proof {
                    lemma_lookup_absent(self.spec_paths(), path@);
                }
                None
            },
        }
    }

    /// The first cached path of the node `id`.
    pub fn path_of(&self, id: NodeId) -> (r: Option<String>)
        ensures
            match first_key_of(self.spec_paths(), id) {
                Some(k) => r matches Some(s) && s@ == k,
                None => r is None,
            },
    {
        match self.value_index(id) {
            Some(j) => {
                proof {
                    lemma_first_key_at(self.spec_paths(), id, j as int);
                }
                Some(self.paths[j].0.clone())
            },
            None => {
                proof {
                    lemma_first_key_absent(self.spec_paths(), id);
                }
                None
            },
        }
    }
}


/// Number of each built-in node type (255 for custom types).
pub open spec fn type_code(t: NodeType) -> int {
    match t {
        NodeType::Node => 0,
        NodeType::Node2d => 1,
        NodeType::Node3d => 2,
        NodeType::Sprite2d => 3,
        NodeType::AnimatedSprite2d => 4,
        NodeType::Camera2d => 5,
        NodeType::TileMap => 6,
        NodeType::Label => 7,
        NodeType::CanvasLayer => 8,
        NodeType::MeshInstance3d => 9,
        NodeType::Camera3d => 10,
        NodeType::DirectionalLight3d => 11,
        NodeType::PointLight3d => 12,
        NodeType::SpotLight3d => 13,
        NodeType::OmniLight3d => 14,
        NodeType::Environment3d => 15,
        NodeType::Decal => 16,
        NodeType::RigidBody2d => 17,
        NodeType::StaticBody2d => 18,
        NodeType::CharacterBody2d => 19,
        NodeType::Area2d => 20,
        NodeType::CollisionShape2d => 21,
        NodeType::RayCast2d => 22,
        NodeType::RigidBody3d => 23,
        NodeType::StaticBody3d => 24,
        NodeType::CharacterBody3d => 25,
        NodeType::Area3d => 26,
        NodeType::CollisionShape3d => 27,
        NodeType::RayCast3d => 28,
        NodeType::UiNode => 29,
        NodeType::UiPanel => 30,
        NodeType::UiLabel => 31,
        NodeType::UiButton => 32,
        NodeType::UiImage => 33,
        NodeType::UiContainer => 34,
        NodeType::UiScrollContainer => 35,
        NodeType::UiLineEdit => 36,
        NodeType::UiTextEdit => 37,
        NodeType::UiCheckbox => 38,
        NodeType::UiSlider => 39,
        NodeType::AudioStreamPlayer => 40,
        NodeType::AudioStreamPlayer2d => 41,
        NodeType::AudioStreamPlayer3d => 42,
        NodeType::AnimationPlayer => 43,
        NodeType::AnimationTree => 44,
        NodeType::ScriptNode => 45,
        NodeType::Custom(_) => 255,
    }
}

/// The built-in node type numbered `c`.
pub open spec fn type_of_code(c: int) -> NodeType {
    if c == 0 {
        NodeType::Node
    } else if c == 1 {
        NodeType::Node2d
    } else if c == 2 {
        NodeType::Node3d
    } else if c == 3 {
        NodeType::Sprite2d
    } else if c == 4 {
        NodeType::AnimatedSprite2d
    } else if c == 5 {
        NodeType::Camera2d
    } else if c == 6 {
        NodeType::TileMap
    } else if c == 7 {
        NodeType::Label
    } else if c == 8 {
        NodeType::CanvasLayer
    } else if c == 9 {
        NodeType::MeshInstance3d
    } else if c == 10 {
        NodeType::Camera3d
    } else if c == 11 {
        NodeType::DirectionalLight3d
    } else if c == 12 {
        NodeType::PointLight3d
    } else if c == 13 {
        NodeType::SpotLight3d
    } else if c == 14 {
        NodeType::OmniLight3d
    } else if c == 15 {
        NodeType::Environment3d
    } else if c == 16 {
        NodeType::Decal
    } else if c == 17 {
        NodeType::RigidBody2d
    } else if c == 18 {
        NodeType::StaticBody2d
    } else if c == 19 {
        NodeType::CharacterBody2d
    } else if c == 20 {
        NodeType::Area2d
    } else if c == 21 {
        NodeType::CollisionShape2d
    } else if c == 22 {
        NodeType::RayCast2d
    } else if c == 23 {
        NodeType::RigidBody3d
    } else if c == 24 {
        NodeType::StaticBody3d
    } else if c == 25 {
        NodeType::CharacterBody3d
    } else if c == 26 {
        NodeType::Area3d
    } else if c == 27 {
        NodeType::CollisionShape3d
    } else if c == 28 {
        NodeType::RayCast3d
    } else if c == 29 {
        NodeType::UiNode
    } else if c == 30 {
        NodeType::UiPanel
    } else if c == 31 {
        NodeType::UiLabel
    } else if c == 32 {
        NodeType::UiButton
    } else if c == 33 {
        NodeType::UiImage
    } else if c == 34 {
        NodeType::UiContainer
    } else if c == 35 {
        NodeType::UiScrollContainer
    } else if c == 36 {
        NodeType::UiLineEdit
    } else if c == 37 {
        NodeType::UiTextEdit
    } else if c == 38 {
        NodeType::UiCheckbox
    } else if c == 39 {
        NodeType::UiSlider
    } else if c == 40 {
        NodeType::AudioStreamPlayer
    } else if c == 41 {
        NodeType::AudioStreamPlayer2d
    } else if c == 42 {
        NodeType::AudioStreamPlayer3d
    } else if c == 43 {
        NodeType::AnimationPlayer
    } else if c == 44 {
        NodeType::AnimationTree
    } else if c == 45 {
        NodeType::ScriptNode
    } else {
        NodeType::Node
    }
}

proof fn lemma_type_code_inverse(t: NodeType)
    requires
        !(t is Custom),
    ensures
        type_of_code(type_code(t)) == t,
{
}

/// Whether two node types are the same (custom types by their names).
pub open spec fn same_node_type(a: NodeType, b: NodeType) -> bool {
    match (a, b) {
        (NodeType::Custom(x), NodeType::Custom(y)) => x@ == y@,
        (NodeType::Custom(_), _) => false,
        (_, NodeType::Custom(_)) => false,
        _ => a == b,
    }
}

fn node_type_code(t: &NodeType) -> (c: u8)
    ensures
        c as int == type_code(*t),
{
    match t {
        NodeType::Node => 0,
        NodeType::Node2d => 1,
        NodeType::Node3d => 2,
        NodeType::Sprite2d => 3,
        NodeType::AnimatedSprite2d => 4,
        NodeType::Camera2d => 5,
        NodeType::TileMap => 6,
        NodeType::Label => 7,
        NodeType::CanvasLayer => 8,
        NodeType::MeshInstance3d => 9,
        NodeType::Camera3d => 10,
        NodeType::DirectionalLight3d => 11,
        NodeType::PointLight3d => 12,
        NodeType::SpotLight3d => 13,
        NodeType::OmniLight3d => 14,
        NodeType::Environment3d => 15,
        NodeType::Decal => 16,
        NodeType::RigidBody2d => 17,
        NodeType::StaticBody2d => 18,
        NodeType::CharacterBody2d => 19,
        NodeType::Area2d => 20,
        NodeType::CollisionShape2d => 21,
        NodeType::RayCast2d => 22,
        NodeType::RigidBody3d => 23,
        NodeType::StaticBody3d => 24,
        NodeType::CharacterBody3d => 25,
        NodeType::Area3d => 26,
        NodeType::CollisionShape3d => 27,
        NodeType::RayCast3d => 28,
        NodeType::UiNode => 29,
        NodeType::UiPanel => 30,
        NodeType::UiLabel => 31,
        NodeType::UiButton => 32,
        NodeType::UiImage => 33,
        NodeType::UiContainer => 34,
        NodeType::UiScrollContainer => 35,
        NodeType::UiLineEdit => 36,
        NodeType::UiTextEdit => 37,
        NodeType::UiCheckbox => 38,
        NodeType::UiSlider => 39,
        NodeType::AudioStreamPlayer => 40,
        NodeType::AudioStreamPlayer2d => 41,
        NodeType::AudioStreamPlayer3d => 42,
        NodeType::AnimationPlayer => 43,
        NodeType::AnimationTree => 44,
        NodeType::ScriptNode => 45,
        NodeType::Custom(_) => 255,
    }
}

/// Whether two node types are the same (custom types by their names).
pub fn node_types_equal(a: &NodeType, b: &NodeType) -> (r: bool)
    ensures
        r == same_node_type(*a, *b),
{
    match (a, b) {
        (NodeType::Custom(x), NodeType::Custom(y)) => str_eq(x.as_str(), y.as_str()),
        (NodeType::Custom(_), _) => false,
        (_, NodeType::Custom(_)) => false,
        _ => {
            let r = node_type_code(a) == node_type_code(b);
            proof {
                lemma_type_code_inverse(*a);
                lemma_type_code_inverse(*b);
            }
            r
        },
    }
}

/// The nodes of `m` whose ids `cs` lists, in the order of `cs` (absent ids
/// are skipped).
pub open spec fn existing(m: Map<NodeId, SceneNodeData>, cs: Seq<NodeId>) -> Seq<SceneNodeData>
    decreases cs.len(),
{
    if cs.len() == 0 {
        seq![]
    } else if m.contains_key(cs.last()) {
        existing(m, cs.drop_last()).push(m[cs.last()])
    } else {
        existing(m, cs.drop_last())
    }
}

/// `s` without the nodes of id `id`.
pub open spec fn without_id(s: Seq<SceneNodeData>, id: NodeId) -> Seq<SceneNodeData>
    decreases s.len(),
{
    if s.len() == 0 {
        seq![]
    } else if s.last().id == id {
        without_id(s.drop_last(), id)
    } else {
        without_id(s.drop_last(), id).push(s.last())
    }
}

/// The ids of the referenced nodes, in order.
pub open spec fn ref_ids(v: Seq<&SceneNodeData>) -> Seq<NodeId> {
    v.map_values(|n: &SceneNodeData| n.id)
}

/// `r` holds, once each, exactly the nodes of `m` that satisfy `p`.
pub open spec fn selects(m: Map<NodeId, SceneNodeData>, p: spec_fn(SceneNodeData) -> bool, r: Seq<SceneNodeData>) -> bool {
    &&& forall|i: int| 0 <= i < r.len() ==> m.contains_key(#[trigger] r[i].id) && m[r[i].id] == r[i] && p(r[i])
    &&& forall|id: NodeId| m.contains_key(id) && p(m[id]) ==> #[trigger] ids_of(r).contains(id)
    &&& ids_of(r).no_duplicates()
}

/// The node `b` is `a` with the given enabled and visible flags.
pub open spec fn with_flags(a: SceneNodeData, b: SceneNodeData, enabled: bool, visible: bool) -> bool {
    &&& b.enabled == enabled
    &&& b.visible == visible
    &&& b.id == a.id
    &&& b.name == a.name
    &&& b.node_type == a.node_type
    &&& b.tags == a.tags
    &&& b.parent == a.parent
    &&& b.children == a.children
    &&& b.properties == a.properties
}

/// The node `b` is `a` renamed to `name`.
pub open spec fn with_name(a: SceneNodeData, b: SceneNodeData, name: Seq<char>) -> bool {
    &&& b.name@ == name
    &&& b.id == a.id
    &&& b.node_type == a.node_type
    &&& b.enabled == a.enabled
    &&& b.visible == a.visible
    &&& b.tags == a.tags
    &&& b.parent == a.parent
    &&& b.children == a.children
    &&& b.properties == a.properties
}

/// The cache after renaming node `id` to `name`: its first path is dropped
/// and the path under its parent added; nothing changes when it had none.
pub open spec fn paths_after_rename(ps: Seq<(Seq<char>, NodeId)>, id: NodeId, parent: Option<NodeId>, name: Seq<char>) -> Seq<(Seq<char>, NodeId)> {
    match first_key_of(ps, id) {
        Some(k) => {
            let p1 = path_remove(ps, k);
            path_insert(p1, child_path(p1, parent, name), id)
        },
        None => ps,
    }
}

impl SceneTree {
    /// The existing children of `id`, in order (none when `id` is absent).
    pub fn children_of(&self, id: NodeId) -> (v: Vec<&SceneNodeData>)
        requires
            self.wf(),
        ensures
            v@.map_values(|n: &SceneNodeData| *n) == (if self.spec_nodes().contains_key(id) {
                existing(self.spec_nodes(), self.spec_nodes()[id].children@)
            } else {
                Seq::<SceneNodeData>::empty()
            }),
    {
        let mut v: Vec<&SceneNodeData> = Vec::new();
        match self.get(id) {
            Some(node) => {
                let ghost cs = node.children@;
                let mut i: usize = 0;
                while i < node.children.len()
                    invariant
                        self.wf(),
                        i <= cs.len(),
                        cs == node.children@,
                        v@.map_values(|n: &SceneNodeData| *n) == existing(self.spec_nodes(), cs.take(i as int)),
                    decreases cs.len() - i,
                {
                    let ghost prev = v@.map_values(|n: &SceneNodeData| *n);
                    assert(cs.take(i + 1).drop_last() =~= cs.take(i as int));
                    assert(cs.take(i + 1).last() == cs[i as int]);
                    match self.get(node.children[i]) {
                        Some(c) => {
                            v.push(c);
                            assert(v@.map_values(|n: &SceneNodeData| *n) =~= prev.push(*c));
                        },
                        None => {},
                    }
                    i = i + 1;
                }
                assert(cs.take(cs.len() as int) =~= cs);
            },
            None => {
                assert(v@.map_values(|n: &SceneNodeData| *n) =~= Seq::<SceneNodeData>::empty());
            },
        }
        v
    }

    /// Some node named `name`, if there is one.
    pub fn find_by_name(&self, name: &str) -> (r: Option<&SceneNodeData>)
        requires
            self.wf(),
        ensures
            match r {
                Some(n) => self.spec_nodes().contains_key(n.id) && self.spec_nodes()[n.id] == *n && n.name@ == name@,
                None => forall|id: NodeId| #[trigger] self.spec_nodes().contains_key(id) ==> self.spec_nodes()[id].name@ != name@,
            },
    {
        proof {
            lemma_node_map(self.nodes@);
        }
        let mut i: usize = 0;
        while i < self.nodes.len()
            invariant
                i <= self.nodes@.len(),
                self.wf(),
                forall|j: int| 0 <= j < i ==> self.nodes@[j].name@ != name@,
            decreases self.nodes@.len() - i,
        {
            if str_eq(self.nodes[i].name.as_str(), name) {
                proof {
                    lemma_node_map(self.nodes@);
                }
                return Some(&self.nodes[i]);
            }
            i = i + 1;
        }
        proof {
            assert forall|id: NodeId| #[trigger] self.spec_nodes().contains_key(id) implies self.spec_nodes()[id].name@ != name@ by {
                assert(ids_of(self.nodes@).contains(id));
                let k = choose|k: int| 0 <= k < ids_of(self.nodes@).len() && ids_of(self.nodes@)[k] == id;
                assert(self.nodes@[k].id == id);
            }
        }
        None
    }

    /// The nodes that satisfy the exec test `keep` described by `p`.
    fn select_nodes(&self, tag: Option<&str>, ty: Option<&NodeType>, p: Ghost<spec_fn(SceneNodeData) -> bool>) -> (v: Vec<&SceneNodeData>)
        requires
            self.wf(),
            forall|n: SceneNodeData| #[trigger] p@(n) == (match tag {
                Some(t) => has_tag_in(n.tags@, t@),
                None => true,
            } && match ty {
                Some(t) => same_node_type(n.node_type, *t),
                None => true,
            }),
        ensures
            selects(self.spec_nodes(), p@, v@.map_values(|n: &SceneNodeData| *n)),
    {
        proof {
            lemma_node_map(self.nodes@);
        }
        let mut v: Vec<&SceneNodeData> = Vec::new();
        let mut i: usize = 0;
        while i < self.nodes.len()
            invariant
                i <= self.nodes@.len(),
                self.wf(),
                forall|n: SceneNodeData| #[trigger] p@(n) == (match tag {
                    Some(t) => has_tag_in(n.tags@, t@),
                    None => true,
                } && match ty {
                    Some(t) => same_node_type(n.node_type, *t),
                    None => true,
                }),
                forall|k: int| 0 <= k < v@.len() ==> exists|j: int| 0 <= j < i && #[trigger] v@[k] == &self.nodes@[j],
                forall|j: int| 0 <= j < i && p@(self.nodes@[j]) ==> #[trigger] ref_ids(v@).contains(self.nodes@[j].id),
                forall|k: int| 0 <= k < v@.len() ==> p@(*v@[k]),
                ref_ids(v@).no_duplicates(),
                forall|k: int| 0 <= k < v@.len() ==> ids_of(self.nodes@.take(i as int)).contains(#[trigger] v@[k].id),
            decreases self.nodes@.len() - i,
        {
            let n = &self.nodes[i];
            let keep_tag = match tag {
                Some(t) => strings_contain(&n.tags, t),
                None => true,
            };
            let keep_type = match ty {
                Some(t) => node_types_equal(&n.node_type, t),
                None => true,
            };
            let ghost prev = v@;
            let ghost ids_prev = ref_ids(v@);
            assert(ids_of(self.nodes@.take(i + 1)) =~= ids_of(self.nodes@.take(i as int)).push(n.id));
            if keep_tag && keep_type {
                v.push(n);
                proof {
                    assert(ref_ids(v@) =~= ids_prev.push(n.id));
                    assert(!ids_prev.contains(n.id)) by {
                        if ids_prev.contains(n.id) {
                            let k = choose|k: int| 0 <= k < ids_prev.len() && ids_prev[k] == n.id;
                            assert(prev[k].id == n.id);
                            assert(ids_of(self.nodes@.take(i as int)).contains(n.id));
                            let j = choose|j: int| 0 <= j < ids_of(self.nodes@.take(i as int)).len() && ids_of(self.nodes@.take(i as int))[j] == n.id;
                            assert(ids_of(self.nodes@)[j] == ids_of(self.nodes@)[i as int]);
                        }
                    }
                    assert forall|a: int, b: int| 0 <= a < b < ids_prev.push(n.id).len() implies ids_prev.push(n.id)[a] != ids_prev.push(n.id)[b] by {
                        if b == ids_prev.len() {
                            assert(ids_prev.contains(ids_prev[a]));
                        }
                    }
                    assert(v@[prev.len() as int] == &self.nodes@[i as int]);
                }
            }
            proof {
                assert forall|k: int| 0 <= k < v@.len() implies exists|j: int| 0 <= j < i + 1 && #[trigger] v@[k] == &self.nodes@[j] by {
                    if k < prev.len() {
                        assert(v@[k] == prev[k]);
                    } else {
                        assert(v@[k] == &self.nodes@[i as int]);
                    }
                }
                assert forall|j: int| 0 <= j < i + 1 && p@(self.nodes@[j]) implies #[trigger] ref_ids(v@).contains(self.nodes@[j].id) by {
                    let ids_now = ref_ids(v@);
                    if j < i {
                        assert(ref_ids(prev).contains(self.nodes@[j].id));
                        let k = choose|k: int| 0 <= k < ids_prev.len() && ids_prev[k] == self.nodes@[j].id;
                        assert(ids_now[k] == ids_prev[k]);
                    } else {
                        assert(ids_now[ids_now.len() - 1] == self.nodes@[j].id);
                    }
                }
                assert forall|k: int| 0 <= k < v@.len() implies ids_of(self.nodes@.take(i + 1)).contains(#[trigger] v@[k].id) by {
                    if k < prev.len() {
                        assert(ids_of(self.nodes@.take(i as int)).contains(v@[k].id));
                        let j = choose|j: int| 0 <= j < ids_of(self.nodes@.take(i as int)).len() && ids_of(self.nodes@.take(i as int))[j] == v@[k].id;
                        assert(ids_of(self.nodes@.take(i + 1))[j] == v@[k].id);
                    } else {
                        assert(ids_of(self.nodes@.take(i + 1))[i as int] == v@[k].id);
                    }
                }
            }
            i = i + 1;
        }
        proof {
            let r = v@.map_values(|n: &SceneNodeData| *n);
            assert(ids_of(r) =~= ref_ids(v@));
            assert forall|k: int| 0 <= k < r.len() implies self.spec_nodes().contains_key(#[trigger] r[k].id) && self.spec_nodes()[r[k].id] == r[k] && p@(r[k]) by {
                let j = choose|j: int| 0 <= j < self.nodes@.len() && v@[k] == &self.nodes@[j];
                assert(r[k] == self.nodes@[j]);
            }
            assert forall|id: NodeId| self.spec_nodes().contains_key(id) && p@(self.spec_nodes()[id]) implies #[trigger] ids_of(r).contains(id) by {
                assert(ids_of(self.nodes@).contains(id));
                let j = choose|j: int| 0 <= j < ids_of(self.nodes@).len() && ids_of(self.nodes@)[j] == id;
                assert(self.nodes@[j].id == id);
            }
        }
        v
    }

    /// The nodes that carry the tag `tag`.
    pub fn find_by_tag(&self, tag: &str) -> (v: Vec<&SceneNodeData>)
        requires
            self.wf(),
        ensures
            selects(self.spec_nodes(), |n: SceneNodeData| has_tag_in(n.tags@, tag@), v@.map_values(|n: &SceneNodeData| *n)),
    {
        let ghost p = |n: SceneNodeData| has_tag_in(n.tags@, tag@);
        let v = self.select_nodes(Some(tag), None, Ghost(p));
        v
    }

    /// The nodes of type `node_type`.
    pub fn find_by_type(&self, node_type: &NodeType) -> (v: Vec<&SceneNodeData>)
        requires
            self.wf(),
        ensures
            selects(self.spec_nodes(), |n: SceneNodeData| same_node_type(n.node_type, *node_type), v@.map_values(|n: &SceneNodeData| *n)),
    {
        let ghost p = |n: SceneNodeData| same_node_type(n.node_type, *node_type);
        let v = self.select_nodes(None, Some(node_type), Ghost(p));
        v
    }
}


/// The existing children of `id` in `m`, in order; none when `id` is absent.
pub open spec fn children_in(m: Map<NodeId, SceneNodeData>, id: NodeId) -> Seq<SceneNodeData> {
    if m.contains_key(id) {
        existing(m, m[id].children@)
    } else {
        Seq::<SceneNodeData>::empty()
    }
}

/// The parent recorded on `id`, when `id` is in `m`.
pub open spec fn parent_in(m: Map<NodeId, SceneNodeData>, id: NodeId) -> Option<NodeId> {
    if m.contains_key(id) {
        m[id].parent
    } else {
        None
    }
}

impl SceneTree {
    /// Sets the enabled flag of `id`; `false` when there is no such node.
    pub fn set_enabled(&mut self, id: NodeId, enabled: bool) -> (r: bool)
        requires
            old(self).wf(),
        ensures
            final(self).wf(),
            r == old(self).spec_nodes().contains_key(id),
            r ==> final(self).spec_nodes() == old(self).spec_nodes().insert(id, final(self).spec_nodes()[id]),
            r ==> with_flags(old(self).spec_nodes()[id], final(self).spec_nodes()[id], enabled, old(self).spec_nodes()[id].visible),
            !r ==> final(self).spec_nodes() == old(self).spec_nodes(),
            final(self).spec_paths() == old(self).spec_paths(),
            final(self).spec_root() == old(self).spec_root(),
    {
        match self.node_position(id) {
            Some(i) => {
                let ghost before = self.nodes@;
                self.nodes[i].enabled = enabled;
                proof {
                    let n = self.nodes@[i as int];
                    assert(self.nodes@ == before.update(i as int, n));
                    lemma_node_map_update(before, i as int, n);
                }
                true
            },
            None => false,
        }
    }

    /// Sets the visible flag of `id`; `false` when there is no such node.
    pub fn set_visible(&mut self, id: NodeId, visible: bool) -> (r: bool)
        requires
            old(self).wf(),
        ensures
            final(self).wf(),
            r == old(self).spec_nodes().contains_key(id),
            r ==> final(self).spec_nodes() == old(self).spec_nodes().insert(id, final(self).spec_nodes()[id]),
            r ==> with_flags(old(self).spec_nodes()[id], final(self).spec_nodes()[id], old(self).spec_nodes()[id].enabled, visible),
            !r ==> final(self).spec_nodes() == old(self).spec_nodes(),
            final(self).spec_paths() == old(self).spec_paths(),
            final(self).spec_root() == old(self).spec_root(),
    {
        match self.node_position(id) {
            Some(i) => {
                let ghost before = self.nodes@;
                self.nodes[i].visible = visible;
                proof {
                    let n = self.nodes@[i as int];
                    assert(self.nodes@ == before.update(i as int, n));
                    lemma_node_map_update(before, i as int, n);
                }
                true
            },
            None => false,
        }
    }

    /// The existing children of the parent of `id`, without `id` itself;
    /// none when `id` is absent or has no parent.
    pub fn siblings_of(&self, id: NodeId) -> (v: Vec<&SceneNodeData>)
        requires
            self.wf(),
        ensures
            v@.map_values(|n: &SceneNodeData| *n) == (match parent_in(self.spec_nodes(), id) {
                Some(pid) => without_id(children_in(self.spec_nodes(), pid), id),
                None => Seq::<SceneNodeData>::empty(),
            }),
    {
        let mut v: Vec<&SceneNodeData> = Vec::new();
        let parent = match self.get(id) {
            Some(n) => n.parent,
            None => None,
        };
        match parent {
            Some(pid) => {
                let kids = self.children_of(pid);
                let ghost ks = kids@.map_values(|n: &SceneNodeData| *n);
                let mut i: usize = 0;
                while i < kids.len()
                    invariant
                        i <= kids@.len(),
                        ks == kids@.map_values(|n: &SceneNodeData| *n),
                        v@.map_values(|n: &SceneNodeData| *n) == without_id(ks.take(i as int), id),
                    decreases kids@.len() - i,
                {
                    let ghost prev = v@.map_values(|n: &SceneNodeData| *n);
                    assert(ks.take(i + 1).drop_last() =~= ks.take(i as int));
                    assert(ks.take(i + 1).last() == *kids@[i as int]);
                    let k = kids[i];
                    if k.id != id {
                        v.push(k);
                        assert(v@.map_values(|n: &SceneNodeData| *n) =~= prev.push(*k));
                    }
                    i = i + 1;
                }
                assert(ks.take(ks.len() as int) =~= ks);
            },
            None => {
                assert(v@.map_values(|n: &SceneNodeData| *n) =~= Seq::<SceneNodeData>::empty());
            },
        }
        v
    }

    /// Renames `id` to `new_name` and re-files its first cached path under
    /// its parent. A missing node is refused with `NodeNotFound`.
    pub fn rename_node(&mut self, id: NodeId, new_name: &str) -> (r: Result<(), EngineError>)
        requires
            old(self).wf(),
        ensures
            final(self).wf(),
            final(self).spec_root() == old(self).spec_root(),
            !old(self).spec_nodes().contains_key(id) ==> {
                &&& r matches Err(EngineError::NodeNotFound { path }) && path@ == uuid_text(id.0)
                &&& final(self).spec_nodes() == old(self).spec_nodes()
                &&& final(self).spec_paths() == old(self).spec_paths()
            },
            old(self).spec_nodes().contains_key(id) ==> {
                &&& r is Ok
                &&& final(self).spec_nodes() == old(self).spec_nodes().insert(id, final(self).spec_nodes()[id])
                &&& with_name(old(self).spec_nodes()[id], final(self).spec_nodes()[id], new_name@)
                &&& final(self).spec_paths() == paths_after_rename(old(self).spec_paths(), id,
                    old(self).spec_nodes()[id].parent, new_name@)
            },
    {
        let old_index = self.value_index(id);
        let i = match self.node_position(id) {
            Some(i) => i,
            None => {
                return Err(EngineError::NodeNotFound { path: uuid_string(id.0) });
            },
        };
        let ghost before = self.nodes@;
        self.nodes[i].name = owned(new_name);
        proof {
            let n = self.nodes@[i as int];
            assert(self.nodes@ == before.update(i as int, n));
            lemma_node_map_update(before, i as int, n);
        }
        let parent = self.nodes[i].parent;
        match old_index {
            Some(j) => {
                let ghost ps = self.spec_paths();
                let ghost k = ps[j as int].0;
                proof {
                    lemma_first_key_at(ps, id, j as int);
                    assert forall|jj: int| 0 <= jj < j implies ps[jj].0 != k by {
                        assert(keys_of(ps)[jj] != keys_of(ps)[j as int]);
                    }
                    lemma_path_remove_at(ps, k, j as int);
                    lemma_keys_distinct(ps, k, id);
                }
                self.paths.remove(j);
                assert(self.spec_paths() =~= ps.remove(j as int));
                let path = self.compute_path(parent, new_name);
                self.insert_path(path, id);
            },
            None => {
                proof {
                    lemma_first_key_absent(self.spec_paths(), id);
                }
            },
        }
        Ok(())
    }
}

impl Default for SceneTree {
    fn default() -> (t: SceneTree)
        ensures
            t.wf(),
            t.spec_nodes() == Map::<NodeId, SceneNodeData>::empty(),
            t.spec_root() is None,
            t.spec_paths() == Seq::<(Seq<char>, NodeId)>::empty(),
    {
        SceneTree::new()
    }
}


/// Where the walk up the parent links of `m` from `id` stands after `k`
/// steps. A step leaves a node that is in `m` and has a parent, and goes to
/// that parent; `None` once the walk has stopped.
pub open spec fn climb(m: Map<NodeId, SceneNodeData>, id: NodeId, k: nat) -> Option<NodeId>
    decreases k,
{
    if k == 0 {
        Some(id)
    } else {
        match climb(m, id, (k - 1) as nat) {
            Some(c) => parent_in(m, c),
            None => None,
        }
    }
}

/// The walk up from `id` stops (it runs into no cycle).
pub open spec fn climb_ends(m: Map<NodeId, SceneNodeData>, id: NodeId) -> bool {
    exists|k: nat| #[trigger] climb(m, id, k) is None
}

/// The walk up from `descendant` reaches `ancestor` in one step or more.
pub open spec fn reaches(m: Map<NodeId, SceneNodeData>, descendant: NodeId, ancestor: NodeId) -> bool {
    exists|k: nat| 1 <= k && #[trigger] climb(m, descendant, k) == Some(ancestor)
}

/// After `k` steps up from `id` the walk stands on a node of `m`.
pub open spec fn ancestor_in(m: Map<NodeId, SceneNodeData>, id: NodeId, k: nat) -> bool {
    climb(m, id, k) matches Some(a) && m.contains_key(a)
}

/// A stopped walk stays stopped.
proof fn lemma_climb_stays_none(m: Map<NodeId, SceneNodeData>, id: NodeId, a: nat, b: nat)
    requires
        a <= b,
        climb(m, id, a) is None,
    ensures
        climb(m, id, b) is None,
    decreases b,
{
    if b > a {
        lemma_climb_stays_none(m, id, a, (b - 1) as nat);
    }
}

/// Walking `a + j` steps is walking `a` steps, then `j` from there.
proof fn lemma_climb_shift(m: Map<NodeId, SceneNodeData>, id: NodeId, a: nat, j: nat)
    ensures
        climb(m, id, a + j) == (match climb(m, id, a) {
            Some(c) => climb(m, c, j),
            None => None,
        }),
    decreases j,
{
    if j > 0 {
        lemma_climb_shift(m, id, a, (j - 1) as nat);
        assert((a + j - 1) as nat == a + (j - 1) as nat);
    }
}

/// A walk that comes back to where it stood never stops.
proof fn lemma_climb_periodic(m: Map<NodeId, SceneNodeData>, id: NodeId, a: nat, b: nat, k: nat)
    requires
        a < b,
        climb(m, id, a) is Some,
        climb(m, id, a) == climb(m, id, b),
        a <= k,
    ensures
        climb(m, id, k) is Some,
    decreases k,
{
    if k <= b {
        if climb(m, id, k) is None {
            lemma_climb_stays_none(m, id, k, b);
        }
    } else {
        let c = climb(m, id, a).unwrap();
        let j = (k - b) as nat;
        lemma_climb_shift(m, id, b, j);
        lemma_climb_shift(m, id, a, j);
        assert(b + j == k);
        lemma_climb_periodic(m, id, a, b, a + j);
    }
}

/// The nodes of a walk that stops are all different, and no more than
/// there are nodes: a walk that takes step `s + 1` has `s + 1` distinct
/// nodes of `m` behind it.
proof fn lemma_climb_bound(m: Map<NodeId, SceneNodeData>, id: NodeId, s: nat)
    requires
        climb_ends(m, id),
        climb(m, id, s + 1) is Some,
        m.dom().finite(),
    ensures
        s + 1 <= m.dom().len(),
{
    let q = Seq::new(s + 1, |i: int| climb(m, id, i as nat).unwrap());
    assert forall|i: int| 0 <= i <= s implies #[trigger] climb(m, id, i as nat) is Some && m.contains_key(q[i]) by {
        if climb(m, id, i as nat) is None {
            lemma_climb_stays_none(m, id, i as nat, s + 1);
        }
        if climb(m, id, (i + 1) as nat) is None {
            lemma_climb_stays_none(m, id, (i + 1) as nat, s + 1);
        }
        assert(climb(m, id, (i + 1) as nat) == parent_in(m, climb(m, id, i as nat).unwrap()));
    }
    assert forall|i: int, j: int| 0 <= i < j < q.len() implies q[i] != q[j] by {
        assert(climb(m, id, i as nat) is Some && climb(m, id, j as nat) is Some);
        if q[i] == q[j] {
            let k = choose|k: nat| #[trigger] climb(m, id, k) is None;
            if k < i {
                lemma_climb_stays_none(m, id, k, i as nat);
            } else {
                lemma_climb_periodic(m, id, i as nat, j as nat, k);
            }
        }
    }
    q.unique_seq_to_set();
    assert(q.to_set().subset_of(m.dom())) by {
        assert forall|x: NodeId| q.to_set().contains(x) implies m.dom().contains(x) by {
            let i = choose|i: int| 0 <= i < q.len() && q[i] == x;
            assert(climb(m, id, i as nat) is Some && m.contains_key(q[i]));
        }
    }
    vstd::set_lib::lemma_len_subset(q.to_set(), m.dom());
}

impl SceneTree {
    /// The nodes of the tree are finitely many, as many as are stored.
    proof fn lemma_dom_len(&self)
        requires
            self.wf(),
        ensures
            self.spec_nodes().dom().finite(),
            self.spec_nodes().dom().len() == self.nodes@.len(),
    {
        lemma_node_map(self.nodes@);
        ids_of(self.nodes@).unique_seq_to_set();
        assert(self.spec_nodes().dom() =~= ids_of(self.nodes@).to_set());
    }

    /// The depth of `id`: how many steps up its parent links can be taken
    /// (0 for the root or a missing node).
    pub fn depth_of(&self, id: NodeId) -> (d: usize)
        requires
            self.wf(),
            climb_ends(self.spec_nodes(), id),
        ensures
            climb(self.spec_nodes(), id, d as nat) is Some,
            climb(self.spec_nodes(), id, d as nat + 1) is None,
    {
        let ghost m = self.spec_nodes();
        let ghost kend: nat = choose|k: nat| #[trigger] climb(m, id, k) is None;
        proof {
            self.lemma_dom_len();
        }
        let count = self.nodes.len();
        let mut depth: usize = 0;
        let mut current = id;
        loop
            invariant
                self.wf(),
                m == self.spec_nodes(),
                m.dom().finite(),
                m.dom().len() == count,
                climb_ends(m, id),
                climb(m, id, kend) is None,
                climb(m, id, depth as nat) == Some(current),
            ensures
                climb(m, id, depth as nat) is Some,
                climb(m, id, depth as nat + 1) is None,
            decreases kend - depth,
        {
            proof {
                if kend <= depth as nat {
                    lemma_climb_stays_none(m, id, kend, depth as nat);
                }
            }
            match self.get(current) {
                Some(node) => match node.parent {
                    Some(p) => {
                        proof {
                            assert(climb(m, id, depth as nat + 1) == Some(p));
                            lemma_climb_bound(m, id, depth as nat);
                        }
                        depth = depth + 1;
                        current = p;
                        proof {
                            if kend <= depth as nat {
                                lemma_climb_stays_none(m, id, kend, depth as nat);
                            }
                        }
                    },
                    None => {
                        break;
                    },
                },
                None => {
                    break;
                },
            }
        }
        depth
    }

    /// Whether `ancestor` lies on the walk up the parent links from
    /// `descendant` (one step or more).
    pub fn is_ancestor_of(&self, ancestor: NodeId, descendant: NodeId) -> (r: bool)
        requires
            self.wf(),
            climb_ends(self.spec_nodes(), descendant) || reaches(self.spec_nodes(), descendant, ancestor),
        ensures
            r == reaches(self.spec_nodes(), descendant, ancestor),
    {
        let ghost m = self.spec_nodes();
        let ghost kend: nat = choose|k: nat| #[trigger] climb(m, descendant, k) is None
            || (1 <= k && climb(m, descendant, k) == Some(ancestor));
        proof {
            if climb_ends(m, descendant) {
                let k = choose|k: nat| #[trigger] climb(m, descendant, k) is None;
                assert(climb(m, descendant, k) is None || (1 <= k && climb(m, descendant, k) == Some(ancestor)));
            } else {
                let k = choose|k: nat| 1 <= k && #[trigger] climb(m, descendant, k) == Some(ancestor);
                assert(climb(m, descendant, k) is None || (1 <= k && climb(m, descendant, k) == Some(ancestor)));
            }
        }
        let mut current = descendant;
        let ghost mut steps: nat = 0;
        loop
            invariant
                self.wf(),
                m == self.spec_nodes(),
                climb(m, descendant, kend) is None || (1 <= kend && climb(m, descendant, kend) == Some(ancestor)),
                climb(m, descendant, steps) == Some(current),
                forall|j: nat| 1 <= j <= steps ==> #[trigger] climb(m, descendant, j) != Some(ancestor),
            decreases kend - steps,
        {
            proof {
                if kend <= steps {
                    if climb(m, descendant, kend) is None {
                        lemma_climb_stays_none(m, descendant, kend, steps);
                    }
                }
            }
            match self.get(current) {
                Some(node) => match node.parent {
                    Some(p) => {
                        assert(climb(m, descendant, steps + 1) == Some(p));
                        if p == ancestor {
                            return true;
                        }
                        current = p;
                        proof {
                            steps = steps + 1;
                            if kend <= steps {
                                if climb(m, descendant, kend) is None {
                                    lemma_climb_stays_none(m, descendant, kend, steps);
                                }
                            }
                        }
                    },
                    None => {
                        proof {
                            assert(climb(m, descendant, steps + 1) is None);
                            assert forall|k: nat| 1 <= k implies #[trigger] climb(m, descendant, k) != Some(ancestor) by {
                                if k > steps {
                                    lemma_climb_stays_none(m, descendant, steps + 1, k);
                                }
                            }
                        }
                        return false;
                    },
                },
                None => {
                    proof {
                        assert(climb(m, descendant, steps + 1) is None);
                        assert forall|k: nat| 1 <= k implies #[trigger] climb(m, descendant, k) != Some(ancestor) by {
                            if k > steps {
                                lemma_climb_stays_none(m, descendant, steps + 1, k);
                            }
                        }
                    }
                    return false;
                },
            }
        }
    }

    /// The ancestors of `id` that are in the tree, nearest first: the walk up
    /// the parent links, as far as it stays on nodes of the tree.
    #[verifier::spinoff_prover]
    pub fn ancestors_of(&self, id: NodeId) -> (v: Vec<&SceneNodeData>)
        requires
            self.wf(),
            climb_ends(self.spec_nodes(), id),
        ensures
            forall|i: int| 0 <= i < v@.len() ==> #[trigger] ancestor_in(self.spec_nodes(), id, (i + 1) as nat)
                && *v@[i] == self.spec_nodes()[climb(self.spec_nodes(), id, (i + 1) as nat).unwrap()],
            !ancestor_in(self.spec_nodes(), id, v@.len() + 1),
    {
        let ghost m = self.spec_nodes();
        let ghost kend: nat = choose|k: nat| #[trigger] climb(m, id, k) is None;
        let mut v: Vec<&SceneNodeData> = Vec::new();
        let mut current = id;
        loop
            invariant
                self.wf(),
                m == self.spec_nodes(),
                climb(m, id, kend) is None,
                climb(m, id, v@.len()) == Some(current),
                forall|i: int| 0 <= i < v@.len() ==> #[trigger] ancestor_in(m, id, (i + 1) as nat)
                    && *v@[i] == m[climb(m, id, (i + 1) as nat).unwrap()],
            ensures
                forall|i: int| 0 <= i < v@.len() ==> #[trigger] ancestor_in(m, id, (i + 1) as nat)
                    && *v@[i] == m[climb(m, id, (i + 1) as nat).unwrap()],
                !ancestor_in(m, id, v@.len() + 1),
            decreases kend - v@.len(),
        {
            proof {
                if kend <= v@.len() {
                    lemma_climb_stays_none(m, id, kend, v@.len());
                }
            }
            let node = match self.get(current) {
                Some(n) => n,
                None => {
                    break;
                },
            };
            let pid = match node.parent {
                Some(p) => p,
                None => {
                    break;
                },
            };
            let parent = match self.get(pid) {
                Some(p) => p,
                None => {
                    break;
                },
            };
            let ghost prev = v@;
            assert(climb(m, id, v@.len() + 1) == Some(pid));
            v.push(parent);
            proof {
                assert forall|i: int| 0 <= i < v@.len() implies #[trigger] ancestor_in(m, id, (i + 1) as nat)
                    && *v@[i] == m[climb(m, id, (i + 1) as nat).unwrap()] by {
                    if i < prev.len() {
                        assert(v@[i] == prev[i]);
                    } else {
                        assert(v@[i] == parent);
                        assert((i + 1) as nat == prev.len() + 1);
                        assert(climb(m, id, (i + 1) as nat) == Some(pid));
                        assert(m.contains_key(pid) && *parent == m[pid]);
                    }
                }
                if kend <= v@.len() {
                    lemma_climb_stays_none(m, id, kend, v@.len());
                }
            }
            current = pid;
        }
        v
    }
}


/// Breadth-first visit from the queue `q`: the first id is taken off; a
/// node of `m` is listed and its children queued at the back, a missing id
/// is skipped. `None` when `fuel` such steps do not empty the queue.
pub open spec fn bfs_from(m: Map<NodeId, SceneNodeData>, q: Seq<NodeId>, fuel: nat) -> Option<Seq<NodeId>>
    decreases fuel,
{
    if q.len() == 0 {
        Some(Seq::<NodeId>::empty())
    } else if fuel == 0 {
        None
    } else if m.contains_key(q[0]) {
        match bfs_from(m, q.drop_first() + m[q[0]].children@, (fuel - 1) as nat) {
            Some(o) => Some(seq![q[0]] + o),
            None => None,
        }
    } else {
        bfs_from(m, q.drop_first(), (fuel - 1) as nat)
    }
}

/// The breadth-first visit from `root` ends (it runs into no cycle).
pub open spec fn bfs_ends(m: Map<NodeId, SceneNodeData>, root: Option<NodeId>) -> bool {
    match root {
        Some(r) => exists|f: nat| #[trigger] bfs_from(m, seq![r], f) is Some,
        None => true,
    }
}

/// The breadth-first order of the nodes under `root` (empty without a root).
pub open spec fn bfs_of(m: Map<NodeId, SceneNodeData>, root: Option<NodeId>) -> Seq<NodeId> {
    match root {
        Some(r) => bfs_from(m, seq![r], choose|f: nat| #[trigger] bfs_from(m, seq![r], f) is Some).unwrap(),
        None => Seq::<NodeId>::empty(),
    }
}

/// A visit that ends gives the same order whatever fuel it was given, and
/// lists only nodes of `m`.
proof fn lemma_bfs_unique(m: Map<NodeId, SceneNodeData>, q: Seq<NodeId>, f1: nat, f2: nat)
    requires
        bfs_from(m, q, f1) is Some,
        bfs_from(m, q, f2) is Some,
    ensures
        bfs_from(m, q, f1) == bfs_from(m, q, f2),
        forall|i: int| 0 <= i < bfs_from(m, q, f1).unwrap().len() ==> m.contains_key(#[trigger] bfs_from(m, q, f1).unwrap()[i]),
    decreases f1,
{
    if q.len() > 0 {
        if m.contains_key(q[0]) {
            let q2 = q.drop_first() + m[q[0]].children@;
            lemma_bfs_unique(m, q2, (f1 - 1) as nat, (f2 - 1) as nat);
            let o = bfs_from(m, q2, (f1 - 1) as nat).unwrap();
            assert forall|i: int| 0 <= i < bfs_from(m, q, f1).unwrap().len() implies m.contains_key(#[trigger] bfs_from(m, q, f1).unwrap()[i]) by {
                if i > 0 {
                    assert(bfs_from(m, q, f1).unwrap()[i] == o[i - 1]);
                }
            }
        } else {
            lemma_bfs_unique(m, q.drop_first(), (f1 - 1) as nat, (f2 - 1) as nat);
        }
    }
}

impl SceneTree {
    /// The ids of the nodes under the root in breadth-first order (empty
    /// without a root).
    pub fn bfs_order(&self) -> (order: Vec<NodeId>)
        requires
            self.wf(),
            bfs_ends(self.spec_nodes(), self.spec_root()),
        ensures
            order@ == bfs_of(self.spec_nodes(), self.spec_root()),
            forall|i: int| 0 <= i < order@.len() ==> self.spec_nodes().contains_key(#[trigger] order@[i]),
    {
        let ghost m = self.spec_nodes();
        let mut order: Vec<NodeId> = Vec::new();
        match self.root {
            Some(r) => {
                let ghost f0: nat = choose|f: nat| #[trigger] bfs_from(m, seq![r], f) is Some;
                let ghost total = bfs_from(m, seq![r], f0).unwrap();
                proof {
                    lemma_bfs_unique(m, seq![r], f0, f0);
                }
                let mut queue: Vec<NodeId> = Vec::new();
                queue.push(r);
                assert(queue@.skip(0) =~= seq![r]);
                let mut head: usize = 0;
                let ghost mut fuel: nat = f0;
                while head < queue.len()
                    invariant
                        self.wf(),
                        m == self.spec_nodes(),
                        head <= queue@.len(),
                        bfs_from(m, queue@.skip(head as int), fuel) is Some,
                        order@ + bfs_from(m, queue@.skip(head as int), fuel).unwrap() == total,
                    decreases fuel,
                {
                    let ghost q = queue@.skip(head as int);
                    let id = queue[head];
                    head = head + 1;
                    assert(q[0] == id);
                    assert(queue@.skip(head as int) =~= q.drop_first());
                    match self.get(id) {
                        Some(node) => {
                            let ghost q0 = queue@;
                            let mut j: usize = 0;
                            while j < node.children.len()
                                invariant
                                    j <= node.children@.len(),
                                    head <= q0.len(),
                                    queue@ == q0 + node.children@.take(j as int),
                                decreases node.children@.len() - j,
                            {
                                queue.push(node.children[j]);
                                assert(queue@ =~= q0 + node.children@.take(j + 1));
                                j = j + 1;
                            }
                            assert(node.children@.take(node.children@.len() as int) =~= node.children@);
                            assert(queue@.skip(head as int) =~= q.drop_first() + m[id].children@);
                            let ghost rest = bfs_from(m, queue@.skip(head as int), (fuel - 1) as nat).unwrap();
                            order.push(id);
                            assert(order@ + rest =~= order@.drop_last() + (seq![id] + rest));
                        },
                        None => {},
                    }
                    proof {
                        fuel = (fuel - 1) as nat;
                    }
                }
                assert(queue@.skip(head as int) =~= Seq::<NodeId>::empty());
                assert(order@ =~= total);
            },
            None => {},
        }
        order
    }

    /// The nodes under the root in breadth-first order.
    pub fn iter_bfs(&self) -> (v: Vec<&SceneNodeData>)
        requires
            self.wf(),
            bfs_ends(self.spec_nodes(), self.spec_root()),
        ensures
            v@.len() == bfs_of(self.spec_nodes(), self.spec_root()).len(),
            forall|i: int| 0 <= i < v@.len() ==> *v@[i] == self.spec_nodes()[#[trigger] bfs_of(self.spec_nodes(), self.spec_root())[i]],
    {
        let order = self.bfs_order();
        let mut v: Vec<&SceneNodeData> = Vec::new();
        let mut i: usize = 0;
        while i < order.len()
            invariant
                self.wf(),
                i <= order@.len(),
                v@.len() == i,
                forall|k: int| 0 <= k < order@.len() ==> self.spec_nodes().contains_key(#[trigger] order@[k]),
                forall|k: int| 0 <= k < i ==> *v@[k] == self.spec_nodes()[#[trigger] order@[k]],
            decreases order@.len() - i,
        {
            match self.get(order[i]) {
                Some(n) => {
                    v.push(n);
                },
                None => {
                    assert(self.spec_nodes().contains_key(order@[i as int]));
                },
            }
            i = i + 1;
        }
        v
    }

    /// Copies of the nodes under the root in breadth-first order.
    pub fn flatten(&self) -> (v: Vec<SceneNodeData>)
        requires
            self.wf(),
            bfs_ends(self.spec_nodes(), self.spec_root()),
        ensures
            v@.len() == bfs_of(self.spec_nodes(), self.spec_root()).len(),
            forall|i: int| 0 <= i < v@.len() ==> same_node_data(self.spec_nodes()[#[trigger] bfs_of(self.spec_nodes(), self.spec_root())[i]], v@[i]),
    {
        let order = self.bfs_order();
        let mut v: Vec<SceneNodeData> = Vec::new();
        let mut i: usize = 0;
        while i < order.len()
            invariant
                self.wf(),
                i <= order@.len(),
                v@.len() == i,
                forall|k: int| 0 <= k < order@.len() ==> self.spec_nodes().contains_key(#[trigger] order@[k]),
                forall|k: int| 0 <= k < i ==> same_node_data(self.spec_nodes()[#[trigger] order@[k]], v@[k]),
            decreases order@.len() - i,
        {
            match self.get(order[i]) {
                Some(n) => {
                    v.push(n.clone());
                },
                None => {
                    assert(self.spec_nodes().contains_key(order@[i as int]));
                },
            }
            i = i + 1;
        }
        v
    }
}


/// Depth-first, pre-order list of the ids under `id` (`id` first; a missing
/// id is listed without children). `None` when the nesting is deeper than
/// `fuel`.
pub open spec fn subtree_node(m: Map<NodeId, SceneNodeData>, id: NodeId, fuel: nat) -> Option<Seq<NodeId>>
    decreases fuel, 0nat,
{
    if !m.contains_key(id) {
        Some(seq![id])
    } else if fuel == 0 {
        None
    } else {
        match subtree_list(m, m[id].children@, (fuel - 1) as nat) {
            Some(s) => Some(seq![id] + s),
            None => None,
        }
    }
}

/// The lists of `subtree_node` for each of `cs`, one after the other.
pub open spec fn subtree_list(m: Map<NodeId, SceneNodeData>, cs: Seq<NodeId>, fuel: nat) -> Option<Seq<NodeId>>
    decreases fuel, cs.len(),
{
    if cs.len() == 0 {
        Some(Seq::<NodeId>::empty())
    } else {
        match subtree_node(m, cs[0], fuel) {
            Some(a) => match subtree_list(m, cs.drop_first(), fuel) {
                Some(b) => Some(a + b),
                None => None,
            },
            None => None,
        }
    }
}

/// The walk down from `id` ends (it runs into no cycle).
pub open spec fn subtree_ends(m: Map<NodeId, SceneNodeData>, id: NodeId) -> bool {
    exists|f: nat| #[trigger] subtree_node(m, id, f) is Some
}

/// The ids of `id` and everything below it, depth-first, pre-order.
pub open spec fn subtree_of(m: Map<NodeId, SceneNodeData>, id: NodeId) -> Seq<NodeId> {
    subtree_node(m, id, choose|f: nat| #[trigger] subtree_node(m, id, f) is Some).unwrap()
}

proof fn lemma_subtree_node_unique(m: Map<NodeId, SceneNodeData>, id: NodeId, f1: nat, f2: nat)
    requires
        subtree_node(m, id, f1) is Some,
        subtree_node(m, id, f2) is Some,
    ensures
        subtree_node(m, id, f1) == subtree_node(m, id, f2),
    decreases f1, 0nat,
{
    if m.contains_key(id) {
        lemma_subtree_list_unique(m, m[id].children@, (f1 - 1) as nat, (f2 - 1) as nat);
    }
}

proof fn lemma_subtree_list_unique(m: Map<NodeId, SceneNodeData>, cs: Seq<NodeId>, f1: nat, f2: nat)
    requires
        subtree_list(m, cs, f1) is Some,
        subtree_list(m, cs, f2) is Some,
    ensures
        subtree_list(m, cs, f1) == subtree_list(m, cs, f2),
    decreases f1, cs.len(),
{
    if cs.len() > 0 {
        lemma_subtree_node_unique(m, cs[0], f1, f2);
        lemma_subtree_list_unique(m, cs.drop_first(), f1, f2);
    }
}

/// Keeps the nodes whose ids are not in `gone`.
pub open spec fn kept_node(gone: Seq<NodeId>) -> spec_fn(SceneNodeData) -> bool {
    |n: SceneNodeData| !gone.contains(n.id)
}

/// Keeps the cache entries whose ids are not in `gone`.
pub open spec fn kept_path(gone: Seq<NodeId>) -> spec_fn((Seq<char>, NodeId)) -> bool {
    |e: (Seq<char>, NodeId)| !gone.contains(e.1)
}

/// Keeps the ids other than `x`.
pub open spec fn other_than(x: NodeId) -> spec_fn(NodeId) -> bool {
    |c: NodeId| c != x
}

/// One more element considered by a filter.
proof fn lemma_filter_take<A>(s: Seq<A>, p: spec_fn(A) -> bool, k: int)
    requires
        0 <= k < s.len(),
    ensures
        s.take(k + 1).filter(p) == (if p(s[k]) {
            s.take(k).filter(p).push(s[k])
        } else {
            s.take(k).filter(p)
        }),
{
    reveal(Seq::filter);
    assert(s.take(k + 1).drop_last() =~= s.take(k));
    assert(s.take(k + 1).last() == s[k]);
}

/// Filtering keeps keys among the old ones, and distinct keys distinct.
proof fn lemma_filter_keys<A, K>(s: Seq<A>, p: spec_fn(A) -> bool, f: spec_fn(A) -> K)
    ensures
        forall|x: K| s.filter(p).map_values(f).contains(x) ==> s.map_values(f).contains(x),
        s.map_values(f).no_duplicates() ==> s.filter(p).map_values(f).no_duplicates(),
    decreases s.len(),
{
    reveal(Seq::filter);
    if s.len() == 0 {
        assert(s.filter(p).map_values(f) =~= Seq::<K>::empty());
    } else {
        let init = s.drop_last();
        lemma_filter_keys(init, p, f);
        let fi = init.filter(p).map_values(f);
        assert(init.map_values(f) =~= s.map_values(f).drop_last());
        assert forall|x: K| init.map_values(f).contains(x) implies s.map_values(f).contains(x) by {
            let j = choose|j: int| 0 <= j < init.map_values(f).len() && init.map_values(f)[j] == x;
            assert(s.map_values(f)[j] == x);
        }
        if p(s.last()) {
            assert(s.filter(p).map_values(f) =~= fi.push(f(s.last())));
            assert forall|x: K| s.filter(p).map_values(f).contains(x) implies s.map_values(f).contains(x) by {
                let j = choose|j: int| 0 <= j < s.filter(p).map_values(f).len() && s.filter(p).map_values(f)[j] == x;
                if j == fi.len() {
                    assert(s.map_values(f)[s.len() - 1] == x);
                } else {
                    assert(fi[j] == x);
                }
            }
            if s.map_values(f).no_duplicates() {
                assert(!init.map_values(f).contains(f(s.last()))) by {
                    if init.map_values(f).contains(f(s.last())) {
                        let j = choose|j: int| 0 <= j < init.map_values(f).len() && init.map_values(f)[j] == f(s.last());
                        assert(s.map_values(f)[j] == s.map_values(f)[s.len() - 1]);
                    }
                }
                assert(init.map_values(f).no_duplicates()) by {
                    assert forall|a: int, b: int| 0 <= a < b < init.map_values(f).len() implies init.map_values(f)[a] != init.map_values(f)[b] by {
                        assert(s.map_values(f)[a] == init.map_values(f)[a]);
                        assert(s.map_values(f)[b] == init.map_values(f)[b]);
                    }
                }
                let fp = fi.push(f(s.last()));
                assert forall|a: int, b: int| 0 <= a < b < fp.len() implies #[trigger] fp[a] != #[trigger] fp[b] by {
                    if b == fi.len() {
                        assert(fi.contains(fi[a]));
                    }
                }
            }
        } else {
            assert(s.filter(p) == init.filter(p));
            if s.map_values(f).no_duplicates() {
                assert(init.map_values(f).no_duplicates()) by {
                    assert forall|a: int, b: int| 0 <= a < b < init.map_values(f).len() implies init.map_values(f)[a] != init.map_values(f)[b] by {
                        assert(s.map_values(f)[a] == init.map_values(f)[a]);
                        assert(s.map_values(f)[b] == init.map_values(f)[b]);
                    }
                }
            }
        }
    }
}

/// Dropping the nodes of ids in `gone` drops those keys of the node map.
proof fn lemma_node_map_filter(ns: Seq<SceneNodeData>, gone: Seq<NodeId>)
    ensures
        node_map(ns.filter(kept_node(gone))) == node_map(ns).remove_keys(gone.to_set()),
    decreases ns.len(),
{
    reveal(Seq::filter);
    if ns.len() == 0 {
        assert(node_map(ns).remove_keys(gone.to_set()) =~= Map::<NodeId, SceneNodeData>::empty());
    } else {
        let init = ns.drop_last();
        lemma_node_map_filter(init, gone);
        if kept_node(gone)(ns.last()) {
            let fi = init.filter(kept_node(gone));
            assert(fi.push(ns.last()).drop_last() =~= fi);
            assert(node_map(ns.filter(kept_node(gone))) =~= node_map(ns).remove_keys(gone.to_set()));
        } else {
            assert(node_map(ns.filter(kept_node(gone))) =~= node_map(ns).remove_keys(gone.to_set()));
        }
    }
}

impl SceneTree {
    /// Appends to `out` the ids under `id`, depth-first, pre-order.
    fn collect_subtree(&self, id: NodeId, out: &mut Vec<NodeId>, Ghost(fuel): Ghost<nat>)
        requires
            self.wf(),
            subtree_node(self.spec_nodes(), id, fuel) is Some,
        ensures
            final(out)@ == old(out)@ + subtree_node(self.spec_nodes(), id, fuel).unwrap(),
        decreases fuel,
    {
        let ghost m = self.spec_nodes();
        let ghost start = out@;
        out.push(id);
        match self.get(id) {
            Some(node) => {
                let ghost cs = node.children@;
                assert(cs == m[id].children@);
                assert(cs.skip(0) =~= cs);
                proof {
                    let l = subtree_list(m, cs, (fuel - 1) as nat).unwrap();
                    assert(out@ + l =~= start + (seq![id] + l));
                }
                let mut i: usize = 0;
                while i < node.children.len()
                    invariant
                        self.wf(),
                        m == self.spec_nodes(),
                        m.contains_key(id),
                        fuel > 0,
                        cs == node.children@,
                        i <= cs.len(),
                        subtree_list(m, cs.skip(i as int), (fuel - 1) as nat) is Some,
                        out@ + subtree_list(m, cs.skip(i as int), (fuel - 1) as nat).unwrap()
                            == start + subtree_node(m, id, fuel).unwrap(),
                    decreases cs.len() - i,
                {
                    let c = node.children[i];
                    let ghost before = out@;
                    assert(cs.skip(i as int)[0] == c);
                    assert(cs.skip(i as int).drop_first() =~= cs.skip(i + 1));
                    self.collect_subtree(c, out, Ghost((fuel - 1) as nat));
                    i = i + 1;
                    proof {
                        let a = subtree_node(m, c, (fuel - 1) as nat).unwrap();
                        let b = subtree_list(m, cs.skip(i as int), (fuel - 1) as nat).unwrap();
                        assert(out@ + b =~= before + (a + b));
                    }
                }
                assert(cs.skip(cs.len() as int) =~= Seq::<NodeId>::empty());
                assert(out@ =~= start + subtree_node(m, id, fuel).unwrap());
            },
            None => {
                assert(out@ =~= start + subtree_node(m, id, fuel).unwrap());
            },
        }
    }
}

/// Whether `id` occurs in `ids`.
fn ids_contain(ids: &Vec<NodeId>, id: NodeId) -> (r: bool)
    ensures
        r == ids@.contains(id),
{
    let mut i: usize = 0;
    while i < ids.len()
        invariant
            i <= ids@.len(),
            forall|j: int| 0 <= j < i ==> ids@[j] != id,
        decreases ids@.len() - i,
    {
        if ids[i] == id {
            assert(ids@[i as int] == id);
            return true;
        }
        i = i + 1;
    }
    false
}


/// Removing `id` detaches it from `k`: `id` is in `m` and names `k`, also in
/// `m`, as its parent.
pub open spec fn detaches(m: Map<NodeId, SceneNodeData>, id: NodeId, k: NodeId) -> bool {
    m.contains_key(id) && m[id].parent == Some(k) && m.contains_key(k)
}

/// `cs` without the occurrences of `x`, order kept.
fn without_child(cs: &Vec<NodeId>, x: NodeId) -> (r: Vec<NodeId>)
    ensures
        r@ == cs@.filter(other_than(x)),
{
    let mut r: Vec<NodeId> = Vec::new();
    let mut i: usize = 0;
    assert(cs@.take(0).filter(other_than(x)) =~= Seq::<NodeId>::empty()) by {
        reveal(Seq::filter);
    }
    while i < cs.len()
        invariant
            i <= cs@.len(),
            r@ == cs@.take(i as int).filter(other_than(x)),
        decreases cs@.len() - i,
    {
        proof {
            lemma_filter_take(cs@, other_than(x), i as int);
        }
        if cs[i] != x {
            r.push(cs[i]);
        }
        i = i + 1;
    }
    assert(cs@.take(cs@.len() as int) =~= cs@);
    r
}

impl SceneTree {
    /// Removes `id` and everything below it, detaching `id` from its parent's
    /// children, and drops their cached paths. The root id is left as it is.
    pub fn remove_node(&mut self, id: NodeId) -> (r: Result<(), EngineError>)
        requires
            old(self).wf(),
            subtree_ends(old(self).spec_nodes(), id),
        ensures
            final(self).wf(),
            r is Ok,
            final(self).spec_root() == old(self).spec_root(),
            final(self).spec_paths() == old(self).spec_paths().filter(kept_path(subtree_of(old(self).spec_nodes(), id))),
            final(self).spec_nodes().dom() == old(self).spec_nodes().dom().difference(subtree_of(old(self).spec_nodes(), id).to_set()),
            !final(self).spec_nodes().contains_key(id),
            forall|k: NodeId| #[trigger] final(self).spec_nodes().contains_key(k) ==> (if detaches(old(self).spec_nodes(), id, k) {
                with_children(old(self).spec_nodes()[k], final(self).spec_nodes()[k], old(self).spec_nodes()[k].children@.filter(other_than(id)))
            } else {
                final(self).spec_nodes()[k] == old(self).spec_nodes()[k]
            }),
    {
        let ghost m = self.spec_nodes();
        let ghost f: nat = choose|f: nat| #[trigger] subtree_node(m, id, f) is Some;
        let mut gone: Vec<NodeId> = Vec::new();
        self.collect_subtree(id, &mut gone, Ghost(f));
        let ghost g = gone@;
        assert(g =~= subtree_of(m, id));
        proof {
            lemma_subtree_first(m, id, f);
            assert(g[0] == id);
            assert(g.to_set().contains(id));
        }
        let parent = match self.get(id) {
            Some(n) => n.parent,
            None => None,
        };
        match parent {
            Some(pid) => match self.node_position(pid) {
                Some(i) => {
                    let kept = without_child(&self.nodes[i].children, id);
                    let ghost before = self.nodes@;
                    self.nodes[i].children = kept;
                    proof {
                        let n = self.nodes@[i as int];
                        assert(self.nodes@ == before.update(i as int, n));
                        lemma_node_map_update(before, i as int, n);
                        assert(detaches(m, id, pid));
                        assert(with_children(m[pid], n, m[pid].children@.filter(other_than(id))));
                    }
                },
                None => {},
            },
            None => {},
        }
        let ghost m1 = self.spec_nodes();
        assert(m1.dom() =~= m.dom());
        assert(forall|k: NodeId| #[trigger] m1.contains_key(k) ==> (if detaches(m, id, k) {
            with_children(m[k], m1[k], m[k].children@.filter(other_than(id)))
        } else {
            m1[k] == m[k]
        }));
        // Drop the nodes of the subtree.
        let ghost ns0 = self.nodes@;
        let ghost paths0 = self.paths@;
        let ghost root0 = self.root;
        let ghost mut p: int = 0;
        let mut i: usize = 0;
        assert(ns0.take(0).filter(kept_node(g)) =~= Seq::<SceneNodeData>::empty()) by {
            reveal(Seq::filter);
        }
        assert(ns0.skip(0) =~= ns0);
        while i < self.nodes.len()
            invariant
                0 <= p <= ns0.len(),
                gone@ == g,
                i == ns0.take(p).filter(kept_node(g)).len(),
                self.nodes@ == ns0.take(p).filter(kept_node(g)) + ns0.skip(p),
                self.paths@ == paths0,
                self.root == root0,
            decreases ns0.len() - p,
        {
            proof {
                lemma_filter_take(ns0, kept_node(g), p);
                assert(self.nodes@[i as int] == ns0[p]);
            }
            let keep = !ids_contain(&gone, self.nodes[i].id);
            if keep {
                i = i + 1;
                proof {
                    assert(self.nodes@ =~= ns0.take(p + 1).filter(kept_node(g)) + ns0.skip(p + 1));
                }
            } else {
                let ghost before = self.nodes@;
                let _removed = self.nodes.remove(i);
                proof {
                    assert(self.nodes@ =~= ns0.take(p + 1).filter(kept_node(g)) + ns0.skip(p + 1));
                }
            }
            proof {
                p = p + 1;
            }
        }
        proof {
            if p < ns0.len() {
                assert(self.nodes@.len() == i + ns0.len() - p);
            }
            assert(ns0.take(p) =~= ns0);
            assert(ns0.skip(p) =~= Seq::<SceneNodeData>::empty());
            assert(self.nodes@ =~= ns0.filter(kept_node(g)));
            lemma_node_map_filter(ns0, g);
            lemma_filter_keys(ns0, kept_node(g), |n: SceneNodeData| n.id);
            assert(ids_of(ns0) =~= ns0.map_values(|n: SceneNodeData| n.id));
            assert(ids_of(self.nodes@) =~= ns0.filter(kept_node(g)).map_values(|n: SceneNodeData| n.id));
        }
        // Drop their cached paths.
        let ghost ps0 = self.spec_paths();
        let ghost nodes1 = self.nodes@;
        assert(self.spec_nodes() == m1.remove_keys(g.to_set()));
        let ghost mut q: int = 0;
        let mut j: usize = 0;
        assert(ps0.take(0).filter(kept_path(g)) =~= Seq::<(Seq<char>, NodeId)>::empty()) by {
            reveal(Seq::filter);
        }
        assert(ps0.skip(0) =~= ps0);
        while j < self.paths.len()
            invariant
                0 <= q <= ps0.len(),
                gone@ == g,
                j == ps0.take(q).filter(kept_path(g)).len(),
                self.spec_paths() == ps0.take(q).filter(kept_path(g)) + ps0.skip(q),
                self.nodes@ == nodes1,
                self.root == root0,
            decreases ps0.len() - q,
        {
            proof {
                lemma_filter_take(ps0, kept_path(g), q);
                assert(self.spec_paths()[j as int] == ps0[q]);
            }
            let keep = !ids_contain(&gone, self.paths[j].1);
            if keep {
                j = j + 1;
                proof {
                    assert(self.spec_paths() =~= ps0.take(q + 1).filter(kept_path(g)) + ps0.skip(q + 1));
                }
            } else {
                let ghost before = self.spec_paths();
                let _removed = self.paths.remove(j);
                proof {
                    assert(self.spec_paths() =~= before.remove(j as int));
                    assert(self.spec_paths() =~= ps0.take(q + 1).filter(kept_path(g)) + ps0.skip(q + 1));
                }
            }
            proof {
                q = q + 1;
            }
        }
        proof {
            if q < ps0.len() {
                assert(self.spec_paths().len() == j + ps0.len() - q);
            }
            assert(ps0.take(q) =~= ps0);
            assert(ps0.skip(q) =~= Seq::<(Seq<char>, NodeId)>::empty());
            assert(self.spec_paths() =~= ps0.filter(kept_path(g)));
            lemma_filter_keys(ps0, kept_path(g), |e: (Seq<char>, NodeId)| e.0);
            assert(keys_of(ps0) =~= ps0.map_values(|e: (Seq<char>, NodeId)| e.0));
            assert(keys_of(self.spec_paths()) =~= ps0.filter(kept_path(g)).map_values(|e: (Seq<char>, NodeId)| e.0));
            assert(self.spec_nodes().dom() =~= m.dom().difference(g.to_set()));
        }
        Ok(())
    }
}


/// What the path cache is built from: each node's name and children.
pub open spec fn shape(m: Map<NodeId, SceneNodeData>) -> Map<NodeId, (Seq<char>, Seq<NodeId>)> {
    m.map_values(|n: SceneNodeData| (n.name@, n.children@))
}

/// The path of a node named `name` filed under the path `pp`: `/name` under
/// `/`, `pp/name` otherwise.
pub open spec fn joined_path(pp: Seq<char>, name: Seq<char>) -> Seq<char> {
    if pp == seq!['/'] {
        seq!['/'] + name
    } else {
        pp + seq!['/'] + name
    }
}

/// The cache `ps` after filing `id` under the path `pp` and then,
/// depth-first, its children under its own path; a missing id files
/// nothing. `None` when the nesting is deeper than `fuel`.
pub open spec fn file_node(sh: Map<NodeId, (Seq<char>, Seq<NodeId>)>, id: NodeId, pp: Seq<char>, ps: Seq<(Seq<char>, NodeId)>, fuel: nat) -> Option<Seq<(Seq<char>, NodeId)>>
    decreases fuel, 0nat,
{
    if !sh.contains_key(id) {
        Some(ps)
    } else if fuel == 0 {
        None
    } else {
        let path = joined_path(pp, sh[id].0);
        file_list(sh, sh[id].1, path, path_insert(ps, path, id), (fuel - 1) as nat)
    }
}

/// `file_node` for each of `cs`, one after the other.
pub open spec fn file_list(sh: Map<NodeId, (Seq<char>, Seq<NodeId>)>, cs: Seq<NodeId>, pp: Seq<char>, ps: Seq<(Seq<char>, NodeId)>, fuel: nat) -> Option<Seq<(Seq<char>, NodeId)>>
    decreases fuel, cs.len(),
{
    if cs.len() == 0 {
        Some(ps)
    } else {
        match file_node(sh, cs[0], pp, ps, fuel) {
            Some(ps1) => file_list(sh, cs.drop_first(), pp, ps1, fuel),
            None => None,
        }
    }
}

/// Rebuilding the cache from `root` ends (the walk down runs into no cycle).
pub open spec fn rebuild_ends(sh: Map<NodeId, (Seq<char>, Seq<NodeId>)>, root: Option<NodeId>) -> bool {
    match root {
        Some(r) => exists|f: nat| #[trigger] file_node(sh, r, seq!['/'], Seq::empty(), f) is Some,
        None => true,
    }
}

/// The cache rebuilt from scratch: every node reachable from `root`, filed
/// depth-first under its parent's path.
pub open spec fn rebuilt_paths(sh: Map<NodeId, (Seq<char>, Seq<NodeId>)>, root: Option<NodeId>) -> Seq<(Seq<char>, NodeId)> {
    match root {
        Some(r) => file_node(sh, r, seq!['/'], Seq::empty(), choose|f: nat| #[trigger] file_node(sh, r, seq!['/'], Seq::empty(), f) is Some).unwrap(),
        None => Seq::empty(),
    }
}

proof fn lemma_file_node_unique(sh: Map<NodeId, (Seq<char>, Seq<NodeId>)>, id: NodeId, pp: Seq<char>, ps: Seq<(Seq<char>, NodeId)>, f1: nat, f2: nat)
    requires
        file_node(sh, id, pp, ps, f1) is Some,
        file_node(sh, id, pp, ps, f2) is Some,
    ensures
        file_node(sh, id, pp, ps, f1) == file_node(sh, id, pp, ps, f2),
    decreases f1, 0nat,
{
    if sh.contains_key(id) {
        let path = joined_path(pp, sh[id].0);
        lemma_file_list_unique(sh, sh[id].1, path, path_insert(ps, path, id), (f1 - 1) as nat, (f2 - 1) as nat);
    }
}

proof fn lemma_file_list_unique(sh: Map<NodeId, (Seq<char>, Seq<NodeId>)>, cs: Seq<NodeId>, pp: Seq<char>, ps: Seq<(Seq<char>, NodeId)>, f1: nat, f2: nat)
    requires
        file_list(sh, cs, pp, ps, f1) is Some,
        file_list(sh, cs, pp, ps, f2) is Some,
    ensures
        file_list(sh, cs, pp, ps, f1) == file_list(sh, cs, pp, ps, f2),
    decreases f1, cs.len(),
{
    if cs.len() > 0 {
        lemma_file_node_unique(sh, cs[0], pp, ps, f1, f2);
        let ps1 = file_node(sh, cs[0], pp, ps, f1).unwrap();
        lemma_file_list_unique(sh, cs.drop_first(), pp, ps1, f1, f2);
    }
}

impl SceneTree {
    /// Files `id` under the path `parent_path`, then its children under its
    /// own path, depth-first.
    fn file_subtree(&mut self, id: NodeId, parent_path: &str, Ghost(fuel): Ghost<nat>)
        requires
            old(self).wf(),
            file_node(shape(old(self).spec_nodes()), id, parent_path@, old(self).spec_paths(), fuel) is Some,
        ensures
            final(self).wf(),
            final(self).spec_paths() == file_node(shape(old(self).spec_nodes()), id, parent_path@, old(self).spec_paths(), fuel).unwrap(),
            final(self).spec_nodes() == old(self).spec_nodes(),
            final(self).spec_root() == old(self).spec_root(),
        decreases fuel,
    {
        let ghost m = self.spec_nodes();
        let ghost sh = shape(m);
        let ghost target = file_node(sh, id, parent_path@, self.spec_paths(), fuel).unwrap();
        let (name, children) = match self.get(id) {
            Some(n) => (n.name.clone(), copy_ids(&n.children)),
            None => {
                return;
            },
        };
        assert(sh.contains_key(id) && sh[id] == (name@, children@));
        let slash = "/";
        proof {
            reveal_strlit("/");
            assert(slash@ =~= seq!['/']);
        }
        let mut path = if str_eq(parent_path, slash) {
            owned(slash)
        } else {
            let mut p = owned(parent_path);
            p.append(slash);
            p
        };
        path.append(name.as_str());
        assert(path@ =~= joined_path(parent_path@, name@));
        self.insert_path(path.clone(), id);
        let ghost cs = children@;
        assert(cs.skip(0) =~= cs);
        let mut i: usize = 0;
        while i < children.len()
            invariant
                self.wf(),
                m == self.spec_nodes(),
                self.spec_root() == old(self).spec_root(),
                sh == shape(m),
                fuel > 0,
                cs == children@,
                i <= cs.len(),
                file_list(sh, cs.skip(i as int), path@, self.spec_paths(), (fuel - 1) as nat) == Some(target),
            decreases cs.len() - i,
        {
            let c = children[i];
            assert(cs.skip(i as int)[0] == c);
            assert(cs.skip(i as int).drop_first() =~= cs.skip(i + 1));
            self.file_subtree(c, path.as_str(), Ghost((fuel - 1) as nat));
            i = i + 1;
        }
        assert(cs.skip(cs.len() as int) =~= Seq::<NodeId>::empty());
    }

    /// Rebuilds the path cache from the root.
    fn rebuild_path_cache(&mut self)
        requires
            old(self).wf(),
            rebuild_ends(shape(old(self).spec_nodes()), old(self).spec_root()),
        ensures
            final(self).wf(),
            final(self).spec_paths() == rebuilt_paths(shape(old(self).spec_nodes()), old(self).spec_root()),
            final(self).spec_nodes() == old(self).spec_nodes(),
            final(self).spec_root() == old(self).spec_root(),
    {
        self.paths = Vec::new();
        assert(self.spec_paths() =~= Seq::<(Seq<char>, NodeId)>::empty());
        assert(keys_of(self.spec_paths()) =~= Seq::<Seq<char>>::empty());
        match self.root {
            Some(r) => {
                let ghost sh = shape(self.spec_nodes());
                let ghost f: nat = choose|f: nat| #[trigger] file_node(sh, r, seq!['/'], Seq::empty(), f) is Some;
                let slash = "/";
                proof {
                    reveal_strlit("/");
                    assert(slash@ =~= seq!['/']);
                }
                self.file_subtree(r, slash, Ghost(f));
            },
            None => {},
        }
    }
}


/// The shape after moving `id` under `np`: `id` leaves the children of the
/// parent it names (when both are in the tree) and is appended to those of
/// `np` (when `np` is in the tree).
pub open spec fn moved_shape(m: Map<NodeId, SceneNodeData>, id: NodeId, np: Option<NodeId>) -> Map<NodeId, (Seq<char>, Seq<NodeId>)> {
    let sh = shape(m);
    let sh1 = match parent_in(m, id) {
        Some(op) => if sh.contains_key(op) {
            sh.insert(op, (sh[op].0, sh[op].1.filter(other_than(id))))
        } else {
            sh
        },
        None => sh,
    };
    match np {
        Some(p) => if sh1.contains_key(p) {
            sh1.insert(p, (sh1[p].0, sh1[p].1.push(id)))
        } else {
            sh1
        },
        None => sh1,
    }
}

/// `b` is `a` up to its parent and children.
pub open spec fn same_but_links(a: SceneNodeData, b: SceneNodeData) -> bool {
    &&& b.id == a.id
    &&& b.name == a.name
    &&& b.node_type == a.node_type
    &&& b.enabled == a.enabled
    &&& b.visible == a.visible
    &&& b.tags == a.tags
    &&& b.properties == a.properties
}

impl SceneTree {
    /// Moves `id` under `new_parent` (or to the top level) and rebuilds the
    /// path cache from the root. `id` first leaves the children of its old
    /// parent; a new parent that is not in the tree is then refused with
    /// `NodeNotFound`, the cache left as it was.
    pub fn reparent(&mut self, id: NodeId, new_parent: Option<NodeId>) -> (r: Result<(), EngineError>)
        requires
            old(self).wf(),
            (new_parent matches Some(p) ==> old(self).spec_nodes().contains_key(p))
                ==> rebuild_ends(moved_shape(old(self).spec_nodes(), id, new_parent), old(self).spec_root()),
        ensures
            final(self).wf(),
            final(self).spec_root() == old(self).spec_root(),
            final(self).spec_nodes().dom() == old(self).spec_nodes().dom(),
            match new_parent {
                Some(p) => !old(self).spec_nodes().contains_key(p) ==> {
                    &&& r matches Err(EngineError::NodeNotFound { path }) && path@ == uuid_text(p.0)
                    &&& final(self).spec_paths() == old(self).spec_paths()
                    &&& forall|k: NodeId| #[trigger] final(self).spec_nodes().contains_key(k) ==> (if detaches(old(self).spec_nodes(), id, k) {
                        with_children(old(self).spec_nodes()[k], final(self).spec_nodes()[k], old(self).spec_nodes()[k].children@.filter(other_than(id)))
                    } else {
                        final(self).spec_nodes()[k] == old(self).spec_nodes()[k]
                    })
                },
                None => true,
            },
            (new_parent matches Some(p) ==> old(self).spec_nodes().contains_key(p)) ==> {
                &&& r is Ok
                &&& shape(final(self).spec_nodes()) == moved_shape(old(self).spec_nodes(), id, new_parent)
                &&& forall|k: NodeId| #[trigger] final(self).spec_nodes().contains_key(k) ==>
                    same_but_links(old(self).spec_nodes()[k], final(self).spec_nodes()[k])
                    && final(self).spec_nodes()[k].parent == (if k == id { new_parent } else { old(self).spec_nodes()[k].parent })
                &&& final(self).spec_paths() == rebuilt_paths(moved_shape(old(self).spec_nodes(), id, new_parent), old(self).spec_root())
            },
    {
        let ghost m = self.spec_nodes();
        let ghost sh = shape(m);
        let old_parent = match self.get(id) {
            Some(n) => n.parent,
            None => None,
        };
        match old_parent {
            Some(op) => match self.node_position(op) {
                Some(i) => {
                    let kept = without_child(&self.nodes[i].children, id);
                    let ghost before = self.nodes@;
                    self.nodes[i].children = kept;
                    proof {
                        let n = self.nodes@[i as int];
                        assert(self.nodes@ == before.update(i as int, n));
                        lemma_node_map_update(before, i as int, n);
                    }
                },
                None => {},
            },
            None => {},
        }
        let ghost m1 = self.spec_nodes();
        let ghost sh1 = match parent_in(m, id) {
            Some(op) => if sh.contains_key(op) {
                sh.insert(op, (sh[op].0, sh[op].1.filter(other_than(id))))
            } else {
                sh
            },
            None => sh,
        };
        assert(shape(m1) =~= sh1);
        assert(m1.dom() =~= m.dom());
        assert(forall|k: NodeId| #[trigger] m1.contains_key(k) ==> (if detaches(m, id, k) {
            with_children(m[k], m1[k], m[k].children@.filter(other_than(id)))
        } else {
            m1[k] == m[k]
        }));
        match new_parent {
            Some(p) => match self.node_position(p) {
                Some(i) => {
                    let ghost before = self.nodes@;
                    self.nodes[i].children.push(id);
                    proof {
                        let n = self.nodes@[i as int];
                        assert(self.nodes@ == before.update(i as int, n));
                        lemma_node_map_update(before, i as int, n);
                    }
                },
                None => {
                    return Err(EngineError::NodeNotFound { path: uuid_string(p.0) });
                },
            },
            None => {},
        }
        let ghost m2 = self.spec_nodes();
        assert(shape(m2) =~= moved_shape(m, id, new_parent));
        match self.node_position(id) {
            Some(i) => {
                let ghost before = self.nodes@;
                self.nodes[i].parent = new_parent;
                proof {
                    let n = self.nodes@[i as int];
                    assert(self.nodes@ == before.update(i as int, n));
                    lemma_node_map_update(before, i as int, n);
                }
            },
            None => {},
        }
        let ghost m3 = self.spec_nodes();
        assert(shape(m3) =~= moved_shape(m, id, new_parent));
        assert(m3.dom() =~= m.dom());
        self.rebuild_path_cache();
        Ok(())
    }

    /// A tree of the given nodes (a later node replaces an earlier one of the
    /// same id) and root, with its path cache built from the root.
    pub fn from_flat(nodes: Vec<SceneNodeData>, root_id: Option<NodeId>) -> (t: SceneTree)
        requires
            rebuild_ends(shape(node_map(nodes@)), root_id),
        ensures
            t.wf(),
            t.spec_nodes() == node_map(nodes@),
            t.spec_root() == root_id,
            t.spec_paths() == rebuilt_paths(shape(node_map(nodes@)), root_id),
    {
        let ghost all = nodes@;
        let mut nodes = nodes;
        let mut t = SceneTree::new();
        t.root = root_id;
        let ghost mut k: int = 0;
        assert(all.skip(0) =~= all);
        assert(node_map(all.take(0)) =~= Map::<NodeId, SceneNodeData>::empty());
        while nodes.len() > 0
            invariant
                0 <= k <= all.len(),
                nodes@ == all.skip(k),
                t.wf(),
                t.spec_nodes() == node_map(all.take(k)),
                t.spec_root() == root_id,
            decreases all.len() - k,
        {
            let n = nodes.remove(0);
            proof {
                assert(n == all[k]);
                assert(all.take(k + 1).drop_last() =~= all.take(k));
                assert(nodes@ =~= all.skip(k + 1));
            }
            t.put_node(n);
            proof {
                k = k + 1;
            }
        }
        assert(all.take(k) =~= all);
        t.rebuild_path_cache();
        t
    }
}


/// Keeps the ids that are in `m`.
pub open spec fn in_map(m: Map<NodeId, SceneNodeData>) -> spec_fn(NodeId) -> bool {
    |x: NodeId| m.contains_key(x)
}

/// The ids of the nodes at and under `id` that are in the tree, depth-first,
/// pre-order.
pub open spec fn present_under(m: Map<NodeId, SceneNodeData>, id: NodeId) -> Seq<NodeId> {
    subtree_of(m, id).filter(in_map(m))
}

/// The first `k` of `olds` paired with `fresh`; a later pair wins.
pub open spec fn id_map_upto(olds: Seq<NodeId>, fresh: Seq<NodeId>, k: nat) -> Map<NodeId, NodeId>
    decreases k,
{
    if k == 0 {
        Map::empty()
    } else {
        id_map_upto(olds, fresh, (k - 1) as nat).insert(olds[k - 1], fresh[k - 1])
    }
}

/// Each of `olds` paired with `fresh` at the same place; a later pair wins.
pub open spec fn id_map(olds: Seq<NodeId>, fresh: Seq<NodeId>) -> Map<NodeId, NodeId> {
    id_map_upto(olds, fresh, olds.len())
}

/// The ids of `cs` that `im` maps, mapped, in order.
pub open spec fn mapped_ids(cs: Seq<NodeId>, im: Map<NodeId, NodeId>) -> Seq<NodeId>
    decreases cs.len(),
{
    if cs.len() == 0 {
        cs
    } else if im.contains_key(cs.last()) {
        mapped_ids(cs.drop_last(), im).push(im[cs.last()])
    } else {
        mapped_ids(cs.drop_last(), im)
    }
}

proof fn lemma_id_map_last(olds: Seq<NodeId>, fresh: Seq<NodeId>, k: nat, j: int)
    requires
        0 <= j < k <= olds.len(),
        forall|l: int| j < l < k ==> olds[l] != olds[j],
    ensures
        id_map_upto(olds, fresh, k).contains_key(olds[j]),
        id_map_upto(olds, fresh, k)[olds[j]] == fresh[j],
    decreases k,
{
    if k > j + 1 {
        lemma_id_map_last(olds, fresh, (k - 1) as nat, j);
    }
}

proof fn lemma_id_map_absent(olds: Seq<NodeId>, fresh: Seq<NodeId>, k: nat, x: NodeId)
    requires
        k <= olds.len(),
        forall|l: int| 0 <= l < k ==> olds[l] != x,
    ensures
        !id_map_upto(olds, fresh, k).contains_key(x),
    decreases k,
{
    if k > 0 {
        lemma_id_map_absent(olds, fresh, (k - 1) as nat, x);
    }
}

proof fn lemma_id_map_has(olds: Seq<NodeId>, fresh: Seq<NodeId>, k: nat, j: int)
    requires
        0 <= j < k <= olds.len(),
    ensures
        id_map_upto(olds, fresh, k).contains_key(olds[j]),
    decreases k,
{
    if k > j + 1 {
        lemma_id_map_has(olds, fresh, (k - 1) as nat, j);
    }
}

/// What `id_map` gives for `x`, if anything.
fn lookup_id(olds: &Vec<NodeId>, fresh: &Vec<NodeId>, x: NodeId) -> (r: Option<NodeId>)
    requires
        olds@.len() == fresh@.len(),
    ensures
        r == (if id_map(olds@, fresh@).contains_key(x) {
            Some(id_map(olds@, fresh@)[x])
        } else {
            None::<NodeId>
        }),
{
    let mut i: usize = olds.len();
    while i > 0
        invariant
            i <= olds@.len(),
            olds@.len() == fresh@.len(),
            forall|l: int| i <= l < olds@.len() ==> olds@[l] != x,
        decreases i,
    {
        if olds[i - 1] == x {
            proof {
                lemma_id_map_last(olds@, fresh@, olds@.len(), i - 1);
            }
            return Some(fresh[i - 1]);
        }
        i = i - 1;
    }
    proof {
        lemma_id_map_absent(olds@, fresh@, olds@.len(), x);
    }
    None
}

/// A node's model while copying: the node whose data it holds, its id, its
/// parent and its children.
pub open spec fn model_of(m: Map<NodeId, SceneNodeData>) -> Map<NodeId, (SceneNodeData, NodeId, Option<NodeId>, Seq<NodeId>)> {
    m.map_values(|n: SceneNodeData| (n, n.id, n.parent, n.children@))
}

/// The parent given to the copy of `olds[j]`: `parent_id` for the first,
/// else the copy of its recorded parent when that was copied.
pub open spec fn copy_parent(m: Map<NodeId, SceneNodeData>, olds: Seq<NodeId>, fresh: Seq<NodeId>, parent_id: Option<NodeId>, j: int) -> Option<NodeId> {
    if j == 0 {
        parent_id
    } else {
        match m[olds[j]].parent {
            Some(p) => if id_map(olds, fresh).contains_key(p) {
                Some(id_map(olds, fresh)[p])
            } else {
                None
            },
            None => None,
        }
    }
}

/// The tree's model after the first `k` copies: for each copy, its new
/// parent (when present) gets the copy appended to its children, then the
/// copy is stored under its new id with the copied children that were
/// copied.
pub open spec fn dup_model(m: Map<NodeId, SceneNodeData>, olds: Seq<NodeId>, fresh: Seq<NodeId>, parent_id: Option<NodeId>, k: nat) -> Map<NodeId, (SceneNodeData, NodeId, Option<NodeId>, Seq<NodeId>)>
    decreases k,
{
    if k == 0 {
        model_of(m)
    } else {
        let mm = dup_model(m, olds, fresh, parent_id, (k - 1) as nat);
        let j = k - 1;
        let im = id_map(olds, fresh);
        let nid = im[olds[j]];
        let np = copy_parent(m, olds, fresh, parent_id, j);
        let mm1 = match np {
            Some(p) => if mm.contains_key(p) {
                mm.insert(p, (mm[p].0, mm[p].1, mm[p].2, mm[p].3.push(nid)))
            } else {
                mm
            },
            None => mm,
        };
        mm1.insert(nid, (m[olds[j]], nid, np, mapped_ids(m[olds[j]].children@, im)))
    }
}

/// The node `n` holds the data of the model entry `e`.
pub open spec fn realizes_entry(n: SceneNodeData, e: (SceneNodeData, NodeId, Option<NodeId>, Seq<NodeId>)) -> bool {
    &&& n.name == e.0.name
    &&& n.node_type == e.0.node_type
    &&& n.enabled == e.0.enabled
    &&& n.visible == e.0.visible
    &&& n.tags@ == e.0.tags@
    &&& n.properties == e.0.properties
    &&& n.id == e.1
    &&& n.parent == e.2
    &&& n.children@ == e.3
}

/// The nodes `nm` are the model `model`, key for key.
pub open spec fn realizes(nm: Map<NodeId, SceneNodeData>, model: Map<NodeId, (SceneNodeData, NodeId, Option<NodeId>, Seq<NodeId>)>) -> bool {
    &&& nm.dom() == model.dom()
    &&& forall|k: NodeId| #[trigger] nm.contains_key(k) ==> realizes_entry(nm[k], model[k])
}

/// The shape of a model: names and children.
pub open spec fn model_shape(model: Map<NodeId, (SceneNodeData, NodeId, Option<NodeId>, Seq<NodeId>)>) -> Map<NodeId, (Seq<char>, Seq<NodeId>)> {
    model.map_values(|e: (SceneNodeData, NodeId, Option<NodeId>, Seq<NodeId>)| (e.0.name@, e.3))
}

/// The cache rebuilt from `root` when the walk down ends within `fuel`
/// levels (nothing without a root).
pub open spec fn rebuilt_within(sh: Map<NodeId, (Seq<char>, Seq<NodeId>)>, root: Option<NodeId>, fuel: nat) -> Option<Seq<(Seq<char>, NodeId)>> {
    match root {
        Some(r) => file_node(sh, r, seq!['/'], Seq::empty(), fuel),
        None => Some(Seq::empty()),
    }
}

/// The subtree list starts with `id`; a missing `id` is all of it.
proof fn lemma_subtree_first(m: Map<NodeId, SceneNodeData>, id: NodeId, f: nat)
    requires
        subtree_node(m, id, f) is Some,
    ensures
        subtree_node(m, id, f).unwrap().len() >= 1,
        subtree_node(m, id, f).unwrap()[0] == id,
        !m.contains_key(id) ==> subtree_node(m, id, f).unwrap() == seq![id],
{
}

impl SceneTree {
    /// Files `id` and what lies under it, as `file_subtree` does, but gives
    /// up (returning `false`) when the nesting is deeper than `budget`.
    fn file_subtree_within(&mut self, id: NodeId, parent_path: &str, budget: usize) -> (done: bool)
        requires
            old(self).wf(),
        ensures
            final(self).wf(),
            done == file_node(shape(old(self).spec_nodes()), id, parent_path@, old(self).spec_paths(), budget as nat) is Some,
            done ==> final(self).spec_paths() == file_node(shape(old(self).spec_nodes()), id, parent_path@, old(self).spec_paths(), budget as nat).unwrap(),
            final(self).spec_nodes() == old(self).spec_nodes(),
            final(self).spec_root() == old(self).spec_root(),
        decreases budget,
    {
        let ghost m = self.spec_nodes();
        let ghost sh = shape(m);
        let ghost target = file_node(sh, id, parent_path@, self.spec_paths(), budget as nat);
        let (name, children) = match self.get(id) {
            Some(n) => (n.name.clone(), copy_ids(&n.children)),
            None => {
                return true;
            },
        };
        assert(sh.contains_key(id) && sh[id] == (name@, children@));
        if budget == 0 {
            return false;
        }
        let slash = "/";
        proof {
            reveal_strlit("/");
            assert(slash@ =~= seq!['/']);
        }
        let mut path = if str_eq(parent_path, slash) {
            owned(slash)
        } else {
            let mut p = owned(parent_path);
            p.append(slash);
            p
        };
        path.append(name.as_str());
        assert(path@ =~= joined_path(parent_path@, name@));
        self.insert_path(path.clone(), id);
        let ghost cs = children@;
        assert(cs.skip(0) =~= cs);
        let mut i: usize = 0;
        while i < children.len()
            invariant
                self.wf(),
                m == self.spec_nodes(),
                self.spec_root() == old(self).spec_root(),
                m == old(self).spec_nodes(),
                target == file_node(shape(old(self).spec_nodes()), id, parent_path@, old(self).spec_paths(), budget as nat),
                sh == shape(m),
                budget > 0,
                cs == children@,
                i <= cs.len(),
                file_list(sh, cs.skip(i as int), path@, self.spec_paths(), (budget - 1) as nat) == target,
            decreases cs.len() - i,
        {
            let c = children[i];
            assert(cs.skip(i as int)[0] == c);
            assert(cs.skip(i as int).drop_first() =~= cs.skip(i + 1));
            let ok = self.file_subtree_within(c, path.as_str(), budget - 1);
            if !ok {
                return false;
            }
            i = i + 1;
        }
        assert(cs.skip(cs.len() as int) =~= Seq::<NodeId>::empty());
        true
    }

    /// Rebuilds the path cache from the root, giving up (returning `false`)
    /// when the nesting is deeper than `budget`.
    fn rebuild_path_cache_within(&mut self, budget: usize) -> (done: bool)
        requires
            old(self).wf(),
        ensures
            final(self).wf(),
            done == rebuilt_within(shape(old(self).spec_nodes()), old(self).spec_root(), budget as nat) is Some,
            done ==> final(self).spec_paths() == rebuilt_within(shape(old(self).spec_nodes()), old(self).spec_root(), budget as nat).unwrap(),
            final(self).spec_nodes() == old(self).spec_nodes(),
            final(self).spec_root() == old(self).spec_root(),
    {
        self.paths = Vec::new();
        assert(self.spec_paths() =~= Seq::<(Seq<char>, NodeId)>::empty());
        assert(keys_of(self.spec_paths()) =~= Seq::<Seq<char>>::empty());
        match self.root {
            Some(r) => {
                let slash = "/";
                proof {
                    reveal_strlit("/");
                    assert(slash@ =~= seq!['/']);
                }
                self.file_subtree_within(r, slash, budget)
            },
            None => true,
        }
    }

    /// The ids at and under `id` that are in the tree, with copies of their
    /// nodes, depth-first, pre-order.
    fn present_sources(&self, id: NodeId) -> (r: (Vec<NodeId>, Vec<SceneNodeData>))
        requires
            self.wf(),
            subtree_ends(self.spec_nodes(), id),
        ensures
            r.0@ == present_under(self.spec_nodes(), id),
            r.1@.len() == r.0@.len(),
            forall|j: int| 0 <= j < r.0@.len() ==> #[trigger] self.spec_nodes().contains_key(r.0@[j])
                && same_node_data(self.spec_nodes()[r.0@[j]], r.1@[j]),
            (r.0@.len() == 0) == !self.spec_nodes().contains_key(id),
            r.0@.len() > 0 ==> r.0@[0] == id,
    {
        let ghost m = self.spec_nodes();
        let ghost f: nat = choose|f: nat| #[trigger] subtree_node(m, id, f) is Some;
        let mut all: Vec<NodeId> = Vec::new();
        self.collect_subtree(id, &mut all, Ghost(f));
        assert(all@ =~= subtree_of(m, id));
        proof {
            lemma_subtree_first(m, id, f);
        }
        let mut olds: Vec<NodeId> = Vec::new();
        let mut src: Vec<SceneNodeData> = Vec::new();
        let mut i: usize = 0;
        assert(all@.take(0).filter(in_map(m)) =~= Seq::<NodeId>::empty()) by {
            reveal(Seq::filter);
        }
        while i < all.len()
            invariant
                self.wf(),
                m == self.spec_nodes(),
                i <= all@.len(),
                all@.len() >= 1,
                all@[0] == id,
                !m.contains_key(id) ==> all@ == seq![id],
                olds@ == all@.take(i as int).filter(in_map(m)),
                src@.len() == olds@.len(),
                forall|j: int| 0 <= j < olds@.len() ==> #[trigger] m.contains_key(olds@[j])
                    && same_node_data(m[olds@[j]], src@[j]),
                i > 0 && m.contains_key(id) ==> olds@.len() > 0 && olds@[0] == id,
            decreases all@.len() - i,
        {
            proof {
                lemma_filter_take(all@, in_map(m), i as int);
            }
            let x = all[i];
            match self.get(x) {
                Some(n) => {
                    let ghost before = olds@;
                    olds.push(x);
                    src.push(n.clone());
                    proof {
                        if i > 0 && m.contains_key(id) {
                            assert(olds@[0] == before[0]);
                        }
                    }
                },
                None => {},
            }
            i = i + 1;
        }
        assert(all@.take(all@.len() as int) =~= all@);
        proof {
            if !m.contains_key(id) {
                assert(olds@ == seq![id].filter(in_map(m)));
                lemma_filter_take(seq![id], in_map(m), 0);
                assert(seq![id].take(1) =~= seq![id]);
                assert(seq![id].take(0).filter(in_map(m)) =~= Seq::<NodeId>::empty()) by {
                    reveal(Seq::filter);
                }
            }
        }
        (olds, src)
    }
}


/// The walk down from `x` fits within `f` levels (names and paths aside):
/// each node of `sh` on it uses up one level.
pub open spec fn reach_node(sh: Map<NodeId, (Seq<char>, Seq<NodeId>)>, x: NodeId, f: nat) -> bool
    decreases f, 0nat,
{
    if !sh.contains_key(x) {
        true
    } else if f == 0 {
        false
    } else {
        reach_list(sh, sh[x].1, (f - 1) as nat)
    }
}

/// `reach_node` for each of `cs`.
pub open spec fn reach_list(sh: Map<NodeId, (Seq<char>, Seq<NodeId>)>, cs: Seq<NodeId>, f: nat) -> bool
    decreases f, cs.len(),
{
    if cs.len() == 0 {
        true
    } else {
        reach_node(sh, cs[0], f) && reach_list(sh, cs.drop_first(), f)
    }
}

proof fn lemma_file_reach_node(sh: Map<NodeId, (Seq<char>, Seq<NodeId>)>, x: NodeId, pp: Seq<char>, ps: Seq<(Seq<char>, NodeId)>, f: nat)
    ensures
        (file_node(sh, x, pp, ps, f) is Some) == reach_node(sh, x, f),
    decreases f, 0nat,
{
    if sh.contains_key(x) && f > 0 {
        let path = joined_path(pp, sh[x].0);
        lemma_file_reach_list(sh, sh[x].1, path, path_insert(ps, path, x), (f - 1) as nat);
    }
}

proof fn lemma_file_reach_list(sh: Map<NodeId, (Seq<char>, Seq<NodeId>)>, cs: Seq<NodeId>, pp: Seq<char>, ps: Seq<(Seq<char>, NodeId)>, f: nat)
    ensures
        (file_list(sh, cs, pp, ps, f) is Some) == reach_list(sh, cs, f),
    decreases f, cs.len(),
{
    if cs.len() > 0 {
        lemma_file_reach_node(sh, cs[0], pp, ps, f);
        match file_node(sh, cs[0], pp, ps, f) {
            Some(ps1) => {
                lemma_file_reach_list(sh, cs.drop_first(), pp, ps1, f);
            },
            None => {},
        }
    }
}

proof fn lemma_reach_list_all(sh: Map<NodeId, (Seq<char>, Seq<NodeId>)>, cs: Seq<NodeId>, f: nat)
    ensures
        reach_list(sh, cs, f) == (forall|i: int| 0 <= i < cs.len() ==> #[trigger] reach_node(sh, cs[i], f)),
    decreases cs.len(),
{
    if cs.len() > 0 {
        lemma_reach_list_all(sh, cs.drop_first(), f);
        if reach_list(sh, cs, f) {
            assert forall|i: int| 0 <= i < cs.len() implies #[trigger] reach_node(sh, cs[i], f) by {
                if i > 0 {
                    assert(cs.drop_first()[i - 1] == cs[i]);
                }
            }
        }
        if forall|i: int| 0 <= i < cs.len() ==> #[trigger] reach_node(sh, cs[i], f) {
            assert(reach_node(sh, cs[0], f));
            assert forall|i: int| 0 <= i < cs.drop_first().len() implies #[trigger] reach_node(sh, cs.drop_first()[i], f) by {
                assert(cs.drop_first()[i] == cs[i + 1]);
            }
        }
    }
}

/// `ch[k + 1]` is a child of `ch[k]`.
pub open spec fn chain_step(sh: Map<NodeId, (Seq<char>, Seq<NodeId>)>, ch: Seq<NodeId>, k: int) -> bool {
    sh[ch[k]].1.contains(ch[k + 1])
}

/// `ch` is a walk down through nodes of `sh`, each the child of the one
/// before.
pub open spec fn is_chain(sh: Map<NodeId, (Seq<char>, Seq<NodeId>)>, ch: Seq<NodeId>) -> bool {
    &&& forall|k: int| 0 <= k < ch.len() ==> sh.contains_key(#[trigger] ch[k])
    &&& forall|k: int| 0 <= k < ch.len() - 1 ==> #[trigger] chain_step(sh, ch, k)
}

/// A walk down that does not fit within `f` levels has `f + 1` nodes.
proof fn lemma_chain_of_overflow(sh: Map<NodeId, (Seq<char>, Seq<NodeId>)>, x: NodeId, f: nat) -> (ch: Seq<NodeId>)
    requires
        !reach_node(sh, x, f),
    ensures
        is_chain(sh, ch),
        ch.len() == f + 1,
        ch[0] == x,
    decreases f,
{
    if f == 0 {
        seq![x]
    } else {
        let cs = sh[x].1;
        lemma_reach_list_all(sh, cs, (f - 1) as nat);
        let i = choose|i: int| 0 <= i < cs.len() && !#[trigger] reach_node(sh, cs[i], (f - 1) as nat);
        let rest = lemma_chain_of_overflow(sh, cs[i], (f - 1) as nat);
        let ch = seq![x] + rest;
        assert forall|k: int| 0 <= k < ch.len() implies sh.contains_key(#[trigger] ch[k]) by {
            if k > 0 {
                assert(ch[k] == rest[k - 1]);
            }
        }
        assert forall|k: int| 0 <= k < ch.len() - 1 implies #[trigger] chain_step(sh, ch, k) by {
            if k == 0 {
                assert(ch[1] == rest[0]);
                assert(cs[i] == rest[0]);
            } else {
                assert(ch[k] == rest[k - 1] && ch[k + 1] == rest[k]);
                assert(chain_step(sh, rest, k - 1));
            }
        }
        ch
    }
}

/// Walking `k` steps down a chain from a node that fits within `g` levels
/// reaches a node that fits within `g - k`.
proof fn lemma_reach_along(sh: Map<NodeId, (Seq<char>, Seq<NodeId>)>, ch: Seq<NodeId>, g: nat, k: int)
    requires
        is_chain(sh, ch),
        0 <= k < ch.len(),
        reach_node(sh, ch[0], g),
    ensures
        g >= k + 1,
        reach_node(sh, ch[k], (g - k) as nat),
    decreases k,
{
    assert(sh.contains_key(ch[k]));
    if k > 0 {
        lemma_reach_along(sh, ch, g, k - 1);
        let prev = ch[k - 1];
        assert(sh.contains_key(prev));
        assert(chain_step(sh, ch, k - 1));
        lemma_reach_list_all(sh, sh[prev].1, (g - k) as nat);
        let j = choose|j: int| 0 <= j < sh[prev].1.len() && sh[prev].1[j] == ch[k];
        assert(reach_node(sh, sh[prev].1[j], (g - k) as nat));
    }
}

/// A chain that comes back to its start never fits.
proof fn lemma_cycle_never_fits(sh: Map<NodeId, (Seq<char>, Seq<NodeId>)>, ch: Seq<NodeId>, g: nat)
    requires
        is_chain(sh, ch),
        ch.len() >= 2,
        ch[0] == ch[ch.len() - 1],
    ensures
        !reach_node(sh, ch[0], g),
    decreases g,
{
    if reach_node(sh, ch[0], g) {
        let l = ch.len() - 1;
        lemma_reach_along(sh, ch, g, l);
        lemma_cycle_never_fits(sh, ch, (g - l) as nat);
    }
}

/// A walk down that fits within some number of levels fits within as many
/// levels as there are nodes.
proof fn lemma_reach_within_count(sh: Map<NodeId, (Seq<char>, Seq<NodeId>)>, x: NodeId, f: nat)
    requires
        reach_node(sh, x, f),
        sh.dom().finite(),
    ensures
        reach_node(sh, x, sh.dom().len()),
{
    let n = sh.dom().len();
    if !reach_node(sh, x, n) {
        let ch = lemma_chain_of_overflow(sh, x, n);
        if ch.no_duplicates() {
            ch.unique_seq_to_set();
            assert(ch.to_set().subset_of(sh.dom())) by {
                assert forall|y: NodeId| ch.to_set().contains(y) implies sh.dom().contains(y) by {
                    let k = choose|k: int| 0 <= k < ch.len() && ch[k] == y;
                    assert(sh.contains_key(ch[k]));
                }
            }
            vstd::set_lib::lemma_len_subset(ch.to_set(), sh.dom());
        } else {
            let (i, j) = choose|i: int, j: int| 0 <= i < j < ch.len() && ch[i] == ch[j];
            let seg = ch.subrange(i, j + 1);
            assert forall|k: int| 0 <= k < seg.len() implies sh.contains_key(#[trigger] seg[k]) by {
                assert(seg[k] == ch[i + k]);
            }
            assert forall|k: int| 0 <= k < seg.len() - 1 implies #[trigger] chain_step(sh, seg, k) by {
                assert(seg[k] == ch[i + k] && seg[k + 1] == ch[i + k + 1]);
                assert(chain_step(sh, ch, i + k));
            }
            lemma_reach_along(sh, ch, f, i);
            assert(seg[0] == ch[i] && seg[seg.len() - 1] == ch[j]);
            lemma_cycle_never_fits(sh, seg, (f - i) as nat);
        }
    }
}

/// When rebuilding the cache ends at all, it ends within as many levels as
/// there are nodes, with the same cache.
proof fn lemma_rebuild_within_count(sh: Map<NodeId, (Seq<char>, Seq<NodeId>)>, root: Option<NodeId>)
    requires
        rebuild_ends(sh, root),
        sh.dom().finite(),
    ensures
        rebuilt_within(sh, root, sh.dom().len()) == Some(rebuilt_paths(sh, root)),
{
    match root {
        Some(r) => {
            let f = choose|f: nat| #[trigger] file_node(sh, r, seq!['/'], Seq::empty(), f) is Some;
            lemma_file_reach_node(sh, r, seq!['/'], Seq::empty(), f);
            lemma_reach_within_count(sh, r, f);
            lemma_file_reach_node(sh, r, seq!['/'], Seq::empty(), sh.dom().len());
            lemma_file_node_unique(sh, r, seq!['/'], Seq::empty(), f, sh.dom().len());
        },
        None => {},
    }
}

/// Nodes that hold a model have the model's shape.
proof fn lemma_realizes_shape(nm: Map<NodeId, SceneNodeData>, model: Map<NodeId, (SceneNodeData, NodeId, Option<NodeId>, Seq<NodeId>)>)
    requires
        realizes(nm, model),
    ensures
        shape(nm) == model_shape(model),
{
    assert forall|k: NodeId| #[trigger] shape(nm).contains_key(k) implies shape(nm)[k] == model_shape(model)[k] by {
        assert(nm.contains_key(k));
        assert(realizes_entry(nm[k], model[k]));
    }
    assert(shape(nm) =~= model_shape(model));
}

impl SceneTree {
    /// Stores copies of the nodes `src` (taken from the ids `olds`) under the
    /// new ids `fresh`, re-linked among themselves and the first one under
    /// `parent_id`, then rebuilds the path cache.
    fn copy_subtree(&mut self, parent_id: Option<NodeId>, olds: &Vec<NodeId>, src: &Vec<SceneNodeData>, fresh: &Vec<NodeId>)
        requires
            old(self).wf(),
            olds@.len() == src@.len(),
            olds@.len() == fresh@.len(),
            forall|j: int| 0 <= j < olds@.len() ==> #[trigger] old(self).spec_nodes().contains_key(olds@[j])
                && same_node_data(old(self).spec_nodes()[olds@[j]], src@[j]),
        ensures
            final(self).wf(),
            final(self).spec_root() == old(self).spec_root(),
            realizes(final(self).spec_nodes(), dup_model(old(self).spec_nodes(), olds@, fresh@, parent_id, olds@.len())),
            rebuild_ends(model_shape(dup_model(old(self).spec_nodes(), olds@, fresh@, parent_id, olds@.len())), old(self).spec_root())
                ==> final(self).spec_paths() == rebuilt_paths(model_shape(dup_model(old(self).spec_nodes(), olds@, fresh@, parent_id, olds@.len())), old(self).spec_root()),
    {
        let ghost m = self.spec_nodes();
        let ghost im = id_map(olds@, fresh@);
        assert(m.dom() =~= model_of(m).dom());
        assert forall|q: NodeId| #[trigger] m.contains_key(q) implies realizes_entry(m[q], model_of(m)[q]) by {
            assert(model_of(m)[q] == (m[q], m[q].id, m[q].parent, m[q].children@));
        }
        assert(realizes(m, model_of(m)));
        let mut k: usize = 0;
        while k < olds.len()
            invariant
                self.wf(),
                self.spec_root() == old(self).spec_root(),
                m == old(self).spec_nodes(),
                im == id_map(olds@, fresh@),
                k <= olds@.len(),
                olds@.len() == src@.len(),
                olds@.len() == fresh@.len(),
                forall|j: int| 0 <= j < olds@.len() ==> #[trigger] m.contains_key(olds@[j])
                    && same_node_data(m[olds@[j]], src@[j]),
                realizes(self.spec_nodes(), dup_model(m, olds@, fresh@, parent_id, k as nat)),
            decreases olds@.len() - k,
        {
            let ghost mm = dup_model(m, olds@, fresh@, parent_id, k as nat);
            let ghost s0 = m[olds@[k as int]];
            assert(m.contains_key(olds@[k as int]) && same_node_data(s0, src@[k as int]));
            let node = src[k].clone();
            proof {
                lemma_id_map_has(olds@, fresh@, olds@.len(), k as int);
            }
            let nid = match lookup_id(olds, fresh, olds[k]) {
                Some(x) => x,
                None => NodeId(0),
            };
            assert(nid == im[olds@[k as int]]);
            let np: Option<NodeId> = if k == 0 {
                parent_id
            } else {
                match node.parent {
                    Some(p) => lookup_id(olds, fresh, p),
                    None => None,
                }
            };
            assert(np == copy_parent(m, olds@, fresh@, parent_id, k as int));
            let mut ch: Vec<NodeId> = Vec::new();
            let mut j: usize = 0;
            let ghost cs = node.children@;
            assert(cs == s0.children@);
            assert(cs.take(0) =~= Seq::<NodeId>::empty());
            while j < node.children.len()
                invariant
                    j <= cs.len(),
                    cs == node.children@,
                    olds@.len() == fresh@.len(),
                    im == id_map(olds@, fresh@),
                    ch@ == mapped_ids(cs.take(j as int), im),
                decreases cs.len() - j,
            {
                assert(cs.take(j + 1).drop_last() =~= cs.take(j as int));
                assert(cs.take(j + 1).last() == cs[j as int]);
                match lookup_id(olds, fresh, node.children[j]) {
                    Some(c) => {
                        ch.push(c);
                    },
                    None => {},
                }
                j = j + 1;
            }
            assert(cs.take(cs.len() as int) =~= cs);
            let ghost chv = ch@;
            let mut nn = node;
            nn.id = nid;
            nn.parent = np;
            nn.children = ch;
            let ghost mm1 = match np {
                Some(p) => if mm.contains_key(p) {
                    mm.insert(p, (mm[p].0, mm[p].1, mm[p].2, mm[p].3.push(nid)))
                } else {
                    mm
                },
                None => mm,
            };
            match np {
                Some(p) => match self.node_position(p) {
                    Some(i) => {
                        let ghost before = self.nodes@;
                        let ghost n0 = self.spec_nodes();
                        self.nodes[i].children.push(nid);
                        proof {
                            let n = self.nodes@[i as int];
                            assert(self.nodes@ == before.update(i as int, n));
                            lemma_node_map_update(before, i as int, n);
                            assert(realizes_entry(n0[p], mm[p]));
                            assert(realizes_entry(self.spec_nodes()[p], mm1[p]));
                            assert forall|q: NodeId| #[trigger] self.spec_nodes().contains_key(q) implies realizes_entry(self.spec_nodes()[q], mm1[q]) by {
                                if q != p {
                                    assert(n0.contains_key(q));
                                    assert(realizes_entry(n0[q], mm[q]));
                                }
                            }
                            assert(self.spec_nodes().dom() =~= mm1.dom());
                        }
                    },
                    None => {},
                },
                None => {},
            }
            assert(realizes(self.spec_nodes(), mm1));
            let ghost n1 = self.spec_nodes();
            let ghost nnv = nn;
            self.put_node(nn);
            proof {
                let mm2 = mm1.insert(nid, (s0, nid, np, mapped_ids(s0.children@, im)));
                assert(dup_model(m, olds@, fresh@, parent_id, (k + 1) as nat) == mm2);
                assert(realizes_entry(nnv, mm2[nid]));
                assert forall|q: NodeId| #[trigger] self.spec_nodes().contains_key(q) implies realizes_entry(self.spec_nodes()[q], mm2[q]) by {
                    if q != nid {
                        assert(n1.contains_key(q));
                        assert(realizes_entry(n1[q], mm1[q]));
                    }
                }
                assert(self.spec_nodes().dom() =~= mm2.dom());
            }
            k = k + 1;
        }
        let ghost model = dup_model(m, olds@, fresh@, parent_id, olds@.len());
        proof {
            lemma_realizes_shape(self.spec_nodes(), model);
            self.lemma_dom_len();
        }
        let count = self.nodes.len();
        let _done = self.rebuild_path_cache_within(count);
        proof {
            let sh = model_shape(model);
            assert(sh.dom() == self.spec_nodes().dom());
            if rebuild_ends(sh, old(self).spec_root()) {
                lemma_rebuild_within_count(sh, old(self).spec_root());
            }
        }
    }

    /// Copies `id` and everything under it that is in the tree, giving the
    /// copies the ids `fresh` (one per copied node, in depth-first pre-order),
    /// and puts the copy of `id` under `parent_id`; then rebuilds the path
    /// cache. A missing `id` is refused with `NodeNotFound`.
    pub fn duplicate_with_ids(&mut self, id: NodeId, parent_id: Option<NodeId>, fresh: &Vec<NodeId>) -> (r: Result<NodeId, EngineError>)
        requires
            old(self).wf(),
            subtree_ends(old(self).spec_nodes(), id),
            fresh@.len() == present_under(old(self).spec_nodes(), id).len(),
        ensures
            final(self).wf(),
            final(self).spec_root() == old(self).spec_root(),
            !old(self).spec_nodes().contains_key(id) ==> {
                &&& r matches Err(EngineError::NodeNotFound { path }) && path@ == uuid_text(id.0)
                &&& final(self).spec_nodes() == old(self).spec_nodes()
                &&& final(self).spec_paths() == old(self).spec_paths()
            },
            old(self).spec_nodes().contains_key(id) ==> {
                let olds = present_under(old(self).spec_nodes(), id);
                let model = dup_model(old(self).spec_nodes(), olds, fresh@, parent_id, olds.len());
                &&& r == Ok::<NodeId, EngineError>(id_map(olds, fresh@)[id])
                &&& realizes(final(self).spec_nodes(), model)
                &&& rebuild_ends(model_shape(model), old(self).spec_root())
                    ==> final(self).spec_paths() == rebuilt_paths(model_shape(model), old(self).spec_root())
            },
    {
        let (olds, src) = self.present_sources(id);
        if olds.len() == 0 {
            return Err(EngineError::NodeNotFound { path: uuid_string(id.0) });
        }
        self.copy_subtree(parent_id, &olds, &src, fresh);
        proof {
            lemma_id_map_has(olds@, fresh@, olds@.len(), 0);
        }
        match lookup_id(&olds, fresh, id) {
            Some(x) => Ok(x),
            None => Err(EngineError::NodeNotFound { path: uuid_string(id.0) }),
        }
    }

    /// Copies `id` and everything under it that is in the tree under fresh
    /// random ids, and puts the copy of `id` under `parent_id`; then rebuilds
    /// the path cache. A missing `id` is refused with `NodeNotFound`. The
    /// contract holds whatever ids were drawn.
    pub fn duplicate(&mut self, id: NodeId, parent_id: Option<NodeId>) -> (r: Result<NodeId, EngineError>)
        requires
            old(self).wf(),
            subtree_ends(old(self).spec_nodes(), id),
        ensures
            final(self).wf(),
            final(self).spec_root() == old(self).spec_root(),
            !old(self).spec_nodes().contains_key(id) ==> {
                &&& r matches Err(EngineError::NodeNotFound { path }) && path@ == uuid_text(id.0)
                &&& final(self).spec_nodes() == old(self).spec_nodes()
                &&& final(self).spec_paths() == old(self).spec_paths()
            },
            old(self).spec_nodes().contains_key(id) ==> exists|fresh: Seq<NodeId>|
                #![trigger id_map(present_under(old(self).spec_nodes(), id), fresh)]
            {
                let olds = present_under(old(self).spec_nodes(), id);
                let model = dup_model(old(self).spec_nodes(), olds, fresh, parent_id, olds.len());
                &&& fresh.len() == olds.len()
                &&& r == Ok::<NodeId, EngineError>(id_map(olds, fresh)[id])
                &&& realizes(final(self).spec_nodes(), model)
                &&& rebuild_ends(model_shape(model), old(self).spec_root())
                    ==> final(self).spec_paths() == rebuilt_paths(model_shape(model), old(self).spec_root())
            },
    {
        let (olds, src) = self.present_sources(id);
        if olds.len() == 0 {
            return Err(EngineError::NodeNotFound { path: uuid_string(id.0) });
        }
        let mut fresh: Vec<NodeId> = Vec::new();
        while fresh.len() < olds.len()
            invariant
                fresh@.len() <= olds@.len(),
            decreases olds@.len() - fresh@.len(),
        {
            fresh.push(NodeId::new());
        }
        self.copy_subtree(parent_id, &olds, &src, &fresh);
        proof {
            lemma_id_map_has(olds@, fresh@, olds@.len(), 0);
        }
        match lookup_id(&olds, &fresh, id) {
            Some(x) => Ok(x),
            None => Err(EngineError::NodeNotFound { path: uuid_string(id.0) }),
        }
    }
}


impl SceneTree {
    /// The node `id`, for changing it in place. The tree stays well formed
    /// as long as the node keeps its id.
    pub fn get_mut(&mut self, id: NodeId) -> (r: Option<&mut SceneNodeData>)
        requires
            old(self).wf(),
        ensures
            final(self).spec_root() == old(self).spec_root(),
            final(self).spec_paths() == old(self).spec_paths(),
            match r {
                Some(n) => {
                    &&& old(self).spec_nodes().contains_key(id)
                    &&& *n == old(self).spec_nodes()[id]
                    &&& final(n).id == id ==> final(self).wf()
                        && final(self).spec_nodes() == old(self).spec_nodes().insert(id, *final(n))
                },
                None => {
                    &&& !old(self).spec_nodes().contains_key(id)
                    &&& final(self).wf()
                    &&& final(self).spec_nodes() == old(self).spec_nodes()
                },
            },
    {
        match self.node_position(id) {
            Some(i) => {
                let ghost before = self.nodes@;
                proof {
                    lemma_node_map(before);
                }
                proof {
                    assert forall|n: SceneNodeData| #![trigger before.update(i as int, n)] n.id == before[i as int].id implies
                        node_map(before.update(i as int, n)) == node_map(before).insert(n.id, n)
                        && ids_of(before.update(i as int, n)) == ids_of(before) by {
                        lemma_node_map_update(before, i as int, n);
                    }
                }
                Some(&mut self.nodes[i])
            },
            None => None,
        }
    }
}


/// Going one level down adds one to the depth: when `c` is in the tree and
/// names `p` as its parent, and `d` steps can be taken up from `p` but not
/// `d + 1`, then `d + 1` can be taken up from `c` but not `d + 2`.
pub proof fn law_depth_of_child(m: Map<NodeId, SceneNodeData>, c: NodeId, p: NodeId, d: nat)
    requires
        m.contains_key(c),
        m[c].parent == Some(p),
        climb(m, p, d) is Some,
        climb(m, p, d + 1) is None,
    ensures
        climb(m, c, d + 1) is Some,
        climb(m, c, d + 2) is None,
{
    assert(climb(m, c, 0) == Some(c));
    assert(parent_in(m, c) == Some(p));
    assert(climb(m, c, 1) == Some(p));
    lemma_climb_shift(m, c, 1, d);
    lemma_climb_shift(m, c, 1, d + 1);
    assert(1 + d == d + 1);
    assert(1 + (d + 1) == d + 2);
}

/// Every key of `node_map(ns)` is the id of some entry of `ns`, and holds
/// such an entry.
proof fn lemma_node_map_any(ns: Seq<SceneNodeData>)
    ensures
        forall|k: NodeId| node_map(ns).contains_key(k) <==> exists|j: int| 0 <= j < ns.len() && #[trigger] ns[j].id == k,
        forall|k: NodeId| node_map(ns).contains_key(k) ==> exists|j: int| 0 <= j < ns.len() && #[trigger] ns[j].id == k && node_map(ns)[k] == ns[j],
    decreases ns.len(),
{
    if ns.len() > 0 {
        let init = ns.drop_last();
        lemma_node_map_any(init);
        assert forall|k: NodeId| node_map(ns).contains_key(k) implies exists|j: int| 0 <= j < ns.len() && #[trigger] ns[j].id == k && node_map(ns)[k] == ns[j] by {
            if k == ns.last().id {
                assert(ns[ns.len() - 1].id == k && node_map(ns)[k] == ns[ns.len() - 1]);
            } else {
                let j = choose|j: int| 0 <= j < init.len() && #[trigger] init[j].id == k && node_map(init)[k] == init[j];
                assert(ns[j] == init[j]);
            }
        }
        assert forall|k: NodeId| (exists|j: int| 0 <= j < ns.len() && #[trigger] ns[j].id == k) implies node_map(ns).contains_key(k) by {
            let j = choose|j: int| 0 <= j < ns.len() && #[trigger] ns[j].id == k;
            if j < ns.len() - 1 {
                assert(init[j].id == k);
            }
        }
    }
}

impl SceneTree {
    /// Each stored node is filed under its own id.
    proof fn lemma_ids_match(&self)
        requires
            self.wf(),
        ensures
            forall|k: NodeId| #[trigger] self.spec_nodes().contains_key(k) ==> self.spec_nodes()[k].id == k,
    {
        lemma_node_map(self.nodes@);
        assert forall|k: NodeId| #[trigger] self.spec_nodes().contains_key(k) implies self.spec_nodes()[k].id == k by {
            assert(ids_of(self.nodes@).contains(k));
            let j = choose|j: int| 0 <= j < ids_of(self.nodes@).len() && ids_of(self.nodes@)[j] == k;
            assert(self.nodes@[j].id == k);
        }
    }
}

/// Flattening a tree and restoring it keeps the nodes under the root: given
/// copies `v` of the nodes in breadth-first order (what `flatten` returns),
/// the nodes restored from them (what `from_flat` stores) are exactly the
/// ones in that order, each with the data it had.
pub proof fn law_flatten_restores(t: SceneTree, v: Seq<SceneNodeData>)
    requires
        t.wf(),
        bfs_ends(t.spec_nodes(), t.spec_root()),
        v.len() == bfs_of(t.spec_nodes(), t.spec_root()).len(),
        forall|i: int| 0 <= i < v.len() ==> same_node_data(t.spec_nodes()[#[trigger] bfs_of(t.spec_nodes(), t.spec_root())[i]], v[i]),
    ensures
        forall|k: NodeId| node_map(v).contains_key(k) <==> bfs_of(t.spec_nodes(), t.spec_root()).contains(k),
        forall|k: NodeId| #[trigger] node_map(v).contains_key(k) ==> same_node_data(t.spec_nodes()[k], node_map(v)[k]),
{
    let m = t.spec_nodes();
    let o = bfs_of(m, t.spec_root());
    t.lemma_ids_match();
    match t.spec_root() {
        Some(r) => {
            let f = choose|f: nat| #[trigger] bfs_from(m, seq![r], f) is Some;
            lemma_bfs_unique(m, seq![r], f, f);
        },
        None => {},
    }
    assert forall|i: int| 0 <= i < v.len() implies #[trigger] v[i].id == o[i] by {
        assert(same_node_data(m[o[i]], v[i]));
        assert(m.contains_key(o[i]));
    }
    lemma_node_map_any(v);
    assert forall|k: NodeId| node_map(v).contains_key(k) <==> o.contains(k) by {
        if node_map(v).contains_key(k) {
            let j = choose|j: int| 0 <= j < v.len() && #[trigger] v[j].id == k;
            assert(o[j] == k);
        }
        if o.contains(k) {
            let j = choose|j: int| 0 <= j < o.len() && o[j] == k;
            assert(v[j].id == k);
        }
    }
    assert forall|k: NodeId| #[trigger] node_map(v).contains_key(k) implies same_node_data(m[k], node_map(v)[k]) by {
        let j = choose|j: int| 0 <= j < v.len() && #[trigger] v[j].id == k && node_map(v)[k] == v[j];
        assert(v[j].id == o[j]);
        assert(same_node_data(m[o[j]], v[j]));
    }
}

} // verus!
