//! Rebuilding a store from a list of nodes, as a saved document holds them: the
//! nodes are accepted only when their links form one tree under the named root.
use std::collections::HashMap;
use vstd::prelude::*;
use crate::model::{Node, NodeId, NodeView};
use crate::store::{is_tree, tree_with_depths, NodeStore, StoreView};

verus! {

broadcast use vstd::std_specs::hash::group_hash_axioms;

/// The number of parent links from `x` up to the root, when at most `fuel` are needed.
pub open spec fn steps_to_root(v: StoreView, x: NodeId, fuel: nat) -> Option<nat>
    decreases fuel,
{
    if x == v.root_id {
        Some(0)
    } else if fuel == 0 {
        None
    } else if v.nodes.contains_key(x) && v.nodes[x].parent_id is Some {
        match steps_to_root(v, v.nodes[x].parent_id->0, (fuel - 1) as nat) {
            Some(s) => Some(s + 1),
            None => None,
        }
    } else {
        None
    }
}

/// The entry for key `k` that no later entry overrides.
pub open spec fn last_entry(es: Seq<(NodeId, Node)>, k: NodeId) -> int {
    choose|i: int| 0 <= i < es.len() && es[i].0 == k && forall|j: int| i < j < es.len() ==> es[j].0 != k
}

/// The store that a saved document describes: each entry's node stored under the
/// entry's key (a later entry for the same key wins), and the root id.
pub open spec fn store_of(es: Seq<(NodeId, Node)>, root_id: NodeId) -> StoreView {
    StoreView {
        nodes: Map::new(
            |k: NodeId| exists|i: int| 0 <= i < es.len() && es[i].0 == k,
            |k: NodeId| es[last_entry(es, k)].1@,
        ),
        root_id,
    }
}

/// More fuel does not change a walk that already reached the root.
proof fn lemma_steps_monotone(v: StoreView, x: NodeId, fuel: nat, more: nat)
    requires
        steps_to_root(v, x, fuel) is Some,
    ensures
        steps_to_root(v, x, fuel + more) == steps_to_root(v, x, fuel),
    decreases fuel,
{
    if x != v.root_id && fuel > 0 {
        lemma_steps_monotone(v, v.nodes[x].parent_id->0, (fuel - 1) as nat, more);
        assert((fuel + more - 1) as nat == (fuel - 1) as nat + more);
    }
}

/// In a tree the walk from a node reaches the root after as many links as its depth.
proof fn lemma_steps_of_tree(v: StoreView, d: Map<NodeId, nat>, x: NodeId, fuel: nat)
    requires
        tree_with_depths(v, d),
        v.nodes.contains_key(x),
        d[x] <= fuel,
    ensures
        steps_to_root(v, x, fuel) == Some(d[x]),
    decreases fuel,
{
    if x != v.root_id {
        let p = v.nodes[x].parent_id->0;
        lemma_steps_of_tree(v, d, p, (fuel - 1) as nat);
    }
}

/// Everything that a tree asks of node `k`, its depth given by the walk to the root.
pub open spec fn node_fits(v: StoreView, k: NodeId, fuel: nat) -> bool {
    &&& v.nodes[k].id == k
    &&& v.nodes[k].children.no_duplicates()
    &&& forall|i: int|
        0 <= i < v.nodes[k].children.len() ==> {
            &&& v.nodes.contains_key(#[trigger] v.nodes[k].children[i])
            &&& v.nodes[v.nodes[k].children[i]].parent_id == Some(k)
        }
    &&& k != v.root_id ==> {
        &&& v.nodes[k].parent_id is Some
        &&& v.nodes.contains_key(v.nodes[k].parent_id->0)
        &&& v.nodes[v.nodes[k].parent_id->0].children.contains(k)
    }
    &&& steps_to_root(v, k, fuel) is Some
}

/// When every node fits, the walks give depths that witness a tree.
proof fn lemma_fits_tree(v: StoreView, fuel: nat)
    requires
        v.nodes.dom().finite(),
        v.nodes.contains_key(v.root_id),
        v.nodes[v.root_id].parent_id is None,
        forall|k: NodeId| #[trigger] v.nodes.contains_key(k) ==> node_fits(v, k, fuel),
    ensures
        tree_with_depths(
            v,
            Map::new(|k: NodeId| v.nodes.contains_key(k), |k: NodeId| steps_to_root(v, k, fuel)->0),
        ),
{
    let d = Map::new(|k: NodeId| v.nodes.contains_key(k), |k: NodeId| steps_to_root(v, k, fuel)->0);
    assert forall|k: NodeId| #[trigger] v.nodes.contains_key(k) implies {
        &&& v.nodes[k].id == k
        &&& d.contains_key(k)
        &&& v.nodes[k].children.no_duplicates()
        &&& k != v.root_id ==> {
            &&& v.nodes[k].parent_id is Some
            &&& v.nodes.contains_key(v.nodes[k].parent_id->0)
            &&& d.contains_key(v.nodes[k].parent_id->0)
            &&& d[k] == d[v.nodes[k].parent_id->0] + 1
            &&& v.nodes[v.nodes[k].parent_id->0].children.contains(k)
        }
    } by {
        assert(node_fits(v, k, fuel));
        if k != v.root_id {
            let p = v.nodes[k].parent_id->0;
            assert(fuel > 0);
            lemma_steps_monotone(v, p, (fuel - 1) as nat, 1);
        }
    }
    assert forall|k: NodeId, i: int|
        v.nodes.contains_key(k) && 0 <= i < v.nodes[k].children.len() implies {
        &&& v.nodes.contains_key(#[trigger] v.nodes[k].children[i])
        &&& v.nodes[v.nodes[k].children[i]].parent_id == Some(k)
    } by {
        assert(node_fits(v, k, fuel));
    }
}

/// In a tree, every node fits when the walks may take as many links as there are nodes.
proof fn lemma_tree_fits(v: StoreView, k: NodeId)
    requires
        is_tree(v),
        v.nodes.contains_key(k),
    ensures
        node_fits(v, k, v.nodes.len()),
{
    let d = choose|d: Map<NodeId, nat>| tree_with_depths(v, d);
    crate::store::lemma_tree_depth_bound(v, d, k);
    lemma_steps_of_tree(v, d, k, v.nodes.len());
    assert forall|i: int|
        0 <= i < v.nodes[k].children.len() implies {
            &&& v.nodes.contains_key(#[trigger] v.nodes[k].children[i])
            &&& v.nodes[v.nodes[k].children[i]].parent_id == Some(k)
        } by {
    }
}

/// The store view of a map of nodes and a root id.
pub open spec fn view_of(map: Map<NodeId, Node>, root_id: NodeId) -> StoreView {
    StoreView { nodes: map.map_values(|n: Node| n@), root_id }
}

/// `o` with `c` added to the count it holds.
pub open spec fn plus(o: Option<nat>, c: nat) -> Option<nat> {
    match o {
        Some(s) => Some(s + c),
        None => None,
    }
}

/// Walks parent links from `x` to the root, at most `fuel` of them.
fn walk_to_root(map: &HashMap<NodeId, Node>, root_id: NodeId, x: NodeId, fuel: usize) -> (r: Option<usize>)
    ensures
        match steps_to_root(view_of(map@, root_id), x, fuel as nat) {
            Some(s) => r == Some(s as usize),
            None => r is None,
        },
{
    let ghost v = view_of(map@, root_id);
    let mut cur = x;
    let mut count: usize = 0;
    loop
        invariant
            v == view_of(map@, root_id),
            count <= fuel,
            steps_to_root(v, x, fuel as nat) == plus(steps_to_root(v, cur, (fuel - count) as nat), count as nat),
        decreases fuel - count,
    {
        if cur == root_id {
            return Some(count);
        }
        if count == fuel {
            return None;
        }
        match map.get(&cur) {
            Some(node) => match node.parent_id {
                Some(p) => {
                    assert(v.nodes.contains_key(cur));
                    assert(steps_to_root(v, cur, (fuel - count) as nat) == plus(steps_to_root(v, p, (fuel - count - 1) as nat), 1));
                    cur = p;
                    count = count + 1;
                },
                None => {
                    return None;
                },
            },
            None => {
                return None;
            },
        }
    }
}

/// Whether node `k` fits in a tree, its walk to the root taking at most `fuel` links.
fn check_node(map: &HashMap<NodeId, Node>, root_id: NodeId, k: NodeId, fuel: usize) -> (r: bool)
    requires
        map@.contains_key(k),
    ensures
        r == node_fits(view_of(map@, root_id), k, fuel as nat),
{
    let ghost v = view_of(map@, root_id);
    let node = match map.get(&k) {
        Some(n) => n,
        None => {
            return false;
        },
    };
    assert(node@ == v.nodes[k]);
    if node.id != k {
        return false;
    }
    let ch = &node.children;
    let n = ch.len();
    // no child listed twice
    let mut i: usize = 0;
    while i < n
        invariant
            n == ch.len(),
            ch@ == v.nodes[k].children,
            v == view_of(map@, root_id),
            map@.contains_key(k),
            0 <= i <= n,
            forall|a: int, b: int| 0 <= a < i && 0 <= b < n && a != b ==> ch@[a] != ch@[b],
        decreases n - i,
    {
        let mut j: usize = 0;
        while j < n
            invariant
                n == ch.len(),
                ch@ == v.nodes[k].children,
                v == view_of(map@, root_id),
                map@.contains_key(k),
                0 <= i < n,
                0 <= j <= n,
                forall|b: int| 0 <= b < j && b != i ==> ch@[i as int] != ch@[b],
            decreases n - j,
        {
            if j != i && ch[i] == ch[j] {
                assert(!ch@.no_duplicates());
                return false;
            }
            j = j + 1;
        }
        i = i + 1;
    }
    // every child is a node that names this one as parent
    let mut i: usize = 0;
    while i < n
        invariant
            n == ch.len(),
            ch@ == v.nodes[k].children,
            v == view_of(map@, root_id),
            map@.contains_key(k),
            0 <= i <= n,
            forall|a: int| 0 <= a < i ==> {
                &&& v.nodes.contains_key(#[trigger] ch@[a])
                &&& v.nodes[ch@[a]].parent_id == Some(k)
            },
        decreases n - i,
    {
        match map.get(&ch[i]) {
            Some(c) => {
                if c.parent_id != Some(k) {
                    assert(v.nodes[v.nodes[k].children[i as int]].parent_id != Some(k));
                    return false;
                }
            },
            None => {
                assert(!v.nodes.contains_key(v.nodes[k].children[i as int]));
                return false;
            },
        }
        i = i + 1;
    }
    // a node other than the root is listed by its parent
    if k != root_id {
        let p = match node.parent_id {
            Some(p) => p,
            None => {
                return false;
            },
        };
        let parent = match map.get(&p) {
            Some(pn) => pn,
            None => {
                return false;
            },
        };
        let pc = &parent.children;
        let m = pc.len();
        let mut found = false;
        let mut j: usize = 0;
        while j < m
            invariant
                m == pc.len(),
                0 <= j <= m,
                found == (exists|b: int| 0 <= b < j && pc@[b] == k),
            decreases m - j,
        {
            if pc[j] == k {
                found = true;
            }
            j = j + 1;
        }
        if !found {
            assert(!v.nodes[p].children.contains(k));
            return false;
        }
    }
    match walk_to_root(map, root_id, k, fuel) {
        Some(_) => true,
        None => false,
    }
}

/// Rebuilds a store from a saved document: its entries (key and node) and its root
/// id, as it was saved, whatever its links. The store is a well-formed tree exactly
/// when its links form one tree under the root.
pub fn load_store(root_id: NodeId, entries: &Vec<(NodeId, Node)>) -> (r: NodeStore)
    ensures
        r@ == store_of(entries@, root_id),
        r.wf() == is_tree(r@),
{
    let n = entries.len();
    let mut map: HashMap<NodeId, Node> = HashMap::new();
    let mut i: usize = 0;
    while i < n
        invariant
            n == entries.len(),
            0 <= i <= n,
            forall|k: NodeId| #[trigger] map@.contains_key(k) <==> exists|j: int| 0 <= j < i && entries@[j].0 == k,
            forall|k: NodeId| #[trigger] map@.contains_key(k) ==> exists|j: int|
                0 <= j < i && entries@[j].0 == k && map@[k]@ == entries@[j].1@ && forall|l: int|
                    j < l < i ==> entries@[l].0 != k,
        decreases n - i,
    {
        let key = entries[i].0;
        map.insert(key, entries[i].1.duplicate());
        assert forall|k: NodeId| #[trigger] map@.contains_key(k) <==> exists|j: int| 0 <= j < i + 1 && entries@[j].0 == k by {
            if map@.contains_key(k) && k != key {
                let j = choose|j: int| 0 <= j < i && entries@[j].0 == k;
                assert(0 <= j < i + 1);
            }
            if exists|j: int| 0 <= j < i + 1 && entries@[j].0 == k {
                let j = choose|j: int| 0 <= j < i + 1 && entries@[j].0 == k;
                if j < i {
                    assert(exists|j: int| 0 <= j < i && entries@[j].0 == k);
                }
            }
        }
        assert forall|k: NodeId| #[trigger] map@.contains_key(k) implies exists|j: int|
            0 <= j < i + 1 && entries@[j].0 == k && map@[k]@ == entries@[j].1@ && forall|l: int|
                j < l < i + 1 ==> entries@[l].0 != k by {
            if k == key {
                assert(entries@[i as int].0 == k && map@[k]@ == entries@[i as int].1@);
            } else {
                let j = choose|j: int|
                    0 <= j < i && entries@[j].0 == k && map@[k]@ == entries@[j].1@ && forall|l: int|
                        j < l < i ==> entries@[l].0 != k;
                assert(forall|l: int| j < l < i + 1 ==> entries@[l].0 != k);
            }
        }
        i = i + 1;
    }
    let ghost v = view_of(map@, root_id);
    proof {
        let s = store_of(entries@, root_id);
        assert(v.nodes.dom() =~= s.nodes.dom());
        assert forall|k: NodeId| #[trigger] v.nodes.contains_key(k) implies v.nodes[k] == s.nodes[k] by {
            let j = choose|j: int|
                0 <= j < n && entries@[j].0 == k && map@[k]@ == entries@[j].1@ && forall|l: int|
                    j < l < n ==> entries@[l].0 != k;
            let c = last_entry(entries@, k);
            assert(c == j);
        }
        assert(v.nodes =~= s.nodes);
    }
    match check_tree(&map, root_id, entries) {
        true => {
            let depth = Ghost(choose|d: Map<NodeId, nat>| tree_with_depths(v, d));
            NodeStore::assemble(map, root_id, depth)
        },
        false => NodeStore::assemble_any(map, root_id),
    }
}

/// Whether the links of the stored nodes form one tree under the root; `entries` are
/// the entries the map was built from.
fn check_tree(map: &HashMap<NodeId, Node>, root_id: NodeId, entries: &Vec<(NodeId, Node)>) -> (r: bool)
    requires
        forall|k: NodeId| #[trigger] map@.contains_key(k) <==> exists|j: int| 0 <= j < entries.len() && entries@[j].0 == k,
    ensures
        r == is_tree(view_of(map@, root_id)),
{
    let ghost v = view_of(map@, root_id);
    let n = entries.len();
    // The root exists and has no parent
    match map.get(&root_id) {
        Some(root) => {
            if root.parent_id.is_some() {
                return false;
            }
        },
        None => {
            return false;
        },
    }
    let fuel = map.len();
    assert(fuel == v.nodes.len()) by {
        assert(v.nodes.dom() =~= map@.dom());
    }
    let mut i: usize = 0;
    while i < n
        invariant
            n == entries.len(),
            0 <= i <= n,
            v == view_of(map@, root_id),
            fuel == v.nodes.len(),
            forall|k: NodeId| #[trigger] map@.contains_key(k) <==> exists|j: int| 0 <= j < n && entries@[j].0 == k,
            forall|j: int| 0 <= j < i ==> node_fits(v, #[trigger] entries@[j].0, fuel as nat),
        decreases n - i,
    {
        assert(map@.contains_key(entries@[i as int].0));
        if !check_node(map, root_id, entries[i].0, fuel) {
            proof {
                if is_tree(v) {
                    lemma_tree_fits(v, entries@[i as int].0);
                }
            }
            return false;
        }
        i = i + 1;
    }
    proof {
        assert forall|k: NodeId| #[trigger] v.nodes.contains_key(k) implies node_fits(v, k, fuel as nat) by {
            let j = choose|j: int| 0 <= j < n && entries@[j].0 == k;
            assert(node_fits(v, entries@[j].0, fuel as nat));
        }
        lemma_fits_tree(v, fuel as nat);
    }
    true
}

/// A saved document loads back as it was: listing a store's nodes, each once under
/// its own id, and rebuilding from that list and the root id gives the same store,
/// which is a tree.
pub proof fn law_reload_restores(v: StoreView, es: Seq<(NodeId, Node)>)
    requires
        is_tree(v),
        forall|i: int| 0 <= i < es.len() ==> #[trigger] es[i].0 == es[i].1.id && v.nodes.contains_key(es[i].0)
            && v.nodes[es[i].0] == es[i].1@,
        forall|k: NodeId| #[trigger] v.nodes.contains_key(k) ==> exists|i: int| 0 <= i < es.len() && es[i].0 == k,
        forall|i: int, j: int| 0 <= i < es.len() && 0 <= j < es.len() && i != j ==> es[i].0 != es[j].0,
    ensures
        store_of(es, v.root_id) == v,
        is_tree(store_of(es, v.root_id)),
{
    let w = store_of(es, v.root_id);
    assert forall|k: NodeId| #[trigger] w.nodes.contains_key(k) <==> v.nodes.contains_key(k) by {
        if w.nodes.contains_key(k) {
            let i = choose|i: int| 0 <= i < es.len() && es[i].0 == k;
            assert(v.nodes.contains_key(es[i].0));
        }
    }
    assert forall|k: NodeId| #[trigger] w.nodes.contains_key(k) implies w.nodes[k] == v.nodes[k] by {
        let i = choose|i: int| 0 <= i < es.len() && es[i].0 == k;
        assert(forall|j: int| i < j < es.len() ==> es[j].0 != k);
        let c = last_entry(es, k);
        assert(c == i);
        assert(v.nodes[es[i].0] == es[i].1@);
    }
    assert(w.nodes =~= v.nodes);
    assert(w == v);
}

} // verus!
