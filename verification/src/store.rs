//! The document store: a flat map from node id to node, with parent and
//! child links that always form a single tree under the root frame.
use std::collections::HashMap;
use vstd::prelude::*;
use vstd::std_specs::hash::{spec_hash_map_len, spec_keys_iter};
use vstd::std_specs::iter::IteratorSpec;
use crate::model::{
    is_random_uuid, new_random_id, AutoLayout, Layout, Node, NodeId, NodeType, NodeView, Style, StyleView, Typography,
    TypographyView,
};

verus! {

broadcast use vstd::std_specs::hash::group_hash_axioms;

/// Errors from store operations.
#[derive(Debug, Clone, Copy, PartialEq, Eq, Structural)]
pub enum StoreError {
    /// No node has this id.
    NotFound(NodeId),
    /// The node would end up under itself or one of its descendants.
    CyclicMove,
    /// The root node cannot be deleted.
    DeleteRoot,
}

/// What a store holds: its nodes by id, and the id of the root.
#[verifier::ext_equal]
pub struct StoreView {
    pub nodes: Map<NodeId, NodeView>,
    pub root_id: NodeId,
}

/// The node reached from `x` by following `n` parent links, if every link on
/// the way starts at a node of the store.
pub open spec fn ancestor_at(v: StoreView, x: NodeId, n: nat) -> Option<NodeId>
    decreases n,
{
    if n == 0 {
        Some(x)
    } else if v.nodes.contains_key(x) && v.nodes[x].parent_id is Some {
        ancestor_at(v, v.nodes[x].parent_id->0, (n - 1) as nat)
    } else {
        None
    }
}

/// `x` is `a` or lies below `a` (following parent links from `x` reaches `a`).
pub open spec fn in_subtree(v: StoreView, x: NodeId, a: NodeId) -> bool {
    exists|n: nat| ancestor_at(v, x, n) == Some(a)
}

/// The ids of the store's nodes that lie in the subtree of `a` (`a` included).
pub open spec fn subtree(v: StoreView, a: NodeId) -> Set<NodeId> {
    Set::new(|x: NodeId| v.nodes.contains_key(x) && in_subtree(v, x, a))
}

/// `d` gives every node its distance from the root, and the links are those of a tree:
/// the root has no parent; every other node has a parent in the store that lists it
/// as a child; every listed child is in the store, names its lister as parent, and is
/// listed once; every node is stored under its own id.
pub open spec fn tree_with_depths(v: StoreView, d: Map<NodeId, nat>) -> bool {
    &&& v.nodes.dom().finite()
    &&& v.nodes.contains_key(v.root_id)
    &&& v.nodes[v.root_id].parent_id is None
    &&& d.contains_key(v.root_id)
    &&& d[v.root_id] == 0
    &&& forall|k: NodeId| #[trigger]
        v.nodes.contains_key(k) ==> {
            &&& v.nodes[k].id == k
            &&& d.contains_key(k)
            &&& v.nodes[k].children.no_duplicates()
            &&& k != v.root_id ==> {
                &&& v.nodes[k].parent_id is Some
                &&& v.nodes.contains_key(v.nodes[k].parent_id->0)
                &&& d.contains_key(v.nodes[k].parent_id->0)
                &&& d[k] == d[v.nodes[k].parent_id->0] + 1
                &&& v.nodes[v.nodes[k].parent_id->0].children.contains(k)
            }
        }
    &&& forall|k: NodeId, i: int|
        v.nodes.contains_key(k) && 0 <= i < v.nodes[k].children.len() ==> {
            &&& v.nodes.contains_key(#[trigger] v.nodes[k].children[i])
            &&& v.nodes[v.nodes[k].children[i]].parent_id == Some(k)
        }
}

/// The store's links form one tree rooted at the root node.
pub open spec fn is_tree(v: StoreView) -> bool {
    exists|d: Map<NodeId, nat>| tree_with_depths(v, d)
}

/// The root node of a new document: a frame named "Document" of size 1920x1080.
pub open spec fn document_root(id: NodeId) -> NodeView {
    NodeView {
        layout: Layout { x: 0, y: 0, width: WIDTH_1920, height: HEIGHT_1080 },
        ..NodeView::fresh(id, "Document"@, NodeType::Frame)
    }
}

/// Flat map-based document store with parent-child links.
pub struct NodeStore {
    nodes: HashMap<NodeId, Node>,
    root_id: NodeId,
    depth: Ghost<Map<NodeId, nat>>,
}

impl View for NodeStore {
    type V = StoreView;

    closed spec fn view(&self) -> StoreView {
        StoreView { nodes: self.nodes@.map_values(|n: Node| n@), root_id: self.root_id }
    }
}

impl NodeStore {
    /// The store's links form a tree, witnessed by its depth map.
    pub closed spec fn wf(&self) -> bool {
        tree_with_depths(self@, self.depth@)
    }

    /// Every store is a tree: each node reaches the root by parent links, and the
    /// links of parents and children agree.
    pub proof fn law_store_is_tree(&self)
        requires
            self.wf(),
        ensures
            is_tree(self@),
    {
    }

    /// The distance of node `id` from the root.
    pub closed spec fn level(&self, id: NodeId) -> nat {
        self.depth@[id]
    }

    /// Levels in a well-formed store: the root is at level 0, a child is one level
    /// below its parent, and no level reaches the number of nodes.
    pub proof fn lemma_level(&self, id: NodeId)
        requires
            self.wf(),
            self@.nodes.contains_key(id),
        ensures
            self@.nodes.contains_key(self@.root_id),
            self.level(self@.root_id) == 0,
            self.level(id) < self@.nodes.len(),
            self@.nodes.len() <= usize::MAX,
            forall|i: int|
                0 <= i < self@.nodes[id].children.len() ==> self@.nodes.contains_key(
                    #[trigger] self@.nodes[id].children[i],
                ) && self.level(self@.nodes[id].children[i]) == self.level(id) + 1,
    {
        lemma_depth_bound(self@, self.depth@, id);
        assert(spec_hash_map_len(&self.nodes) == self.nodes@.len());
        assert(self@.nodes.dom() =~= self.nodes@.dom());
        assert forall|i: int| 0 <= i < self@.nodes[id].children.len() implies self@.nodes.contains_key(
            #[trigger] self@.nodes[id].children[i],
        ) && self.level(self@.nodes[id].children[i]) == self.level(id) + 1 by {
            let c = self@.nodes[id].children[i];
            assert(self@.nodes.contains_key(c));
            assert(c != self@.root_id);
        }
    }


    /// A store made of a map whose links form a tree with the given depths.
    /// A store of the given nodes and root, whatever their links.
    pub(crate) fn assemble_any(nodes: HashMap<NodeId, Node>, root_id: NodeId) -> (r: NodeStore)
        requires
            !is_tree(StoreView { nodes: nodes@.map_values(|n: Node| n@), root_id }),
        ensures
            !r.wf(),
            r@ == (StoreView { nodes: nodes@.map_values(|n: Node| n@), root_id }),
    {
        NodeStore { nodes, root_id, depth: Ghost(Map::empty()) }
    }

    pub(crate) fn assemble(
        nodes: HashMap<NodeId, Node>,
        root_id: NodeId,
        depth: Ghost<Map<NodeId, nat>>,
    ) -> (r: NodeStore)
        requires
            tree_with_depths(
                StoreView { nodes: nodes@.map_values(|n: Node| n@), root_id },
                depth@,
            ),
        ensures
            r.wf(),
            r@ == (StoreView { nodes: nodes@.map_values(|n: Node| n@), root_id }),
    {
        NodeStore { nodes, root_id, depth }
    }

    /// A well-formed store holds its root, at level 0.
    pub proof fn lemma_root(&self)
        requires
            self.wf(),
        ensures
            self@.nodes.contains_key(self@.root_id),
            self.level(self@.root_id) == 0,
    {
    }

    /// Create a new store with a root frame node "Document" of size 1920x1080.
    pub fn new() -> (r: Self)
        ensures
            r.wf(),
            r@.nodes.dom() == set![r@.root_id],
            is_random_uuid(r@.root_id),
            r@.nodes[r@.root_id] == document_root(r@.root_id),
    {
        let mut root = Node::new("Document", NodeType::Frame);
        let root_id = root.id;
        root.layout.width = WIDTH_1920;
        root.layout.height = HEIGHT_1080;
        let mut nodes = HashMap::new();
        nodes.insert(root_id, root);
        let r = NodeStore { nodes, root_id, depth: Ghost(Map::empty().insert(root_id, 0nat)) };
        assert(r@.nodes.dom() =~= set![root_id]);
        r
    }

    pub fn root_id(&self) -> (r: NodeId)
        ensures
            r == self@.root_id,
    {
        self.root_id
    }

    pub fn get(&self, id: NodeId) -> (r: Result<&Node, StoreError>)
        ensures
            match r {
                Ok(n) => self@.nodes.contains_key(id) && n@ == self@.nodes[id],
                Err(e) => !self@.nodes.contains_key(id) && e == StoreError::NotFound(id),
            },
    {
        match self.nodes.get(&id) {
            Some(n) => Ok(n),
            None => Err(StoreError::NotFound(id)),
        }
    }

    /// Whether the store holds a node with this id.
    pub fn contains(&self, id: NodeId) -> (r: bool)
        ensures
            r == self@.nodes.contains_key(id),
    {
        self.nodes.contains_key(&id)
    }

    /// Number of nodes in the store.
    pub fn len(&self) -> (r: usize)
        ensures
            r == self@.nodes.len(),
    {
        assert(self@.nodes.dom() =~= self.nodes@.dom());
        self.nodes.len()
    }

    pub fn is_empty(&self) -> (r: bool)
        ensures
            r == (self@.nodes.len() == 0),
    {
        assert(self@.nodes.dom() =~= self.nodes@.dom());
        self.nodes.is_empty()
    }

    /// Check if `candidate` is `ancestor` or a descendant of `ancestor`.
    fn is_descendant_of(&self, candidate: NodeId, ancestor: NodeId) -> (r: bool)
        requires
            self.wf(),
        ensures
            r == in_subtree(self@, candidate, ancestor),
    {
        let ghost v = self@;
        let ghost d = self.depth@;
        if candidate == ancestor {
            proof {
                lemma_subtree_self(v, candidate);
            }
            return true;
        }
        let mut current = candidate;
        loop
            invariant
                self.wf(),
                v == self@,
                d == self.depth@,
                current != ancestor,
                in_subtree(v, candidate, ancestor) == in_subtree(v, current, ancestor),
            decreases
                (if v.nodes.contains_key(current) { d[current] + 1 } else { 0 }),
        {
            match self.nodes.get(&current) {
                Some(node) => {
                    match node.parent_id {
                        Some(pid) => {
                            proof {
                                lemma_subtree_step(v, current, ancestor);
                            }
                            if pid == ancestor {
                                proof {
                                    lemma_subtree_self(v, pid);
                                }
                                return true;
                            }
                            current = pid;
                        },
                        None => {
                            proof {
                                lemma_subtree_top(v, current, ancestor);
                            }
                            return false;
                        },
                    }
                },
                None => {
                    proof {
                        lemma_subtree_top(v, current, ancestor);
                    }
                    return false;
                },
            }
        }
    }

    /// Stores `node` under its id, replacing any node stored there, then appends it to
    /// the children of the existing parent `parent_id`.
    fn attach(&mut self, node: Node, parent_id: NodeId)
        requires
            old(self)@.nodes.contains_key(parent_id),
            node.parent_id == Some(parent_id),
            node.children@ == Seq::<NodeId>::empty(),
            node.layout == Layout::spec_zero(),
            node.style@ == StyleView::empty(),
            node.typography@ == TypographyView::empty(),
            node.auto_layout == AutoLayout::spec_default(),
        ensures
            final(self)@ == inserted_child(old(self)@, node.id, node.name@, node.node_type, parent_id),
            old(self).wf() && !old(self)@.nodes.contains_key(node.id) ==> final(self).wf(),
    {
        let ghost v = self@;
        let ghost was_tree = self.wf() && !v.nodes.contains_key(node.id);
        let id = node.id;
        proof {
            if was_tree {
                lemma_with_child_tree(v, self.depth@, id, node.name@, node.node_type, parent_id);
                lemma_inserted_fresh(v, id, node.name@, node.node_type, parent_id);
            }
        }
        let ghost name = node.name@;
        let ghost nt = node.node_type;
        self.nodes.insert(id, node);
        let removed = self.nodes.remove(&parent_id);
        match removed {
            Some(mut parent) => {
                parent.children.push(id);
                self.nodes.insert(parent_id, parent);
            },
            None => {},
        }
        self.depth = Ghost(
            if was_tree {
                self.depth@.insert(id, self.depth@[parent_id] + 1)
            } else {
                self.depth@
            },
        );
        assert(self@.nodes =~= inserted_child(v, id, name, nt, parent_id).nodes);
    }

    /// Add a new node as a child of `parent_id`, under a freshly drawn random id.
    /// Returns the new node's ID. As with `add_with_id`, a node already stored under
    /// the drawn id would be replaced.
    pub fn add(&mut self, name: &str, node_type: NodeType, parent_id: NodeId) -> (r: Result<
        NodeId,
        StoreError,
    >)
        ensures
            match r {
                Ok(id) => {
                    &&& old(self)@.nodes.contains_key(parent_id)
                    &&& is_random_uuid(id)
                    &&& final(self)@ == inserted_child(old(self)@, id, name@, node_type, parent_id)
                    &&& old(self).wf() && !old(self)@.nodes.contains_key(id) ==> final(self).wf()
                },
                Err(e) => {
                    &&& !old(self)@.nodes.contains_key(parent_id)
                    &&& e == StoreError::NotFound(parent_id)
                    &&& final(self)@ == old(self)@
                    &&& old(self).wf() ==> final(self).wf()
                },
            },
    {
        let id = new_random_id();
        match self.add_with_id(id, name, node_type, parent_id) {
            Ok(()) => Ok(id),
            Err(e) => Err(e),
        }
    }

    /// Add a node with a pre-assigned ID as the last child of `parent_id`. A node
    /// already stored under `id` is replaced by the new one.
    pub fn add_with_id(
        &mut self,
        id: NodeId,
        name: &str,
        node_type: NodeType,
        parent_id: NodeId,
    ) -> (r: Result<(), StoreError>)
        ensures
            match r {
                Ok(()) => {
                    &&& old(self)@.nodes.contains_key(parent_id)
                    &&& final(self)@ == inserted_child(old(self)@, id, name@, node_type, parent_id)
                    &&& old(self).wf() && !old(self)@.nodes.contains_key(id) ==> final(self).wf()
                },
                Err(e) => {
                    &&& !old(self)@.nodes.contains_key(parent_id)
                    &&& e == StoreError::NotFound(parent_id)
                    &&& final(self)@ == old(self)@
                    &&& old(self).wf() ==> final(self).wf()
                },
            },
    {
        if !self.nodes.contains_key(&parent_id) {
            return Err(StoreError::NotFound(parent_id));
        }
        let mut node = Node::with_id(id, name, node_type);
        node.parent_id = Some(parent_id);
        self.attach(node, parent_id);
        Ok(())
    }

    /// The nodes of the store, each once, in no particular order.
    pub fn nodes(&self) -> (r: Vec<&Node>)
        requires
            self.wf(),
        ensures
            r.len() == self@.nodes.len(),
            forall|i: int| 0 <= i < r.len() ==> self@.nodes.contains_key(#[trigger] r[i].id)
                && self@.nodes[r[i].id] == r[i]@,
            forall|k: NodeId| #[trigger]
                self@.nodes.contains_key(k) ==> exists|i: int| 0 <= i < r.len() && r[i].id == k,
            forall|i: int, j: int| 0 <= i < r.len() && 0 <= j < r.len() && i != j ==> r[i].id != r[j].id,
    {
        assert(self@.nodes.dom() =~= self.nodes@.dom());
        let mut r: Vec<&Node> = Vec::new();
        let ghost all = spec_keys_iter(&self.nodes).remaining();
        for k in it: self.nodes.keys()
            invariant
                self.wf(),
                all == spec_keys_iter(&self.nodes).remaining(),
                it.seq() == all,
                r.len() == it.index(),
                forall|i: int| 0 <= i < r.len() ==> self@.nodes.contains_key(#[trigger] r[i].id)
                    && self@.nodes[r[i].id] == r[i]@ && r[i].id == *all[i],
        {
            proof {
                let i = r.len() as int;
                assert(all.unref()[i] == *all[i]);
                assert(all.unref().to_set().contains(*all[i]));
                assert(*k == *all[i]);
                assert(self@.nodes.contains_key(*k));
            }
            match self.nodes.get(k) {
                Some(n) => {
                    r.push(n);
                },
                None => {},
            }
        }
        proof {
            assert forall|k: NodeId| #[trigger]
                self@.nodes.contains_key(k) implies exists|i: int| 0 <= i < r.len() && r[i].id == k by {
                assert(all.unref().to_set().contains(k));
                let i = choose|i: int| 0 <= i < all.unref().len() && all.unref()[i] == k;
                assert(r[i].id == k);
            }
            assert forall|i: int, j: int| 0 <= i < r.len() && 0 <= j < r.len() && i != j implies r[i].id != r[j].id by {
                assert(*all[i] != *all[j]);
            }
        }
        r
    }

    /// Get ordered children of a node.
    pub fn children(&self, id: NodeId) -> (r: Result<Vec<&Node>, StoreError>)
        requires
            self.wf(),
        ensures
            match r {
                Ok(cs) => {
                    &&& self@.nodes.contains_key(id)
                    &&& cs.len() == self@.nodes[id].children.len()
                    &&& forall|i: int| 0 <= i < cs.len() ==> #[trigger] cs[i]@ == self@.nodes[self@.nodes[id].children[i]]
                },
                Err(e) => !self@.nodes.contains_key(id) && e == StoreError::NotFound(id),
            },
    {
        let node = self.get(id)?;
        let ghost ch = self@.nodes[id].children;
        let mut cs: Vec<&Node> = Vec::new();
        let n = node.children.len();
        let mut i: usize = 0;
        while i < n
            invariant
                self.wf(),
                self@.nodes.contains_key(id),
                ch == self@.nodes[id].children,
                node.children@ == ch,
                n == ch.len(),
                0 <= i <= n,
                cs.len() == i,
                forall|j: int| 0 <= j < i ==> #[trigger] cs[j]@ == self@.nodes[ch[j]],
            decreases n - i,
        {
            let cid = node.children[i];
            assert(self@.nodes.contains_key(self@.nodes[id].children[i as int]));
            match self.nodes.get(&cid) {
                Some(c) => {
                    cs.push(c);
                },
                None => {},
            }
            i = i + 1;
        }
        Ok(cs)
    }

    /// Replaces the content of node `id` by `node`, which must keep its id and links.
    fn replace_node(&mut self, id: NodeId, node: Node)
        requires
            old(self)@.nodes.contains_key(id),
            node.id == old(self)@.nodes[id].id,
            node.parent_id == old(self)@.nodes[id].parent_id,
            node.children@ == old(self)@.nodes[id].children,
        ensures
            old(self).wf() ==> final(self).wf(),
            final(self)@ == with_node(old(self)@, id, node@),
    {
        let ghost v = self@;
        self.nodes.insert(id, node);
        assert(self@.nodes =~= with_node(v, id, node@).nodes);
        assert(self@.nodes.dom() =~= v.nodes.dom());
        proof {
            if old(self).wf() {
                lemma_same_links_tree(v, self@, self.depth@);
            }
        }
    }

    /// A mutable reference to node `id`. What the caller leaves in it becomes the node;
    /// the store stays a tree when the node keeps its id, parent and children.
    pub fn get_mut(&mut self, id: NodeId) -> (r: Result<&mut Node, StoreError>)
        ensures
            r is Ok <==> old(self)@.nodes.contains_key(id),
            r matches Ok(n) ==> n@ == old(self)@.nodes[id] && final(self)@.nodes == old(
                self,
            )@.nodes.insert(id, final(n)@) && final(self)@.root_id == old(self)@.root_id,
            r matches Ok(n) ==> final(self)@ == with_node(old(self)@, id, final(n)@),
            r matches Ok(n) ==> (old(self).wf() && final(n).id == id && final(n).parent_id == old(
                self,
            )@.nodes[id].parent_id && final(n).children@ == old(self)@.nodes[id].children
                && final(self)@ == with_node(old(self)@, id, final(n)@) ==> final(self).wf()),
            r matches Err(e) ==> e == StoreError::NotFound(id) && final(self)@ == old(self)@ && (old(
                self,
            ).wf() ==> final(self).wf()),
    {
        let ghost v = self@;
        let ghost d = self.depth@;
        proof {
            assert forall|w: NodeView|
                tree_with_depths(v, d) && v.nodes.contains_key(id) && w.id == id && w.parent_id == v.nodes[id].parent_id
                    && w.children == v.nodes[id].children implies tree_with_depths(
                #[trigger] with_node(v, id, w),
                d,
            ) by {
                assert(with_node(v, id, w).nodes.dom() =~= v.nodes.dom());
                lemma_same_links_tree(v, with_node(v, id, w), d);
            }
        }
        if !self.nodes.contains_key(&id) {
            return Err(StoreError::NotFound(id));
        }
        match self.nodes.entry(id) {
            std::collections::hash_map::Entry::Occupied(o) => Ok(o.into_mut()),
            std::collections::hash_map::Entry::Vacant(_) => Err(StoreError::NotFound(id)),
        }
    }

    /// Renames node `id`.
    pub fn set_name(&mut self, id: NodeId, name: String) -> (r: Result<(), StoreError>)
        ensures
            old(self).wf() ==> final(self).wf(),
            match r {
                Ok(()) => old(self)@.nodes.contains_key(id) && final(self)@ == with_node(
                    old(self)@,
                    id,
                    NodeView { name: name@, ..old(self)@.nodes[id] },
                ),
                Err(e) => !old(self)@.nodes.contains_key(id) && e == StoreError::NotFound(id)
                    && final(self)@ == old(self)@,
            },
    {
        let mut node = self.get(id)?.duplicate();
        node.name = name;
        self.replace_node(id, node);
        Ok(())
    }

    /// Sets the layout of node `id`.
    pub fn set_layout(&mut self, id: NodeId, layout: Layout) -> (r: Result<(), StoreError>)
        ensures
            old(self).wf() ==> final(self).wf(),
            match r {
                Ok(()) => old(self)@.nodes.contains_key(id) && final(self)@ == with_node(
                    old(self)@,
                    id,
                    NodeView { layout: layout, ..old(self)@.nodes[id] },
                ),
                Err(e) => !old(self)@.nodes.contains_key(id) && e == StoreError::NotFound(id)
                    && final(self)@ == old(self)@,
            },
    {
        let mut node = self.get(id)?.duplicate();
        node.layout = layout;
        self.replace_node(id, node);
        Ok(())
    }

    /// Sets the style of node `id`.
    pub fn set_style(&mut self, id: NodeId, style: Style) -> (r: Result<(), StoreError>)
        ensures
            old(self).wf() ==> final(self).wf(),
            match r {
                Ok(()) => old(self)@.nodes.contains_key(id) && final(self)@ == with_node(
                    old(self)@,
                    id,
                    NodeView { style: style@, ..old(self)@.nodes[id] },
                ),
                Err(e) => !old(self)@.nodes.contains_key(id) && e == StoreError::NotFound(id)
                    && final(self)@ == old(self)@,
            },
    {
        let mut node = self.get(id)?.duplicate();
        node.style = style;
        self.replace_node(id, node);
        Ok(())
    }

    /// Sets the typography of node `id`.
    pub fn set_typography(&mut self, id: NodeId, typography: Typography) -> (r: Result<
        (),
        StoreError,
    >)
        ensures
            old(self).wf() ==> final(self).wf(),
            match r {
                Ok(()) => old(self)@.nodes.contains_key(id) && final(self)@ == with_node(
                    old(self)@,
                    id,
                    NodeView { typography: typography@, ..old(self)@.nodes[id] },
                ),
                Err(e) => !old(self)@.nodes.contains_key(id) && e == StoreError::NotFound(id)
                    && final(self)@ == old(self)@,
            },
    {
        let mut node = self.get(id)?.duplicate();
        node.typography = typography;
        self.replace_node(id, node);
        Ok(())
    }

    /// A copy of the store.
    pub fn snapshot(&self) -> (r: NodeStore)
        requires
            self.wf(),
        ensures
            r.wf(),
            r@ == self@,
    {
        NodeStore { nodes: self.nodes.clone(), root_id: self.root_id, depth: Ghost(self.depth@) }
    }

    /// Move a node to a new parent. Prevents cycles.
    pub fn move_node(&mut self, id: NodeId, new_parent_id: NodeId) -> (r: Result<(), StoreError>)
        requires
            old(self).wf(),
        ensures
            final(self).wf(),
            r == move_outcome(old(self)@, id, new_parent_id),
            r is Err ==> final(self)@ == old(self)@,
            r is Ok ==> final(self)@ == moved(old(self)@, id, new_parent_id),
    {
        let ghost v = self@;
        let ghost d = self.depth@;
        if id == self.root_id {
            return Err(StoreError::CyclicMove);
        }
        // Check both nodes exist
        if !self.nodes.contains_key(&id) {
            return Err(StoreError::NotFound(id));
        }
        if !self.nodes.contains_key(&new_parent_id) {
            return Err(StoreError::NotFound(new_parent_id));
        }
        // Prevent moving under self or descendant
        if self.is_descendant_of(new_parent_id, id) {
            return Err(StoreError::CyclicMove);
        }
        proof {
            lemma_moved_tree(v, d, id, new_parent_id);
            lemma_subtree_self(v, id);
        }
        assert(v.nodes.contains_key(id));
        let old_parent_id = match self.nodes.get(&id) {
            Some(node) => node.parent_id,
            None => None,
        };
        let ghost op = v.nodes[id].parent_id->0;
        assert(old_parent_id == Some(op));
        assert(v.nodes.contains_key(op));
        // Remove from old parent
        if let Some(pid) = old_parent_id {
            let removed = self.nodes.remove(&pid);
            if let Some(mut parent) = removed {
                parent.children = without(&parent.children, id);
                self.nodes.insert(pid, parent);
            }
        }
        // Add to new parent
        let removed = self.nodes.remove(&new_parent_id);
        if let Some(mut parent) = removed {
            parent.children.push(id);
            self.nodes.insert(new_parent_id, parent);
        }
        let removed = self.nodes.remove(&id);
        if let Some(mut node) = removed {
            node.parent_id = Some(new_parent_id);
            self.nodes.insert(id, node);
        }
        self.depth = Ghost(moved_depths(v, d, id, new_parent_id));
        assert(self@.nodes =~= moved(v, id, new_parent_id).nodes);
        Ok(())
    }

    /// Appends the ids of the subtree of `id` to `out`.
    fn collect_subtree(&self, id: NodeId, out: &mut Vec<NodeId>)
        requires
            self.wf(),
            self@.nodes.contains_key(id),
        ensures
            forall|x: NodeId| #[trigger]
                final(out)@.contains(x) <==> (old(out)@.contains(x) || subtree(self@, id).contains(
                    x,
                )),
        decreases self@.nodes.len() - self.depth@[id],
    {
        let ghost v = self@;
        let ghost d = self.depth@;
        let ghost out0 = out@;
        proof {
            lemma_depth_bound(v, d, id);
            lemma_subtree_self(v, id);
        }
        out.push(id);
        assert forall|x: NodeId| out@.contains(x) <==> (out0.contains(x) || x == id) by {
            assert(out@ == out0.push(id));
            if out@.contains(x) {
                let j = choose|j: int| 0 <= j < out@.len() && #[trigger] out@[j] == x;
                if j < out0.len() {
                    assert(out0[j] == x);
                }
            }
            if out0.contains(x) {
                let j = choose|j: int| 0 <= j < out0.len() && #[trigger] out0[j] == x;
                assert(out@[j] == x);
            }
            assert(out@[out0.len() as int] == id);
        }
        let node = match self.nodes.get(&id) {
            Some(node) => node,
            None => {
                return ;
            },
        };
        let ghost ch = v.nodes[id].children;
        assert(node.children@ == ch);
        assert forall|x: NodeId| #[trigger]
            out@.contains(x) <==> (out0.contains(x) || x == id || exists|j: int|
                0 <= j < 0 && #[trigger] subtree(v, ch[j]).contains(x)) by {
        }
        let n = node.children.len();
        let mut i: usize = 0;
        while i < n
            invariant
                self.wf(),
                v == self@,
                d == self.depth@,
                v.nodes.contains_key(id),
                n == ch.len(),
                ch == v.nodes[id].children,
                node.children@ == ch,
                out0 == old(out)@,
                0 <= i <= n,
                forall|x: NodeId| #[trigger]
                    out@.contains(x) <==> (out0.contains(x) || x == id || exists|j: int|
                        0 <= j < i && #[trigger] subtree(v, ch[j]).contains(x)),
            decreases n - i,
        {
            let c = node.children[i];
            proof {
                assert(v.nodes.contains_key(v.nodes[id].children[i as int]));
                assert(v.nodes[c].parent_id == Some(id));
                assert(c != v.root_id);
                lemma_depth_bound(v, d, c);
            }
            let ghost before = out@;
            self.collect_subtree(c, out);
            assert forall|x: NodeId| #[trigger]
                out@.contains(x) <==> (out0.contains(x) || x == id || exists|j: int|
                    0 <= j < i + 1 && #[trigger] subtree(v, ch[j]).contains(x)) by {
                if subtree(v, ch[i as int]).contains(x) {
                    assert(0 <= i < i + 1);
                }
                if exists|j: int| 0 <= j < i + 1 && #[trigger] subtree(v, ch[j]).contains(x) {
                    let j = choose|j: int| 0 <= j < i + 1 && #[trigger] subtree(v, ch[j]).contains(x);
                    if j < i {
                    } else {
                        assert(subtree(v, c).contains(x));
                    }
                }
            }
            i = i + 1;
        }
        assert forall|x: NodeId| #[trigger]
            out@.contains(x) <==> (out0.contains(x) || subtree(v, id).contains(x)) by {
            if v.nodes.contains_key(x) && x != id {
                lemma_subtree_children(v, d, x, id);
                if in_subtree(v, x, id) {
                    let j = choose|j: int| 0 <= j < ch.len() && #[trigger] in_subtree(v, x, ch[j]);
                    assert(subtree(v, ch[j]).contains(x));
                }
                if exists|j: int| 0 <= j < n && #[trigger] subtree(v, ch[j]).contains(x) {
                    let j = choose|j: int| 0 <= j < n && #[trigger] subtree(v, ch[j]).contains(x);
                    assert(in_subtree(v, x, ch[j]));
                }
            }
            if exists|j: int| 0 <= j < n && #[trigger] subtree(v, ch[j]).contains(x) {
                let j = choose|j: int| 0 <= j < n && #[trigger] subtree(v, ch[j]).contains(x);
                assert(v.nodes.contains_key(x));
            }
        }
    }

    /// Delete a node and all its descendants. Cannot delete root.
    pub fn delete(&mut self, id: NodeId) -> (r: Result<(), StoreError>)
        requires
            old(self).wf(),
        ensures
            final(self).wf(),
            id == old(self)@.root_id ==> r == Err::<(), StoreError>(StoreError::DeleteRoot),
            id != old(self)@.root_id && !old(self)@.nodes.contains_key(id) ==> r == Err::<
                (),
                StoreError,
            >(StoreError::NotFound(id)),
            r is Err ==> final(self)@ == old(self)@,
            r is Ok ==> final(self)@ == without_subtree(old(self)@, id),
            r is Ok <==> id != old(self)@.root_id && old(self)@.nodes.contains_key(id),
    {
        if id == self.root_id {
            return Err(StoreError::DeleteRoot);
        }
        let ghost v = self@;
        let ghost d = self.depth@;
        let parent_id = match self.nodes.get(&id) {
            Some(node) => node.parent_id,
            None => {
                return Err(StoreError::NotFound(id));
            },
        };
        // Collect all descendants
        let mut to_remove: Vec<NodeId> = Vec::new();
        self.collect_subtree(id, &mut to_remove);
        proof {
            lemma_without_subtree_tree(v, d, id);
        }
        assert(parent_id == v.nodes[id].parent_id);
        assert(forall|x: NodeId| #[trigger] to_remove@.contains(x) <==> subtree(v, id).contains(x));
        let pid = match parent_id {
            Some(pid) => pid,
            None => {
                return Err(StoreError::NotFound(id));
            },
        };
        assert(v.nodes.contains_key(id));
        assert(v.nodes.contains_key(pid));
        assert(self.nodes@.contains_key(pid));
        // Remove from parent's children list
        let removed = self.nodes.remove(&pid);
        match removed {
            Some(mut parent) => {
                parent.children = without(&parent.children, id);
                self.nodes.insert(pid, parent);
            },
            None => {},
        }
        let ghost mid = self.nodes@;
        assert(mid.dom() =~= v.nodes.dom());
        assert(mid[pid]@ == NodeView { children: without_child(v.nodes[pid].children, id), ..v.nodes[pid] });
        assert(forall|k: NodeId| k != pid && #[trigger] mid.contains_key(k) ==> mid[k]@ == v.nodes[k]);
        // Remove all collected nodes
        let n = to_remove.len();
        let mut i: usize = 0;
        while i < n
            invariant
                0 <= i <= n,
                n == to_remove.len(),
                self.root_id == v.root_id,
                self.depth@ == d,
                forall|k: NodeId| #[trigger]
                    self.nodes@.contains_key(k) <==> (mid.contains_key(k)
                        && !to_remove@.take(i as int).contains(k)),
                forall|k: NodeId| #[trigger]
                    self.nodes@.contains_key(k) ==> self.nodes@[k] == mid[k],
            decreases n - i,
        {
            let rid = to_remove[i];
            self.nodes.remove(&rid);
            let ghost t0 = to_remove@.take(i as int);
            let ghost t1 = to_remove@.take(i + 1);
            assert(t1 =~= t0.push(rid));
            assert forall|k: NodeId| t1.contains(k) <==> (t0.contains(k) || k == rid) by {
                if t0.contains(k) {
                    let j = choose|j: int| 0 <= j < t0.len() && #[trigger] t0[j] == k;
                    assert(t1[j] == k);
                }
                if t1.contains(k) {
                    let j = choose|j: int| 0 <= j < t1.len() && #[trigger] t1[j] == k;
                    if j < i {
                        assert(t0[j] == k);
                    }
                }
                assert(t1[i as int] == rid);
            }
            i = i + 1;
        }
        assert(to_remove@.take(n as int) =~= to_remove@);
        assert(self@.nodes.dom() =~= without_subtree(v, id).nodes.dom());
        assert(self@.nodes =~= without_subtree(v, id).nodes);
        assert(self@ == without_subtree(v, id));
        Ok(())
    }
}

/// A copy of `children` without the entries equal to `id`.
fn without(children: &Vec<NodeId>, id: NodeId) -> (r: Vec<NodeId>)
    ensures
        r@ == without_child(children@, id),
{
    let mut r: Vec<NodeId> = Vec::new();
    let n = children.len();
    let mut i: usize = 0;
    while i < n
        invariant
            n == children.len(),
            0 <= i <= n,
            r@ == without_child(children@.take(i as int), id),
        decreases n - i,
    {
        let c = children[i];
        proof {
            assert(children@.take(i + 1) =~= children@.take(i as int).push(c));
            children@.take(i as int).lemma_filter_push(c, other_than(id));
        }
        if c != id {
            r.push(c);
        }
        i = i + 1;
    }
    assert(children@.take(n as int) =~= children@);
    r
}

/// The store after `id` is added as the last child of `parent_id`, as a fresh node
/// named `name` of type `node_type`.
pub open spec fn with_child(
    v: StoreView,
    id: NodeId,
    name: Seq<char>,
    node_type: NodeType,
    parent_id: NodeId,
) -> StoreView {
    let p = v.nodes[parent_id];
    StoreView {
        nodes: v.nodes.insert(parent_id, NodeView { children: p.children.push(id), ..p }).insert(
            id,
            NodeView { parent_id: Some(parent_id), ..NodeView::fresh(id, name, node_type) },
        ),
        root_id: v.root_id,
    }
}

/// The store after node `id` (fresh: no children, no properties) is stored under the
/// parent `parent_id` as `add_with_id` does it: the node is stored first, replacing any
/// node already stored under `id`, then the parent (which may be that very node) has
/// `id` appended to its children.
pub open spec fn inserted_child(
    v: StoreView,
    id: NodeId,
    name: Seq<char>,
    node_type: NodeType,
    parent_id: NodeId,
) -> StoreView {
    let n1 = v.nodes.insert(id, NodeView { parent_id: Some(parent_id), ..NodeView::fresh(id, name, node_type) });
    let p = n1[parent_id];
    StoreView { nodes: n1.insert(parent_id, NodeView { children: p.children.push(id), ..p }), root_id: v.root_id }
}

/// For a fresh id under an existing parent, storing the node and linking it is adding
/// a child.
pub proof fn lemma_inserted_fresh(v: StoreView, id: NodeId, name: Seq<char>, node_type: NodeType, parent_id: NodeId)
    requires
        v.nodes.contains_key(parent_id),
        !v.nodes.contains_key(id),
    ensures
        inserted_child(v, id, name, node_type, parent_id) == with_child(v, id, name, node_type, parent_id),
{
    assert(inserted_child(v, id, name, node_type, parent_id).nodes =~= with_child(
        v,
        id,
        name,
        node_type,
        parent_id,
    ).nodes);
}

/// One step up: below a node that is not `a`, being under `a` is being under its parent.
pub proof fn lemma_subtree_step(v: StoreView, x: NodeId, a: NodeId)
    requires
        v.nodes.contains_key(x),
        v.nodes[x].parent_id is Some,
        x != a,
    ensures
        in_subtree(v, x, a) == in_subtree(v, v.nodes[x].parent_id->0, a),
{
    let p = v.nodes[x].parent_id->0;
    if in_subtree(v, x, a) {
        let n = choose|n: nat| ancestor_at(v, x, n) == Some(a);
        assert(n > 0);
        assert(ancestor_at(v, p, (n - 1) as nat) == Some(a));
    }
    if in_subtree(v, p, a) {
        let n = choose|n: nat| ancestor_at(v, p, n) == Some(a);
        assert(ancestor_at(v, x, n + 1) == Some(a));
    }
}

/// A node with no parent (or outside the store) is under nothing but itself.
pub proof fn lemma_subtree_top(v: StoreView, x: NodeId, a: NodeId)
    requires
        !v.nodes.contains_key(x) || v.nodes[x].parent_id is None,
    ensures
        in_subtree(v, x, a) == (x == a),
{
    if in_subtree(v, x, a) {
        let n = choose|n: nat| ancestor_at(v, x, n) == Some(a);
        assert(n == 0);
    }
    assert(ancestor_at(v, x, 0) == Some(x));
}

/// Every node is in its own subtree.
pub proof fn lemma_subtree_self(v: StoreView, x: NodeId)
    ensures
        in_subtree(v, x, x),
{
    assert(ancestor_at(v, x, 0) == Some(x));
}

/// Following `n` parent links from a node of a tree lowers the depth by `n`.
proof fn lemma_ancestor_depth(v: StoreView, d: Map<NodeId, nat>, x: NodeId, n: nat)
    requires
        tree_with_depths(v, d),
        v.nodes.contains_key(x),
        ancestor_at(v, x, n) is Some,
    ensures
        v.nodes.contains_key(ancestor_at(v, x, n)->0),
        d[ancestor_at(v, x, n)->0] + n == d[x],
    decreases n,
{
    if n > 0 {
        let p = v.nodes[x].parent_id->0;
        if x == v.root_id {
            assert(false);
        }
        lemma_ancestor_depth(v, d, p, (n - 1) as nat);
    }
}

/// The ancestors of a node of a tree are nodes of the tree, no deeper than it.
proof fn lemma_subtree_depth(v: StoreView, d: Map<NodeId, nat>, x: NodeId, a: NodeId)
    requires
        tree_with_depths(v, d),
        v.nodes.contains_key(x),
        in_subtree(v, x, a),
    ensures
        v.nodes.contains_key(a),
        d[a] <= d[x],
        d[a] == d[x] ==> x == a,
{
    let n = choose|n: nat| ancestor_at(v, x, n) == Some(a);
    lemma_ancestor_depth(v, d, x, n);
    if n == 0 {
    }
}

/// Inserting a fresh child keeps the links a tree.
proof fn lemma_with_child_tree(
    v: StoreView,
    d: Map<NodeId, nat>,
    id: NodeId,
    name: Seq<char>,
    node_type: NodeType,
    parent_id: NodeId,
)
    requires
        tree_with_depths(v, d),
        v.nodes.contains_key(parent_id),
        !v.nodes.contains_key(id),
    ensures
        tree_with_depths(
            with_child(v, id, name, node_type, parent_id),
            d.insert(id, d[parent_id] + 1),
        ),
{
    let w = with_child(v, id, name, node_type, parent_id);
    let d2 = d.insert(id, d[parent_id] + 1);
    assert(!v.nodes[parent_id].children.contains(id));
    assert forall|k: NodeId| #[trigger] w.nodes.contains_key(k) implies {
        &&& w.nodes[k].id == k
        &&& d2.contains_key(k)
        &&& w.nodes[k].children.no_duplicates()
        &&& k != w.root_id ==> {
            &&& w.nodes[k].parent_id is Some
            &&& w.nodes.contains_key(w.nodes[k].parent_id->0)
            &&& d2.contains_key(w.nodes[k].parent_id->0)
            &&& d2[k] == d2[w.nodes[k].parent_id->0] + 1
            &&& w.nodes[w.nodes[k].parent_id->0].children.contains(k)
        }
    } by {
        if k != id && k != w.root_id {
            let p = v.nodes[k].parent_id->0;
            assert(v.nodes[p].children.contains(k));
            if p == parent_id {
                let j = choose|j: int|
                    0 <= j < v.nodes[p].children.len() && v.nodes[p].children[j] == k;
                assert(w.nodes[p].children[j] == k);
            }
        }
        if k == id {
            assert(w.nodes[parent_id].children[w.nodes[parent_id].children.len() - 1] == id);
        }
    }
    assert forall|k: NodeId, i: int|
        w.nodes.contains_key(k) && 0 <= i < w.nodes[k].children.len() implies {
        &&& w.nodes.contains_key(#[trigger] w.nodes[k].children[i])
        &&& w.nodes[w.nodes[k].children[i]].parent_id == Some(k)
    } by {
        if k == parent_id && i == v.nodes[k].children.len() {
        } else if k != id {
            assert(v.nodes[k].children[i] == w.nodes[k].children[i]);
            let c = v.nodes[k].children[i];
            assert(v.nodes.contains_key(c));
        }
    }
}

/// `children` without the entries equal to `id`.
pub open spec fn without_child(children: Seq<NodeId>, id: NodeId) -> Seq<NodeId> {
    children.filter(other_than(id))
}

/// The test "is not `id`".
pub open spec fn other_than(id: NodeId) -> spec_fn(NodeId) -> bool {
    |c: NodeId| c != id
}

/// The store after the subtree of `id` is deleted and `id` is dropped from its
/// parent's children.
pub open spec fn without_subtree(v: StoreView, id: NodeId) -> StoreView {
    let pid = v.nodes[id].parent_id->0;
    let p = v.nodes[pid];
    StoreView {
        nodes: v.nodes.insert(
            pid,
            NodeView { children: without_child(p.children, id), ..p },
        ).remove_keys(subtree(v, id)),
        root_id: v.root_id,
    }
}

/// Climbing `n` links and then `m` more is climbing `n + m` links.
proof fn lemma_ancestor_compose(v: StoreView, x: NodeId, n: nat, m: nat)
    requires
        ancestor_at(v, x, n) is Some,
    ensures
        ancestor_at(v, x, n + m) == ancestor_at(v, ancestor_at(v, x, n)->0, m),
    decreases n,
{
    if n > 0 {
        lemma_ancestor_compose(v, v.nodes[x].parent_id->0, (n - 1) as nat, m);
        assert((n + m - 1) as nat == (n - 1) as nat + m);
    }
}

/// Being in a subtree is transitive.
pub proof fn lemma_subtree_trans(v: StoreView, x: NodeId, y: NodeId, a: NodeId)
    requires
        in_subtree(v, x, y),
        in_subtree(v, y, a),
    ensures
        in_subtree(v, x, a),
{
    let n = choose|n: nat| ancestor_at(v, x, n) == Some(y);
    let m = choose|m: nat| ancestor_at(v, y, m) == Some(a);
    lemma_ancestor_compose(v, x, n, m);
}

/// In a tree, a node other than `a` lies under `a` exactly when it lies under one of
/// the children of `a`.
proof fn lemma_subtree_children(v: StoreView, d: Map<NodeId, nat>, x: NodeId, a: NodeId)
    requires
        tree_with_depths(v, d),
        v.nodes.contains_key(x),
        v.nodes.contains_key(a),
        x != a,
    ensures
        in_subtree(v, x, a) <==> exists|j: int|
            0 <= j < v.nodes[a].children.len() && #[trigger] in_subtree(
                v,
                x,
                v.nodes[a].children[j],
            ),
    decreases d[x],
{
    let ch = v.nodes[a].children;
    if in_subtree(v, x, a) {
        assert(x != v.root_id) by {
            if x == v.root_id {
                lemma_subtree_top(v, x, a);
            }
        }
        let p = v.nodes[x].parent_id->0;
        lemma_subtree_step(v, x, a);
        if p == a {
            let j = choose|j: int| 0 <= j < ch.len() && ch[j] == x;
            lemma_subtree_self(v, x);
            assert(in_subtree(v, x, ch[j]));
        } else {
            lemma_subtree_children(v, d, p, a);
            let j = choose|j: int| 0 <= j < ch.len() && #[trigger] in_subtree(v, p, ch[j]);
            if x != ch[j] {
                lemma_subtree_step(v, x, ch[j]);
            } else {
                lemma_subtree_self(v, x);
            }
            assert(in_subtree(v, x, ch[j]));
        }
    }
    if exists|j: int| 0 <= j < ch.len() && #[trigger] in_subtree(v, x, ch[j]) {
        let j = choose|j: int| 0 <= j < ch.len() && #[trigger] in_subtree(v, x, ch[j]);
        let c = ch[j];
        assert(c != a);
        lemma_subtree_step(v, c, a);
        lemma_subtree_self(v, a);
        lemma_subtree_trans(v, x, c, a);
    }
}

/// The ancestors of `x`, `x` included.
spec fn ancestor_set(v: StoreView, d: Map<NodeId, nat>, x: NodeId) -> Set<NodeId>
    decreases d[x],
{
    if v.nodes.contains_key(x) && v.nodes[x].parent_id is Some && d[v.nodes[x].parent_id->0]
        < d[x] {
        ancestor_set(v, d, v.nodes[x].parent_id->0).insert(x)
    } else {
        set![x]
    }
}

proof fn lemma_ancestor_set(v: StoreView, d: Map<NodeId, nat>, x: NodeId)
    requires
        tree_with_depths(v, d),
        v.nodes.contains_key(x),
    ensures
        ancestor_set(v, d, x).subset_of(v.nodes.dom()),
        ancestor_set(v, d, x).finite(),
        ancestor_set(v, d, x).len() == d[x] + 1,
        forall|y: NodeId| #[trigger] ancestor_set(v, d, x).contains(y) ==> d[y] <= d[x],
    decreases d[x],
{
    if x != v.root_id {
        let p = v.nodes[x].parent_id->0;
        lemma_ancestor_set(v, d, p);
        assert(!ancestor_set(v, d, p).contains(x));
    } else {
        assert(set![x].len() == 1) by {
            assert(set![x] =~= Set::<NodeId>::empty().insert(x));
        }
    }
}

/// Depths in a tree stay below the number of nodes.
proof fn lemma_depth_bound(v: StoreView, d: Map<NodeId, nat>, x: NodeId)
    requires
        tree_with_depths(v, d),
        v.nodes.contains_key(x),
    ensures
        d[x] < v.nodes.len(),
{
    lemma_ancestor_set(v, d, x);
    vstd::set_lib::lemma_len_subset(ancestor_set(v, d, x), v.nodes.dom());
}

/// Depths in a tree stay below the number of nodes.
pub proof fn lemma_tree_depth_bound(v: StoreView, d: Map<NodeId, nat>, x: NodeId)
    requires
        tree_with_depths(v, d),
        v.nodes.contains_key(x),
    ensures
        d[x] < v.nodes.len(),
{
    lemma_depth_bound(v, d, x);
}

/// Filtering keeps a sequence free of duplicates.
proof fn lemma_filter_no_duplicates(s: Seq<NodeId>, id: NodeId)
    requires
        s.no_duplicates(),
    ensures
        without_child(s, id).no_duplicates(),
        forall|c: NodeId| #[trigger] without_child(s, id).contains(c) <==> (s.contains(c) && c
            != id),
    decreases s.len(),
{
    reveal(Seq::filter);
    let f = other_than(id);
    if s.len() > 0 {
        let t = s.drop_last();
        assert(t.no_duplicates());
        lemma_filter_no_duplicates(t, id);
        assert(s =~= t.push(s.last()));
        assert forall|c: NodeId| #[trigger] s.contains(c) <==> (t.contains(c) || c == s.last()) by {
            if s.contains(c) {
                let j = choose|j: int| 0 <= j < s.len() && s[j] == c;
                if j < s.len() - 1 {
                    assert(t[j] == c);
                }
            }
            if t.contains(c) {
                let j = choose|j: int| 0 <= j < t.len() && t[j] == c;
                assert(s[j] == c);
            }
        }
        assert(!t.contains(s.last()));
        let ft = without_child(t, id);
        if f(s.last()) {
            assert(without_child(s, id) == ft.push(s.last()));
            let r = ft.push(s.last());
            assert forall|a: int, b: int| 0 <= a < r.len() && 0 <= b < r.len() && a != b implies r[a]
                != r[b] by {
                if a == ft.len() {
                    assert(ft.contains(r[b]));
                } else if b == ft.len() {
                    assert(ft.contains(r[a]));
                } else {
                    assert(r[a] == ft[a] && r[b] == ft[b]);
                }
            }
            assert forall|c: NodeId| #[trigger] ft.push(s.last()).contains(c) <==> (ft.contains(
                c,
            ) || c == s.last()) by {
                if ft.push(s.last()).contains(c) {
                    let j = choose|j: int| 0 <= j < ft.len() + 1 && ft.push(s.last())[j] == c;
                    if j < ft.len() {
                        assert(ft[j] == c);
                    }
                }
                if ft.contains(c) {
                    let j = choose|j: int| 0 <= j < ft.len() && ft[j] == c;
                    assert(ft.push(s.last())[j] == c);
                }
                assert(ft.push(s.last())[ft.len() as int] == s.last());
            }
        } else {
            assert(without_child(s, id) == ft);
        }
    } else {
        assert(without_child(s, id) =~= s);
    }
}

/// Deleting a subtree that does not hold the root keeps the links a tree.
proof fn lemma_without_subtree_tree(v: StoreView, d: Map<NodeId, nat>, id: NodeId)
    requires
        tree_with_depths(v, d),
        v.nodes.contains_key(id),
        id != v.root_id,
    ensures
        tree_with_depths(without_subtree(v, id), d),
        !subtree(v, id).contains(v.nodes[id].parent_id->0),
{
    let w = without_subtree(v, id);
    let pid = v.nodes[id].parent_id->0;
    let st = subtree(v, id);
    assert(!st.contains(pid)) by {
        if in_subtree(v, pid, id) {
            lemma_subtree_depth(v, d, pid, id);
        }
    }
    assert(!st.contains(v.root_id)) by {
        lemma_subtree_top(v, v.root_id, id);
    }
    lemma_filter_no_duplicates(v.nodes[pid].children, id);
    assert(w.nodes.dom() =~= v.nodes.dom().difference(st));
    assert forall|k: NodeId| #[trigger] w.nodes.contains_key(k) implies {
        &&& w.nodes[k].id == k
        &&& d.contains_key(k)
        &&& w.nodes[k].children.no_duplicates()
        &&& k != w.root_id ==> {
            &&& w.nodes[k].parent_id is Some
            &&& w.nodes.contains_key(w.nodes[k].parent_id->0)
            &&& d.contains_key(w.nodes[k].parent_id->0)
            &&& d[k] == d[w.nodes[k].parent_id->0] + 1
            &&& w.nodes[w.nodes[k].parent_id->0].children.contains(k)
        }
    } by {
        if k != v.root_id {
            let p = v.nodes[k].parent_id->0;
            assert(!st.contains(k));
            assert(k != id) by {
                lemma_subtree_self(v, id);
            }
            lemma_subtree_step(v, k, id);
            assert(!st.contains(p));
            assert(v.nodes[p].children.contains(k));
        }
    }
    assert forall|k: NodeId, i: int|
        w.nodes.contains_key(k) && 0 <= i < w.nodes[k].children.len() implies {
        &&& w.nodes.contains_key(#[trigger] w.nodes[k].children[i])
        &&& w.nodes[w.nodes[k].children[i]].parent_id == Some(k)
    } by {
        let c = w.nodes[k].children[i];
        if k == pid {
            assert(without_child(v.nodes[pid].children, id).contains(c));
        } else {
            assert(v.nodes[k].children[i] == c);
        }
        assert(v.nodes[k].children.contains(c));
        let j = choose|j: int| 0 <= j < v.nodes[k].children.len() && v.nodes[k].children[j] == c;
        assert(v.nodes.contains_key(v.nodes[k].children[j]));
        assert(c != id);
        lemma_subtree_step(v, c, id);
        assert(!st.contains(c));
    }
}

/// The store after `id` is taken from its parent's children and appended to the
/// children of `new_parent_id`, which becomes its parent.
pub open spec fn moved(v: StoreView, id: NodeId, new_parent_id: NodeId) -> StoreView {
    let op = v.nodes[id].parent_id->0;
    let n1 = v.nodes.insert(
        op,
        NodeView { children: without_child(v.nodes[op].children, id), ..v.nodes[op] },
    );
    let n2 = n1.insert(
        new_parent_id,
        NodeView { children: n1[new_parent_id].children.push(id), ..n1[new_parent_id] },
    );
    let n3 = n2.insert(id, NodeView { parent_id: Some(new_parent_id), ..n2[id] });
    StoreView { nodes: n3, root_id: v.root_id }
}

/// Depths after the subtree of `id` is hung under `np`.
spec fn moved_depths(v: StoreView, d: Map<NodeId, nat>, id: NodeId, np: NodeId) -> Map<
    NodeId,
    nat,
> {
    Map::new(
        |k: NodeId| d.contains_key(k),
        |k: NodeId|
            if v.nodes.contains_key(k) && in_subtree(v, k, id) {
                (d[k] - d[id] + d[np] + 1) as nat
            } else {
                d[k]
            },
    )
}

/// Moving a non-root node under a node outside its subtree keeps the links a tree.
proof fn lemma_moved_tree(v: StoreView, d: Map<NodeId, nat>, id: NodeId, np: NodeId)
    requires
        tree_with_depths(v, d),
        v.nodes.contains_key(id),
        v.nodes.contains_key(np),
        id != v.root_id,
        !in_subtree(v, np, id),
    ensures
        tree_with_depths(moved(v, id, np), moved_depths(v, d, id, np)),
{
    let w = moved(v, id, np);
    let d2 = moved_depths(v, d, id, np);
    let op = v.nodes[id].parent_id->0;
    assert(v.nodes.contains_key(op));
    lemma_subtree_self(v, id);
    assert(np != id);
    assert(op != id) by {
        if op == id {
            assert(d[id] == d[id] + 1);
        }
    }
    lemma_filter_no_duplicates(v.nodes[op].children, id);
    let n1 = v.nodes.insert(
        op,
        NodeView { children: without_child(v.nodes[op].children, id), ..v.nodes[op] },
    );
    assert(!n1[np].children.contains(id)) by {
        if np != op && v.nodes[np].children.contains(id) {
            let j = choose|j: int|
                0 <= j < v.nodes[np].children.len() && v.nodes[np].children[j] == id;
            assert(v.nodes.contains_key(v.nodes[np].children[j]));
        }
    }
    assert(w.nodes.dom() =~= v.nodes.dom());
    assert(!in_subtree(v, v.root_id, id)) by {
        lemma_subtree_top(v, v.root_id, id);
    }
    assert forall|k: NodeId| #[trigger] w.nodes.contains_key(k) implies {
        &&& w.nodes[k].id == k
        &&& d2.contains_key(k)
        &&& w.nodes[k].children.no_duplicates()
        &&& k != w.root_id ==> {
            &&& w.nodes[k].parent_id is Some
            &&& w.nodes.contains_key(w.nodes[k].parent_id->0)
            &&& d2.contains_key(w.nodes[k].parent_id->0)
            &&& d2[k] == d2[w.nodes[k].parent_id->0] + 1
            &&& w.nodes[w.nodes[k].parent_id->0].children.contains(k)
        }
    } by {
        assert(v.nodes.contains_key(k));
        if k == np {
            let c = n1[np].children;
            assert forall|a: int, b: int|
                0 <= a < c.len() + 1 && 0 <= b < c.len() + 1 && a != b implies c.push(id)[a]
                != c.push(id)[b] by {
                if a == c.len() {
                    assert(c.contains(c.push(id)[b]));
                } else if b == c.len() {
                    assert(c.contains(c.push(id)[a]));
                }
            }
        }
        if k == id {
            assert(w.nodes[np].children[w.nodes[np].children.len() - 1] == id);
        } else if k != v.root_id {
            let p = v.nodes[k].parent_id->0;
            lemma_subtree_step(v, k, id);
            assert(v.nodes[p].children.contains(k));
            if in_subtree(v, k, id) {
                lemma_subtree_depth(v, d, k, id);
                lemma_subtree_depth(v, d, p, id);
            }
            if p == op {
                assert(without_child(v.nodes[op].children, id).contains(k));
            }
            if p == np {
                let c = n1[np].children;
                let j = choose|j: int| 0 <= j < c.len() && c[j] == k;
                assert(c.push(id)[j] == k);
            }
        }
    }
    assert forall|k: NodeId, i: int|
        w.nodes.contains_key(k) && 0 <= i < w.nodes[k].children.len() implies {
        &&& w.nodes.contains_key(#[trigger] w.nodes[k].children[i])
        &&& w.nodes[w.nodes[k].children[i]].parent_id == Some(k)
    } by {
        let c = w.nodes[k].children[i];
        if k == np && i == n1[np].children.len() {
        } else {
            if k == op {
                if k == np {
                    assert(n1[np].children[i] == c);
                }
                assert(without_child(v.nodes[op].children, id).contains(c));
            } else if k == np {
                assert(v.nodes[np].children[i] == c);
            } else {
                assert(v.nodes[k].children[i] == c);
            }
            assert(v.nodes[k].children.contains(c));
            let j = choose|j: int| 0 <= j < v.nodes[k].children.len() && v.nodes[k].children[j] == c;
            assert(v.nodes.contains_key(v.nodes[k].children[j]));
            if c == id {
                assert(k == op);
                assert(!without_child(v.nodes[op].children, id).contains(id));
                if k == np {
                    assert(n1[np].children[i] == c);
                }
                assert(false);
            }
        }
    }
}

/// `w` differs from `v` at most in the names, types and properties of its nodes.
pub open spec fn same_links(v: StoreView, w: StoreView) -> bool {
    &&& w.root_id == v.root_id
    &&& w.nodes.dom() == v.nodes.dom()
    &&& forall|k: NodeId| #[trigger]
        v.nodes.contains_key(k) ==> {
            &&& w.nodes[k].id == v.nodes[k].id
            &&& w.nodes[k].parent_id == v.nodes[k].parent_id
            &&& w.nodes[k].children == v.nodes[k].children
        }
}

/// Changing what nodes hold, but not how they link, keeps the links a tree.
proof fn lemma_same_links_tree(v: StoreView, w: StoreView, d: Map<NodeId, nat>)
    requires
        tree_with_depths(v, d),
        same_links(v, w),
    ensures
        tree_with_depths(w, d),
{
    assert forall|k: NodeId, i: int|
        w.nodes.contains_key(k) && 0 <= i < w.nodes[k].children.len() implies {
        &&& w.nodes.contains_key(#[trigger] w.nodes[k].children[i])
        &&& w.nodes[w.nodes[k].children[i]].parent_id == Some(k)
    } by {
        assert(v.nodes.contains_key(v.nodes[k].children[i]));
    }
}

/// The store with the node `id` replaced by `n` (same links).
pub open spec fn with_node(v: StoreView, id: NodeId, n: NodeView) -> StoreView {
    StoreView { nodes: v.nodes.insert(id, n), root_id: v.root_id }
}

/// Filtering out an id that does not occur changes nothing.
proof fn lemma_without_absent(s: Seq<NodeId>, id: NodeId)
    requires
        !s.contains(id),
    ensures
        without_child(s, id) == s,
    decreases s.len(),
{
    reveal(Seq::filter);
    if s.len() > 0 {
        let t = s.drop_last();
        assert(!t.contains(id)) by {
            if t.contains(id) {
                let j = choose|j: int| 0 <= j < t.len() && t[j] == id;
                assert(s[j] == id);
            }
        }
        lemma_without_absent(t, id);
        assert(s.last() != id);
        assert(s =~= t.push(s.last()));
    } else {
        assert(without_child(s, id) =~= s);
    }
}

/// Deleting a node right after adding it gives back the store as it was.
pub proof fn law_delete_undoes_add(
    v: StoreView,
    id: NodeId,
    name: Seq<char>,
    node_type: NodeType,
    parent_id: NodeId,
)
    requires
        is_tree(v),
        v.nodes.contains_key(parent_id),
        !v.nodes.contains_key(id),
    ensures
        without_subtree(inserted_child(v, id, name, node_type, parent_id), id) == v,
{
    lemma_inserted_fresh(v, id, name, node_type, parent_id);
    let d = choose|d: Map<NodeId, nat>| tree_with_depths(v, d);
    let w = with_child(v, id, name, node_type, parent_id);
    lemma_with_child_tree(v, d, id, name, node_type, parent_id);
    let d2 = d.insert(id, d[parent_id] + 1);
    assert(subtree(w, id) =~= set![id]) by {
        assert forall|x: NodeId| subtree(w, id).contains(x) implies x == id by {
            if x != id {
                lemma_subtree_children(w, d2, x, id);
            }
        }
        lemma_subtree_self(w, id);
    }
    let pc = v.nodes[parent_id].children;
    assert(!pc.contains(id)) by {
        if pc.contains(id) {
            let j = choose|j: int| 0 <= j < pc.len() && pc[j] == id;
            assert(v.nodes.contains_key(v.nodes[parent_id].children[j]));
        }
    }
    pc.lemma_filter_push(id, other_than(id));
    lemma_without_absent(pc, id);
    assert(without_subtree(w, id).nodes =~= v.nodes);
}

/// Deleting keeps exactly the nodes outside the deleted subtree: the parent of the
/// deleted node survives and lists its other children in their order, every other
/// kept node is unchanged, the count drops by the size of the subtree, the root stays,
/// and the store stays a tree.
pub proof fn law_delete_removes_subtree(v: StoreView, id: NodeId, x: NodeId)
    requires
        is_tree(v),
        v.nodes.contains_key(id),
        id != v.root_id,
    ensures
        without_subtree(v, id).nodes.contains_key(x) == (v.nodes.contains_key(x) && !in_subtree(
            v,
            x,
            id,
        )),
        ({
            let pid = v.nodes[id].parent_id->0;
            let w = without_subtree(v, id);
            &&& w.nodes.contains_key(pid)
            &&& w.nodes[pid] == NodeView { children: without_child(v.nodes[pid].children, id), ..v.nodes[pid] }
            &&& !w.nodes[pid].children.contains(id)
            &&& (w.nodes.contains_key(x) && x != pid ==> w.nodes[x] == v.nodes[x])
            &&& w.nodes.len() == v.nodes.len() - subtree(v, id).len()
            &&& w.root_id == v.root_id
        }),
        is_tree(without_subtree(v, id)),
{
    let d = choose|d: Map<NodeId, nat>| tree_with_depths(v, d);
    lemma_without_subtree_tree(v, d, id);
    let pid = v.nodes[id].parent_id->0;
    lemma_filter_no_duplicates(v.nodes[pid].children, id);
    let w = without_subtree(v, id);
    let st = subtree(v, id);
    assert(st.subset_of(v.nodes.dom()));
    vstd::set_lib::lemma_len_subset(st, v.nodes.dom());
    assert(w.nodes.dom() =~= v.nodes.dom().difference(st));
    assert(v.nodes.dom().intersect(st) =~= st);
    vstd::set_lib::lemma_set_difference_len(v.nodes.dom(), st);
}

/// A successful move leaves the moved node under its new parent, as that parent's
/// last child, and keeps the store a tree; a refused move names the cycle it would
/// make or the node it cannot find.
pub proof fn law_move_reparents(v: StoreView, id: NodeId, np: NodeId)
    requires
        is_tree(v),
    ensures
        move_outcome(v, id, np) is Ok ==> {
            let w = moved(v, id, np);
            &&& w.nodes[id].parent_id == Some(np)
            &&& w.nodes[np].children.last() == id
            &&& in_subtree(w, id, np)
            &&& is_tree(w)
        },
        move_outcome(v, id, np) == Err::<(), StoreError>(StoreError::CyclicMove) <==> (id
            == v.root_id || (v.nodes.contains_key(id) && v.nodes.contains_key(np) && in_subtree(
            v,
            np,
            id,
        ))),
{
    if move_outcome(v, id, np) is Ok {
        let d = choose|d: Map<NodeId, nat>| tree_with_depths(v, d);
        lemma_moved_tree(v, d, id, np);
        lemma_subtree_self(v, id);
        let w = moved(v, id, np);
        lemma_subtree_self(w, np);
        lemma_subtree_step(w, id, np);
    }
}

/// What `move_node` answers: the root cannot move; both nodes must exist; the new
/// parent must lie outside the moved subtree.
pub open spec fn move_outcome(v: StoreView, id: NodeId, new_parent_id: NodeId) -> Result<
    (),
    StoreError,
> {
    if id == v.root_id {
        Err(StoreError::CyclicMove)
    } else if !v.nodes.contains_key(id) {
        Err(StoreError::NotFound(id))
    } else if !v.nodes.contains_key(new_parent_id) {
        Err(StoreError::NotFound(new_parent_id))
    } else if in_subtree(v, new_parent_id, id) {
        Err(StoreError::CyclicMove)
    } else {
        Ok(())
    }
}

/// 1920.0 as a binary64 bit pattern.
pub const WIDTH_1920: u64 = 0x409e_0000_0000_0000;

/// 1080.0 as a binary64 bit pattern.
pub const HEIGHT_1080: u64 = 0x4090_e000_0000_0000;

impl Default for NodeStore {
    /// A new document: only the root frame "Document" of size 1920x1080.
    fn default() -> (r: Self)
        ensures
            r.wf(),
            r@.nodes.dom() == set![r@.root_id],
            is_random_uuid(r@.root_id),
            r@.nodes[r@.root_id] == document_root(r@.root_id),
    {
        Self::new()
    }
}

} // verus!
