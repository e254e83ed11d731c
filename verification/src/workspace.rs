//! The state that the JSON-RPC server keeps, and the decision each method makes on it.
//!
//! A request arrives as a method name and parameters that the caller has decoded; the
//! workspace answers with a typed result or an error code and message, and says which
//! state change, if any, to announce.
use vstd::prelude::*;
use vstd::string::*;
use crate::model::{opt_text, overlay, Layout, NodeId, NodeView, PartialLayout, StyleView, TypographyView};
use crate::components::{
    draw_ids, fresh_ids, stamp, template_is, library_entries, node_count, stamped, with_layout,
    ComponentKind, ComponentLibrary,
};
use crate::model::{is_random_uuid, new_random_id, Measure, Node, NodeType, Typography};
use crate::protocol::{
    error_text, ComponentInfo, ComponentListResult, ComponentUseParams, ComponentUseResult,
    NodeCreateParams, NodeCreateResult, NodeDeleteParams, NodeEditParams, NodeMoveParams,
    NodeQueryParams, NodeQueryResult, NodeShowParams, NodeShowResult, StateChange, TreeGetResult,
    parse_uuid, uuid_parse,
    INVALID_PARAMS, METHOD_NOT_FOUND, NODE_NOT_FOUND, OPERATION_FAILED, PARSE_ERROR,
};
use crate::text::{chars_of, contains_chars, contains_text, lowercase, to_lowercase};
use crate::tree::{formats, render_text, render_tree, type_text};
use crate::store::{
    document_root, inserted_child, move_outcome, moved, with_node, without_subtree, NodeStore, StoreError, StoreView,
};
use crate::undo::{UndoStack, UndoView};

verus! {

/// An error answer: a JSON-RPC error code and message.
#[derive(Debug, Clone)]
pub struct Failure {
    pub code: i32,
    pub message: String,
}

/// A successful answer, by method.
#[derive(Debug, Clone)]
pub enum Answer {
    /// node.create: the new node's id.
    Created(NodeCreateResult),
    /// node.edit, node.delete, node.move: `{"ok": true}`.
    Done,
    /// tree.get: the rendered tree.
    Tree(TreeGetResult),
    /// node.show: the node.
    Shown(NodeShowResult),
    /// node.query: the matching nodes.
    Found(NodeQueryResult),
    /// root.get: the root's id.
    Root { root_id: NodeId },
    /// doc.undo, doc.redo: the levels left on each side.
    History { undo_available: usize, redo_available: usize },
    /// component.list: the templates.
    Components(ComponentListResult),
    /// component.use: the ids of the created nodes, root first.
    Used(ComponentUseResult),
}

/// What a method answers, and the state change to announce.
#[derive(Debug)]
pub struct Reply {
    pub answer: Result<Answer, Failure>,
    pub change: Option<StateChange>,
}

/// The parent that a request names: the nil UUID stands for the root.
pub open spec fn effective_parent(v: StoreView, parent_id: NodeId) -> NodeId {
    if parent_id == 0 {
        v.root_id
    } else {
        parent_id
    }
}

/// The store after node.create adds `id` under `parent` (replacing any node stored
/// under `id`) and applies the optional layout, style and typography.
pub open spec fn created(v: StoreView, id: NodeId, p: NodeCreateParams, parent: NodeId) -> StoreView {
    let w = inserted_child(v, id, p.name@, p.node_type, parent);
    let n = w.nodes[id];
    with_node(
        w,
        id,
        NodeView {
            layout: overlay(p.layout, n.layout),
            style: match p.style {
                Some(s) => s@,
                None => n.style,
            },
            typography: match p.typography {
                Some(t) => t@,
                None => n.typography,
            },
            ..n
        },
    )
}

/// A node after node.edit: the name replaced, and the layout, style and typography
/// merged, where the request gives them.
pub open spec fn edited(n: NodeView, p: NodeEditParams) -> NodeView {
    NodeView {
        name: match p.name {
            Some(s) => s@,
            None => n.name,
        },
        layout: match p.layout {
            Some(l) => n.layout.merged(l),
            None => n.layout,
        },
        style: match p.style {
            Some(s) => n.style.merged(s@),
            None => n.style,
        },
        typography: match p.typography {
            Some(t) => n.typography.merged(t@),
            None => n.typography,
        },
        ..n
    }
}

/// The error code of a store error: NODE_NOT_FOUND for an id that names no node,
/// OPERATION_FAILED for every other refusal.
pub open spec fn error_code(e: StoreError) -> i32 {
    match e {
        StoreError::NotFound(_) => NODE_NOT_FOUND,
        _ => OPERATION_FAILED,
    }
}

/// The error code of a store error.
pub fn code_of(e: &StoreError) -> (r: i32)
    ensures
        r == error_code(*e),
{
    match e {
        StoreError::NotFound(_) => NODE_NOT_FOUND,
        _ => OPERATION_FAILED,
    }
}

/// The failure that answers a store error.
fn store_failure(e: StoreError) -> (r: Failure)
    ensures
        r.code == error_code(e),
        r.message@ == error_text(e),
{
    Failure { code: code_of(&e), message: e.message() }
}

/// The reply carries an error with this code and message, and announces nothing.
pub open spec fn fails_with(r: Reply, code: i32, message: Seq<char>) -> bool {
    &&& r.answer matches Err(f) && f.code == code && f.message@ == message
    &&& r.change is None
}

/// The reply answers `{"ok": true}` and announces `c`.
pub open spec fn done_with(r: Reply, c: StateChange) -> bool {
    &&& r.answer matches Ok(Answer::Done)
    &&& r.change == Some(c)
}

/// A node's name contains the query, both taken in lower case.
pub open spec fn name_matches(n: NodeView, query: Seq<char>) -> bool {
    contains_text(lowercase(n.name), lowercase(query))
}

/// The store with `text` as content of the first node of `ids`, from index `from` on,
/// that is named `name` (unchanged when there is none).
pub open spec fn with_content_at_first_named(
    v: StoreView,
    ids: Seq<NodeId>,
    from: int,
    name: Seq<char>,
    text: Seq<char>,
) -> StoreView
    decreases ids.len() - from,
{
    if from < 0 || from >= ids.len() {
        v
    } else if v.nodes.contains_key(ids[from]) && v.nodes[ids[from]].name == name {
        let n = v.nodes[ids[from]];
        with_node(
            v,
            ids[from],
            NodeView { typography: TypographyView { content: Some(text), ..n.typography }, ..n },
        )
    } else {
        with_content_at_first_named(v, ids, from + 1, name, text)
    }
}

/// The store after component.use stamps template `kind` with node ids `ids` under
/// `parent`, then places its root at the requested x and y and sets the text of its
/// first "Label" and "Value" nodes.
pub open spec fn component_used(
    v: StoreView,
    kind: ComponentKind,
    parent: NodeId,
    ids: Seq<NodeId>,
    p: ComponentUseParams,
) -> StoreView {
    let w0 = stamped(kind, v, parent, ids);
    let root = ids[0];
    let l = w0.nodes[root].layout;
    let w1 = with_layout(w0, root, Layout { x: overlay(p.x, l.x), y: overlay(p.y, l.y), ..l });
    let w2 = match p.label {
        Some(t) => with_content_at_first_named(w1, ids, 1, "Label"@, t@),
        None => w1,
    };
    match p.value {
        Some(t) => with_content_at_first_named(w2, ids, 1, "Value"@, t@),
        None => w2,
    }
}

/// Setting the text of a named node leaves every node in place with its layout.
pub proof fn lemma_content_keeps_layout(
    v: StoreView,
    ids: Seq<NodeId>,
    from: int,
    name: Seq<char>,
    text: Seq<char>,
    k: NodeId,
)
    requires
        v.nodes.contains_key(k),
    ensures
        with_content_at_first_named(v, ids, from, name, text).nodes.contains_key(k),
        with_content_at_first_named(v, ids, from, name, text).nodes[k].layout == v.nodes[k].layout,
    decreases ids.len() - from,
{
    if from < 0 || from >= ids.len() {
    } else if v.nodes.contains_key(ids[from]) && v.nodes[ids[from]].name == name {
    } else {
        lemma_content_keeps_layout(v, ids, from + 1, name, text, k);
    }
}

/// Setting the text of the first node named `name` among `ids[from..]`: when `ids[j]`
/// is the first id there that names a node so named, that node gets the text as its
/// content and keeps its name, layout and place in the tree, and every other node stays
/// as it was.
pub proof fn law_content_set_on_first_named(
    v: StoreView,
    ids: Seq<NodeId>,
    from: int,
    name: Seq<char>,
    text: Seq<char>,
    j: int,
)
    requires
        0 <= from <= j < ids.len(),
        v.nodes.contains_key(ids[j]),
        v.nodes[ids[j]].name == name,
        forall|i: int| from <= i < j ==> !(v.nodes.contains_key(#[trigger] ids[i]) && v.nodes[ids[i]].name == name),
    ensures
        with_content_at_first_named(v, ids, from, name, text).root_id == v.root_id,
        with_content_at_first_named(v, ids, from, name, text).nodes.dom() == v.nodes.dom(),
        with_content_at_first_named(v, ids, from, name, text).nodes[ids[j]].typography.content == Some(text),
        with_content_at_first_named(v, ids, from, name, text).nodes[ids[j]].name == name,
        with_content_at_first_named(v, ids, from, name, text).nodes[ids[j]].layout == v.nodes[ids[j]].layout,
        with_content_at_first_named(v, ids, from, name, text).nodes[ids[j]].parent_id == v.nodes[ids[j]].parent_id,
        with_content_at_first_named(v, ids, from, name, text).nodes[ids[j]].children == v.nodes[ids[j]].children,
        forall|k: NodeId| k != ids[j] && #[trigger] v.nodes.contains_key(k)
            ==> with_content_at_first_named(v, ids, from, name, text).nodes[k] == v.nodes[k],
    decreases j - from,
{
    if from == j {
        assert(with_content_at_first_named(v, ids, from, name, text).nodes.dom() =~= v.nodes.dom());
    } else {
        assert(!(v.nodes.contains_key(ids[from]) && v.nodes[ids[from]].name == name));
        law_content_set_on_first_named(v, ids, from + 1, name, text, j);
    }
}

/// When no node among `ids[from..]` has the name, setting its text changes nothing.
pub proof fn law_content_unchanged_without_name(
    v: StoreView,
    ids: Seq<NodeId>,
    from: int,
    name: Seq<char>,
    text: Seq<char>,
)
    requires
        0 <= from,
        forall|i: int| from <= i < ids.len() ==> !(v.nodes.contains_key(#[trigger] ids[i]) && v.nodes[ids[i]].name == name),
    ensures
        with_content_at_first_named(v, ids, from, name, text) == v,
    decreases ids.len() - from,
{
    if from < ids.len() {
        assert(!(v.nodes.contains_key(ids[from]) && v.nodes[ids[from]].name == name));
        law_content_unchanged_without_name(v, ids, from + 1, name, text);
    }
}

/// component.use of a stat card with fresh ids under an existing parent: a given label
/// becomes the text of its "Label" node, a given value the text of its "Value" node;
/// without them the template's texts stay.
pub proof fn law_stat_card_texts(v: StoreView, parent: NodeId, ids: Seq<NodeId>, p: ComponentUseParams)
    requires
        ids.len() == 4,
        fresh_ids(v, ids),
        v.nodes.contains_key(parent),
    ensures
        p.label matches Some(t) ==> component_used(v, ComponentKind::StatCard, parent, ids, p).nodes[ids[1]].typography.content
            == Some(t@),
        p.label is None ==> component_used(v, ComponentKind::StatCard, parent, ids, p).nodes[ids[1]].typography.content
            == Some("Metric Name"@),
        p.value matches Some(t) ==> component_used(v, ComponentKind::StatCard, parent, ids, p).nodes[ids[2]].typography.content
            == Some(t@),
        p.value is None ==> component_used(v, ComponentKind::StatCard, parent, ids, p).nodes[ids[2]].typography.content
            == Some("0"@),
{
    reveal_strlit("Label");
    reveal_strlit("Value");
    assert(ids[0] != ids[1] && ids[0] != ids[2] && ids[0] != ids[3]);
    assert(ids[1] != ids[2] && ids[1] != ids[3] && ids[2] != ids[3]);
    assert(!v.nodes.contains_key(ids[0]));
    let w0 = stamped(ComponentKind::StatCard, v, parent, ids);
    assert(w0.nodes.contains_key(ids[1]) && w0.nodes[ids[1]].name == "Label"@);
    assert(w0.nodes.contains_key(ids[2]) && w0.nodes[ids[2]].name == "Value"@);
    let root = ids[0];
    let l = w0.nodes[root].layout;
    let w1 = with_layout(w0, root, Layout { x: overlay(p.x, l.x), y: overlay(p.y, l.y), ..l });
    assert(w1.nodes[ids[1]] == w0.nodes[ids[1]]);
    assert(w1.nodes[ids[2]] == w0.nodes[ids[2]]);
    let w2 = match p.label {
        Some(t) => with_content_at_first_named(w1, ids, 1, "Label"@, t@),
        None => w1,
    };
    if let Some(t) = p.label {
        law_content_set_on_first_named(w1, ids, 1, "Label"@, t@, 1);
    }
    assert(w2.nodes.contains_key(ids[2]) && w2.nodes[ids[2]] == w1.nodes[ids[2]]);
    assert(w2.nodes.contains_key(ids[1]) && w2.nodes[ids[1]].name == "Label"@);
    assert("Label"@ != "Value"@) by {
        assert("Label"@[0] != "Value"@[0]);
    }
    if let Some(t) = p.value {
        assert forall|i: int| 1 <= i < 2 implies !(w2.nodes.contains_key(#[trigger] ids[i]) && w2.nodes[ids[i]].name == "Value"@) by {
            assert(i == 1);
        }
        law_content_set_on_first_named(w2, ids, 1, "Value"@, t@, 2);
    }
}

/// component.use places the stamped component's root where the request says: a
/// given x becomes the root's x, a given y its y, whatever label and value are set.
pub proof fn law_component_placed(
    v: StoreView,
    kind: ComponentKind,
    parent: NodeId,
    ids: Seq<NodeId>,
    p: ComponentUseParams,
)
    ensures
        component_used(v, kind, parent, ids, p).nodes.contains_key(ids[0]),
        p.x matches Some(x) ==> component_used(v, kind, parent, ids, p).nodes[ids[0]].layout.x == x,
        p.y matches Some(y) ==> component_used(v, kind, parent, ids, p).nodes[ids[0]].layout.y == y,
{
    let w0 = stamped(kind, v, parent, ids);
    let root = ids[0];
    let l = w0.nodes[root].layout;
    let w1 = with_layout(w0, root, Layout { x: overlay(p.x, l.x), y: overlay(p.y, l.y), ..l });
    assert(w1.nodes.contains_key(root));
    let w2 = match p.label {
        Some(t) => with_content_at_first_named(w1, ids, 1, "Label"@, t@),
        None => w1,
    };
    if let Some(t) = p.label {
        lemma_content_keeps_layout(w1, ids, 1, "Label"@, t@, root);
    }
    if let Some(t) = p.value {
        lemma_content_keeps_layout(w2, ids, 1, "Value"@, t@, root);
    }
}

/// The message for a template name that the library does not hold.
pub open spec fn unknown_component_text(name: Seq<char>) -> Seq<char> {
    "Component '"@ + name + "' not found"@
}

/// The library position of the template named `name` (the first one, when there is one).
pub open spec fn library_index(name: Seq<char>) -> int {
    choose|i: int| 0 <= i < library_entries().len() && #[trigger] library_entries()[i].0 == name
}

/// The kind of the template with this name, if the library holds one.
pub open spec fn named_kind(name: Seq<char>) -> Option<ComponentKind> {
    if exists|i: int| 0 <= i < library_entries().len() && #[trigger] library_entries()[i].0 == name {
        Some(library_entries()[library_index(name)].2)
    } else {
        None
    }
}

/// Library names are distinct, so a name picks one entry.
pub proof fn lemma_library_index(name: Seq<char>)
    requires
        exists|i: int| 0 <= i < library_entries().len() && #[trigger] library_entries()[i].0 == name,
    ensures
        0 <= library_index(name) < library_entries().len(),
        library_entries()[library_index(name)].0 == name,
        forall|i: int| 0 <= i < library_entries().len() && #[trigger] library_entries()[i].0 == name ==> i == library_index(name),
{
    reveal_strlit("stat-card");
    reveal_strlit("nav-item");
    reveal_strlit("button");
    reveal_strlit("chart-bar");
    let e = library_entries();
    assert(e[0].0[0] != e[3].0[0]);
    assert(e[0].0 != e[1].0 && e[0].0 != e[2].0 && e[0].0 != e[3].0);
    assert(e[1].0.len() == 8 && e[2].0.len() == 6 && e[3].0.len() == 9);
    assert(e[1].0 != e[2].0 && e[1].0 != e[3].0);
    assert(e[2].0 != e[3].0);
}

/// The document and its undo history.
pub struct Workspace {
    store: NodeStore,
    history: UndoStack,
}

impl Workspace {
    /// Both parts are well formed.
    pub closed spec fn wf(&self) -> bool {
        self.store.wf() && self.history.wf()
    }

    /// The document.
    pub closed spec fn doc(&self) -> StoreView {
        self.store@
    }

    /// The undo history.
    pub closed spec fn past(&self) -> UndoView {
        self.history@
    }

    /// A new document with a 100-level history.
    pub fn new() -> (r: Self)
        ensures
            r.wf(),
            r.past() == (UndoView { undo: Seq::empty(), redo: Seq::empty(), max_depth: 100 }),
            r.doc().nodes.dom() == set![r.doc().root_id],
            r.doc().nodes[r.doc().root_id] == document_root(r.doc().root_id),
            is_random_uuid(r.doc().root_id),
    {
        Workspace { store: NodeStore::new(), history: UndoStack::default() }
    }

    /// The document store.
    pub fn store(&self) -> (r: &NodeStore)
        requires
            self.wf(),
        ensures
            r.wf(),
            r@ == self.doc(),
    {
        &self.store
    }

    /// The undo history.
    pub fn history(&self) -> (r: &UndoStack)
        ensures
            r@ == self.past(),
    {
        &self.history
    }

    /// Replaces the document, as doc.load does; the history stays.
    pub fn replace_store(&mut self, store: NodeStore)
        ensures
            final(self).doc() == store@,
            final(self).past() == old(self).past(),
            old(self).wf() && store.wf() ==> final(self).wf(),
    {
        self.store = store;
    }

    /// The parent that a request names: the nil UUID stands for the root.
    fn parent_or_root(&self, parent_id: NodeId) -> (r: NodeId)
        ensures
            r == effective_parent(self.store@, parent_id),
    {
        if parent_id == 0 {
            self.store.root_id()
        } else {
            parent_id
        }
    }

    /// node.create with the node id given: snapshot for undo, add the node under the
    /// named parent (the nil UUID meaning the root) with that id, apply the optional
    /// properties, announce the creation. Succeeds exactly when the parent exists; a
    /// node already stored under `id` is replaced, and the document stays a tree when
    /// the id was free.
    pub fn node_create_with_id(&mut self, params: NodeCreateParams, id: NodeId) -> (r: Reply)
        requires
            old(self).wf(),
        ensures
            !old(self).doc().nodes.contains_key(id) ==> final(self).wf(),
            final(self).past() == old(self).past().pushed(old(self).doc()),
            ({
                let v = old(self).doc();
                let parent = effective_parent(v, params.parent_id);
                if !v.nodes.contains_key(parent) {
                    &&& fails_with(r, NODE_NOT_FOUND, error_text(StoreError::NotFound(parent)))
                    &&& final(self).doc() == v
                    &&& final(self).wf()
                } else {
                    &&& r.answer matches Ok(Answer::Created(res)) && res.id == id
                    &&& final(self).doc() == created(v, id, params, parent)
                    &&& r.change == Some(StateChange::NodeCreated { id, parent_id: parent })
                }
            }),
    {
        let parent_id = self.parent_or_root(params.parent_id);
        // Snapshot for undo before mutation
        self.history.push(&self.store);
        match self.store.add_with_id(id, params.name.as_str(), params.node_type, parent_id) {
            Ok(()) => {
                let ghost w = self.store@;
                // Apply optional properties
                if let Some(layout) = params.layout {
                    let _ = self.store.set_layout(id, layout);
                }
                let ghost w1 = self.store@;
                assert(w1 == with_node(w, id, NodeView { layout: overlay(params.layout, w.nodes[id].layout), ..w.nodes[id] })) by {
                    if params.layout is None {
                        assert(w.nodes.insert(id, w.nodes[id]) =~= w.nodes);
                    }
                }
                if let Some(style) = params.style {
                    let _ = self.store.set_style(id, style);
                }
                if let Some(typography) = params.typography {
                    let _ = self.store.set_typography(id, typography);
                }
                assert(self.store@.nodes =~= created(old(self).doc(), id, params, parent_id).nodes);
                Reply {
                    answer: Ok(Answer::Created(NodeCreateResult { id })),
                    change: Some(StateChange::NodeCreated { id, parent_id }),
                }
            },
            Err(e) => Reply { answer: Err(store_failure(e)), change: None },
        }
    }

    /// node.create: draw a random id for the new node, then create it as
    /// `node_create_with_id` does: a missing parent is refused; otherwise the node is
    /// created (replacing a node already stored under the drawn id, if any).
    pub fn node_create(&mut self, params: NodeCreateParams) -> (r: Reply)
        requires
            old(self).wf(),
        ensures
            final(self).past() == old(self).past().pushed(old(self).doc()),
            ({
                let v = old(self).doc();
                let parent = effective_parent(v, params.parent_id);
                if !v.nodes.contains_key(parent) {
                    &&& fails_with(r, NODE_NOT_FOUND, error_text(StoreError::NotFound(parent)))
                    &&& final(self).doc() == v
                    &&& final(self).wf()
                } else {
                    &&& r.answer matches Ok(Answer::Created(res)) && {
                        &&& is_random_uuid(res.id)
                        &&& final(self).doc() == created(v, res.id, params, parent)
                        &&& r.change == Some(StateChange::NodeCreated { id: res.id, parent_id: parent })
                        &&& !v.nodes.contains_key(res.id) ==> final(self).wf()
                    }
                }
            }),
    {
        let id = new_random_id();
        self.node_create_with_id(params, id)
    }

    /// node.edit: snapshot for undo, then overwrite only the fields the request gives
    /// (merging layout, style and typography field by field), announce the edit.
    pub fn node_edit(&mut self, params: NodeEditParams) -> (r: Reply)
        requires
            old(self).wf(),
        ensures
            final(self).wf(),
            final(self).past() == old(self).past().pushed(old(self).doc()),
            ({
                let v = old(self).doc();
                if !v.nodes.contains_key(params.id) {
                    &&& fails_with(r, NODE_NOT_FOUND, error_text(StoreError::NotFound(params.id)))
                    &&& final(self).doc() == v
                } else {
                    &&& done_with(r, StateChange::NodeEdited { id: params.id })
                    &&& final(self).doc() == with_node(v, params.id, edited(v.nodes[params.id], params))
                    &&& (params.name matches Some(s) ==> final(self).doc().nodes[params.id].name == s@)
                    &&& (params.typography matches Some(t) ==> (t.content is Some
                        ==> final(self).doc().nodes[params.id].typography.content == opt_text(t.content)))
                }
            }),
    {
        // Snapshot for undo before mutation
        self.history.push(&self.store);
        let id = params.id;
        let ghost v = self.store@;
        if !self.store.contains(id) {
            return Reply {
                answer: Err(Failure { code: NODE_NOT_FOUND, message: StoreError::NotFound(id).message() }),
                change: None,
            };
        }
        if let Some(name) = params.name {
            let _ = self.store.set_name(id, name);
        }
        let ghost v1 = self.store@;
        if let Some(partial) = &params.layout {
            let mut layout = match self.store.get(id) {
                Ok(node) => node.layout,
                Err(_) => Layout { x: 0, y: 0, width: 0, height: 0 },
            };
            layout.merge(partial);
            let _ = self.store.set_layout(id, layout);
        }
        let ghost v2 = self.store@;
        if let Some(other) = &params.style {
            match self.store.get(id) {
                Ok(node) => {
                    let mut style = node.style.duplicate();
                    style.merge(other);
                    let _ = self.store.set_style(id, style);
                },
                Err(_) => {},
            }
        }
        let ghost v3 = self.store@;
        if let Some(other) = &params.typography {
            match self.store.get(id) {
                Ok(node) => {
                    let mut typography = node.typography.duplicate();
                    typography.merge(other);
                    let _ = self.store.set_typography(id, typography);
                },
                Err(_) => {},
            }
        }
        assert(self.store@.nodes =~= with_node(v, id, edited(v.nodes[id], params)).nodes);
        Reply { answer: Ok(Answer::Done), change: Some(StateChange::NodeEdited { id }) }
    }

    /// node.delete: snapshot for undo, delete the node and its descendants, announce
    /// the deletion.
    pub fn node_delete(&mut self, params: NodeDeleteParams) -> (r: Reply)
        requires
            old(self).wf(),
        ensures
            final(self).wf(),
            final(self).past() == old(self).past().pushed(old(self).doc()),
            ({
                let v = old(self).doc();
                let id = params.id;
                if id == v.root_id {
                    fails_with(r, OPERATION_FAILED, error_text(StoreError::DeleteRoot)) && final(self).doc() == v
                } else if !v.nodes.contains_key(id) {
                    fails_with(r, NODE_NOT_FOUND, error_text(StoreError::NotFound(id))) && final(self).doc() == v
                } else {
                    done_with(r, StateChange::NodeDeleted { id }) && final(self).doc() == without_subtree(v, id)
                }
            }),
    {
        // Snapshot for undo before mutation
        self.history.push(&self.store);
        match self.store.delete(params.id) {
            Ok(()) => Reply {
                answer: Ok(Answer::Done),
                change: Some(StateChange::NodeDeleted { id: params.id }),
            },
            Err(e) => Reply { answer: Err(store_failure(e)), change: None },
        }
    }

    /// node.move: snapshot for undo, move the node under the new parent unless that
    /// would make a cycle, announce the move.
    pub fn node_move(&mut self, params: NodeMoveParams) -> (r: Reply)
        requires
            old(self).wf(),
        ensures
            final(self).wf(),
            final(self).past() == old(self).past().pushed(old(self).doc()),
            ({
                let v = old(self).doc();
                match move_outcome(v, params.id, params.new_parent_id) {
                    Ok(()) => done_with(
                        r,
                        StateChange::NodeMoved { id: params.id, new_parent_id: params.new_parent_id },
                    ) && final(self).doc() == moved(v, params.id, params.new_parent_id),
                    Err(e) => fails_with(r, error_code(e), error_text(e)) && final(self).doc() == v,
                }
            }),
    {
        // Snapshot for undo before mutation
        self.history.push(&self.store);
        match self.store.move_node(params.id, params.new_parent_id) {
            Ok(()) => Reply {
                answer: Ok(Answer::Done),
                change: Some(
                    StateChange::NodeMoved { id: params.id, new_parent_id: params.new_parent_id },
                ),
            },
            Err(e) => Reply { answer: Err(store_failure(e)), change: None },
        }
    }

    /// tree.get: the rendered tree; `fmt_num` gives the text of a size.
    pub fn tree_get<F: Fn(Measure) -> String>(&self, fmt_num: &F) -> (r: Reply)
        requires
            self.wf(),
            forall|b: Measure| #[trigger] fmt_num.requires((b,)),
        ensures
            r.change is None,
            r.answer matches Ok(Answer::Tree(res)) && forall|num: spec_fn(Measure) -> Seq<char>|
                #[trigger] formats(*fmt_num, num) ==> res.tree@ == render_text(self.doc(), num),
    {
        let tree = render_tree(&self.store, fmt_num);
        Reply { answer: Ok(Answer::Tree(TreeGetResult { tree })), change: None }
    }

    /// node.show: the full node.
    pub fn node_show(&self, params: NodeShowParams) -> (r: Reply)
        requires
            self.wf(),
        ensures
            if self.doc().nodes.contains_key(params.id) {
                &&& r.answer matches Ok(Answer::Shown(res)) && res.node@ == self.doc().nodes[params.id]
                &&& r.change is None
            } else {
                fails_with(r, NODE_NOT_FOUND, error_text(StoreError::NotFound(params.id)))
            },
    {
        match self.store.get(params.id) {
            Ok(node) => Reply {
                answer: Ok(Answer::Shown(NodeShowResult { node: node.duplicate() })),
                change: None,
            },
            Err(e) => Reply {
                answer: Err(Failure { code: NODE_NOT_FOUND, message: e.message() }),
                change: None,
            },
        }
    }

    /// node.query: every node whose name contains the query, case-insensitively,
    /// each once, in no particular order.
    pub fn node_query(&self, params: &NodeQueryParams) -> (r: Reply)
        requires
            self.wf(),
        ensures
            r.change is None,
            r.answer matches Ok(Answer::Found(res)) && {
                let v = self.doc();
                let q = params.name@;
                &&& forall|i: int|
                    0 <= i < res.nodes.len() ==> v.nodes.contains_key(#[trigger] res.nodes[i].id)
                        && v.nodes[res.nodes[i].id] == res.nodes[i]@ && name_matches(
                        res.nodes[i]@,
                        q,
                    )
                &&& forall|k: NodeId| #[trigger]
                    v.nodes.contains_key(k) && name_matches(v.nodes[k], q) ==> exists|i: int|
                        0 <= i < res.nodes.len() && res.nodes[i].id == k
                &&& forall|i: int, j: int|
                    0 <= i < res.nodes.len() && 0 <= j < res.nodes.len() && i != j
                        ==> res.nodes[i].id != res.nodes[j].id
                &&& forall|k: NodeId| #[trigger]
                    v.nodes.contains_key(k) && v.nodes[k].name == q ==> exists|i: int|
                        0 <= i < res.nodes.len() && res.nodes[i].id == k
            },
    {
        let ghost v = self.store@;
        let query = chars_of(to_lowercase(params.name.as_str()).as_str());
        let all = self.store.nodes();
        let mut found: Vec<Node> = Vec::new();
        let ghost mut picked: Seq<int> = Seq::empty();
        let n = all.len();
        let mut i: usize = 0;
        while i < n
            invariant
                self.wf(),
                v == self.store@,
                n == all.len(),
                0 <= i <= n,
                query@ == lowercase(params.name@),
                forall|a: int| 0 <= a < n ==> v.nodes.contains_key(#[trigger] all[a].id) && v.nodes[all[a].id] == all[a]@,
                forall|k: NodeId| #[trigger] v.nodes.contains_key(k) ==> exists|a: int| 0 <= a < n && all[a].id == k,
                forall|a: int, b: int| 0 <= a < n && 0 <= b < n && a != b ==> all[a].id != all[b].id,
                found.len() == picked.len(),
                forall|j: int| 0 <= j < picked.len() ==> 0 <= #[trigger] picked[j] < i && found[j]@ == all[picked[j]]@,
                forall|j: int, l: int| 0 <= j < l < picked.len() ==> picked[j] < picked[l],
                forall|a: int| 0 <= a < i && name_matches(#[trigger] all[a]@, params.name@) ==> exists|j: int| 0 <= j < picked.len() && picked[j] == a,
                forall|j: int| 0 <= j < picked.len() ==> name_matches(#[trigger] found[j]@, params.name@),
            decreases n - i,
        {
            let ghost old_picked = picked;
            let node = all[i];
            let name = chars_of(to_lowercase(node.name.as_str()).as_str());
            let hit = contains_chars(&name, &query);
            if hit {
                found.push(node.duplicate());
                proof {
                    picked = picked.push(i as int);
                }
            }
            assert forall|a: int| 0 <= a < i + 1 && name_matches(#[trigger] all[a]@, params.name@) implies exists|j: int| 0 <= j < picked.len() && picked[j] == a by {
                if a < i {
                    let j = choose|j: int| 0 <= j < old_picked.len() && old_picked[j] == a;
                    assert(picked[j] == a);
                } else {
                    assert(hit);
                    assert(picked[picked.len() - 1] == a);
                }
            }
            i = i + 1;
        }
        proof {
            assert forall|k: NodeId| #[trigger] v.nodes.contains_key(k) && name_matches(v.nodes[k], params.name@) implies exists|j: int| 0 <= j < found.len() && found[j].id == k by {
                let a = choose|a: int| 0 <= a < n && all[a].id == k;
                assert(name_matches(all[a]@, params.name@));
                let j = choose|j: int| 0 <= j < picked.len() && picked[j] == a;
                assert(found[j].id == k);
            }
            assert forall|k: NodeId| #[trigger] v.nodes.contains_key(k) && v.nodes[k].name == params.name@ implies exists|j: int| 0 <= j < found.len() && found[j].id == k by {
                law_query_finds_exact_name(v.nodes[k]);
                assert(name_matches(v.nodes[k], params.name@));
            }
            assert forall|j: int, l: int| 0 <= j < found.len() && 0 <= l < found.len() && j != l implies found[j].id != found[l].id by {
                assert(picked[j] != picked[l]);
            }
            assert forall|j: int| 0 <= j < found.len() implies v.nodes.contains_key(#[trigger] found[j].id)
                && v.nodes[found[j].id] == found[j]@ by {
                assert(all[picked[j]]@ == found[j]@);
            }
        }
        Reply { answer: Ok(Answer::Found(NodeQueryResult { nodes: found })), change: None }
    }

    /// root.get: the root node's id.
    pub fn root_get(&self) -> (r: Reply)
        ensures
            r.answer matches Ok(Answer::Root { root_id }) && root_id == self.doc().root_id,
            r.change is None,
    {
        Reply { answer: Ok(Answer::Root { root_id: self.store.root_id() }), change: None }
    }

    /// doc.undo: restore the previous document and announce it, or fail when there
    /// is none.
    pub fn undo(&mut self) -> (r: Reply)
        requires
            old(self).wf(),
        ensures
            final(self).wf(),
            ({
                let (h, restored) = old(self).past().undone(old(self).doc());
                &&& final(self).past() == h
                &&& match restored {
                    Some(s) => final(self).doc() == s && r.change == Some(StateChange::DocUndone) && (r.answer matches Ok(Answer::History { undo_available, redo_available })
                        && undo_available == h.undo.len() && redo_available == h.redo.len()),
                    None => fails_with(r, OPERATION_FAILED, "Nothing to undo"@) && final(self).doc() == old(self).doc(),
                }
            }),
    {
        match self.history.undo(&self.store) {
            Some(prev) => {
                self.store = prev;
                Reply {
                    answer: Ok(
                        Answer::History {
                            undo_available: self.history.undo_count(),
                            redo_available: self.history.redo_count(),
                        },
                    ),
                    change: Some(StateChange::DocUndone),
                }
            },
            None => Reply {
                answer: Err(Failure { code: OPERATION_FAILED, message: String::from_str("Nothing to undo") }),
                change: None,
            },
        }
    }

    /// doc.redo: restore the undone document and announce it, or fail when there is
    /// none.
    pub fn redo(&mut self) -> (r: Reply)
        requires
            old(self).wf(),
        ensures
            final(self).wf(),
            ({
                let (h, restored) = old(self).past().redone(old(self).doc());
                &&& final(self).past() == h
                &&& match restored {
                    Some(s) => final(self).doc() == s && r.change == Some(StateChange::DocRedone) && (r.answer matches Ok(Answer::History { undo_available, redo_available })
                        && undo_available == h.undo.len() && redo_available == h.redo.len()),
                    None => fails_with(r, OPERATION_FAILED, "Nothing to redo"@) && final(self).doc() == old(self).doc(),
                }
            }),
    {
        match self.history.redo(&self.store) {
            Some(next) => {
                self.store = next;
                Reply {
                    answer: Ok(
                        Answer::History {
                            undo_available: self.history.undo_count(),
                            redo_available: self.history.redo_count(),
                        },
                    ),
                    change: Some(StateChange::DocRedone),
                }
            },
            None => Reply {
                answer: Err(Failure { code: OPERATION_FAILED, message: String::from_str("Nothing to redo") }),
                change: None,
            },
        }
    }

    /// component.list: the name and description of every template, in library order.
    pub fn component_list(&self) -> (r: Reply)
        ensures
            r.change is None,
            r.answer matches Ok(Answer::Components(res)) && {
                &&& res.components.len() == library_entries().len()
                &&& forall|i: int|
                    0 <= i < res.components.len() ==> #[trigger] res.components[i].name@
                        == library_entries()[i].0 && res.components[i].description@
                        == library_entries()[i].1
            },
    {
        let lib = ComponentLibrary::new();
        let templates = lib.list();
        let mut components: Vec<ComponentInfo> = Vec::new();
        let n = templates.len();
        assert forall|k: int| 0 <= k < n implies #[trigger] templates@[k].name@ == library_entries()[k].0
            && templates@[k].description@ == library_entries()[k].1 by {
            assert(template_is(templates@[k], library_entries()[k]));
        }
        let mut i: usize = 0;
        while i < n
            invariant
                n == templates@.len(),
                n == library_entries().len(),
                forall|k: int|
                    0 <= k < n ==> #[trigger] templates@[k].name@ == library_entries()[k].0
                        && templates@[k].description@ == library_entries()[k].1,
                0 <= i <= n,
                components.len() == i,
                forall|k: int|
                    0 <= k < i ==> #[trigger] components[k].name@ == library_entries()[k].0
                        && components[k].description@ == library_entries()[k].1,
            decreases n - i,
        {
            let t = &templates[i];
            assert(templates@[i as int].name@ == library_entries()[i as int].0);
            components.push(ComponentInfo { name: t.name.clone(), description: t.description.clone() });
            i = i + 1;
        }
        Reply { answer: Ok(Answer::Components(ComponentListResult { components })), change: None }
    }

    /// Sets `text` as content of the first node of `ids`, after the first, named `name`.
    fn set_first_named_content(&mut self, ids: &Vec<NodeId>, name: &str, text: &String)
        ensures
            old(self).wf() ==> final(self).wf(),
            final(self).past() == old(self).past(),
            final(self).doc() == with_content_at_first_named(old(self).doc(), ids@, 1, name@, text@),
    {
        let ghost v = self.store@;
        let wanted = String::from_str(name);
        let n = ids.len();
        let mut i: usize = 1;
        while i < n
            invariant
                self.wf() == old(self).wf(),
                v == self.store@,
                v == old(self).doc(),
                self.history@ == old(self).history@,
                n == ids.len(),
                1 <= i,
                wanted@ == name@,
                with_content_at_first_named(v, ids@, 1, name@, text@) == with_content_at_first_named(v, ids@, i as int, name@, text@),
            decreases n - i,
        {
            let id = ids[i];
            match self.store.get(id) {
                Ok(node) => {
                    if node.name == wanted {
                        let mut typography = node.typography.duplicate();
                        typography.content = Some(text.clone());
                        let _ = self.store.set_typography(id, typography);
                        assert(node.name@ == name@);
                        assert(v.nodes.contains_key(ids@[i as int]));
                        assert(self.store@.nodes =~= with_content_at_first_named(v, ids@, i as int, name@, text@).nodes);
                        assert(self.store@ == with_content_at_first_named(v, ids@, i as int, name@, text@));
                        return ;
                    }
                },
                Err(_) => {},
            }
            i = i + 1;
        }
    }

    /// component.use with the node ids given (root first): look the template up,
    /// snapshot for undo, stamp it under the named parent (the nil UUID meaning the
    /// root) with those ids, place its root at the requested x and y, set the first
    /// "Label" and "Value" texts, announce the root's creation. Succeeds exactly when
    /// the template exists, the parent exists and the ids are fresh and distinct.
    pub fn component_use_with_ids(&mut self, params: &ComponentUseParams, ids: &Vec<NodeId>) -> (r: Reply)
        requires
            old(self).wf(),
            named_kind(params.name@) matches Some(k) ==> ids.len() == node_count(k),
        ensures
            fresh_ids(old(self).doc(), ids@) ==> final(self).wf(),
            ({
                let v = old(self).doc();
                let parent = effective_parent(v, params.parent_id);
                match named_kind(params.name@) {
                    None => {
                        &&& fails_with(r, NODE_NOT_FOUND, unknown_component_text(params.name@))
                        &&& final(self).doc() == v
                        &&& final(self).past() == old(self).past()
                    },
                    Some(kind) => {
                        &&& final(self).past() == old(self).past().pushed(v)
                        &&& if !v.nodes.contains_key(parent) {
                            fails_with(r, NODE_NOT_FOUND, error_text(StoreError::NotFound(parent)))
                                && final(self).doc() == v && final(self).wf()
                        } else {
                            &&& r.answer matches Ok(Answer::Used(res)) && res.ids@ == ids@
                            &&& final(self).doc() == component_used(v, kind, parent, ids@, *params)
                            &&& final(self).doc().nodes.contains_key(ids@[0])
                            &&& (params.x matches Some(x) ==> final(self).doc().nodes[ids@[0]].layout.x == x)
                            &&& (params.y matches Some(y) ==> final(self).doc().nodes[ids@[0]].layout.y == y)
                            &&& r.change == Some(StateChange::NodeCreated { id: ids@[0], parent_id: parent })
                        }
                    },
                }
            }),
    {
        let lib = ComponentLibrary::new();
        let template = match lib.get(params.name.as_str()) {
            Some(t) => t,
            None => {
                let mut message = String::from_str("Component '");
                message.append(params.name.as_str());
                message.append("' not found");
                return Reply { answer: Err(Failure { code: NODE_NOT_FOUND, message }), change: None };
            },
        };
        proof {
            lemma_library_index(params.name@);
        }
        let kind = template.kind;
        let parent_id = self.parent_or_root(params.parent_id);
        let ghost v0 = self.store@;
        // Snapshot for undo before mutation
        self.history.push(&self.store);
        match stamp(kind, &mut self.store, parent_id, ids) {
            Ok(()) => {
                let root_id = ids[0];
                // Apply x, y to root component node
                let mut layout = match self.store.get(root_id) {
                    Ok(node) => node.layout,
                    Err(_) => Layout { x: 0, y: 0, width: 0, height: 0 },
                };
                if let Some(x) = params.x {
                    layout.x = x;
                }
                if let Some(y) = params.y {
                    layout.y = y;
                }
                let _ = self.store.set_layout(root_id, layout);
                // Apply label and value to child text nodes
                if let Some(label) = &params.label {
                    self.set_first_named_content(ids, "Label", label);
                }
                if let Some(value) = &params.value {
                    self.set_first_named_content(ids, "Value", value);
                }
                proof {
                    law_component_placed(v0, kind, parent_id, ids@, *params);
                }
                let change = StateChange::NodeCreated { id: root_id, parent_id };
                let out = ids.clone();
                Reply { answer: Ok(Answer::Used(ComponentUseResult { ids: out })), change: Some(change) }
            },
            Err(e) => Reply { answer: Err(store_failure(e)), change: None },
        }
    }

    /// component.use: draw random ids for the template's nodes, then stamp it as
    /// `component_use_with_ids` does: an unknown template and a missing parent are
    /// refused; otherwise the component is stamped.
    pub fn component_use(&mut self, params: &ComponentUseParams) -> (r: Reply)
        requires
            old(self).wf(),
        ensures
            ({
                let v = old(self).doc();
                let parent = effective_parent(v, params.parent_id);
                match named_kind(params.name@) {
                    None => {
                        &&& fails_with(r, NODE_NOT_FOUND, unknown_component_text(params.name@))
                        &&& final(self).doc() == v
                        &&& final(self).past() == old(self).past()
                        &&& final(self).wf()
                    },
                    Some(kind) => {
                        &&& final(self).past() == old(self).past().pushed(v)
                        &&& if !v.nodes.contains_key(parent) {
                            fails_with(r, NODE_NOT_FOUND, error_text(StoreError::NotFound(parent)))
                                && final(self).doc() == v && final(self).wf()
                        } else {
                            r.answer matches Ok(Answer::Used(res)) && {
                                &&& res.ids.len() == node_count(kind)
                                &&& forall|i: int| 0 <= i < res.ids.len() ==> is_random_uuid(#[trigger] res.ids@[i])
                                &&& final(self).doc() == component_used(v, kind, parent, res.ids@, *params)
                                &&& final(self).doc().nodes.contains_key(res.ids@[0])
                                &&& (params.x matches Some(x) ==> final(self).doc().nodes[res.ids@[0]].layout.x == x)
                                &&& (params.y matches Some(y) ==> final(self).doc().nodes[res.ids@[0]].layout.y == y)
                                &&& r.change == Some(StateChange::NodeCreated { id: res.ids[0], parent_id: parent })
                                &&& fresh_ids(v, res.ids@) ==> final(self).wf()
                            }
                        }
                    },
                }
            }),
    {
        let lib = ComponentLibrary::new();
        match lib.get(params.name.as_str()) {
            Some(t) => {
                proof {
                    lemma_library_index(params.name@);
                }
                let ids = draw_ids(t.kind.size());
                self.component_use_with_ids(params, &ids)
            },
            None => {
                let mut message = String::from_str("Component '");
                message.append(params.name.as_str());
                message.append("' not found");
                Reply { answer: Err(Failure { code: NODE_NOT_FOUND, message }), change: None }
            },
        }
    }
}

/// The methods that the server answers.
#[derive(Debug, Clone, Copy, PartialEq, Eq, Structural)]
pub enum Method {
    NodeCreate,
    NodeEdit,
    NodeDelete,
    NodeMove,
    TreeGet,
    NodeShow,
    NodeQuery,
    RootGet,
    DocSave,
    DocLoad,
    DocUndo,
    DocRedo,
    ComponentList,
    ComponentUse,
    DocScreenshot,
}

/// The wire name of a method.
pub open spec fn method_name(m: Method) -> Seq<char> {
    match m {
        Method::NodeCreate => "node.create"@,
        Method::NodeEdit => "node.edit"@,
        Method::NodeDelete => "node.delete"@,
        Method::NodeMove => "node.move"@,
        Method::TreeGet => "tree.get"@,
        Method::NodeShow => "node.show"@,
        Method::NodeQuery => "node.query"@,
        Method::RootGet => "root.get"@,
        Method::DocSave => "doc.save"@,
        Method::DocLoad => "doc.load"@,
        Method::DocUndo => "doc.undo"@,
        Method::DocRedo => "doc.redo"@,
        Method::ComponentList => "component.list"@,
        Method::ComponentUse => "component.use"@,
        Method::DocScreenshot => "doc.screenshot"@,
    }
}

impl Method {
    /// The method with this wire name, if any.
    pub fn from_name(name: &str) -> (r: Option<Method>)
        ensures
            match r {
                Some(m) => method_name(m) == name@,
                None => forall|m: Method| #[trigger] method_name(m) != name@,
            },
    {
        let s = String::from_str(name);
        if s == String::from_str("node.create") {
            Some(Method::NodeCreate)
        } else if s == String::from_str("node.edit") {
            Some(Method::NodeEdit)
        } else if s == String::from_str("node.delete") {
            Some(Method::NodeDelete)
        } else if s == String::from_str("node.move") {
            Some(Method::NodeMove)
        } else if s == String::from_str("tree.get") {
            Some(Method::TreeGet)
        } else if s == String::from_str("node.show") {
            Some(Method::NodeShow)
        } else if s == String::from_str("node.query") {
            Some(Method::NodeQuery)
        } else if s == String::from_str("root.get") {
            Some(Method::RootGet)
        } else if s == String::from_str("doc.save") {
            Some(Method::DocSave)
        } else if s == String::from_str("doc.load") {
            Some(Method::DocLoad)
        } else if s == String::from_str("doc.undo") {
            Some(Method::DocUndo)
        } else if s == String::from_str("doc.redo") {
            Some(Method::DocRedo)
        } else if s == String::from_str("component.list") {
            Some(Method::ComponentList)
        } else if s == String::from_str("component.use") {
            Some(Method::ComponentUse)
        } else if s == String::from_str("doc.screenshot") {
            Some(Method::DocScreenshot)
        } else {
            None
        }
    }
}

/// The answer to a request whose method the server does not know.
pub fn unknown_method(name: &str) -> (r: Failure)
    ensures
        r.code == METHOD_NOT_FOUND,
        r.message@ == "Unknown method: "@ + name@,
{
    let mut message = String::from_str("Unknown method: ");
    message.append(name);
    Failure { code: METHOD_NOT_FOUND, message }
}

/// The answer to a message that is not a JSON-RPC request; `detail` says why.
pub fn parse_failure(detail: &str) -> (r: Failure)
    ensures
        r.code == PARSE_ERROR,
        r.message@ == "Parse error: "@ + detail@,
{
    let mut message = String::from_str("Parse error: ");
    message.append(detail);
    Failure { code: PARSE_ERROR, message }
}

/// The answer to a request whose parameters do not fit its method; `detail` says why.
pub fn invalid_params(detail: &str) -> (r: Failure)
    ensures
        r.code == INVALID_PARAMS,
        r.message@ == detail@,
{
    Failure { code: INVALID_PARAMS, message: String::from_str(detail) }
}

/// A mutating method that snapshots first can always be undone: the undo that
/// follows restores the document as it was before the method, whatever the method
/// did, as long as the history keeps at least one level.
pub proof fn law_mutation_undoable(h: UndoView, before: StoreView, after: StoreView)
    requires
        h.max_depth > 0,
    ensures
        h.pushed(before).undone(after).1 == Some(before),
        h.pushed(before).undone(after).0.redo == seq![after],
{
    assert(h.pushed(before).undone(after).0.redo =~= seq![after]);
}

/// node.create under an existing parent, with a fresh id, adds exactly one node: it
/// has the requested name and type, sits last among the parent's children, has no
/// children, takes the given layout, style and typography (zero layout and empty
/// style and typography otherwise), and every other node stays as it was.
pub proof fn law_create_adds_requested_node(v: StoreView, id: NodeId, p: NodeCreateParams, parent: NodeId)
    requires
        v.nodes.contains_key(parent),
        !v.nodes.contains_key(id),
    ensures
        created(v, id, p, parent).nodes.dom() == v.nodes.dom().insert(id),
        created(v, id, p, parent).root_id == v.root_id,
        created(v, id, p, parent).nodes[id].id == id,
        created(v, id, p, parent).nodes[id].name == p.name@,
        created(v, id, p, parent).nodes[id].node_type == p.node_type,
        created(v, id, p, parent).nodes[id].parent_id == Some(parent),
        created(v, id, p, parent).nodes[id].children == Seq::<NodeId>::empty(),
        p.layout matches Some(l) ==> created(v, id, p, parent).nodes[id].layout == l,
        p.layout is None ==> created(v, id, p, parent).nodes[id].layout == Layout::spec_zero(),
        p.style matches Some(s) ==> created(v, id, p, parent).nodes[id].style == s@,
        p.style is None ==> created(v, id, p, parent).nodes[id].style == StyleView::empty(),
        p.typography matches Some(t) ==> created(v, id, p, parent).nodes[id].typography == t@,
        p.typography is None ==> created(v, id, p, parent).nodes[id].typography == TypographyView::empty(),
        created(v, id, p, parent).nodes[parent].children == v.nodes[parent].children.push(id),
        created(v, id, p, parent).nodes[parent].name == v.nodes[parent].name,
        forall|k: NodeId| k != id && k != parent && #[trigger] v.nodes.contains_key(k)
            ==> created(v, id, p, parent).nodes[k] == v.nodes[k],
{
    assert(created(v, id, p, parent).nodes.dom() =~= v.nodes.dom().insert(id));
}

/// node.query finds a node by its own name: a name always matches itself.
pub proof fn law_query_finds_exact_name(n: NodeView)
    ensures
        name_matches(n, n.name),
{
    let l = lowercase(n.name);
    assert(l.subrange(0, 0 + l.len() as int) =~= l);
    assert(contains_text(l, l));
}

/// node.query ignores the case of the query: two queries with the same lower-case
/// form match the same nodes.
pub proof fn law_query_ignores_case(n: NodeView, q1: Seq<char>, q2: Seq<char>)
    requires
        lowercase(q1) == lowercase(q2),
    ensures
        name_matches(n, q1) == name_matches(n, q2),
{
}

/// node.query finds every node whose lower-case name contains the lower-case query
/// anywhere in it.
pub proof fn law_query_finds_containing_name(n: NodeView, q: Seq<char>, before: Seq<char>, after: Seq<char>)
    requires
        lowercase(n.name) == before + lowercase(q) + after,
    ensures
        name_matches(n, q),
{
    let l = lowercase(n.name);
    let lq = lowercase(q);
    let i = before.len() as int;
    assert(l.subrange(i, i + lq.len()) =~= lq);
}

/// node.query finds no node whose lower-case name is shorter than the lower-case
/// query.
pub proof fn law_query_skips_shorter_name(n: NodeView, q: Seq<char>)
    requires
        lowercase(n.name).len() < lowercase(q).len(),
    ensures
        !name_matches(n, q),
{
}

/// node.edit sets what the request gives and keeps the rest: a given name replaces
/// the name, a given text content replaces the content, and the node's identity and
/// place in the tree stay.
pub proof fn law_edit_applies_given_fields(n: NodeView, p: NodeEditParams)
    ensures
        p.name matches Some(s) ==> edited(n, p).name == s@,
        p.name is None ==> edited(n, p).name == n.name,
        p.typography matches Some(t) ==> (t.content is Some ==> edited(n, p).typography.content
            == opt_text(t.content)),
        p.typography is None ==> edited(n, p).typography == n.typography,
        p.style is None ==> edited(n, p).style == n.style,
        p.layout is None ==> edited(n, p).layout == n.layout,
        edited(n, p).id == n.id,
        edited(n, p).parent_id == n.parent_id,
        edited(n, p).children == n.children,
        edited(n, p).node_type == n.node_type,
{
}

/// The node type with this name (as JSON spells it), if any.
pub open spec fn type_named(name: Seq<char>) -> Option<NodeType> {
    if name == "frame"@ {
        Some(NodeType::Frame)
    } else if name == "text"@ {
        Some(NodeType::Text)
    } else if name == "rectangle"@ {
        Some(NodeType::Rectangle)
    } else if name == "ellipse"@ {
        Some(NodeType::Ellipse)
    } else if name == "group"@ {
        Some(NodeType::Group)
    } else {
        None
    }
}

/// The node type with this name, as JSON spells it (`frame`, `text`, `rectangle`,
/// `ellipse`, `group`).
pub fn node_type_named(name: &str) -> (r: Option<NodeType>)
    ensures
        r == type_named(name@),
        r matches Some(t) ==> type_text(t) == name@,
{
    let s = String::from_str(name);
    if s == String::from_str("frame") {
        Some(NodeType::Frame)
    } else if s == String::from_str("text") {
        Some(NodeType::Text)
    } else if s == String::from_str("rectangle") {
        Some(NodeType::Rectangle)
    } else if s == String::from_str("ellipse") {
        Some(NodeType::Ellipse)
    } else if s == String::from_str("group") {
        Some(NodeType::Group)
    } else {
        None
    }
}

/// The message for a node type name that names no type, as the JSON decoder words it.
pub open spec fn unknown_type_text(name: Seq<char>) -> Seq<char> {
    "unknown variant `"@ + name + "`, expected one of `frame`, `text`, `rectangle`, `ellipse`, `group`"@
}

/// The error text of a failed direct creation, if it failed.
pub open spec fn error_of(r: Result<(NodeId, StateChange), String>) -> Option<Seq<char>> {
    match r {
        Ok(_) => None,
        Err(e) => Some(e@),
    }
}

impl Workspace {
    /// The desktop shell's direct creation: the parent is given as UUID text and the
    /// type by name; nothing is snapshotted for undo and the nil UUID is no alias of
    /// the root. Answers the new id and the change to announce.
    pub fn create_node_command(&mut self, name: &str, node_type: &str, parent_id: &str) -> (r: Result<
        (NodeId, StateChange),
        String,
    >)
        requires
            old(self).wf(),
        ensures
            final(self).past() == old(self).past(),
            r is Err ==> final(self).wf(),
            r matches Ok((id, c)) && !old(self).doc().nodes.contains_key(id) ==> final(self).wf(),
            ({
                let v = old(self).doc();
                match uuid_parse(parent_id@) {
                    Err(e) => error_of(r) == Some("Invalid UUID: "@ + e) && final(self).doc() == v,
                    Ok(p) => match type_named(node_type@) {
                        None => error_of(r) == Some("Invalid node type: "@ + unknown_type_text(node_type@))
                            && final(self).doc() == v,
                        Some(t) => if !v.nodes.contains_key(p) {
                            error_of(r) == Some(error_text(StoreError::NotFound(p))) && final(self).doc() == v
                        } else {
                            r matches Ok((id, c)) && {
                                &&& is_random_uuid(id)
                                &&& final(self).doc() == inserted_child(v, id, name@, t, p)
                                &&& c == StateChange::NodeCreated { id, parent_id: p }
                            }
                        },
                    },
                }
            }),
    {
        let parent = match parse_uuid(parent_id) {
            Ok(u) => u,
            Err(e) => {
                let mut m = String::from_str("Invalid UUID: ");
                m.append(e.as_str());
                return Err(m);
            },
        };
        let nt = match node_type_named(node_type) {
            Some(t) => t,
            None => {
                let mut m = String::from_str("Invalid node type: ");
                m.append("unknown variant `");
                m.append(node_type);
                m.append("`, expected one of `frame`, `text`, `rectangle`, `ellipse`, `group`");
                assert(m@ =~= "Invalid node type: "@ + unknown_type_text(node_type@));
                return Err(m);
            },
        };
        let id = new_random_id();
        match self.store.add_with_id(id, name, nt, parent) {
            Ok(()) => Ok((id, StateChange::NodeCreated { id, parent_id: parent })),
            Err(e) => Err(e.message()),
        }
    }
}

} // verus!
