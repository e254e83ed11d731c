//! JSON-RPC method parameters and results, notifications, error codes and the
//! text of identifiers and errors.
use vstd::prelude::*;
use vstd::string::*;
use crate::model::{Layout, Measure, Node, NodeId, NodeType, PartialLayout, Style, Typography};
use crate::store::StoreError;

verus! {

// Standard JSON-RPC error codes
pub const PARSE_ERROR: i32 = -32700;
pub const INVALID_REQUEST: i32 = -32600;
pub const METHOD_NOT_FOUND: i32 = -32601;
pub const INVALID_PARAMS: i32 = -32602;
pub const INTERNAL_ERROR: i32 = -32603;

// App-specific error codes
pub const NODE_NOT_FOUND: i32 = -32000;
pub const OPERATION_FAILED: i32 = -32001;

/// Params for node.create
#[derive(Debug, Clone)]
pub struct NodeCreateParams {
    pub name: String,
    pub node_type: NodeType,
    pub parent_id: NodeId,
    pub layout: Option<Layout>,
    pub style: Option<Style>,
    pub typography: Option<Typography>,
}

/// Result for node.create
#[derive(Debug, Clone, Copy, PartialEq, Eq, Structural)]
pub struct NodeCreateResult {
    pub id: NodeId,
}

/// Params for node.edit: only the fields that are present are overwritten.
#[derive(Debug, Clone)]
pub struct NodeEditParams {
    pub id: NodeId,
    pub name: Option<String>,
    pub layout: Option<PartialLayout>,
    pub style: Option<Style>,
    pub typography: Option<Typography>,
}

/// Params for node.delete
#[derive(Debug, Clone, Copy, PartialEq, Eq, Structural)]
pub struct NodeDeleteParams {
    pub id: NodeId,
}

/// Params for node.move
#[derive(Debug, Clone, Copy, PartialEq, Eq, Structural)]
pub struct NodeMoveParams {
    pub id: NodeId,
    pub new_parent_id: NodeId,
}

/// Result for tree.get: the rendered tree.
#[derive(Debug, Clone)]
pub struct TreeGetResult {
    pub tree: String,
}

/// Params for node.show
#[derive(Debug, Clone, Copy, PartialEq, Eq, Structural)]
pub struct NodeShowParams {
    pub id: NodeId,
}

/// Result for node.show: the full node.
#[derive(Debug, Clone)]
pub struct NodeShowResult {
    pub node: Node,
}

/// Params for node.query: search nodes by name.
#[derive(Debug, Clone)]
pub struct NodeQueryParams {
    pub name: String,
}

/// Result for node.query
#[derive(Debug, Clone)]
pub struct NodeQueryResult {
    pub nodes: Vec<Node>,
}

/// Params for component.use
#[derive(Debug, Clone)]
pub struct ComponentUseParams {
    pub name: String,
    pub parent_id: NodeId,
    pub x: Option<Measure>,
    pub y: Option<Measure>,
    pub label: Option<String>,
    pub value: Option<String>,
}

/// Result for component.use
#[derive(Debug, Clone)]
pub struct ComponentUseResult {
    pub ids: Vec<NodeId>,
}

/// A single component template info (for listing).
#[derive(Debug, Clone)]
pub struct ComponentInfo {
    pub name: String,
    pub description: String,
}

/// Result for component.list
#[derive(Debug, Clone)]
pub struct ComponentListResult {
    pub components: Vec<ComponentInfo>,
}

/// Params for doc.save
#[derive(Debug, Clone)]
pub struct DocSaveParams {
    pub path: String,
}

/// Params for doc.load
#[derive(Debug, Clone)]
pub struct DocLoadParams {
    pub path: String,
}

/// Notification sent when state changes.
#[derive(Debug, Clone, Copy, PartialEq, Eq, Structural)]
pub enum StateChange {
    NodeCreated { id: NodeId, parent_id: NodeId },
    NodeEdited { id: NodeId },
    NodeDeleted { id: NodeId },
    NodeMoved { id: NodeId, new_parent_id: NodeId },
    /// doc.undo restored an earlier document.
    DocUndone,
    /// doc.redo restored an undone document.
    DocRedone,
}

/// The method name of every state-change notification.
pub open spec fn state_changed_method() -> Seq<char> {
    "state.changed"@
}

/// The `kind` tag of a state change.
pub open spec fn change_kind(c: StateChange) -> Seq<char> {
    match c {
        StateChange::NodeCreated { .. } => "node.created"@,
        StateChange::NodeEdited { .. } => "node.edited"@,
        StateChange::NodeDeleted { .. } => "node.deleted"@,
        StateChange::NodeMoved { .. } => "node.moved"@,
        StateChange::DocUndone => "doc.undone"@,
        StateChange::DocRedone => "doc.redone"@,
    }
}

impl StateChange {
    /// The `kind` tag of this change, as notifications carry it.
    pub fn kind(&self) -> (r: &'static str)
        ensures
            r@ == change_kind(*self),
    {
        match self {
            StateChange::NodeCreated { .. } => "node.created",
            StateChange::NodeEdited { .. } => "node.edited",
            StateChange::NodeDeleted { .. } => "node.deleted",
            StateChange::NodeMoved { .. } => "node.moved",
            StateChange::DocUndone => "doc.undone",
            StateChange::DocRedone => "doc.redone",
        }
    }
}

/// The method name of state-change notifications.
pub fn state_changed() -> (r: &'static str)
    ensures
        r@ == state_changed_method(),
{
    "state.changed"
}

/// The lower-case hexadecimal digit of `n` (below 16).
pub open spec fn hex_digit(n: nat) -> char {
    if n < 10 {
        (48 + n) as char
    } else {
        (87 + n) as char
    }
}

/// The last `count` hexadecimal digits of `v`, most significant first.
pub open spec fn hex_digits(v: nat, count: nat) -> Seq<char>
    decreases count,
{
    if count == 0 {
        Seq::empty()
    } else {
        hex_digits(v / 16, (count - 1) as nat).push(hex_digit(v % 16))
    }
}

/// The hyphenated lower-case text of a UUID: 8-4-4-4-12 hexadecimal digits of its
/// 128-bit value, most significant first.
pub open spec fn uuid_text(id: NodeId) -> Seq<char> {
    let h = hex_digits(id as nat, 32);
    h.subrange(0, 8) + "-"@ + h.subrange(8, 12) + "-"@ + h.subrange(12, 16) + "-"@ + h.subrange(
        16,
        20,
    ) + "-"@ + h.subrange(20, 32)
}

/// Calls `uuid::Uuid::to_string` on the UUID with this 128-bit value. Claimed, as the
/// crate's `Display` (through `LowerHex` and `Hyphenated`) writes it: the hyphenated
/// lower-case hexadecimal form of the value, most significant digit first.
#[verifier::external_body]
pub(crate) fn uuid_string(id: NodeId) -> (r: String)
    ensures
        r@ == uuid_text(id),
{
    uuid::Uuid::from_u128(id).to_string()
}

/// The message of a store error.
pub open spec fn error_text(e: StoreError) -> Seq<char> {
    match e {
        StoreError::NotFound(id) => "node not found: "@ + uuid_text(id),
        StoreError::CyclicMove => "cannot move node under itself or its descendant"@,
        StoreError::DeleteRoot => "cannot delete root node"@,
    }
}

impl StoreError {
    /// The message of this error.
    pub fn message(&self) -> (r: String)
        ensures
            r@ == error_text(*self),
    {
        match self {
            StoreError::NotFound(id) => {
                let mut s = String::from_str("node not found: ");
                s.append(uuid_string(*id).as_str());
                s
            },
            StoreError::CyclicMove => String::from_str("cannot move node under itself or its descendant"),
            StoreError::DeleteRoot => String::from_str("cannot delete root node"),

        }
    }
}

/// What `uuid::Uuid::parse_str` gives for a text: the UUID's 128-bit value, or the
/// text of its error.
pub uninterp spec fn uuid_parse(s: Seq<char>) -> Result<NodeId, Seq<char>>;

/// Calls `uuid::Uuid::parse_str` and renders its error by `Display`. Claimed: the
/// result is the named parse of the argument's text, a function of that text alone;
/// nothing is stated of which forms are accepted or of the error texts.
#[verifier::external_body]
pub(crate) fn parse_uuid(s: &str) -> (r: Result<NodeId, String>)
    ensures
        match r {
            Ok(u) => uuid_parse(s@) == Ok::<NodeId, Seq<char>>(u),
            Err(e) => uuid_parse(s@) == Err::<NodeId, Seq<char>>(e@),
        },
{
    match uuid::Uuid::parse_str(s) {
        Ok(u) => Ok(u.as_u128()),
        Err(e) => Err(e.to_string()),
    }
}

} // verus!
