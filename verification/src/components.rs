//! Built-in component templates: small node trees stamped under a parent.
use vstd::prelude::*;
use vstd::string::*;
use crate::model::{
    is_random_uuid, new_random_id, Layout, Measure, NodeId, NodeType, NodeView, Style, StyleView,
    Typography, TypographyView,
};
use crate::store::{inserted_child, with_node, NodeStore, StoreError, StoreView};

verus! {

/// Which built-in template a component is.
#[derive(Debug, Clone, Copy, PartialEq, Eq, Structural)]
pub enum ComponentKind {
    StatCard,
    NavItem,
    Button,
    ChartBar,
}

/// A component template definition.
#[derive(Debug, Clone)]
pub struct ComponentTemplate {
    pub name: String,
    pub description: String,
    /// The nodes that instantiating this template creates.
    pub kind: ComponentKind,
}

/// Built-in component library.
pub struct ComponentLibrary {
    templates: Vec<ComponentTemplate>,
}

// Sizes used by the templates, as binary64 bit patterns.
pub const PX_0: Measure = 0;
pub const PX_4: Measure = 0x4010_0000_0000_0000;
pub const PX_8: Measure = 0x4020_0000_0000_0000;
pub const PX_10: Measure = 0x4024_0000_0000_0000;
pub const PX_11: Measure = 0x4026_0000_0000_0000;
pub const PX_12: Measure = 0x4028_0000_0000_0000;
pub const PX_13: Measure = 0x402a_0000_0000_0000;
pub const PX_14: Measure = 0x402c_0000_0000_0000;
pub const PX_16: Measure = 0x4030_0000_0000_0000;
pub const PX_20: Measure = 0x4034_0000_0000_0000;
pub const PX_24: Measure = 0x4038_0000_0000_0000;
pub const PX_32: Measure = 0x4040_0000_0000_0000;
pub const PX_40: Measure = 0x4044_0000_0000_0000;
pub const PX_48: Measure = 0x4048_0000_0000_0000;
pub const PX_50: Measure = 0x4049_0000_0000_0000;
pub const PX_100: Measure = 0x4059_0000_0000_0000;
pub const PX_120: Measure = 0x405e_0000_0000_0000;
pub const PX_140: Measure = 0x4061_8000_0000_0000;
pub const PX_150: Measure = 0x4062_c000_0000_0000;
pub const PX_180: Measure = 0x4066_8000_0000_0000;
pub const PX_200: Measure = 0x4069_0000_0000_0000;
pub const PX_240: Measure = 0x406e_0000_0000_0000;
pub const PX_280: Measure = 0x4071_8000_0000_0000;

/// The store with node `id` given layout `l`.
pub open spec fn with_layout(v: StoreView, id: NodeId, l: Layout) -> StoreView {
    with_node(v, id, NodeView { layout: l, ..v.nodes[id] })
}

/// The store with node `id` given style `s`.
pub open spec fn with_style(v: StoreView, id: NodeId, s: StyleView) -> StoreView {
    with_node(v, id, NodeView { style: s, ..v.nodes[id] })
}

/// The store with node `id` given typography `t`.
pub open spec fn with_typography(v: StoreView, id: NodeId, t: TypographyView) -> StoreView {
    with_node(v, id, NodeView { typography: t, ..v.nodes[id] })
}

/// A layout at `(x, y)` of size `w` by `h`.
pub open spec fn lay(x: Measure, y: Measure, w: Measure, h: Measure) -> Layout {
    Layout { x, y, width: w, height: h }
}

/// A style with only a fill color and a corner radius.
pub open spec fn fill_style(fill: Seq<char>, radius: Measure) -> StyleView {
    StyleView { fill: Some(fill), corner_radius: Some(radius), ..StyleView::empty() }
}

/// A typography with only content, font size and possibly a weight.
pub open spec fn text_typo(content: Seq<char>, size: Measure, weight: Option<u16>) -> TypographyView {
    TypographyView {
        content: Some(content),
        font_size: Some(size),
        font_weight: weight,
        ..TypographyView::empty()
    }
}

/// A child added under `parent` with a layout and a typography.
pub open spec fn text_child(
    v: StoreView,
    id: NodeId,
    name: Seq<char>,
    parent: NodeId,
    l: Layout,
    t: TypographyView,
) -> StoreView {
    with_typography(with_layout(inserted_child(v, id, name, NodeType::Text, parent), id, l), id, t)
}

/// The store after a stat card with node ids `ids` is stamped under `parent`.
pub open spec fn stat_card_result(v: StoreView, parent: NodeId, ids: Seq<NodeId>) -> StoreView {
    let c = ids[0];
    let v1 = inserted_child(v, c, "Stat Card"@, NodeType::Frame, parent);
    let v2 = with_style(with_layout(v1, c, lay(PX_0, PX_0, PX_280, PX_140)), c, fill_style("#ffffff"@, PX_12));
    let v3 = text_child(v2, ids[1], "Label"@, c, lay(PX_20, PX_16, PX_0, PX_0), text_typo("Metric Name"@, PX_13, None));
    let v4 = text_child(v3, ids[2], "Value"@, c, lay(PX_20, PX_48, PX_0, PX_0), text_typo("0"@, PX_32, Some(700u16)));
    text_child(v4, ids[3], "Change"@, c, lay(PX_20, PX_100, PX_0, PX_0), text_typo("+0% from last period"@, PX_12, None))
}

/// The store after a navigation item with node ids `ids` is stamped under `parent`.
pub open spec fn nav_item_result(v: StoreView, parent: NodeId, ids: Seq<NodeId>) -> StoreView {
    let c = ids[0];
    let v1 = with_layout(inserted_child(v, c, "Nav Item"@, NodeType::Frame, parent), c, lay(PX_0, PX_0, PX_240, PX_40));
    let v2 = inserted_child(v1, ids[1], "Icon"@, NodeType::Rectangle, c);
    let v3 = with_style(with_layout(v2, ids[1], lay(PX_12, PX_8, PX_24, PX_24)), ids[1], fill_style("#94a3b8"@, PX_4));
    text_child(v3, ids[2], "Label"@, c, lay(PX_48, PX_10, PX_0, PX_0), text_typo("Menu Item"@, PX_14, None))
}

/// The store after a button with node ids `ids` is stamped under `parent`.
pub open spec fn button_result(v: StoreView, parent: NodeId, ids: Seq<NodeId>) -> StoreView {
    let c = ids[0];
    let v1 = inserted_child(v, c, "Button"@, NodeType::Frame, parent);
    let v2 = with_style(with_layout(v1, c, lay(PX_0, PX_0, PX_120, PX_40)), c, fill_style("#3b82f6"@, PX_8));
    text_child(v2, ids[1], "Label"@, c, lay(PX_16, PX_10, PX_0, PX_0), text_typo("Click me"@, PX_14, Some(600u16)))
}

/// The store after a chart bar with node ids `ids` is stamped under `parent`.
pub open spec fn chart_bar_result(v: StoreView, parent: NodeId, ids: Seq<NodeId>) -> StoreView {
    let c = ids[0];
    let v1 = with_layout(inserted_child(v, c, "Chart Bar"@, NodeType::Group, parent), c, lay(PX_0, PX_0, PX_40, PX_200));
    let v2 = inserted_child(v1, ids[1], "Bar"@, NodeType::Rectangle, c);
    let v3 = with_style(with_layout(v2, ids[1], lay(PX_0, PX_50, PX_40, PX_150)), ids[1], fill_style("#3b82f6"@, PX_4));
    text_child(v3, ids[2], "Label"@, c, lay(PX_4, PX_180, PX_0, PX_0), text_typo("Jan"@, PX_11, None))
}

/// How many nodes a template creates.
pub open spec fn node_count(kind: ComponentKind) -> nat {
    match kind {
        ComponentKind::StatCard => 4,
        ComponentKind::NavItem => 3,
        ComponentKind::Button => 2,
        ComponentKind::ChartBar => 3,
    }
}

/// The store after the template `kind` is stamped under `parent` with node ids `ids`.
pub open spec fn stamped(kind: ComponentKind, v: StoreView, parent: NodeId, ids: Seq<NodeId>) -> StoreView {
    match kind {
        ComponentKind::StatCard => stat_card_result(v, parent, ids),
        ComponentKind::NavItem => nav_item_result(v, parent, ids),
        ComponentKind::Button => button_result(v, parent, ids),
        ComponentKind::ChartBar => chart_bar_result(v, parent, ids),
    }
}

/// No id of `ids` is in the store, and no two of them are equal.
pub open spec fn fresh_ids(v: StoreView, ids: Seq<NodeId>) -> bool {
    &&& forall|i: int| 0 <= i < ids.len() ==> !v.nodes.contains_key(#[trigger] ids[i])
    &&& forall|i: int, j: int| 0 <= i < ids.len() && 0 <= j < ids.len() && i != j ==> ids[i] != ids[j]
}

/// What stamping a template with the given ids answers: success exactly when the
/// parent exists, with the stamped store (nodes already stored under one of the ids
/// are replaced, as `add_with_id` replaces them); otherwise the store is unchanged and
/// the error names the missing parent.
pub open spec fn stamp_post(
    kind: ComponentKind,
    old_v: StoreView,
    new_v: StoreView,
    parent: NodeId,
    ids: Seq<NodeId>,
    r: Result<(), StoreError>,
) -> bool {
    match r {
        Ok(()) => old_v.nodes.contains_key(parent) && new_v == stamped(kind, old_v, parent, ids),
        Err(StoreError::NotFound(p)) => p == parent && !old_v.nodes.contains_key(parent) && new_v == old_v,
        Err(_) => false,
    }
}

/// What instantiating a template answers: on success, its freshly drawn node ids (root
/// first) and the stamped store; a missing parent is reported before anything changes.
pub open spec fn instantiate_post(
    kind: ComponentKind,
    old_v: StoreView,
    new_v: StoreView,
    parent: NodeId,
    r: Result<Seq<NodeId>, StoreError>,
) -> bool {
    match r {
        Ok(ids) => {
            &&& old_v.nodes.contains_key(parent)
            &&& ids.len() == node_count(kind)
            &&& forall|i: int| 0 <= i < ids.len() ==> is_random_uuid(#[trigger] ids[i])
            &&& new_v == stamped(kind, old_v, parent, ids)
        },
        Err(StoreError::NotFound(p)) => p == parent && !old_v.nodes.contains_key(parent) && new_v == old_v,
        Err(_) => false,
    }
}

/// The store stays a tree: it was one, and any new ids were fresh.
pub open spec fn keeps_tree(old_wf: bool, new_wf: bool, old_v: StoreView, r: Result<Seq<NodeId>, StoreError>) -> bool {
    old_wf && (match r {
        Ok(ids) => fresh_ids(old_v, ids),
        Err(_) => true,
    }) ==> new_wf
}

/// The result's ids, taken as a sequence.
pub open spec fn ids_of(r: Result<Vec<NodeId>, StoreError>) -> Result<Seq<NodeId>, StoreError> {
    match r {
        Ok(ids) => Ok(ids@),
        Err(e) => Err(e),
    }
}

/// A style with only a fill color and a corner radius.
fn make_fill_style(fill: &str, radius: Measure) -> (r: Style)
    ensures
        r@ == fill_style(fill@, radius),
{
    Style {
        fill: Some(String::from_str(fill)),
        corner_radius: Some(radius),
        ..Style::default()
    }
}

/// A typography with only content, font size and possibly a weight.
fn make_text_typo(content: &str, size: Measure, weight: Option<u16>) -> (r: Typography)
    ensures
        r@ == text_typo(content@, size, weight),
{
    Typography {
        content: Some(String::from_str(content)),
        font_size: Some(size),
        font_weight: weight,
        ..Typography::default()
    }
}

/// Adds the text child `id` with a layout and a typography.
fn put_text_child(store: &mut NodeStore, id: NodeId, name: &str, parent: NodeId, l: Layout, t: Typography)
    requires
        old(store)@.nodes.contains_key(parent),
    ensures
        old(store).wf() && !old(store)@.nodes.contains_key(id) ==> final(store).wf(),
        final(store)@ == text_child(old(store)@, id, name@, parent, l, t@),
{
    let ghost v0 = store@;
    let r0 = store.add_with_id(id, name, NodeType::Text, parent);
    assert(r0 is Ok);
    let ghost v1 = store@;
    assert(v1.nodes.contains_key(id));
    let r1 = store.set_layout(id, l);
    assert(r1 is Ok);
    let ghost v2 = store@;
    assert(v2 == with_layout(v1, id, l));
    let ghost tv = t@;
    let r2 = store.set_typography(id, t);
    assert(r2 is Ok);
    assert(store@ == with_typography(v2, id, tv));
}

/// The store with the box child `id` added, laid out, and styled when a style is given.
pub open spec fn box_child(
    v: StoreView,
    id: NodeId,
    name: Seq<char>,
    node_type: NodeType,
    parent: NodeId,
    l: Layout,
    s: Option<StyleView>,
) -> StoreView {
    let w = with_layout(inserted_child(v, id, name, node_type, parent), id, l);
    match s {
        Some(st) => with_style(w, id, st),
        None => w,
    }
}

/// The view of an optional style.
pub open spec fn opt_style(s: Option<Style>) -> Option<StyleView> {
    match s {
        Some(st) => Some(st@),
        None => None,
    }
}

/// Adds the frame-like child `id` with a layout and, when given, a style.
fn put_box_child(
    store: &mut NodeStore,
    id: NodeId,
    name: &str,
    node_type: NodeType,
    parent: NodeId,
    l: Layout,
    s: Option<Style>,
)
    requires
        old(store)@.nodes.contains_key(parent),
    ensures
        old(store).wf() && !old(store)@.nodes.contains_key(id) ==> final(store).wf(),
        final(store)@ == box_child(old(store)@, id, name@, node_type, parent, l, opt_style(s)),
{
    let r0 = store.add_with_id(id, name, node_type, parent);
    assert(r0 is Ok);
    let r1 = store.set_layout(id, l);
    assert(r1 is Ok);
    match s {
        Some(st) => {
            let r2 = store.set_style(id, st);
            assert(r2 is Ok);
        },
        None => {},
    }
}

/// Stamps a statistics card with the given fresh ids.
fn stamp_stat_card(store: &mut NodeStore, parent_id: NodeId, ids: &Vec<NodeId>)
    requires
        old(store)@.nodes.contains_key(parent_id),
        ids.len() == 4,
    ensures
        old(store).wf() && fresh_ids(old(store)@, ids@) ==> final(store).wf(),
        final(store)@ == stat_card_result(old(store)@, parent_id, ids@),
{
    let ghost v = store@;
    proof {
        if fresh_ids(v, ids@) {
            assert(!v.nodes.contains_key(ids@[0]) && !v.nodes.contains_key(ids@[1]));
            assert(!v.nodes.contains_key(ids@[2]) && !v.nodes.contains_key(ids@[3]));
            assert(ids@[0] != ids@[1] && ids@[0] != ids@[2] && ids@[0] != ids@[3]);
            assert(ids@[1] != ids@[2] && ids@[1] != ids@[3] && ids@[2] != ids@[3]);
        }
    }
    // Card container
    put_box_child(
        store,
        ids[0],
        "Stat Card",
        NodeType::Frame,
        parent_id,
        Layout { x: PX_0, y: PX_0, width: PX_280, height: PX_140 },
        Some(make_fill_style("#ffffff", PX_12)),
    );
    // Label
    put_text_child(
        store,
        ids[1],
        "Label",
        ids[0],
        Layout { x: PX_20, y: PX_16, width: PX_0, height: PX_0 },
        make_text_typo("Metric Name", PX_13, None),
    );
    // Value
    put_text_child(
        store,
        ids[2],
        "Value",
        ids[0],
        Layout { x: PX_20, y: PX_48, width: PX_0, height: PX_0 },
        make_text_typo("0", PX_32, Some(700)),
    );
    // Change indicator
    put_text_child(
        store,
        ids[3],
        "Change",
        ids[0],
        Layout { x: PX_20, y: PX_100, width: PX_0, height: PX_0 },
        make_text_typo("+0% from last period", PX_12, None),
    );
}

/// Stamps a navigation item with the given fresh ids.
fn stamp_nav_item(store: &mut NodeStore, parent_id: NodeId, ids: &Vec<NodeId>)
    requires
        old(store)@.nodes.contains_key(parent_id),
        ids.len() == 3,
    ensures
        old(store).wf() && fresh_ids(old(store)@, ids@) ==> final(store).wf(),
        final(store)@ == nav_item_result(old(store)@, parent_id, ids@),
{
    let ghost v = store@;
    proof {
        if fresh_ids(v, ids@) {
            assert(!v.nodes.contains_key(ids@[0]) && !v.nodes.contains_key(ids@[1]) && !v.nodes.contains_key(ids@[2]));
            assert(ids@[0] != ids@[1] && ids@[0] != ids@[2] && ids@[1] != ids@[2]);
        }
    }
    put_box_child(
        store,
        ids[0],
        "Nav Item",
        NodeType::Frame,
        parent_id,
        Layout { x: PX_0, y: PX_0, width: PX_240, height: PX_40 },
        None,
    );
    // Icon placeholder
    put_box_child(
        store,
        ids[1],
        "Icon",
        NodeType::Rectangle,
        ids[0],
        Layout { x: PX_12, y: PX_8, width: PX_24, height: PX_24 },
        Some(make_fill_style("#94a3b8", PX_4)),
    );
    // Label
    put_text_child(
        store,
        ids[2],
        "Label",
        ids[0],
        Layout { x: PX_48, y: PX_10, width: PX_0, height: PX_0 },
        make_text_typo("Menu Item", PX_14, None),
    );
}

/// Stamps a button with the given fresh ids.
fn stamp_button(store: &mut NodeStore, parent_id: NodeId, ids: &Vec<NodeId>)
    requires
        old(store)@.nodes.contains_key(parent_id),
        ids.len() == 2,
    ensures
        old(store).wf() && fresh_ids(old(store)@, ids@) ==> final(store).wf(),
        final(store)@ == button_result(old(store)@, parent_id, ids@),
{
    let ghost v = store@;
    proof {
        if fresh_ids(v, ids@) {
            assert(!v.nodes.contains_key(ids@[0]) && !v.nodes.contains_key(ids@[1]));
            assert(ids@[0] != ids@[1]);
        }
    }
    put_box_child(
        store,
        ids[0],
        "Button",
        NodeType::Frame,
        parent_id,
        Layout { x: PX_0, y: PX_0, width: PX_120, height: PX_40 },
        Some(make_fill_style("#3b82f6", PX_8)),
    );
    put_text_child(
        store,
        ids[1],
        "Label",
        ids[0],
        Layout { x: PX_16, y: PX_10, width: PX_0, height: PX_0 },
        make_text_typo("Click me", PX_14, Some(600)),
    );
}

/// Stamps a chart bar with the given fresh ids.
fn stamp_chart_bar(store: &mut NodeStore, parent_id: NodeId, ids: &Vec<NodeId>)
    requires
        old(store)@.nodes.contains_key(parent_id),
        ids.len() == 3,
    ensures
        old(store).wf() && fresh_ids(old(store)@, ids@) ==> final(store).wf(),
        final(store)@ == chart_bar_result(old(store)@, parent_id, ids@),
{
    let ghost v = store@;
    proof {
        if fresh_ids(v, ids@) {
            assert(!v.nodes.contains_key(ids@[0]) && !v.nodes.contains_key(ids@[1]) && !v.nodes.contains_key(ids@[2]));
            assert(ids@[0] != ids@[1] && ids@[0] != ids@[2] && ids@[1] != ids@[2]);
        }
    }
    put_box_child(
        store,
        ids[0],
        "Chart Bar",
        NodeType::Group,
        parent_id,
        Layout { x: PX_0, y: PX_0, width: PX_40, height: PX_200 },
        None,
    );
    put_box_child(
        store,
        ids[1],
        "Bar",
        NodeType::Rectangle,
        ids[0],
        Layout { x: PX_0, y: PX_50, width: PX_40, height: PX_150 },
        Some(make_fill_style("#3b82f6", PX_4)),
    );
    put_text_child(
        store,
        ids[2],
        "Label",
        ids[0],
        Layout { x: PX_4, y: PX_180, width: PX_0, height: PX_0 },
        make_text_typo("Jan", PX_11, None),
    );
}

impl ComponentKind {
    /// How many nodes the template creates.
    pub fn size(&self) -> (r: usize)
        ensures
            r == node_count(*self),
    {
        match self {
            ComponentKind::StatCard => 4,
            ComponentKind::NavItem => 3,
            ComponentKind::Button => 2,
            ComponentKind::ChartBar => 3,
        }
    }
}

/// Stamps the template `kind` under `parent_id` with the node ids `ids` (root first).
/// It succeeds exactly when the parent exists. The store stays a tree when the ids are
/// fresh and distinct; a node already stored under one of them is replaced.
pub fn stamp(kind: ComponentKind, store: &mut NodeStore, parent_id: NodeId, ids: &Vec<NodeId>) -> (r: Result<
    (),
    StoreError,
>)
    requires
        ids.len() == node_count(kind),
    ensures
        stamp_post(kind, old(store)@, final(store)@, parent_id, ids@, r),
        old(store).wf() && (r is Ok ==> fresh_ids(old(store)@, ids@)) ==> final(store).wf(),
{
    if !store.contains(parent_id) {
        return Err(StoreError::NotFound(parent_id));
    }
    match kind {
        ComponentKind::StatCard => stamp_stat_card(store, parent_id, ids),
        ComponentKind::NavItem => stamp_nav_item(store, parent_id, ids),
        ComponentKind::Button => stamp_button(store, parent_id, ids),
        ComponentKind::ChartBar => stamp_chart_bar(store, parent_id, ids),
    }
    Ok(())
}

/// `n` freshly drawn random ids.
pub(crate) fn draw_ids(n: usize) -> (r: Vec<NodeId>)
    ensures
        r.len() == n,
        forall|i: int| 0 <= i < n ==> is_random_uuid(#[trigger] r@[i]),
{
    let mut r: Vec<NodeId> = Vec::new();
    let mut i: usize = 0;
    while i < n
        invariant
            i <= n,
            r.len() == i,
            forall|k: int| 0 <= k < i ==> is_random_uuid(#[trigger] r@[k]),
        decreases n - i,
    {
        r.push(new_random_id());
        i = i + 1;
    }
    r
}

/// Draws fresh ids for the template `kind` and stamps it under `parent_id`.
fn instantiate_kind(kind: ComponentKind, store: &mut NodeStore, parent_id: NodeId) -> (r: Result<
    Vec<NodeId>,
    StoreError,
>)
    ensures
        instantiate_post(kind, old(store)@, final(store)@, parent_id, ids_of(r)),
        keeps_tree(old(store).wf(), final(store).wf(), old(store)@, ids_of(r)),
{
    let ids = draw_ids(kind.size());
    match stamp(kind, store, parent_id, &ids) {
        Ok(()) => Ok(ids),
        Err(e) => Err(e),
    }
}

/// Stamps a statistics card: a frame with a label, a value and a change indicator.
pub fn instantiate_stat_card(store: &mut NodeStore, parent_id: NodeId) -> (r: Result<
    Vec<NodeId>,
    StoreError,
>)
    ensures
        instantiate_post(ComponentKind::StatCard, old(store)@, final(store)@, parent_id, ids_of(r)),
        keeps_tree(old(store).wf(), final(store).wf(), old(store)@, ids_of(r)),
{
    instantiate_kind(ComponentKind::StatCard, store, parent_id)
}

/// Stamps a navigation item: a frame with an icon placeholder and a label.
pub fn instantiate_nav_item(store: &mut NodeStore, parent_id: NodeId) -> (r: Result<
    Vec<NodeId>,
    StoreError,
>)
    ensures
        instantiate_post(ComponentKind::NavItem, old(store)@, final(store)@, parent_id, ids_of(r)),
        keeps_tree(old(store).wf(), final(store).wf(), old(store)@, ids_of(r)),
{
    instantiate_kind(ComponentKind::NavItem, store, parent_id)
}

/// Stamps a rounded button with a label.
pub fn instantiate_button(store: &mut NodeStore, parent_id: NodeId) -> (r: Result<
    Vec<NodeId>,
    StoreError,
>)
    ensures
        instantiate_post(ComponentKind::Button, old(store)@, final(store)@, parent_id, ids_of(r)),
        keeps_tree(old(store).wf(), final(store).wf(), old(store)@, ids_of(r)),
{
    instantiate_kind(ComponentKind::Button, store, parent_id)
}

/// Stamps a single bar chart element: a group with a bar and a label.
pub fn instantiate_chart_bar(store: &mut NodeStore, parent_id: NodeId) -> (r: Result<
    Vec<NodeId>,
    StoreError,
>)
    ensures
        instantiate_post(ComponentKind::ChartBar, old(store)@, final(store)@, parent_id, ids_of(r)),
        keeps_tree(old(store).wf(), final(store).wf(), old(store)@, ids_of(r)),
{
    instantiate_kind(ComponentKind::ChartBar, store, parent_id)
}

/// The name and description of each built-in template, in library order.
pub open spec fn library_entries() -> Seq<(Seq<char>, Seq<char>, ComponentKind)> {
    seq![
        ("stat-card"@, "Statistics card with label, value, and change indicator"@, ComponentKind::StatCard),
        ("nav-item"@, "Navigation menu item with icon placeholder and label"@, ComponentKind::NavItem),
        ("button"@, "Rounded button with label text"@, ComponentKind::Button),
        ("chart-bar"@, "Single bar chart element with label"@, ComponentKind::ChartBar),
    ]
}

/// A template holds the entry `e`.
pub open spec fn template_is(t: ComponentTemplate, e: (Seq<char>, Seq<char>, ComponentKind)) -> bool {
    t.name@ == e.0 && t.description@ == e.1 && t.kind == e.2
}

impl ComponentTemplate {
    fn make(name: &str, description: &str, kind: ComponentKind) -> (r: ComponentTemplate)
        ensures
            template_is(r, (name@, description@, kind)),
    {
        ComponentTemplate {
            name: String::from_str(name),
            description: String::from_str(description),
            kind,
        }
    }

    /// Instantiates this template under the given parent. Returns the IDs of all
    /// created nodes (root first).
    pub fn instantiate(&self, store: &mut NodeStore, parent_id: NodeId) -> (r: Result<
        Vec<NodeId>,
        StoreError,
    >)
        ensures
            instantiate_post(self.kind, old(store)@, final(store)@, parent_id, ids_of(r)),
            keeps_tree(old(store).wf(), final(store).wf(), old(store)@, ids_of(r)),
    {
        match self.kind {
            ComponentKind::StatCard => instantiate_stat_card(store, parent_id),
            ComponentKind::NavItem => instantiate_nav_item(store, parent_id),
            ComponentKind::Button => instantiate_button(store, parent_id),
            ComponentKind::ChartBar => instantiate_chart_bar(store, parent_id),
        }
    }
}

impl View for ComponentLibrary {
    type V = Seq<(Seq<char>, Seq<char>, ComponentKind)>;

    /// The name, description and kind of each template, in order.
    closed spec fn view(&self) -> Seq<(Seq<char>, Seq<char>, ComponentKind)> {
        self.templates@.map_values(|t: ComponentTemplate| (t.name@, t.description@, t.kind))
    }
}

impl ComponentLibrary {
    /// The library holds the built-in templates, in order.
    pub open spec fn wf(&self) -> bool {
        self@ == library_entries()
    }

    /// Each template of a well-formed library holds its entry.
    proof fn lemma_templates(&self)
        requires
            self.wf(),
        ensures
            self.templates.len() == library_entries().len(),
            forall|i: int|
                0 <= i < self.templates.len() ==> #[trigger] template_is(
                    self.templates[i],
                    library_entries()[i],
                ),
    {
        assert forall|i: int| 0 <= i < self.templates.len() implies #[trigger] template_is(
            self.templates[i],
            library_entries()[i],
        ) by {
            assert(self@[i] == library_entries()[i]);
        }
    }

    /// The built-in templates: stat-card, nav-item, button, chart-bar.
    pub fn new() -> (r: Self)
        ensures
            r.wf(),
            r@ == library_entries(),
    {
        let mut templates: Vec<ComponentTemplate> = Vec::new();
        templates.push(
            ComponentTemplate::make(
                "stat-card",
                "Statistics card with label, value, and change indicator",
                ComponentKind::StatCard,
            ),
        );
        templates.push(
            ComponentTemplate::make(
                "nav-item",
                "Navigation menu item with icon placeholder and label",
                ComponentKind::NavItem,
            ),
        );
        templates.push(
            ComponentTemplate::make(
                "button",
                "Rounded button with label text",
                ComponentKind::Button,
            ),
        );
        templates.push(
            ComponentTemplate::make(
                "chart-bar",
                "Single bar chart element with label",
                ComponentKind::ChartBar,
            ),
        );
        let r = ComponentLibrary { templates };
        assert(r@ =~= library_entries());
        r
    }

    /// The templates, in library order.
    pub fn list(&self) -> (r: &[ComponentTemplate])
        requires
            self.wf(),
        ensures
            r@.len() == library_entries().len(),
            forall|i: int| 0 <= i < r@.len() ==> #[trigger] template_is(r@[i], library_entries()[i]),
    {
        proof {
            self.lemma_templates();
        }
        self.templates.as_slice()
    }

    /// The first template whose name is `name`.
    pub fn get(&self, name: &str) -> (r: Option<&ComponentTemplate>)
        requires
            self.wf(),
        ensures
            match r {
                Some(t) => exists|i: int|
                    0 <= i < library_entries().len() && library_entries()[i].0 == name@
                        && #[trigger] template_is(*t, library_entries()[i]),
                None => forall|i: int|
                    0 <= i < library_entries().len() ==> #[trigger] library_entries()[i].0 != name@,
            },
    {
        proof {
            self.lemma_templates();
        }
        let wanted = String::from_str(name);
        let n = self.templates.len();
        let mut i: usize = 0;
        while i < n
            invariant
                self.wf(),
                forall|j: int|
                    0 <= j < self.templates.len() ==> #[trigger] template_is(
                        self.templates[j],
                        library_entries()[j],
                    ),
                n == self.templates.len(),
                0 <= i <= n,
                wanted@ == name@,
                forall|j: int| 0 <= j < i ==> #[trigger] library_entries()[j].0 != name@,
            decreases n - i,
        {
            let t = &self.templates[i];
            assert(template_is(self.templates[i as int], library_entries()[i as int]));
            if t.name == wanted {
                return Some(t);
            }
            i = i + 1;
        }
        None
    }
}

impl Default for ComponentLibrary {
    fn default() -> (r: Self)
        ensures
            r.wf(),
            r@ == library_entries(),
    {
        Self::new()
    }
}

} // verus!
