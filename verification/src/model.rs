//! Node types and the property records that a node carries.
//!
//! Coordinates, sizes and other measures are IEEE-754 binary64 values; the
//! library holds each one as its 64-bit pattern (`f64::to_bits`), which it
//! copies and compares without rounding.
use vstd::prelude::*;
use vstd::string::*;

verus! {

/// Identifier of a node: the 128-bit value of a UUID (big-endian, as `Uuid::as_u128`).
pub type NodeId = u128;

/// Bit pattern of an IEEE-754 binary64 measure.
pub type Measure = u64;

/// The type of a node in the document tree.
#[derive(Debug, Clone, Copy, PartialEq, Eq, Structural)]
pub enum NodeType {
    Frame,
    Text,
    Rectangle,
    Ellipse,
    Group,
}

/// CSS-like layout properties (each a binary64 bit pattern).
#[derive(Debug, Clone, Copy, PartialEq, Eq, Structural)]
pub struct Layout {
    pub x: Measure,
    pub y: Measure,
    pub width: Measure,
    pub height: Measure,
}

/// Visual style properties.
#[derive(Debug, Clone)]
pub struct Style {
    /// Fill color as hex string, e.g. "#ff0000"
    pub fill: Option<String>,
    /// Stroke color as hex string
    pub stroke: Option<String>,
    /// Stroke width in pixels
    pub stroke_width: Option<Measure>,
    /// Corner radius in pixels
    pub corner_radius: Option<Measure>,
    /// Opacity from 0.0 to 1.0
    pub opacity: Option<Measure>,
    /// Stacking order (higher = on top)
    pub z_index: Option<i32>,
    /// Clip children that overflow bounds
    pub clip: Option<bool>,
}

/// Text-specific properties.
#[derive(Debug, Clone)]
pub struct Typography {
    pub content: Option<String>,
    pub font_family: Option<String>,
    pub font_size: Option<Measure>,
    pub font_weight: Option<u16>,
    pub line_height: Option<Measure>,
    /// When true, text wraps and height becomes auto
    pub text_auto_size: Option<bool>,
    /// Text color as hex string
    pub color: Option<String>,
    pub text_align: Option<TextAlign>,
}

/// Partial layout for edits: only the fields that are present are overwritten.
#[derive(Debug, Clone, Copy, PartialEq, Eq, Structural)]
pub struct PartialLayout {
    pub x: Option<Measure>,
    pub y: Option<Measure>,
    pub width: Option<Measure>,
    pub height: Option<Measure>,
}

/// Horizontal alignment of text.
#[derive(Debug, Clone, Copy, PartialEq, Eq, Structural)]
pub enum TextAlign {
    Left,
    Center,
    Right,
}

/// How a container places its children: at their own coordinates (`none` on the
/// wire), or as a flexbox.
#[derive(Debug, Clone, Copy, PartialEq, Eq, Structural)]
pub enum LayoutMode {
    Manual,
    Flex,
}

/// The main axis of a flexbox.
#[derive(Debug, Clone, Copy, PartialEq, Eq, Structural)]
pub enum FlexDirection {
    Row,
    Column,
}

/// Alignment of flexbox children.
#[derive(Debug, Clone, Copy, PartialEq, Eq, Structural)]
pub enum FlexAlign {
    Start,
    Center,
    End,
    Stretch,
    SpaceBetween,
}

/// Flexbox-like layout of a container node.
#[derive(Debug, Clone, Copy, PartialEq, Eq, Structural)]
pub struct AutoLayout {
    pub mode: LayoutMode,
    pub direction: FlexDirection,
    /// Cross-axis alignment.
    pub align_items: FlexAlign,
    /// Main-axis alignment.
    pub justify_content: Option<FlexAlign>,
    /// Gap between children in pixels.
    pub gap: Option<Measure>,
    /// Uniform padding.
    pub padding: Option<Measure>,
    /// Horizontal padding (overrides `padding`).
    pub padding_horizontal: Option<Measure>,
    /// Vertical padding (overrides `padding`).
    pub padding_vertical: Option<Measure>,
}

impl AutoLayout {
    /// No flexbox: mode none, direction column, items aligned at the start.
    pub open spec fn spec_default() -> AutoLayout {
        AutoLayout {
            mode: LayoutMode::Manual,
            direction: FlexDirection::Column,
            align_items: FlexAlign::Start,
            justify_content: None,
            gap: None,
            padding: None,
            padding_horizontal: None,
            padding_vertical: None,
        }
    }
}

impl Default for AutoLayout {
    fn default() -> (r: Self)
        ensures
            r == AutoLayout::spec_default(),
    {
        AutoLayout {
            mode: LayoutMode::Manual,
            direction: FlexDirection::Column,
            align_items: FlexAlign::Start,
            justify_content: None,
            gap: None,
            padding: None,
            padding_horizontal: None,
            padding_vertical: None,
        }
    }
}

/// `new` where it is present, `old` otherwise.
pub open spec fn overlay<T>(new: Option<T>, old: T) -> T {
    match new {
        Some(v) => v,
        None => old,
    }
}

/// `new` where it is present, `old` otherwise, for optional fields.
pub open spec fn overlay_opt<T>(new: Option<T>, old: Option<T>) -> Option<T> {
    if new is Some { new } else { old }
}

/// The text of an optional string field.
pub open spec fn opt_text(s: Option<String>) -> Option<Seq<char>> {
    match s {
        Some(t) => Some(t@),
        None => None,
    }
}

/// Clones an optional string, keeping its text.
pub fn clone_opt_string(s: &Option<String>) -> (r: Option<String>)
    ensures
        opt_text(r) == opt_text(*s),
{
    match s {
        Some(t) => Some(t.clone()),
        None => None,
    }
}

impl Layout {
    /// The all-zero layout.
    pub open spec fn spec_zero() -> Layout {
        Layout { x: 0, y: 0, width: 0, height: 0 }
    }

    /// The result of merging `partial` into `self`.
    pub open spec fn merged(self, partial: PartialLayout) -> Layout {
        Layout {
            x: overlay(partial.x, self.x),
            y: overlay(partial.y, self.y),
            width: overlay(partial.width, self.width),
            height: overlay(partial.height, self.height),
        }
    }

    /// Merge a partial layout into this layout, only overwriting present fields.
    pub fn merge(&mut self, partial: &PartialLayout)
        ensures
            *final(self) == old(self).merged(*partial),
    {
        if let Some(x) = partial.x {
            self.x = x;
        }
        if let Some(y) = partial.y {
            self.y = y;
        }
        if let Some(width) = partial.width {
            self.width = width;
        }
        if let Some(height) = partial.height {
            self.height = height;
        }
    }
}

impl Default for Layout {
    fn default() -> (r: Self)
        ensures
            r == Layout::spec_zero(),
    {
        Layout { x: 0, y: 0, width: 0, height: 0 }
    }
}

/// What a style holds, with strings taken by their text.
pub struct StyleView {
    pub fill: Option<Seq<char>>,
    pub stroke: Option<Seq<char>>,
    pub stroke_width: Option<Measure>,
    pub corner_radius: Option<Measure>,
    pub opacity: Option<Measure>,
    pub z_index: Option<i32>,
    pub clip: Option<bool>,
}

impl StyleView {
    /// The style with no field set.
    pub open spec fn empty() -> StyleView {
        StyleView {
            fill: None,
            stroke: None,
            stroke_width: None,
            corner_radius: None,
            opacity: None,
            z_index: None,
            clip: None,
        }
    }

    /// The result of merging `other` into `self`: fields present in `other` win.
    pub open spec fn merged(self, other: StyleView) -> StyleView {
        StyleView {
            fill: overlay_opt(other.fill, self.fill),
            stroke: overlay_opt(other.stroke, self.stroke),
            stroke_width: overlay_opt(other.stroke_width, self.stroke_width),
            corner_radius: overlay_opt(other.corner_radius, self.corner_radius),
            opacity: overlay_opt(other.opacity, self.opacity),
            z_index: overlay_opt(other.z_index, self.z_index),
            clip: overlay_opt(other.clip, self.clip),
        }
    }
}

impl View for Style {
    type V = StyleView;

    open spec fn view(&self) -> StyleView {
        StyleView {
            fill: opt_text(self.fill),
            stroke: opt_text(self.stroke),
            stroke_width: self.stroke_width,
            corner_radius: self.corner_radius,
            opacity: self.opacity,
            z_index: self.z_index,
            clip: self.clip,
        }
    }
}

impl Style {
    /// A field-by-field copy.
    pub fn duplicate(&self) -> (r: Style)
        ensures
            r@ == self@,
    {
        Style {
            fill: clone_opt_string(&self.fill),
            stroke: clone_opt_string(&self.stroke),
            stroke_width: self.stroke_width,
            corner_radius: self.corner_radius,
            opacity: self.opacity,
            z_index: self.z_index,
            clip: self.clip,
        }
    }

    /// Merge another style into this one, only overwriting present fields.
    pub fn merge(&mut self, other: &Style)
        ensures
            final(self)@ == old(self)@.merged(other@),
    {
        if other.fill.is_some() {
            self.fill = clone_opt_string(&other.fill);
        }
        if other.stroke.is_some() {
            self.stroke = clone_opt_string(&other.stroke);
        }
        if other.stroke_width.is_some() {
            self.stroke_width = other.stroke_width;
        }
        if other.corner_radius.is_some() {
            self.corner_radius = other.corner_radius;
        }
        if other.opacity.is_some() {
            self.opacity = other.opacity;
        }
        if other.z_index.is_some() {
            self.z_index = other.z_index;
        }
        if other.clip.is_some() {
            self.clip = other.clip;
        }
    }
}

impl Default for Style {
    fn default() -> (r: Self)
        ensures
            r@ == StyleView::empty(),
    {
        Style {
            fill: None,
            stroke: None,
            stroke_width: None,
            corner_radius: None,
            opacity: None,
            z_index: None,
            clip: None,
        }
    }
}

/// What a typography holds, with strings taken by their text.
pub struct TypographyView {
    pub content: Option<Seq<char>>,
    pub font_family: Option<Seq<char>>,
    pub font_size: Option<Measure>,
    pub font_weight: Option<u16>,
    pub line_height: Option<Measure>,
    pub text_auto_size: Option<bool>,
    pub color: Option<Seq<char>>,
    pub text_align: Option<TextAlign>,
}

impl TypographyView {
    /// The typography with no field set.
    pub open spec fn empty() -> TypographyView {
        TypographyView {
            content: None,
            font_family: None,
            font_size: None,
            font_weight: None,
            line_height: None,
            text_auto_size: None,
            color: None,
            text_align: None,
        }
    }

    /// The result of merging `other` into `self`: fields present in `other` win.
    pub open spec fn merged(self, other: TypographyView) -> TypographyView {
        TypographyView {
            content: overlay_opt(other.content, self.content),
            font_family: overlay_opt(other.font_family, self.font_family),
            font_size: overlay_opt(other.font_size, self.font_size),
            font_weight: overlay_opt(other.font_weight, self.font_weight),
            line_height: overlay_opt(other.line_height, self.line_height),
            text_auto_size: overlay_opt(other.text_auto_size, self.text_auto_size),
            color: overlay_opt(other.color, self.color),
            text_align: overlay_opt(other.text_align, self.text_align),
        }
    }
}

impl View for Typography {
    type V = TypographyView;

    open spec fn view(&self) -> TypographyView {
        TypographyView {
            content: opt_text(self.content),
            font_family: opt_text(self.font_family),
            font_size: self.font_size,
            font_weight: self.font_weight,
            line_height: self.line_height,
            text_auto_size: self.text_auto_size,
            color: opt_text(self.color),
            text_align: self.text_align,
        }
    }
}

impl Typography {
    /// A field-by-field copy.
    pub fn duplicate(&self) -> (r: Typography)
        ensures
            r@ == self@,
    {
        Typography {
            content: clone_opt_string(&self.content),
            font_family: clone_opt_string(&self.font_family),
            font_size: self.font_size,
            font_weight: self.font_weight,
            line_height: self.line_height,
            text_auto_size: self.text_auto_size,
            color: clone_opt_string(&self.color),
            text_align: self.text_align,
        }
    }

    /// Merge another typography into this one, only overwriting present fields.
    pub fn merge(&mut self, other: &Typography)
        ensures
            final(self)@ == old(self)@.merged(other@),
    {
        if other.content.is_some() {
            self.content = clone_opt_string(&other.content);
        }
        if other.font_family.is_some() {
            self.font_family = clone_opt_string(&other.font_family);
        }
        if other.font_size.is_some() {
            self.font_size = other.font_size;
        }
        if other.font_weight.is_some() {
            self.font_weight = other.font_weight;
        }
        if other.line_height.is_some() {
            self.line_height = other.line_height;
        }
        if other.text_auto_size.is_some() {
            self.text_auto_size = other.text_auto_size;
        }
        if other.color.is_some() {
            self.color = clone_opt_string(&other.color);
        }
        if other.text_align.is_some() {
            self.text_align = other.text_align;
        }
    }
}

impl Default for Typography {
    fn default() -> (r: Self)
        ensures
            r@ == TypographyView::empty(),
    {
        Typography {
            content: None,
            font_family: None,
            font_size: None,
            font_weight: None,
            line_height: None,
            text_auto_size: None,
            color: None,
            text_align: None,
        }
    }
}

/// `r` has the layout of a version-4 UUID from `uuid::Uuid::new_v4`: version
/// nibble 4 and RFC 4122 variant bits `10`.
pub open spec fn is_random_uuid(r: NodeId) -> bool {
    &&& (r >> 76u128) & 0xfu128 == 4u128
    &&& (r >> 62u128) & 0x3u128 == 2u128
}

/// Calls `uuid::Uuid::new_v4` and returns the UUID's 128-bit value.
/// Claimed, as the crate's source shows (`rng::u128() & mask | 0x4000_8000_0000_0000_0000`):
/// the version nibble is 4 and the variant bits are `10`. The remaining bits are random.
#[verifier::external_body]
pub(crate) fn new_random_id() -> (r: NodeId)
    ensures
        is_random_uuid(r),
{
    uuid::Uuid::new_v4().as_u128()
}

/// What a node holds, with strings and lists taken by their views.
pub struct NodeView {
    pub id: NodeId,
    pub name: Seq<char>,
    pub node_type: NodeType,
    pub parent_id: Option<NodeId>,
    pub children: Seq<NodeId>,
    pub layout: Layout,
    pub style: StyleView,
    pub typography: TypographyView,
    pub auto_layout: AutoLayout,
}

impl NodeView {
    /// A fresh node without parent, children or properties.
    pub open spec fn fresh(id: NodeId, name: Seq<char>, node_type: NodeType) -> NodeView {
        NodeView {
            id,
            name,
            node_type,
            parent_id: None,
            children: Seq::empty(),
            layout: Layout::spec_zero(),
            style: StyleView::empty(),
            typography: TypographyView::empty(),
            auto_layout: AutoLayout::spec_default(),
        }
    }
}

/// A node in the document tree.
#[derive(Debug, Clone)]
pub struct Node {
    pub id: NodeId,
    pub name: String,
    pub node_type: NodeType,
    pub parent_id: Option<NodeId>,
    pub children: Vec<NodeId>,
    pub layout: Layout,
    pub style: Style,
    pub typography: Typography,
    /// Flexbox layout properties (default: mode none).
    pub auto_layout: AutoLayout,
}

impl View for Node {
    type V = NodeView;

    open spec fn view(&self) -> NodeView {
        NodeView {
            id: self.id,
            name: self.name@,
            node_type: self.node_type,
            parent_id: self.parent_id,
            children: self.children@,
            layout: self.layout,
            style: self.style@,
            typography: self.typography@,
            auto_layout: self.auto_layout,
        }
    }
}

impl Node {
    /// A node with a fresh random id.
    pub fn new(name: &str, node_type: NodeType) -> (r: Node)
        ensures
            is_random_uuid(r.id),
            r@ == NodeView::fresh(r.id, name@, node_type),
    {
        let id = new_random_id();
        Node::with_id(id, name, node_type)
    }

    /// Create a node with a specific ID (useful for tests and deserialization).
    pub fn with_id(id: NodeId, name: &str, node_type: NodeType) -> (r: Node)
        ensures
            r@ == NodeView::fresh(id, name@, node_type),
    {
        Node {
            id,
            name: String::from_str(name),
            node_type,
            parent_id: None,
            children: Vec::new(),
            layout: Layout::default(),
            style: Style::default(),
            typography: Typography::default(),
            auto_layout: AutoLayout::default(),
        }
    }

    /// A field-by-field copy.
    pub fn duplicate(&self) -> (r: Node)
        ensures
            r@ == self@,
    {
        Node {
            id: self.id,
            name: self.name.clone(),
            node_type: self.node_type,
            parent_id: self.parent_id,
            children: self.children.clone(),
            layout: self.layout,
            style: self.style.duplicate(),
            typography: self.typography.duplicate(),
            auto_layout: self.auto_layout,
        }
    }
}

/// Merging a partial layout sets exactly the coordinates and sizes it gives: a given
/// value replaces the old one, a missing one leaves it as it was.
pub proof fn law_layout_merge_overwrites_given(old: Layout, p: PartialLayout)
    ensures
        p.x matches Some(x) ==> old.merged(p).x == x,
        p.x is None ==> old.merged(p).x == old.x,
        p.y matches Some(y) ==> old.merged(p).y == y,
        p.y is None ==> old.merged(p).y == old.y,
        p.width matches Some(w) ==> old.merged(p).width == w,
        p.width is None ==> old.merged(p).width == old.width,
        p.height matches Some(h) ==> old.merged(p).height == h,
        p.height is None ==> old.merged(p).height == old.height,
{
}

/// Merging a style overwrites each field that the other style holds, and keeps each
/// field that it leaves out.
pub proof fn law_style_merge_overwrites_given(old: StyleView, other: StyleView)
    ensures
        other.fill is Some ==> old.merged(other).fill == other.fill,
        other.fill is None ==> old.merged(other).fill == old.fill,
        other.stroke is Some ==> old.merged(other).stroke == other.stroke,
        other.stroke is None ==> old.merged(other).stroke == old.stroke,
        other.stroke_width is Some ==> old.merged(other).stroke_width == other.stroke_width,
        other.stroke_width is None ==> old.merged(other).stroke_width == old.stroke_width,
        other.corner_radius is Some ==> old.merged(other).corner_radius == other.corner_radius,
        other.corner_radius is None ==> old.merged(other).corner_radius == old.corner_radius,
        other.opacity is Some ==> old.merged(other).opacity == other.opacity,
        other.opacity is None ==> old.merged(other).opacity == old.opacity,
        other.z_index is Some ==> old.merged(other).z_index == other.z_index,
        other.z_index is None ==> old.merged(other).z_index == old.z_index,
        other.clip is Some ==> old.merged(other).clip == other.clip,
        other.clip is None ==> old.merged(other).clip == old.clip,
{
}

/// Merging a typography overwrites each field that the other typography holds (the
/// text content among them), and keeps each field that it leaves out.
pub proof fn law_typography_merge_overwrites_given(old: TypographyView, other: TypographyView)
    ensures
        other.content is Some ==> old.merged(other).content == other.content,
        other.content is None ==> old.merged(other).content == old.content,
        other.font_family is Some ==> old.merged(other).font_family == other.font_family,
        other.font_family is None ==> old.merged(other).font_family == old.font_family,
        other.font_size is Some ==> old.merged(other).font_size == other.font_size,
        other.font_size is None ==> old.merged(other).font_size == old.font_size,
        other.font_weight is Some ==> old.merged(other).font_weight == other.font_weight,
        other.font_weight is None ==> old.merged(other).font_weight == old.font_weight,
        other.line_height is Some ==> old.merged(other).line_height == other.line_height,
        other.line_height is None ==> old.merged(other).line_height == old.line_height,
        other.text_auto_size is Some ==> old.merged(other).text_auto_size == other.text_auto_size,
        other.text_auto_size is None ==> old.merged(other).text_auto_size == old.text_auto_size,
        other.color is Some ==> old.merged(other).color == other.color,
        other.color is None ==> old.merged(other).color == old.color,
        other.text_align is Some ==> old.merged(other).text_align == other.text_align,
        other.text_align is None ==> old.merged(other).text_align == old.text_align,
{
}

} // verus!
