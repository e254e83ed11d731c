//! The command-line client's logic: splitting a session line into arguments,
//! turning a command into a JSON-RPC request, and the text it prints.
use vstd::prelude::*;
use vstd::string::*;
use crate::model::Measure;
use crate::text::push_char;

verus! {

/// The state of the argument splitter: finished arguments, the argument being read,
/// and whether a double quote is open.
pub type SplitState = (Seq<Seq<char>>, Seq<char>, bool);

/// One character's effect: a double quote opens or closes quoting; outside quotes a
/// space or tab ends the current argument (if any); anything else joins it.
pub open spec fn split_step(st: SplitState, c: char) -> SplitState {
    let (args, cur, quoted) = st;
    if c == '"' {
        (args, cur, !quoted)
    } else if (c == ' ' || c == '\t') && !quoted {
        if cur.len() > 0 {
            (args.push(cur), Seq::empty(), quoted)
        } else {
            st
        }
    } else {
        (args, cur.push(c), quoted)
    }
}

/// The splitter's state after reading `s`.
pub open spec fn split_state(s: Seq<char>) -> SplitState
    decreases s.len(),
{
    if s.len() == 0 {
        (Seq::empty(), Seq::empty(), false)
    } else {
        split_step(split_state(s.drop_last()), s.last())
    }
}

/// The arguments of `s`: double quotes group, spaces and tabs separate.
pub open spec fn shell_words(s: Seq<char>) -> Seq<Seq<char>> {
    let (args, cur, _) = split_state(s);
    if cur.len() > 0 {
        args.push(cur)
    } else {
        args
    }
}

/// The texts of a list of strings.
pub open spec fn texts(v: Seq<String>) -> Seq<Seq<char>> {
    v.map_values(|s: String| s@)
}

/// Basic shell-like argument splitting that respects double quotes.
pub fn shell_split(s: &str) -> (r: Vec<String>)
    ensures
        texts(r@) == shell_words(s@),
{
    let mut args: Vec<String> = Vec::new();
    let mut current = String::new();
    let mut in_quotes = false;
    for c in it: s.chars()
        invariant
            it.seq() == s@,
            (texts(args@), current@, in_quotes) == split_state(s@.take(it.index() as int)),
    {
        let ghost before = s@.take(it.index() as int);
        proof {
            assert(s@.take(it.index() + 1).drop_last() =~= before);
        }
        if c == '"' {
            in_quotes = !in_quotes;
        } else if (c == ' ' || c == '\t') && !in_quotes {
            if !current.as_str().is_empty() {
                let ghost old_args = args@;
                let ghost cur = current@;
                args.push(current.clone());
                current = String::new();
                assert(texts(args@) =~= texts(old_args).push(cur));
            }
        } else {
            push_char(&mut current, c);
        }
    }
    assert(s@.take(s@.len() as int) =~= s@);
    if !current.as_str().is_empty() {
        let ghost old_args = args@;
        let ghost cur = current@;
        args.push(current);
        assert(texts(args@) =~= texts(old_args).push(cur));
    }
    args
}

/// A JSON scalar as the client sends it.
#[derive(Debug, Clone)]
pub enum Field {
    Str(String),
    /// A binary64 number, by its bit pattern.
    Num(Measure),
    Int(i64),
    Bool(bool),
}

/// What a scalar holds, with strings taken by their text.
pub enum FieldView {
    Str(Seq<char>),
    Num(Measure),
    Int(int),
    Bool(bool),
}

impl View for Field {
    type V = FieldView;

    open spec fn view(&self) -> FieldView {
        match self {
            Field::Str(s) => FieldView::Str(s@),
            Field::Num(b) => FieldView::Num(*b),
            Field::Int(i) => FieldView::Int(*i as int),
            Field::Bool(b) => FieldView::Bool(*b),
        }
    }
}

/// Named scalars, in the order they were added.
pub type Entries = Vec<(String, Field)>;

/// What a list of named scalars holds.
pub open spec fn entries_view(v: Seq<(String, Field)>) -> Seq<(Seq<char>, FieldView)> {
    v.map_values(|e: (String, Field)| (e.0@, e.1@))
}

/// Request parameters: a JSON object of named scalars and of named flat objects.
#[derive(Debug, Clone)]
pub struct Params {
    pub fields: Entries,
    pub groups: Vec<(String, Entries)>,
}

/// What request parameters hold.
#[verifier::ext_equal]
pub struct ParamsView {
    pub fields: Seq<(Seq<char>, FieldView)>,
    pub groups: Seq<(Seq<char>, Seq<(Seq<char>, FieldView)>)>,
}

impl View for Params {
    type V = ParamsView;

    open spec fn view(&self) -> ParamsView {
        ParamsView {
            fields: entries_view(self.fields@),
            groups: self.groups@.map_values(|g: (String, Entries)| (g.0@, entries_view(g.1@))),
        }
    }
}

/// A JSON-RPC request that the client sends: method and parameters.
#[derive(Debug, Clone)]
pub struct Request {
    pub method: String,
    pub params: Params,
}

/// The options shared by `node add` and `node edit`.
#[derive(Debug, Clone)]
pub struct NodeFields {
    pub x: Option<Measure>,
    pub y: Option<Measure>,
    pub width: Option<Measure>,
    pub height: Option<Measure>,
    pub fill: Option<String>,
    pub stroke: Option<String>,
    pub stroke_width: Option<Measure>,
    pub text: Option<String>,
    pub font_size: Option<Measure>,
    pub font_family: Option<String>,
    pub font_weight: Option<u16>,
    pub color: Option<String>,
    pub text_align: Option<String>,
    pub radius: Option<Measure>,
    pub opacity: Option<Measure>,
    pub z_index: Option<i32>,
    pub clip: bool,
    pub text_wrap: bool,
    pub layout_mode: Option<String>,
    pub direction: Option<String>,
    pub align: Option<String>,
    pub justify: Option<String>,
    pub gap: Option<Measure>,
    pub padding: Option<Measure>,
}

/// `node` subcommands.
#[derive(Debug, Clone)]
pub enum NodeAction {
    Add { name: String, node_type: String, parent: Option<String>, fields: NodeFields },
    Edit { id: String, name: Option<String>, fields: NodeFields },
    Delete { id: String },
    Show { id: String },
}

/// `components` subcommands.
#[derive(Debug, Clone)]
pub enum ComponentAction {
    List,
    Use {
        name: String,
        parent: Option<String>,
        x: Option<Measure>,
        y: Option<Measure>,
        label: Option<String>,
        value: Option<String>,
    },
}

/// A client command. The paths of `save` and `load` are those the caller resolved.
#[derive(Debug, Clone)]
pub enum Command {
    Node(NodeAction),
    Tree,
    Save { path: String },
    Load { path: String },
    Components(ComponentAction),
    Undo,
    Redo,
    Watch,
    Session,
    Screenshot { out: String },
}

/// The text of the nil UUID, which the server reads as "the root".
pub open spec fn nil_text() -> Seq<char> {
    "00000000-0000-0000-0000-000000000000"@
}

/// One entry when the value is present, none otherwise.
pub open spec fn opt_entry(key: Seq<char>, v: Option<FieldView>) -> Seq<(Seq<char>, FieldView)> {
    match v {
        Some(f) => seq![(key, f)],
        None => Seq::empty(),
    }
}

/// A present text, as a scalar.
pub open spec fn str_field(s: Option<String>) -> Option<FieldView> {
    match s {
        Some(t) => Some(FieldView::Str(t@)),
        None => None,
    }
}

/// A present number, as a scalar.
pub open spec fn num_field(b: Option<Measure>) -> Option<FieldView> {
    match b {
        Some(n) => Some(FieldView::Num(n)),
        None => None,
    }
}

/// A present integer, as a scalar.
pub open spec fn int_field(i: Option<int>) -> Option<FieldView> {
    match i {
        Some(n) => Some(FieldView::Int(n)),
        None => None,
    }
}

/// `true` when the flag is set.
pub open spec fn flag_entry(key: Seq<char>, flag: bool) -> Seq<(Seq<char>, FieldView)> {
    if flag {
        seq![(key, FieldView::Bool(true))]
    } else {
        Seq::empty()
    }
}

/// The style options that are given.
pub open spec fn style_entries(f: NodeFields) -> Seq<(Seq<char>, FieldView)> {
    opt_entry("fill"@, str_field(f.fill)) + opt_entry("stroke"@, str_field(f.stroke)) + opt_entry(
        "stroke_width"@,
        num_field(f.stroke_width),
    ) + opt_entry("corner_radius"@, num_field(f.radius)) + opt_entry("opacity"@, num_field(f.opacity))
        + opt_entry("z_index"@, int_field(match f.z_index { Some(z) => Some(z as int), None => None }))
        + flag_entry("clip"@, f.clip)
}

/// The typography options that are given.
pub open spec fn typography_entries(f: NodeFields) -> Seq<(Seq<char>, FieldView)> {
    opt_entry("content"@, str_field(f.text)) + opt_entry("font_size"@, num_field(f.font_size))
        + opt_entry("font_family"@, str_field(f.font_family)) + opt_entry(
        "font_weight"@,
        int_field(match f.font_weight { Some(w) => Some(w as int), None => None }),
    ) + opt_entry("color"@, str_field(f.color)) + opt_entry("text_align"@, str_field(f.text_align))
        + flag_entry("text_auto_size"@, f.text_wrap)
}

/// The auto-layout options that are given.
pub open spec fn auto_layout_entries(f: NodeFields) -> Seq<(Seq<char>, FieldView)> {
    opt_entry("mode"@, str_field(f.layout_mode)) + opt_entry("direction"@, str_field(f.direction))
        + opt_entry("align_items"@, str_field(f.align)) + opt_entry(
        "justify_content"@,
        str_field(f.justify),
    ) + opt_entry("gap"@, num_field(f.gap)) + opt_entry("padding"@, num_field(f.padding))
}

/// The layout options that are given (for an edit: only those).
pub open spec fn partial_layout_entries(f: NodeFields) -> Seq<(Seq<char>, FieldView)> {
    opt_entry("x"@, num_field(f.x)) + opt_entry("y"@, num_field(f.y)) + opt_entry(
        "width"@,
        num_field(f.width),
    ) + opt_entry("height"@, num_field(f.height))
}

/// The full layout of a new node: each of x, y, width, height, zero when not given.
pub open spec fn full_layout_entries(f: NodeFields) -> Seq<(Seq<char>, FieldView)> {
    seq![
        ("x"@, FieldView::Num(crate::model::overlay(f.x, 0))),
        ("y"@, FieldView::Num(crate::model::overlay(f.y, 0))),
        ("width"@, FieldView::Num(crate::model::overlay(f.width, 0))),
        ("height"@, FieldView::Num(crate::model::overlay(f.height, 0))),
    ]
}

/// A named object, present only when it has entries.
pub open spec fn opt_group(
    key: Seq<char>,
    entries: Seq<(Seq<char>, FieldView)>,
) -> Seq<(Seq<char>, Seq<(Seq<char>, FieldView)>)> {
    if entries.len() > 0 {
        seq![(key, entries)]
    } else {
        Seq::empty()
    }
}

/// The objects of a node request after its layout: style, typography, auto layout.
pub open spec fn property_groups(f: NodeFields) -> Seq<(Seq<char>, Seq<(Seq<char>, FieldView)>)> {
    opt_group("style"@, style_entries(f)) + opt_group("typography"@, typography_entries(f))
        + opt_group("auto_layout"@, auto_layout_entries(f))
}

/// The method and parameters that a command sends, or the error it gives.
pub open spec fn request_for(c: Command) -> Result<(Seq<char>, ParamsView), Seq<char>> {
    let none = ParamsView { fields: Seq::empty(), groups: Seq::empty() };
    match c {
        Command::Tree => Ok(("tree.get"@, none)),
        Command::Save { path } => Ok(("doc.save"@, ParamsView { fields: seq![("path"@, FieldView::Str(path@))], groups: Seq::empty() })),
        Command::Load { path } => Ok(("doc.load"@, ParamsView { fields: seq![("path"@, FieldView::Str(path@))], groups: Seq::empty() })),
        Command::Components(ComponentAction::List) => Ok(("component.list"@, none)),
        Command::Components(ComponentAction::Use { name, parent, x, y, label, value }) => Ok((
            "component.use"@,
            ParamsView {
                fields: seq![
                    ("name"@, FieldView::Str(name@)),
                    ("parent_id"@, FieldView::Str(match parent { Some(p) => p@, None => nil_text() })),
                ] + opt_entry("x"@, num_field(x)) + opt_entry("y"@, num_field(y)) + opt_entry(
                    "label"@,
                    str_field(label),
                ) + opt_entry("value"@, str_field(value)),
                groups: Seq::empty(),
            },
        )),
        Command::Undo => Ok(("doc.undo"@, none)),
        Command::Redo => Ok(("doc.redo"@, none)),
        Command::Watch => Err("watch/session are handled separately"@),
        Command::Session => Err("watch/session are handled separately"@),
        Command::Screenshot { .. } => Ok(("doc.screenshot"@, none)),
        Command::Node(NodeAction::Add { name, node_type, parent, fields }) => Ok((
            "node.create"@,
            ParamsView {
                fields: seq![
                    ("name"@, FieldView::Str(name@)),
                    ("node_type"@, FieldView::Str(node_type@)),
                    ("parent_id"@, FieldView::Str(match parent { Some(p) => p@, None => nil_text() })),
                ],
                groups: (if partial_layout_entries(fields).len() > 0 {
                    seq![("layout"@, full_layout_entries(fields))]
                } else {
                    Seq::empty()
                }) + property_groups(fields),
            },
        )),
        Command::Node(NodeAction::Edit { id, name, fields }) => Ok((
            "node.edit"@,
            ParamsView {
                fields: seq![("id"@, FieldView::Str(id@))] + opt_entry("name"@, str_field(name)),
                groups: opt_group("layout"@, partial_layout_entries(fields)) + property_groups(fields),
            },
        )),
        Command::Node(NodeAction::Delete { id }) => Ok(("node.delete"@, ParamsView { fields: seq![("id"@, FieldView::Str(id@))], groups: Seq::empty() })),
        Command::Node(NodeAction::Show { id }) => Ok(("node.show"@, ParamsView { fields: seq![("id"@, FieldView::Str(id@))], groups: Seq::empty() })),
    }
}

/// Appends a named text, when present.
fn push_str_entry(v: &mut Entries, key: &str, s: &Option<String>)
    ensures
        entries_view(final(v)@) == entries_view(old(v)@) + opt_entry(key@, str_field(*s)),
{
    let ghost old_v = v@;
    if let Some(t) = s {
        v.push((String::from_str(key), Field::Str(t.clone())));
        assert(entries_view(v@) =~= entries_view(old_v) + opt_entry(key@, str_field(*s)));
    } else {
        assert(entries_view(v@) =~= entries_view(old_v) + opt_entry(key@, str_field(*s)));
    }
}

/// Appends a named number, when present.
fn push_num_entry(v: &mut Entries, key: &str, b: Option<Measure>)
    ensures
        entries_view(final(v)@) == entries_view(old(v)@) + opt_entry(key@, num_field(b)),
{
    let ghost old_v = v@;
    if let Some(n) = b {
        v.push((String::from_str(key), Field::Num(n)));
    }
    assert(entries_view(v@) =~= entries_view(old_v) + opt_entry(key@, num_field(b)));
}

/// Appends a named integer, when present.
fn push_int_entry(v: &mut Entries, key: &str, i: Option<i64>)
    ensures
        entries_view(final(v)@) == entries_view(old(v)@) + opt_entry(
            key@,
            int_field(match i { Some(n) => Some(n as int), None => None }),
        ),
{
    let ghost old_v = v@;
    if let Some(n) = i {
        v.push((String::from_str(key), Field::Int(n)));
    }
    assert(entries_view(v@) =~= entries_view(old_v) + opt_entry(
        key@,
        int_field(match i { Some(n) => Some(n as int), None => None }),
    ));
}

/// Appends `true` under `key` when the flag is set.
fn push_flag_entry(v: &mut Entries, key: &str, flag: bool)
    ensures
        entries_view(final(v)@) == entries_view(old(v)@) + flag_entry(key@, flag),
{
    let ghost old_v = v@;
    if flag {
        v.push((String::from_str(key), Field::Bool(true)));
    }
    assert(entries_view(v@) =~= entries_view(old_v) + flag_entry(key@, flag));
}

/// Appends a named object, when it has entries.
fn push_group(groups: &mut Vec<(String, Entries)>, key: &str, entries: Entries)
    ensures
        final(groups)@.map_values(|g: (String, Entries)| (g.0@, entries_view(g.1@)))
            == old(groups)@.map_values(|g: (String, Entries)| (g.0@, entries_view(g.1@)))
            + opt_group(key@, entries_view(entries@)),
{
    let ghost old_g = groups@;
    let ghost ev = entries_view(entries@);
    if entries.len() > 0 {
        groups.push((String::from_str(key), entries));
    }
    assert(groups@.map_values(|g: (String, Entries)| (g.0@, entries_view(g.1@))) =~= old_g.map_values(
        |g: (String, Entries)| (g.0@, entries_view(g.1@)),
    ) + opt_group(key@, ev));
}

fn style_fields(f: &NodeFields) -> (r: Entries)
    ensures
        entries_view(r@) == style_entries(*f),
{
    let mut v: Entries = Vec::new();
    assert(entries_view(v@) =~= Seq::empty());
    push_str_entry(&mut v, "fill", &f.fill);
    push_str_entry(&mut v, "stroke", &f.stroke);
    push_num_entry(&mut v, "stroke_width", f.stroke_width);
    push_num_entry(&mut v, "corner_radius", f.radius);
    push_num_entry(&mut v, "opacity", f.opacity);
    let z: Option<i64> = match f.z_index {
        Some(z) => Some(z as i64),
        None => None,
    };
    push_int_entry(&mut v, "z_index", z);
    push_flag_entry(&mut v, "clip", f.clip);
    assert(entries_view(v@) =~= style_entries(*f));
    v
}

fn typography_fields(f: &NodeFields) -> (r: Entries)
    ensures
        entries_view(r@) == typography_entries(*f),
{
    let mut v: Entries = Vec::new();
    assert(entries_view(v@) =~= Seq::empty());
    push_str_entry(&mut v, "content", &f.text);
    push_num_entry(&mut v, "font_size", f.font_size);
    push_str_entry(&mut v, "font_family", &f.font_family);
    let w: Option<i64> = match f.font_weight {
        Some(w) => Some(w as i64),
        None => None,
    };
    push_int_entry(&mut v, "font_weight", w);
    push_str_entry(&mut v, "color", &f.color);
    push_str_entry(&mut v, "text_align", &f.text_align);
    push_flag_entry(&mut v, "text_auto_size", f.text_wrap);
    assert(entries_view(v@) =~= typography_entries(*f));
    v
}

fn auto_layout_fields(f: &NodeFields) -> (r: Entries)
    ensures
        entries_view(r@) == auto_layout_entries(*f),
{
    let mut v: Entries = Vec::new();
    assert(entries_view(v@) =~= Seq::empty());
    push_str_entry(&mut v, "mode", &f.layout_mode);
    push_str_entry(&mut v, "direction", &f.direction);
    push_str_entry(&mut v, "align_items", &f.align);
    push_str_entry(&mut v, "justify_content", &f.justify);
    push_num_entry(&mut v, "gap", f.gap);
    push_num_entry(&mut v, "padding", f.padding);
    assert(entries_view(v@) =~= auto_layout_entries(*f));
    v
}

fn partial_layout_fields(f: &NodeFields) -> (r: Entries)
    ensures
        entries_view(r@) == partial_layout_entries(*f),
{
    let mut v: Entries = Vec::new();
    assert(entries_view(v@) =~= Seq::empty());
    push_num_entry(&mut v, "x", f.x);
    push_num_entry(&mut v, "y", f.y);
    push_num_entry(&mut v, "width", f.width);
    push_num_entry(&mut v, "height", f.height);
    assert(entries_view(v@) =~= partial_layout_entries(*f));
    v
}

/// What a built request holds, or the error text.
pub open spec fn request_view(r: Result<Request, String>) -> Result<(Seq<char>, ParamsView), Seq<char>> {
    match r {
        Ok(q) => Ok((q.method@, q.params@)),
        Err(e) => Err(e@),
    }
}

/// Parameters with no entries.
fn no_params() -> (r: Params)
    ensures
        r@ == (ParamsView { fields: Seq::empty(), groups: Seq::empty() }),
{
    let r = Params { fields: Vec::new(), groups: Vec::new() };
    assert(r@ =~= (ParamsView { fields: Seq::empty(), groups: Seq::empty() }));
    r
}

/// Parameters holding one named text.
fn one_text(key: &str, s: &String) -> (r: Params)
    ensures
        r@ == (ParamsView { fields: seq![(key@, FieldView::Str(s@))], groups: Seq::empty() }),
{
    let mut fields: Entries = Vec::new();
    fields.push((String::from_str(key), Field::Str(s.clone())));
    let r = Params { fields, groups: Vec::new() };
    assert(r@ =~= (ParamsView { fields: seq![(key@, FieldView::Str(s@))], groups: Seq::empty() }));
    r
}

/// The parent a request names: the given one, or the nil UUID for the root.
fn parent_text(parent: &Option<String>) -> (r: String)
    ensures
        r@ == (match *parent {
            Some(p) => p@,
            None => nil_text(),
        }),
{
    match parent {
        Some(p) => p.clone(),
        None => String::from_str("00000000-0000-0000-0000-000000000000"),
    }
}

/// A request with the given method and parameters.
fn request(method: &str, params: Params) -> (r: Result<Request, String>)
    ensures
        request_view(r) == Ok::<(Seq<char>, ParamsView), Seq<char>>((method@, params@)),
{
    Ok(Request { method: String::from_str(method), params })
}

fn component_use_request(
    name: &String,
    parent: &Option<String>,
    x: Option<Measure>,
    y: Option<Measure>,
    label: &Option<String>,
    value: &Option<String>,
) -> (r: Result<Request, String>)
    ensures
        request_view(r) == request_for(
            Command::Components(
                ComponentAction::Use {
                    name: *name,
                    parent: *parent,
                    x,
                    y,
                    label: *label,
                    value: *value,
                },
            ),
        ),
{
    let mut fields: Entries = Vec::new();
    fields.push((String::from_str("name"), Field::Str(name.clone())));
    fields.push((String::from_str("parent_id"), Field::Str(parent_text(parent))));
    push_num_entry(&mut fields, "x", x);
    push_num_entry(&mut fields, "y", y);
    push_str_entry(&mut fields, "label", label);
    push_str_entry(&mut fields, "value", value);
    let params = Params { fields, groups: Vec::new() };
    let ghost want = request_for(
        Command::Components(
            ComponentAction::Use { name: *name, parent: *parent, x, y, label: *label, value: *value },
        ),
    );
    assert(want is Ok);
    assert(params@ =~= want->Ok_0.1);
    request("component.use", params)
}

/// Appends the style, typography and auto-layout objects that have entries.
fn push_property_groups(groups: &mut Vec<(String, Entries)>, f: &NodeFields)
    ensures
        final(groups)@.map_values(|g: (String, Entries)| (g.0@, entries_view(g.1@)))
            == old(groups)@.map_values(|g: (String, Entries)| (g.0@, entries_view(g.1@)))
            + property_groups(*f),
{
    let ghost g0 = groups@.map_values(|g: (String, Entries)| (g.0@, entries_view(g.1@)));
    push_group(groups, "style", style_fields(f));
    push_group(groups, "typography", typography_fields(f));
    push_group(groups, "auto_layout", auto_layout_fields(f));
    assert(g0 + opt_group("style"@, style_entries(*f)) + opt_group("typography"@, typography_entries(*f))
        + opt_group("auto_layout"@, auto_layout_entries(*f)) =~= g0 + property_groups(*f));
}

/// The complete layout of a new node, zero where an option is not given.
fn full_layout_fields(f: &NodeFields) -> (r: Entries)
    ensures
        entries_view(r@) == full_layout_entries(*f),
{
    let mut v: Entries = Vec::new();
    v.push((String::from_str("x"), Field::Num(match f.x { Some(n) => n, None => 0 })));
    v.push((String::from_str("y"), Field::Num(match f.y { Some(n) => n, None => 0 })));
    v.push((String::from_str("width"), Field::Num(match f.width { Some(n) => n, None => 0 })));
    v.push((String::from_str("height"), Field::Num(match f.height { Some(n) => n, None => 0 })));
    assert(entries_view(v@) =~= full_layout_entries(*f));
    v
}

fn node_add_request(name: &String, node_type: &String, parent: &Option<String>, f: &NodeFields) -> (r:
    Result<Request, String>)
    ensures
        request_view(r) == request_for(
            Command::Node(NodeAction::Add { name: *name, node_type: *node_type, parent: *parent, fields: *f }),
        ),
{
    let mut fields: Entries = Vec::new();
    fields.push((String::from_str("name"), Field::Str(name.clone())));
    fields.push((String::from_str("node_type"), Field::Str(node_type.clone())));
    fields.push((String::from_str("parent_id"), Field::Str(parent_text(parent))));
    let mut groups: Vec<(String, Entries)> = Vec::new();
    let ghost g_empty = groups@.map_values(|g: (String, Entries)| (g.0@, entries_view(g.1@)));
    assert(g_empty =~= Seq::empty());
    if f.x.is_some() || f.y.is_some() || f.width.is_some() || f.height.is_some() {
        groups.push((String::from_str("layout"), full_layout_fields(f)));
    }
    let ghost g1 = groups@.map_values(|g: (String, Entries)| (g.0@, entries_view(g.1@)));
    let ghost lay = if partial_layout_entries(*f).len() > 0 {
        seq![("layout"@, full_layout_entries(*f))]
    } else {
        Seq::<(Seq<char>, Seq<(Seq<char>, FieldView)>)>::empty()
    };
    assert(g1 =~= lay);
    push_property_groups(&mut groups, f);
    let params = Params { fields, groups };
    let ghost want = request_for(
        Command::Node(NodeAction::Add { name: *name, node_type: *node_type, parent: *parent, fields: *f }),
    );
    assert(want is Ok);
    assert(params@ =~= want->Ok_0.1);
    request("node.create", params)
}

fn node_edit_request(id: &String, name: &Option<String>, f: &NodeFields) -> (r: Result<Request, String>)
    ensures
        request_view(r) == request_for(Command::Node(NodeAction::Edit { id: *id, name: *name, fields: *f })),
{
    let mut fields: Entries = Vec::new();
    fields.push((String::from_str("id"), Field::Str(id.clone())));
    push_str_entry(&mut fields, "name", name);
    let mut groups: Vec<(String, Entries)> = Vec::new();
    let ghost g_empty = groups@.map_values(|g: (String, Entries)| (g.0@, entries_view(g.1@)));
    assert(g_empty =~= Seq::empty());
    push_group(&mut groups, "layout", partial_layout_fields(f));
    push_property_groups(&mut groups, f);
    let params = Params { fields, groups };
    let ghost want = request_for(Command::Node(NodeAction::Edit { id: *id, name: *name, fields: *f }));
    assert(want is Ok);
    assert(params@ =~= want->Ok_0.1);
    request("node.edit", params)
}

/// The JSON-RPC method and parameters that a command sends. `watch` and `session`
/// are not single requests and are refused.
pub fn build_request(command: &Command) -> (r: Result<Request, String>)
    ensures
        request_view(r) == request_for(*command),
        command matches Command::Node(NodeAction::Add { fields: f, .. }) ==> (f.x is Some || f.y is Some
            || f.width is Some || f.height is Some ==> (r matches Ok(q) && {
            &&& q.params@.groups.len() > 0
            &&& q.params@.groups[0].0 == "layout"@
            &&& q.params@.groups[0].1.len() == 4
            &&& q.params@.groups[0].1[0] == ("x"@, FieldView::Num(crate::model::overlay(f.x, 0)))
            &&& q.params@.groups[0].1[1] == ("y"@, FieldView::Num(crate::model::overlay(f.y, 0)))
            &&& q.params@.groups[0].1[2] == ("width"@, FieldView::Num(crate::model::overlay(f.width, 0)))
            &&& q.params@.groups[0].1[3] == ("height"@, FieldView::Num(crate::model::overlay(f.height, 0)))
        })),
{
    proof {
        if let Command::Node(NodeAction::Add { name, node_type, parent, fields }) = command {
            if fields.x is Some || fields.y is Some || fields.width is Some || fields.height is Some {
                law_node_add_sends_full_layout(*name, *node_type, *parent, *fields);
            }
        }
    }
    match command {
        Command::Tree => request("tree.get", no_params()),
        Command::Save { path } => request("doc.save", one_text("path", path)),
        Command::Load { path } => request("doc.load", one_text("path", path)),
        Command::Components(ComponentAction::List) => request("component.list", no_params()),
        Command::Components(ComponentAction::Use { name, parent, x, y, label, value }) =>
            component_use_request(name, parent, *x, *y, label, value),
        Command::Undo => request("doc.undo", no_params()),
        Command::Redo => request("doc.redo", no_params()),
        Command::Watch | Command::Session => Err(String::from_str("watch/session are handled separately")),
        Command::Screenshot { .. } => request("doc.screenshot", no_params()),
        Command::Node(NodeAction::Add { name, node_type, parent, fields }) =>
            node_add_request(name, node_type, parent, fields),
        Command::Node(NodeAction::Edit { id, name, fields }) => node_edit_request(id, name, fields),
        Command::Node(NodeAction::Delete { id }) => request("node.delete", one_text("id", id)),
        Command::Node(NodeAction::Show { id }) => request("node.show", one_text("id", id)),
    }
}

/// `node add` sends the full layout of the new node whenever one of x, y, width,
/// height is given: the first object of its parameters is "layout", whose entries are
/// x, y, width and height in that order, each carrying the option of the same name,
/// or zero when that option is not given.
pub proof fn law_node_add_sends_full_layout(name: String, node_type: String, parent: Option<String>, f: NodeFields)
    requires
        f.x is Some || f.y is Some || f.width is Some || f.height is Some,
    ensures
        request_for(Command::Node(NodeAction::Add { name, node_type, parent, fields: f })) matches Ok(
            (m, p),
        ) && {
            &&& m == "node.create"@
            &&& p.groups.len() > 0
            &&& p.groups[0].0 == "layout"@
            &&& p.groups[0].1.len() == 4
            &&& p.groups[0].1[0].0 == "x"@
            &&& p.groups[0].1[1].0 == "y"@
            &&& p.groups[0].1[2].0 == "width"@
            &&& p.groups[0].1[3].0 == "height"@
            &&& (f.x matches Some(b) ==> p.groups[0].1[0].1 == FieldView::Num(b))
            &&& (f.x is None ==> p.groups[0].1[0].1 == FieldView::Num(0))
            &&& (f.y matches Some(b) ==> p.groups[0].1[1].1 == FieldView::Num(b))
            &&& (f.y is None ==> p.groups[0].1[1].1 == FieldView::Num(0))
            &&& (f.width matches Some(b) ==> p.groups[0].1[2].1 == FieldView::Num(b))
            &&& (f.width is None ==> p.groups[0].1[2].1 == FieldView::Num(0))
            &&& (f.height matches Some(b) ==> p.groups[0].1[3].1 == FieldView::Num(b))
            &&& (f.height is None ==> p.groups[0].1[3].1 == FieldView::Num(0))
        },
{
    assert(partial_layout_entries(f).len() > 0);
}

/// `node edit` sends, under "layout", exactly the layout options that are given, in
/// the order x, y, width, height, each with its own value.
pub proof fn law_node_edit_sends_given_layout(id: String, name: Option<String>, f: NodeFields)
    requires
        f.x is Some || f.y is Some || f.width is Some || f.height is Some,
    ensures
        request_for(Command::Node(NodeAction::Edit { id, name, fields: f })) matches Ok((m, p)) && {
            &&& m == "node.edit"@
            &&& p.groups.len() > 0
            &&& p.groups[0].0 == "layout"@
            &&& (f.x matches Some(b) ==> p.groups[0].1[0] == ("x"@, FieldView::Num(b)))
            &&& (f.x is None ==> (f.y matches Some(b) ==> p.groups[0].1[0] == ("y"@, FieldView::Num(b))))
        },
{
    assert(partial_layout_entries(f).len() > 0);
}

/// The value of the first entry named `key`, if any.
pub open spec fn entry_of(es: Seq<(Seq<char>, FieldView)>, key: Seq<char>) -> Option<FieldView>
    decreases es.len(),
{
    if es.len() == 0 {
        None
    } else if es[0].0 == key {
        Some(es[0].1)
    } else {
        entry_of(es.drop_first(), key)
    }
}

/// The first of two lookups that finds something.
pub open spec fn first_found(a: Option<FieldView>, b: Option<FieldView>) -> Option<FieldView> {
    if a is Some {
        a
    } else {
        b
    }
}

/// Looking up a key in two lists one after the other finds it in the first list when
/// it is there, in the second otherwise.
pub proof fn lemma_entry_of_concat(a: Seq<(Seq<char>, FieldView)>, b: Seq<(Seq<char>, FieldView)>, key: Seq<char>)
    ensures
        entry_of(a + b, key) == first_found(entry_of(a, key), entry_of(b, key)),
    decreases a.len(),
{
    if a.len() > 0 {
        assert((a + b).drop_first() =~= a.drop_first() + b);
        lemma_entry_of_concat(a.drop_first(), b, key);
    } else {
        assert(a + b =~= b);
    }
}

/// Looking up a key in an optional entry.
pub proof fn lemma_entry_of_opt(k: Seq<char>, v: Option<FieldView>, key: Seq<char>)
    ensures
        entry_of(opt_entry(k, v), key) == (if k == key { v } else { None }),
{
    reveal_with_fuel(entry_of, 2);
    if let Some(f) = v {
        assert(seq![(k, f)].drop_first() =~= Seq::<(Seq<char>, FieldView)>::empty());
    }
}

/// Looking up a key in a flag's entry.
pub proof fn lemma_entry_of_flag(k: Seq<char>, flag: bool, key: Seq<char>)
    ensures
        entry_of(flag_entry(k, flag), key) == (if k == key && flag { Some(FieldView::Bool(true)) } else { None }),
{
    reveal_with_fuel(entry_of, 2);
    if flag {
        assert(seq![(k, FieldView::Bool(true))].drop_first() =~= Seq::<(Seq<char>, FieldView)>::empty());
    }
}

/// Where a style option lands: the lookup of `key` in the style object, part by part.
proof fn lemma_style_lookup(f: NodeFields, key: Seq<char>)
    ensures
        entry_of(style_entries(f), key) == first_found(first_found(first_found(first_found(first_found(first_found(
            (if "fill"@ == key { str_field(f.fill) } else { None }),
            (if "stroke"@ == key { str_field(f.stroke) } else { None })),
            (if "stroke_width"@ == key { num_field(f.stroke_width) } else { None })),
            (if "corner_radius"@ == key { num_field(f.radius) } else { None })),
            (if "opacity"@ == key { num_field(f.opacity) } else { None })),
            (if "z_index"@ == key { int_field(match f.z_index { Some(z) => Some(z as int), None => None }) } else { None })),
            (if "clip"@ == key && f.clip { Some(FieldView::Bool(true)) } else { None })),
{
    let z = int_field(match f.z_index { Some(z) => Some(z as int), None => None });
    let a = opt_entry("fill"@, str_field(f.fill));
    let b = opt_entry("stroke"@, str_field(f.stroke));
    let c = opt_entry("stroke_width"@, num_field(f.stroke_width));
    let d = opt_entry("corner_radius"@, num_field(f.radius));
    let e = opt_entry("opacity"@, num_field(f.opacity));
    let g = opt_entry("z_index"@, z);
    let h = flag_entry("clip"@, f.clip);
    lemma_entry_of_concat(a + b + c + d + e + g, h, key);
    lemma_entry_of_concat(a + b + c + d + e, g, key);
    lemma_entry_of_concat(a + b + c + d, e, key);
    lemma_entry_of_concat(a + b + c, d, key);
    lemma_entry_of_concat(a + b, c, key);
    lemma_entry_of_concat(a, b, key);
    lemma_entry_of_opt("fill"@, str_field(f.fill), key);
    lemma_entry_of_opt("stroke"@, str_field(f.stroke), key);
    lemma_entry_of_opt("stroke_width"@, num_field(f.stroke_width), key);
    lemma_entry_of_opt("corner_radius"@, num_field(f.radius), key);
    lemma_entry_of_opt("opacity"@, num_field(f.opacity), key);
    lemma_entry_of_opt("z_index"@, z, key);
    lemma_entry_of_flag("clip"@, f.clip, key);
}

/// The style object of a node request carries each style option under its own key:
/// fill, stroke, stroke width, corner radius (from --radius), opacity, z-index, and
/// clip when the flag is set.
pub proof fn law_style_entries_by_key(f: NodeFields)
    ensures
        entry_of(style_entries(f), "fill"@) == str_field(f.fill),
        entry_of(style_entries(f), "stroke"@) == str_field(f.stroke),
        entry_of(style_entries(f), "stroke_width"@) == num_field(f.stroke_width),
        entry_of(style_entries(f), "corner_radius"@) == num_field(f.radius),
        entry_of(style_entries(f), "opacity"@) == num_field(f.opacity),
        f.z_index matches Some(z) ==> entry_of(style_entries(f), "z_index"@) == Some(FieldView::Int(z as int)),
        f.z_index is None ==> entry_of(style_entries(f), "z_index"@) is None,
        f.clip ==> entry_of(style_entries(f), "clip"@) == Some(FieldView::Bool(true)),
        !f.clip ==> entry_of(style_entries(f), "clip"@) is None,
{
    reveal_strlit("fill");
    reveal_strlit("stroke");
    reveal_strlit("stroke_width");
    reveal_strlit("corner_radius");
    reveal_strlit("opacity");
    reveal_strlit("z_index");
    reveal_strlit("clip");
    assert("fill"@ != "stroke"@) by { assert("fill"@[0] != "stroke"@[0]); }
    assert("fill"@ != "stroke_width"@) by { assert("fill"@[0] != "stroke_width"@[0]); }
    assert("fill"@ != "corner_radius"@) by { assert("fill"@[0] != "corner_radius"@[0]); }
    assert("fill"@ != "opacity"@) by { assert("fill"@[0] != "opacity"@[0]); }
    assert("fill"@ != "z_index"@) by { assert("fill"@[0] != "z_index"@[0]); }
    assert("fill"@ != "clip"@) by { assert("fill"@[0] != "clip"@[0]); }
    assert("stroke"@ != "stroke_width"@) by { assert("stroke"@.len() != "stroke_width"@.len()); }
    assert("stroke"@ != "corner_radius"@) by { assert("stroke"@[0] != "corner_radius"@[0]); }
    assert("stroke"@ != "opacity"@) by { assert("stroke"@[0] != "opacity"@[0]); }
    assert("stroke"@ != "z_index"@) by { assert("stroke"@[0] != "z_index"@[0]); }
    assert("stroke"@ != "clip"@) by { assert("stroke"@[0] != "clip"@[0]); }
    assert("stroke_width"@ != "corner_radius"@) by { assert("stroke_width"@[0] != "corner_radius"@[0]); }
    assert("stroke_width"@ != "opacity"@) by { assert("stroke_width"@[0] != "opacity"@[0]); }
    assert("stroke_width"@ != "z_index"@) by { assert("stroke_width"@[0] != "z_index"@[0]); }
    assert("stroke_width"@ != "clip"@) by { assert("stroke_width"@[0] != "clip"@[0]); }
    assert("corner_radius"@ != "opacity"@) by { assert("corner_radius"@[0] != "opacity"@[0]); }
    assert("corner_radius"@ != "z_index"@) by { assert("corner_radius"@[0] != "z_index"@[0]); }
    assert("corner_radius"@ != "clip"@) by { assert("corner_radius"@.len() != "clip"@.len()); }
    assert("opacity"@ != "z_index"@) by { assert("opacity"@[0] != "z_index"@[0]); }
    assert("opacity"@ != "clip"@) by { assert("opacity"@[0] != "clip"@[0]); }
    assert("z_index"@ != "clip"@) by { assert("z_index"@[0] != "clip"@[0]); }
    lemma_style_lookup(f, "fill"@);
    lemma_style_lookup(f, "stroke"@);
    lemma_style_lookup(f, "stroke_width"@);
    lemma_style_lookup(f, "corner_radius"@);
    lemma_style_lookup(f, "opacity"@);
    lemma_style_lookup(f, "z_index"@);
    lemma_style_lookup(f, "clip"@);
}

/// Where a typography option lands: the lookup of `key` in the typography object, part by part.
proof fn lemma_typography_lookup(f: NodeFields, key: Seq<char>)
    ensures
        entry_of(typography_entries(f), key) == first_found(first_found(first_found(first_found(first_found(first_found((if "content"@ == key { str_field(f.text) } else { None }),
            (if "font_size"@ == key { num_field(f.font_size) } else { None })),
            (if "font_family"@ == key { str_field(f.font_family) } else { None })),
            (if "font_weight"@ == key { int_field(match f.font_weight { Some(w) => Some(w as int), None => None }) } else { None })),
            (if "color"@ == key { str_field(f.color) } else { None })),
            (if "text_align"@ == key { str_field(f.text_align) } else { None })),
            (if "text_auto_size"@ == key && f.text_wrap { Some(FieldView::Bool(true)) } else { None })),
{
    let p0 = opt_entry("content"@, str_field(f.text));
    let p1 = opt_entry("font_size"@, num_field(f.font_size));
    let p2 = opt_entry("font_family"@, str_field(f.font_family));
    let p3 = opt_entry("font_weight"@, int_field(match f.font_weight { Some(w) => Some(w as int), None => None }));
    let p4 = opt_entry("color"@, str_field(f.color));
    let p5 = opt_entry("text_align"@, str_field(f.text_align));
    let p6 = flag_entry("text_auto_size"@, f.text_wrap);
    assert(typography_entries(f) == p0 + p1 + p2 + p3 + p4 + p5 + p6);
    lemma_entry_of_concat(p0 + p1 + p2 + p3 + p4 + p5, p6, key);
    lemma_entry_of_concat(p0 + p1 + p2 + p3 + p4, p5, key);
    lemma_entry_of_concat(p0 + p1 + p2 + p3, p4, key);
    lemma_entry_of_concat(p0 + p1 + p2, p3, key);
    lemma_entry_of_concat(p0 + p1, p2, key);
    lemma_entry_of_concat(p0, p1, key);
    lemma_entry_of_opt("content"@, str_field(f.text), key);
    lemma_entry_of_opt("font_size"@, num_field(f.font_size), key);
    lemma_entry_of_opt("font_family"@, str_field(f.font_family), key);
    lemma_entry_of_opt("font_weight"@, int_field(match f.font_weight { Some(w) => Some(w as int), None => None }), key);
    lemma_entry_of_opt("color"@, str_field(f.color), key);
    lemma_entry_of_opt("text_align"@, str_field(f.text_align), key);
    lemma_entry_of_flag("text_auto_size"@, f.text_wrap, key);
}

/// The typography object of a node request carries each typography option under its
/// own key: the text as content, font size, font family, font weight, color, text
/// alignment, and automatic sizing when --text-wrap is set.
pub proof fn law_typography_entries_by_key(f: NodeFields)
    ensures
        entry_of(typography_entries(f), "content"@) == str_field(f.text),
        entry_of(typography_entries(f), "font_size"@) == num_field(f.font_size),
        entry_of(typography_entries(f), "font_family"@) == str_field(f.font_family),
        f.font_weight matches Some(w) ==> entry_of(typography_entries(f), "font_weight"@) == Some(FieldView::Int(w as int)),
        f.font_weight is None ==> entry_of(typography_entries(f), "font_weight"@) is None,
        entry_of(typography_entries(f), "color"@) == str_field(f.color),
        entry_of(typography_entries(f), "text_align"@) == str_field(f.text_align),
        f.text_wrap ==> entry_of(typography_entries(f), "text_auto_size"@) == Some(FieldView::Bool(true)),
        !f.text_wrap ==> entry_of(typography_entries(f), "text_auto_size"@) is None,
{
    reveal_strlit("content");
    reveal_strlit("font_size");
    reveal_strlit("font_family");
    reveal_strlit("font_weight");
    reveal_strlit("color");
    reveal_strlit("text_align");
    reveal_strlit("text_auto_size");
    assert("content"@ != "font_size"@) by { assert("content"@.len() != "font_size"@.len()); }
    assert("content"@ != "font_family"@) by { assert("content"@.len() != "font_family"@.len()); }
    assert("content"@ != "font_weight"@) by { assert("content"@.len() != "font_weight"@.len()); }
    assert("content"@ != "color"@) by { assert("content"@.len() != "color"@.len()); }
    assert("content"@ != "text_align"@) by { assert("content"@.len() != "text_align"@.len()); }
    assert("content"@ != "text_auto_size"@) by { assert("content"@.len() != "text_auto_size"@.len()); }
    assert("font_size"@ != "font_family"@) by { assert("font_size"@.len() != "font_family"@.len()); }
    assert("font_size"@ != "font_weight"@) by { assert("font_size"@.len() != "font_weight"@.len()); }
    assert("font_size"@ != "color"@) by { assert("font_size"@.len() != "color"@.len()); }
    assert("font_size"@ != "text_align"@) by { assert("font_size"@.len() != "text_align"@.len()); }
    assert("font_size"@ != "text_auto_size"@) by { assert("font_size"@.len() != "text_auto_size"@.len()); }
    assert("font_family"@ != "font_weight"@) by { assert("font_family"@[5] != "font_weight"@[5]); }
    assert("font_family"@ != "color"@) by { assert("font_family"@.len() != "color"@.len()); }
    assert("font_family"@ != "text_align"@) by { assert("font_family"@.len() != "text_align"@.len()); }
    assert("font_family"@ != "text_auto_size"@) by { assert("font_family"@.len() != "text_auto_size"@.len()); }
    assert("font_weight"@ != "color"@) by { assert("font_weight"@.len() != "color"@.len()); }
    assert("font_weight"@ != "text_align"@) by { assert("font_weight"@.len() != "text_align"@.len()); }
    assert("font_weight"@ != "text_auto_size"@) by { assert("font_weight"@.len() != "text_auto_size"@.len()); }
    assert("color"@ != "text_align"@) by { assert("color"@.len() != "text_align"@.len()); }
    assert("color"@ != "text_auto_size"@) by { assert("color"@.len() != "text_auto_size"@.len()); }
    assert("text_align"@ != "text_auto_size"@) by { assert("text_align"@.len() != "text_auto_size"@.len()); }
    lemma_typography_lookup(f, "content"@);
    lemma_typography_lookup(f, "font_size"@);
    lemma_typography_lookup(f, "font_family"@);
    lemma_typography_lookup(f, "font_weight"@);
    lemma_typography_lookup(f, "color"@);
    lemma_typography_lookup(f, "text_align"@);
    lemma_typography_lookup(f, "text_auto_size"@);
}

/// Where an auto-layout option lands: the lookup of `key` in the auto-layout object, part by part.
proof fn lemma_auto_layout_lookup(f: NodeFields, key: Seq<char>)
    ensures
        entry_of(auto_layout_entries(f), key) == first_found(first_found(first_found(first_found(first_found((if "mode"@ == key { str_field(f.layout_mode) } else { None }),
            (if "direction"@ == key { str_field(f.direction) } else { None })),
            (if "align_items"@ == key { str_field(f.align) } else { None })),
            (if "justify_content"@ == key { str_field(f.justify) } else { None })),
            (if "gap"@ == key { num_field(f.gap) } else { None })),
            (if "padding"@ == key { num_field(f.padding) } else { None })),
{
    let p0 = opt_entry("mode"@, str_field(f.layout_mode));
    let p1 = opt_entry("direction"@, str_field(f.direction));
    let p2 = opt_entry("align_items"@, str_field(f.align));
    let p3 = opt_entry("justify_content"@, str_field(f.justify));
    let p4 = opt_entry("gap"@, num_field(f.gap));
    let p5 = opt_entry("padding"@, num_field(f.padding));
    assert(auto_layout_entries(f) == p0 + p1 + p2 + p3 + p4 + p5);
    lemma_entry_of_concat(p0 + p1 + p2 + p3 + p4, p5, key);
    lemma_entry_of_concat(p0 + p1 + p2 + p3, p4, key);
    lemma_entry_of_concat(p0 + p1 + p2, p3, key);
    lemma_entry_of_concat(p0 + p1, p2, key);
    lemma_entry_of_concat(p0, p1, key);
    lemma_entry_of_opt("mode"@, str_field(f.layout_mode), key);
    lemma_entry_of_opt("direction"@, str_field(f.direction), key);
    lemma_entry_of_opt("align_items"@, str_field(f.align), key);
    lemma_entry_of_opt("justify_content"@, str_field(f.justify), key);
    lemma_entry_of_opt("gap"@, num_field(f.gap), key);
    lemma_entry_of_opt("padding"@, num_field(f.padding), key);
}

/// The auto-layout object of a node request carries each option under its own key:
/// mode (from --layout-mode), direction, align_items (from --align), justify_content
/// (from --justify), gap and padding.
pub proof fn law_auto_layout_entries_by_key(f: NodeFields)
    ensures
        entry_of(auto_layout_entries(f), "mode"@) == str_field(f.layout_mode),
        entry_of(auto_layout_entries(f), "direction"@) == str_field(f.direction),
        entry_of(auto_layout_entries(f), "align_items"@) == str_field(f.align),
        entry_of(auto_layout_entries(f), "justify_content"@) == str_field(f.justify),
        entry_of(auto_layout_entries(f), "gap"@) == num_field(f.gap),
        entry_of(auto_layout_entries(f), "padding"@) == num_field(f.padding),
{
    reveal_strlit("mode");
    reveal_strlit("direction");
    reveal_strlit("align_items");
    reveal_strlit("justify_content");
    reveal_strlit("gap");
    reveal_strlit("padding");
    assert("mode"@ != "direction"@) by { assert("mode"@.len() != "direction"@.len()); }
    assert("mode"@ != "align_items"@) by { assert("mode"@.len() != "align_items"@.len()); }
    assert("mode"@ != "justify_content"@) by { assert("mode"@.len() != "justify_content"@.len()); }
    assert("mode"@ != "gap"@) by { assert("mode"@.len() != "gap"@.len()); }
    assert("mode"@ != "padding"@) by { assert("mode"@.len() != "padding"@.len()); }
    assert("direction"@ != "align_items"@) by { assert("direction"@.len() != "align_items"@.len()); }
    assert("direction"@ != "justify_content"@) by { assert("direction"@.len() != "justify_content"@.len()); }
    assert("direction"@ != "gap"@) by { assert("direction"@.len() != "gap"@.len()); }
    assert("direction"@ != "padding"@) by { assert("direction"@.len() != "padding"@.len()); }
    assert("align_items"@ != "justify_content"@) by { assert("align_items"@.len() != "justify_content"@.len()); }
    assert("align_items"@ != "gap"@) by { assert("align_items"@.len() != "gap"@.len()); }
    assert("align_items"@ != "padding"@) by { assert("align_items"@.len() != "padding"@.len()); }
    assert("justify_content"@ != "gap"@) by { assert("justify_content"@.len() != "gap"@.len()); }
    assert("justify_content"@ != "padding"@) by { assert("justify_content"@.len() != "padding"@.len()); }
    assert("gap"@ != "padding"@) by { assert("gap"@.len() != "padding"@.len()); }
    lemma_auto_layout_lookup(f, "mode"@);
    lemma_auto_layout_lookup(f, "direction"@);
    lemma_auto_layout_lookup(f, "align_items"@);
    lemma_auto_layout_lookup(f, "justify_content"@);
    lemma_auto_layout_lookup(f, "gap"@);
    lemma_auto_layout_lookup(f, "padding"@);
}

/// Where a layout option lands: the lookup of `key` in the layout object of an edit, part by part.
proof fn lemma_partial_layout_lookup(f: NodeFields, key: Seq<char>)
    ensures
        entry_of(partial_layout_entries(f), key) == first_found(first_found(first_found((if "x"@ == key { num_field(f.x) } else { None }),
            (if "y"@ == key { num_field(f.y) } else { None })),
            (if "width"@ == key { num_field(f.width) } else { None })),
            (if "height"@ == key { num_field(f.height) } else { None })),
{
    let p0 = opt_entry("x"@, num_field(f.x));
    let p1 = opt_entry("y"@, num_field(f.y));
    let p2 = opt_entry("width"@, num_field(f.width));
    let p3 = opt_entry("height"@, num_field(f.height));
    assert(partial_layout_entries(f) == p0 + p1 + p2 + p3);
    lemma_entry_of_concat(p0 + p1 + p2, p3, key);
    lemma_entry_of_concat(p0 + p1, p2, key);
    lemma_entry_of_concat(p0, p1, key);
    lemma_entry_of_opt("x"@, num_field(f.x), key);
    lemma_entry_of_opt("y"@, num_field(f.y), key);
    lemma_entry_of_opt("width"@, num_field(f.width), key);
    lemma_entry_of_opt("height"@, num_field(f.height), key);
}

/// The layout object of `node edit` carries each given layout option under its own
/// key, x, y, width and height, and nothing for an option that is not given.
pub proof fn law_partial_layout_entries_by_key(f: NodeFields)
    ensures
        entry_of(partial_layout_entries(f), "x"@) == num_field(f.x),
        entry_of(partial_layout_entries(f), "y"@) == num_field(f.y),
        entry_of(partial_layout_entries(f), "width"@) == num_field(f.width),
        entry_of(partial_layout_entries(f), "height"@) == num_field(f.height),
{
    reveal_strlit("x");
    reveal_strlit("y");
    reveal_strlit("width");
    reveal_strlit("height");
    assert("x"@ != "y"@) by { assert("x"@[0] != "y"@[0]); }
    assert("x"@ != "width"@) by { assert("x"@.len() != "width"@.len()); }
    assert("x"@ != "height"@) by { assert("x"@.len() != "height"@.len()); }
    assert("y"@ != "width"@) by { assert("y"@.len() != "width"@.len()); }
    assert("y"@ != "height"@) by { assert("y"@.len() != "height"@.len()); }
    assert("width"@ != "height"@) by { assert("width"@.len() != "height"@.len()); }
    lemma_partial_layout_lookup(f, "x"@);
    lemma_partial_layout_lookup(f, "y"@);
    lemma_partial_layout_lookup(f, "width"@);
    lemma_partial_layout_lookup(f, "height"@);
}

/// Where a component.use parameter lands: the lookup of `key` in its fields.
proof fn lemma_component_use_lookup(
    name: String,
    parent: Option<String>,
    x: Option<Measure>,
    y: Option<Measure>,
    label: Option<String>,
    value: Option<String>,
    key: Seq<char>,
)
    ensures
        request_for(Command::Components(ComponentAction::Use { name, parent, x, y, label, value })) matches Ok((m, p))
            && entry_of(p.fields, key) == first_found(first_found(first_found(first_found(
            (if "name"@ == key { Some(FieldView::Str(name@)) } else if "parent_id"@ == key {
                Some(FieldView::Str(match parent { Some(t) => t@, None => nil_text() }))
            } else { None }),
            (if "x"@ == key { num_field(x) } else { None })),
            (if "y"@ == key { num_field(y) } else { None })),
            (if "label"@ == key { str_field(label) } else { None })),
            (if "value"@ == key { str_field(value) } else { None })),
{
    reveal_with_fuel(entry_of, 3);
    let p0: Seq<(Seq<char>, FieldView)> = seq![
        ("name"@, FieldView::Str(name@)),
        ("parent_id"@, FieldView::Str(match parent { Some(t) => t@, None => nil_text() })),
    ];
    let p1 = opt_entry("x"@, num_field(x));
    let p2 = opt_entry("y"@, num_field(y));
    let p3 = opt_entry("label"@, str_field(label));
    let p4 = opt_entry("value"@, str_field(value));
    assert(p0.drop_first().drop_first() =~= Seq::<(Seq<char>, FieldView)>::empty());
    assert(p0.drop_first()[0] == p0[1]);
    lemma_entry_of_concat(p0 + p1 + p2 + p3, p4, key);
    lemma_entry_of_concat(p0 + p1 + p2, p3, key);
    lemma_entry_of_concat(p0 + p1, p2, key);
    lemma_entry_of_concat(p0, p1, key);
    lemma_entry_of_opt("x"@, num_field(x), key);
    lemma_entry_of_opt("y"@, num_field(y), key);
    lemma_entry_of_opt("label"@, str_field(label), key);
    lemma_entry_of_opt("value"@, str_field(value), key);
}

/// `components use` sends component.use with the template name, the parent (the nil
/// UUID when none is given), and the x, y, label and value options each under its own
/// key, leaving out those that are not given.
pub proof fn law_component_use_request_by_key(
    name: String,
    parent: Option<String>,
    x: Option<Measure>,
    y: Option<Measure>,
    label: Option<String>,
    value: Option<String>,
)
    ensures
        request_for(Command::Components(ComponentAction::Use { name, parent, x, y, label, value })) matches Ok((m, p))
            && {
            &&& m == "component.use"@
            &&& entry_of(p.fields, "name"@) == Some(FieldView::Str(name@))
            &&& (parent matches Some(t) ==> entry_of(p.fields, "parent_id"@) == Some(FieldView::Str(t@)))
            &&& (parent is None ==> entry_of(p.fields, "parent_id"@) == Some(FieldView::Str(nil_text())))
            &&& entry_of(p.fields, "x"@) == num_field(x)
            &&& entry_of(p.fields, "y"@) == num_field(y)
            &&& entry_of(p.fields, "label"@) == str_field(label)
            &&& entry_of(p.fields, "value"@) == str_field(value)
        },
{
    reveal_strlit("name");
    reveal_strlit("parent_id");
    reveal_strlit("x");
    reveal_strlit("y");
    reveal_strlit("label");
    reveal_strlit("value");
    assert("name"@ != "parent_id"@) by { assert("name"@.len() != "parent_id"@.len()); }
    assert("name"@ != "x"@) by { assert("name"@.len() != "x"@.len()); }
    assert("name"@ != "y"@) by { assert("name"@.len() != "y"@.len()); }
    assert("name"@ != "label"@) by { assert("name"@.len() != "label"@.len()); }
    assert("name"@ != "value"@) by { assert("name"@.len() != "value"@.len()); }
    assert("parent_id"@ != "x"@) by { assert("parent_id"@.len() != "x"@.len()); }
    assert("parent_id"@ != "y"@) by { assert("parent_id"@.len() != "y"@.len()); }
    assert("parent_id"@ != "label"@) by { assert("parent_id"@.len() != "label"@.len()); }
    assert("parent_id"@ != "value"@) by { assert("parent_id"@.len() != "value"@.len()); }
    assert("x"@ != "y"@) by { assert("x"@[0] != "y"@[0]); }
    assert("x"@ != "label"@) by { assert("x"@.len() != "label"@.len()); }
    assert("x"@ != "value"@) by { assert("x"@.len() != "value"@.len()); }
    assert("y"@ != "label"@) by { assert("y"@.len() != "label"@.len()); }
    assert("y"@ != "value"@) by { assert("y"@.len() != "value"@.len()); }
    assert("label"@ != "value"@) by { assert("label"@[0] != "value"@[0]); }
    lemma_component_use_lookup(name, parent, x, y, label, value, "name"@);
    lemma_component_use_lookup(name, parent, x, y, label, value, "parent_id"@);
    lemma_component_use_lookup(name, parent, x, y, label, value, "x"@);
    lemma_component_use_lookup(name, parent, x, y, label, value, "y"@);
    lemma_component_use_lookup(name, parent, x, y, label, value, "label"@);
    lemma_component_use_lookup(name, parent, x, y, label, value, "value"@);
}

/// The entries of the first object named `key`, if any.
pub open spec fn group_of(
    gs: Seq<(Seq<char>, Seq<(Seq<char>, FieldView)>)>,
    key: Seq<char>,
) -> Option<Seq<(Seq<char>, FieldView)>>
    decreases gs.len(),
{
    if gs.len() == 0 {
        None
    } else if gs[0].0 == key {
        Some(gs[0].1)
    } else {
        group_of(gs.drop_first(), key)
    }
}

/// The entries, when there are any.
pub open spec fn nonempty(es: Seq<(Seq<char>, FieldView)>) -> Option<Seq<(Seq<char>, FieldView)>> {
    if es.len() > 0 {
        Some(es)
    } else {
        None
    }
}

/// Looking up an object in two lists one after the other finds it in the first list
/// when it is there, in the second otherwise.
proof fn lemma_group_of_concat(
    a: Seq<(Seq<char>, Seq<(Seq<char>, FieldView)>)>,
    b: Seq<(Seq<char>, Seq<(Seq<char>, FieldView)>)>,
    key: Seq<char>,
)
    ensures
        group_of(a + b, key) == (if group_of(a, key) is Some { group_of(a, key) } else { group_of(b, key) }),
    decreases a.len(),
{
    if a.len() > 0 {
        assert((a + b).drop_first() =~= a.drop_first() + b);
        lemma_group_of_concat(a.drop_first(), b, key);
    } else {
        assert(a + b =~= b);
    }
}

/// Looking up an object in an optional object.
proof fn lemma_group_of_opt(k: Seq<char>, es: Seq<(Seq<char>, FieldView)>, key: Seq<char>)
    ensures
        group_of(opt_group(k, es), key) == (if k == key { nonempty(es) } else { None }),
{
    reveal_with_fuel(group_of, 2);
    if es.len() > 0 {
        assert(seq![(k, es)].drop_first() =~= Seq::<(Seq<char>, Seq<(Seq<char>, FieldView)>)>::empty());
    }
}

/// Where the objects of a node request land: first those of `lay`, then style,
/// typography and auto layout, each under its own key.
proof fn lemma_node_groups_lookup(lay: Seq<(Seq<char>, Seq<(Seq<char>, FieldView)>)>, f: NodeFields, key: Seq<char>)
    ensures
        group_of(lay + property_groups(f), key) == (if group_of(lay, key) is Some {
            group_of(lay, key)
        } else if "style"@ == key {
            nonempty(style_entries(f))
        } else if "typography"@ == key {
            nonempty(typography_entries(f))
        } else if "auto_layout"@ == key {
            nonempty(auto_layout_entries(f))
        } else {
            None
        }),
{
    reveal_strlit("style");
    reveal_strlit("typography");
    reveal_strlit("auto_layout");
    assert("style"@ != "typography"@) by { assert("style"@.len() != "typography"@.len()); }
    assert("style"@ != "auto_layout"@) by { assert("style"@.len() != "auto_layout"@.len()); }
    assert("typography"@ != "auto_layout"@) by { assert("typography"@.len() != "auto_layout"@.len()); }
    let a = opt_group("style"@, style_entries(f));
    let b = opt_group("typography"@, typography_entries(f));
    let c = opt_group("auto_layout"@, auto_layout_entries(f));
    assert(property_groups(f) == a + b + c);
    lemma_group_of_concat(lay, a + b + c, key);
    lemma_group_of_concat(a + b, c, key);
    lemma_group_of_concat(a, b, key);
    lemma_group_of_opt("style"@, style_entries(f), key);
    lemma_group_of_opt("typography"@, typography_entries(f), key);
    lemma_group_of_opt("auto_layout"@, auto_layout_entries(f), key);
}

/// `node add` sends node.create with the name, the node type and the parent (the nil
/// UUID when none is given), then under "layout" the full layout when any layout option
/// is given, and under "style", "typography" and "auto_layout" the options of each
/// that are given (no object when none is).
pub proof fn law_node_add_request_by_key(name: String, node_type: String, parent: Option<String>, f: NodeFields)
    ensures
        request_for(Command::Node(NodeAction::Add { name, node_type, parent, fields: f })) matches Ok((m, p)) && {
            &&& m == "node.create"@
            &&& entry_of(p.fields, "name"@) == Some(FieldView::Str(name@))
            &&& entry_of(p.fields, "node_type"@) == Some(FieldView::Str(node_type@))
            &&& (parent matches Some(t) ==> entry_of(p.fields, "parent_id"@) == Some(FieldView::Str(t@)))
            &&& (parent is None ==> entry_of(p.fields, "parent_id"@) == Some(FieldView::Str(nil_text())))
            &&& (f.x is Some || f.y is Some || f.width is Some || f.height is Some ==> group_of(p.groups, "layout"@)
                == Some(full_layout_entries(f)))
            &&& (f.x is None && f.y is None && f.width is None && f.height is None ==> group_of(p.groups, "layout"@) is None)
            &&& group_of(p.groups, "style"@) == nonempty(style_entries(f))
            &&& group_of(p.groups, "typography"@) == nonempty(typography_entries(f))
            &&& group_of(p.groups, "auto_layout"@) == nonempty(auto_layout_entries(f))
        },
{
    reveal_with_fuel(entry_of, 4);
    reveal_with_fuel(group_of, 2);
    reveal_strlit("layout");
    reveal_strlit("style");
    reveal_strlit("typography");
    reveal_strlit("auto_layout");
    reveal_strlit("name");
    reveal_strlit("node_type");
    reveal_strlit("parent_id");
    assert("layout"@ != "style"@) by { assert("layout"@.len() != "style"@.len()); }
    assert("layout"@ != "typography"@) by { assert("layout"@.len() != "typography"@.len()); }
    assert("layout"@ != "auto_layout"@) by { assert("layout"@.len() != "auto_layout"@.len()); }
    assert("style"@ != "typography"@) by { assert("style"@.len() != "typography"@.len()); }
    assert("style"@ != "auto_layout"@) by { assert("style"@.len() != "auto_layout"@.len()); }
    assert("typography"@ != "auto_layout"@) by { assert("typography"@.len() != "auto_layout"@.len()); }
    assert("name"@ != "node_type"@) by { assert("name"@.len() != "node_type"@.len()); }
    assert("name"@ != "parent_id"@) by { assert("name"@.len() != "parent_id"@.len()); }
    assert("node_type"@ != "parent_id"@) by { assert("node_type"@[0] != "parent_id"@[0]); }
    let lay: Seq<(Seq<char>, Seq<(Seq<char>, FieldView)>)> = if partial_layout_entries(f).len() > 0 {
        seq![("layout"@, full_layout_entries(f))]
    } else {
        Seq::empty()
    };
    if partial_layout_entries(f).len() > 0 {
        assert(lay.drop_first() =~= Seq::<(Seq<char>, Seq<(Seq<char>, FieldView)>)>::empty());
    }
    assert(f.x is Some || f.y is Some || f.width is Some || f.height is Some ==> partial_layout_entries(f).len() > 0);
    lemma_node_groups_lookup(lay, f, "layout"@);
    lemma_node_groups_lookup(lay, f, "style"@);
    lemma_node_groups_lookup(lay, f, "typography"@);
    lemma_node_groups_lookup(lay, f, "auto_layout"@);
    let fs: Seq<(Seq<char>, FieldView)> = seq![
        ("name"@, FieldView::Str(name@)),
        ("node_type"@, FieldView::Str(node_type@)),
        ("parent_id"@, FieldView::Str(match parent { Some(p) => p@, None => nil_text() })),
    ];
    assert(fs.drop_first()[0] == fs[1]);
    assert(fs.drop_first().drop_first()[0] == fs[2]);
    assert(fs.drop_first().drop_first().drop_first() =~= Seq::<(Seq<char>, FieldView)>::empty());
}

/// `node edit` sends node.edit with the id and the new name when one is given, then
/// under "layout" exactly the layout options that are given, and under "style",
/// "typography" and "auto_layout" the options of each that are given (no object when
/// none is).
pub proof fn law_node_edit_request_by_key(id: String, name: Option<String>, f: NodeFields)
    ensures
        request_for(Command::Node(NodeAction::Edit { id, name, fields: f })) matches Ok((m, p)) && {
            &&& m == "node.edit"@
            &&& entry_of(p.fields, "id"@) == Some(FieldView::Str(id@))
            &&& entry_of(p.fields, "name"@) == str_field(name)
            &&& group_of(p.groups, "layout"@) == nonempty(partial_layout_entries(f))
            &&& group_of(p.groups, "style"@) == nonempty(style_entries(f))
            &&& group_of(p.groups, "typography"@) == nonempty(typography_entries(f))
            &&& group_of(p.groups, "auto_layout"@) == nonempty(auto_layout_entries(f))
        },
{
    reveal_with_fuel(entry_of, 3);
    reveal_strlit("layout");
    reveal_strlit("style");
    reveal_strlit("typography");
    reveal_strlit("auto_layout");
    reveal_strlit("id");
    reveal_strlit("name");
    assert("layout"@ != "style"@) by { assert("layout"@.len() != "style"@.len()); }
    assert("layout"@ != "typography"@) by { assert("layout"@.len() != "typography"@.len()); }
    assert("layout"@ != "auto_layout"@) by { assert("layout"@.len() != "auto_layout"@.len()); }
    assert("style"@ != "typography"@) by { assert("style"@.len() != "typography"@.len()); }
    assert("style"@ != "auto_layout"@) by { assert("style"@.len() != "auto_layout"@.len()); }
    assert("typography"@ != "auto_layout"@) by { assert("typography"@.len() != "auto_layout"@.len()); }
    assert("id"@ != "name"@) by { assert("id"@.len() != "name"@.len()); }
    let lay = opt_group("layout"@, partial_layout_entries(f));
    lemma_group_of_opt("layout"@, partial_layout_entries(f), "layout"@);
    lemma_group_of_opt("layout"@, partial_layout_entries(f), "style"@);
    lemma_group_of_opt("layout"@, partial_layout_entries(f), "typography"@);
    lemma_group_of_opt("layout"@, partial_layout_entries(f), "auto_layout"@);
    lemma_node_groups_lookup(lay, f, "layout"@);
    lemma_node_groups_lookup(lay, f, "style"@);
    lemma_node_groups_lookup(lay, f, "typography"@);
    lemma_node_groups_lookup(lay, f, "auto_layout"@);
    let fs: Seq<(Seq<char>, FieldView)> = seq![("id"@, FieldView::Str(id@))];
    lemma_entry_of_concat(fs, opt_entry("name"@, str_field(name)), "id"@);
    lemma_entry_of_concat(fs, opt_entry("name"@, str_field(name)), "name"@);
    lemma_entry_of_opt("name"@, str_field(name), "id"@);
    lemma_entry_of_opt("name"@, str_field(name), "name"@);
    assert(fs.drop_first() =~= Seq::<(Seq<char>, FieldView)>::empty());
}

/// Reading text with no quote, space or tab gathers all of it into the current
/// argument.
proof fn lemma_split_plain(s: Seq<char>)
    requires
        forall|i: int| 0 <= i < s.len() ==> #[trigger] s[i] != '"' && s[i] != ' ' && s[i] != '\t',
    ensures
        split_state(s) == (Seq::<Seq<char>>::empty(), s, false),
    decreases s.len(),
{
    if s.len() > 0 {
        lemma_split_plain(s.drop_last());
        assert(s.drop_last().push(s.last()) =~= s);
    }
}

/// Reading an opening quote and then text with no quote gathers that text, quoting
/// still open.
proof fn lemma_split_quoted(s: Seq<char>)
    requires
        forall|i: int| 0 <= i < s.len() ==> #[trigger] s[i] != '"',
    ensures
        split_state(seq!['"'] + s) == (Seq::<Seq<char>>::empty(), s, true),
    decreases s.len(),
{
    let t = seq!['"'] + s;
    if s.len() == 0 {
        assert(t =~= seq!['"']);
        assert(t.drop_last() =~= Seq::<char>::empty());
        assert(split_state(t.drop_last()) == (Seq::<Seq<char>>::empty(), Seq::<char>::empty(), false));
        assert(t.last() == '"');
    } else {
        lemma_split_quoted(s.drop_last());
        assert(t.drop_last() =~= seq!['"'] + s.drop_last());
        assert(t.last() == s.last());
        assert(s.drop_last().push(s.last()) =~= s);
    }
}

/// The splitter never yields an empty argument.
proof fn lemma_split_args_nonempty(s: Seq<char>)
    ensures
        forall|i: int| 0 <= i < split_state(s).0.len() ==> (#[trigger] split_state(s).0[i]).len() > 0,
    decreases s.len(),
{
    if s.len() > 0 {
        lemma_split_args_nonempty(s.drop_last());
        let st = split_state(s.drop_last());
        assert(split_state(s) == split_step(st, s.last()));
        assert forall|i: int| 0 <= i < split_state(s).0.len() implies (#[trigger] split_state(s).0[i]).len() > 0 by {
            if i < st.0.len() {
                assert(split_state(s).0[i] == st.0[i]);
            }
        }
    }
}

/// A session line's arguments are never empty: quotes alone, and runs of spaces or
/// tabs, give no argument.
pub proof fn law_words_are_nonempty(s: Seq<char>)
    ensures
        forall|i: int| 0 <= i < shell_words(s).len() ==> (#[trigger] shell_words(s)[i]).len() > 0,
{
    lemma_split_args_nonempty(s);
}

/// A text with no quote, space or tab is one argument.
pub proof fn law_plain_text_is_one_word(s: Seq<char>)
    requires
        s.len() > 0,
        forall|i: int| 0 <= i < s.len() ==> #[trigger] s[i] != '"' && s[i] != ' ' && s[i] != '\t',
    ensures
        shell_words(s) == seq![s],
{
    lemma_split_plain(s);
    assert(Seq::<Seq<char>>::empty().push(s) =~= seq![s]);
}

/// A text in double quotes is one argument, spaces and tabs in it included, without
/// the quotes.
pub proof fn law_quoted_text_is_one_word(s: Seq<char>)
    requires
        s.len() > 0,
        forall|i: int| 0 <= i < s.len() ==> #[trigger] s[i] != '"',
    ensures
        shell_words(seq!['"'] + s + seq!['"']) == seq![s],
{
    lemma_split_quoted(s);
    let t = seq!['"'] + s + seq!['"'];
    assert(t.drop_last() =~= seq!['"'] + s);
    assert(t.last() == '"');
    assert(Seq::<Seq<char>>::empty().push(s) =~= seq![s]);
}

/// Two plain words separated by a space are two arguments.
pub proof fn law_space_separates_words(a: Seq<char>, b: Seq<char>)
    requires
        a.len() > 0,
        b.len() > 0,
        forall|i: int| 0 <= i < a.len() ==> #[trigger] a[i] != '"' && a[i] != ' ' && a[i] != '\t',
        forall|i: int| 0 <= i < b.len() ==> #[trigger] b[i] != '"' && b[i] != ' ' && b[i] != '\t',
    ensures
        shell_words(a + seq![' '] + b) == seq![a, b],
{
    lemma_split_plain(a);
    let t = a + seq![' '];
    assert(t.drop_last() =~= a);
    assert(split_state(t) == (seq![a], Seq::<char>::empty(), false));
    lemma_split_after(t, seq![a], b);
    assert(seq![a].push(b) =~= seq![a, b]);
}

/// From a state with no open quote and no pending argument, plain text becomes the
/// pending argument.
proof fn lemma_split_after(t: Seq<char>, args: Seq<Seq<char>>, b: Seq<char>)
    requires
        split_state(t) == (args, Seq::<char>::empty(), false),
        forall|i: int| 0 <= i < b.len() ==> #[trigger] b[i] != '"' && b[i] != ' ' && b[i] != '\t',
    ensures
        split_state(t + b) == (args, b, false),
    decreases b.len(),
{
    if b.len() == 0 {
        assert(t + b =~= t);
    } else {
        lemma_split_after(t, args, b.drop_last());
        assert((t + b).drop_last() =~= t + b.drop_last());
        assert(b.drop_last().push(b.last()) =~= b);
    }
}

} // verus!
