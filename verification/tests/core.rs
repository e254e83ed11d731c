use wisp::components::{
    instantiate_button, instantiate_chart_bar, instantiate_nav_item, instantiate_stat_card, stamp,
    ComponentKind, ComponentLibrary,
};
use wisp::load::load_store;
use wisp::model::{AutoLayout, Layout, LayoutMode, Node, NodeType, PartialLayout, Style, TextAlign, Typography};
use wisp::store::{NodeStore, StoreError};
use wisp::tree::{render_tree, whole_number_text, whole_number_value};
use wisp::undo::UndoStack;

fn m(v: f64) -> u64 {
    v.to_bits()
}

fn fmt_num(b: u64) -> String {
    match whole_number_text(b) {
        Some(t) => t,
        None => format!("{}", f64::from_bits(b)),
    }
}

fn set_size(store: &mut NodeStore, id: u128, w: f64, h: f64) {
    let mut layout = store.get(id).unwrap().layout;
    layout.width = m(w);
    layout.height = m(h);
    store.set_layout(id, layout).unwrap();
}

#[test]
fn library_has_four_templates() {
    let lib = ComponentLibrary::new();
    assert_eq!(lib.list().len(), 4);
}

#[test]
fn get_template_by_name() {
    let lib = ComponentLibrary::new();
    assert!(lib.get("stat-card").is_some());
    assert!(lib.get("button").is_some());
    assert!(lib.get("nonexistent").is_none());
}

#[test]
fn instantiate_stat_card_creates_4_nodes() {
    let mut store = NodeStore::new();
    let root_id = store.root_id();
    let ids = instantiate_stat_card(&mut store, root_id).unwrap();
    assert_eq!(ids.len(), 4);
    assert_eq!(store.len(), 5);
    assert_eq!(store.get(ids[0]).unwrap().parent_id, Some(root_id));
}

#[test]
fn instantiate_nav_item_creates_3_nodes() {
    let mut store = NodeStore::new();
    let root_id = store.root_id();
    let ids = instantiate_nav_item(&mut store, root_id).unwrap();
    assert_eq!(ids.len(), 3);
}

#[test]
fn instantiate_button_creates_2_nodes() {
    let mut store = NodeStore::new();
    let root_id = store.root_id();
    let ids = instantiate_button(&mut store, root_id).unwrap();
    assert_eq!(ids.len(), 2);
}

#[test]
fn instantiate_chart_bar_creates_3_nodes() {
    let mut store = NodeStore::new();
    let root_id = store.root_id();
    let ids = instantiate_chart_bar(&mut store, root_id).unwrap();
    assert_eq!(ids.len(), 3);
}

#[test]
fn partial_layout_merge_only_set_fields() {
    let mut layout = Layout { x: m(100.0), y: m(200.0), width: m(300.0), height: m(400.0) };
    let partial = PartialLayout { x: Some(m(50.0)), y: None, width: None, height: None };
    layout.merge(&partial);
    assert_eq!(layout.x, m(50.0));
    assert_eq!(layout.y, m(200.0));
    assert_eq!(layout.width, m(300.0));
    assert_eq!(layout.height, m(400.0));
}

#[test]
fn style_merge_only_set_fields() {
    let mut style = Style {
        fill: Some("#ff0000".to_string()),
        stroke: Some("#000000".to_string()),
        stroke_width: Some(m(2.0)),
        corner_radius: Some(m(8.0)),
        opacity: Some(m(1.0)),
        z_index: Some(3),
        clip: None,
    };
    let partial = Style {
        fill: Some("#00ff00".to_string()),
        stroke: None,
        stroke_width: None,
        corner_radius: None,
        opacity: None,
        z_index: None,
        clip: Some(true),
    };
    style.merge(&partial);
    assert_eq!(style.fill.as_deref(), Some("#00ff00"));
    assert_eq!(style.stroke.as_deref(), Some("#000000"));
    assert_eq!(style.stroke_width, Some(m(2.0)));
    assert_eq!(style.corner_radius, Some(m(8.0)));
    assert_eq!(style.opacity, Some(m(1.0)));
    assert_eq!(style.z_index, Some(3));
    assert_eq!(style.clip, Some(true));
}

#[test]
fn typography_merge_only_set_fields() {
    let mut typo = Typography {
        content: Some("Hello".to_string()),
        font_family: Some("Inter".to_string()),
        font_size: Some(m(16.0)),
        font_weight: Some(400),
        line_height: Some(m(1.5)),
        text_auto_size: None,
        color: Some("#111111".to_string()),
        text_align: Some(TextAlign::Left),
    };
    let partial = Typography {
        content: None,
        font_family: None,
        font_size: Some(m(24.0)),
        font_weight: None,
        line_height: None,
        text_auto_size: Some(true),
        color: None,
        text_align: Some(TextAlign::Center),
    };
    typo.merge(&partial);
    assert_eq!(typo.content.as_deref(), Some("Hello"));
    assert_eq!(typo.font_family.as_deref(), Some("Inter"));
    assert_eq!(typo.font_size, Some(m(24.0)));
    assert_eq!(typo.font_weight, Some(400));
    assert_eq!(typo.line_height, Some(m(1.5)));
    assert_eq!(typo.text_auto_size, Some(true));
    assert_eq!(typo.color.as_deref(), Some("#111111"));
    assert_eq!(typo.text_align, Some(TextAlign::Center));
}

#[test]
fn new_store_has_root() {
    let store = NodeStore::new();
    assert_eq!(store.len(), 1);
    let root = store.get(store.root_id()).unwrap();
    assert_eq!(root.name, "Document");
    assert_eq!(root.node_type, NodeType::Frame);
    assert!(root.parent_id.is_none());
}

#[test]
fn add_child_node() {
    let mut store = NodeStore::new();
    let root_id = store.root_id();
    let id = store.add("Header", NodeType::Frame, root_id).unwrap();
    assert_eq!(store.len(), 2);
    let node = store.get(id).unwrap();
    assert_eq!(node.name, "Header");
    assert_eq!(node.parent_id, Some(root_id));
    let root = store.get(root_id).unwrap();
    assert!(root.children.contains(&id));
}

#[test]
fn add_to_nonexistent_parent_fails() {
    let mut store = NodeStore::new();
    let fake_id = store.root_id() ^ 1;
    let result = store.add("Orphan", NodeType::Frame, fake_id);
    assert!(result.is_err());
}

#[test]
fn delete_node_removes_descendants() {
    let mut store = NodeStore::new();
    let root_id = store.root_id();
    let parent_id = store.add("Parent", NodeType::Frame, root_id).unwrap();
    let _child_id = store.add("Child", NodeType::Rectangle, parent_id).unwrap();
    let _grandchild_id = store.add("Grandchild", NodeType::Ellipse, parent_id).unwrap();
    assert_eq!(store.len(), 4);
    store.delete(parent_id).unwrap();
    assert_eq!(store.len(), 1);
}

#[test]
fn delete_root_fails() {
    let mut store = NodeStore::new();
    let root = store.root_id();
    let result = store.delete(root);
    assert!(result.is_err());
}

#[test]
fn move_node_to_new_parent() {
    let mut store = NodeStore::new();
    let root_id = store.root_id();
    let a = store.add("A", NodeType::Frame, root_id).unwrap();
    let b = store.add("B", NodeType::Frame, root_id).unwrap();
    let c = store.add("C", NodeType::Rectangle, a).unwrap();
    store.move_node(c, b).unwrap();
    let node_c = store.get(c).unwrap();
    assert_eq!(node_c.parent_id, Some(b));
    assert!(!store.get(a).unwrap().children.contains(&c));
    assert!(store.get(b).unwrap().children.contains(&c));
}

#[test]
fn move_node_prevents_cycle() {
    let mut store = NodeStore::new();
    let root_id = store.root_id();
    let a = store.add("A", NodeType::Frame, root_id).unwrap();
    let b = store.add("B", NodeType::Frame, a).unwrap();
    let result = store.move_node(a, b);
    assert!(result.is_err());
}

#[test]
fn edit_node_properties() {
    let mut store = NodeStore::new();
    let root_id = store.root_id();
    let id = store.add("Box", NodeType::Rectangle, root_id).unwrap();

    let node = store.get_mut(id).unwrap();
    node.name = "Red Box".to_string();
    node.style.fill = Some("#ff0000".to_string());
    node.layout.width = m(200.0);
    node.layout.height = m(100.0);

    let node = store.get(id).unwrap();
    assert_eq!(node.name, "Red Box");
    assert_eq!(node.style.fill.as_deref(), Some("#ff0000"));
    assert_eq!(node.layout.width, m(200.0));
}

#[test]
fn children_returns_ordered_list() {
    let mut store = NodeStore::new();
    let root_id = store.root_id();
    let a = store.add("A", NodeType::Frame, root_id).unwrap();
    let b = store.add("B", NodeType::Frame, root_id).unwrap();
    let c = store.add("C", NodeType::Frame, root_id).unwrap();
    let children = store.children(root_id).unwrap();
    assert_eq!(children.len(), 3);
    assert_eq!(children[0].id, a);
    assert_eq!(children[1].id, b);
    assert_eq!(children[2].id, c);
}

#[test]
fn serialization_roundtrip() {
    let mut store = NodeStore::new();
    let root_id = store.root_id();
    store.add("Header", NodeType::Frame, root_id).unwrap();

    let saved: Vec<(u128, Node)> = store.nodes().into_iter().map(|n| (n.id, n.duplicate())).collect();
    let restored = load_store(store.root_id(), &saved);
    assert_eq!(restored.len(), 2);
    assert_eq!(restored.root_id(), store.root_id());
}

#[test]
fn render_empty_document() {
    let store = NodeStore::new();
    let tree = render_tree(&store, &fmt_num);
    assert_eq!(tree, "Document (frame, 1920x1080)");
}

#[test]
fn render_nested_tree() {
    let mut store = NodeStore::new();
    let root = store.root_id();

    let header = store.add("Header", NodeType::Frame, root).unwrap();
    set_size(&mut store, header, 1920.0, 80.0);

    let logo = store.add("Logo", NodeType::Rectangle, header).unwrap();
    set_size(&mut store, logo, 120.0, 40.0);
    let mut style = store.get(logo).unwrap().style.clone();
    style.fill = Some("#1a1a2e".to_string());
    store.set_style(logo, style).unwrap();

    let title = store.add("Title", NodeType::Text, header).unwrap();
    let mut typo = store.get(title).unwrap().typography.clone();
    typo.content = Some("Wisp v0.1".to_string());
    store.set_typography(title, typo).unwrap();

    let tree = render_tree(&store, &fmt_num);
    let expected = "\
Document (frame, 1920x1080)
  Header (frame, 1920x80)
    Logo (rectangle, 120x40) fill=#1a1a2e
    Title (text) \"Wisp v0.1\"";
    assert_eq!(tree, expected);
}

#[test]
fn render_with_stroke() {
    let mut store = NodeStore::new();
    let root = store.root_id();
    let rect = store.add("Box", NodeType::Rectangle, root).unwrap();
    set_size(&mut store, rect, 100.0, 50.0);
    let mut style = store.get(rect).unwrap().style.clone();
    style.fill = Some("#fff".to_string());
    style.stroke = Some("#000".to_string());
    store.set_style(rect, style).unwrap();
    let tree = render_tree(&store, &fmt_num);
    assert!(tree.contains("fill=#fff stroke=#000"));
}

#[test]
fn undo_restores_previous_state() {
    let mut stack = UndoStack::new(10);
    let mut store = NodeStore::new();
    let root_id = store.root_id();
    stack.push(&store);
    store.add("A", NodeType::Frame, root_id).unwrap();
    assert_eq!(store.len(), 2);
    let restored = stack.undo(&store).unwrap();
    assert_eq!(restored.len(), 1);
}

#[test]
fn redo_restores_undone_state() {
    let mut stack = UndoStack::new(10);
    let mut store = NodeStore::new();
    let root_id = store.root_id();
    stack.push(&store);
    store.add("A", NodeType::Frame, root_id).unwrap();
    let prev = stack.undo(&store).unwrap();
    assert_eq!(prev.len(), 1);
    let redone = stack.redo(&prev).unwrap();
    assert_eq!(redone.len(), 2);
}

#[test]
fn new_mutation_clears_redo() {
    let mut stack = UndoStack::new(10);
    let mut store = NodeStore::new();
    let root_id = store.root_id();
    stack.push(&store);
    store.add("A", NodeType::Frame, root_id).unwrap();
    store = stack.undo(&store).unwrap();
    stack.push(&store);
    store.add("B", NodeType::Frame, root_id).unwrap();
    assert_eq!(stack.redo_count(), 0);
}

#[test]
fn max_depth_evicts_oldest() {
    let mut stack = UndoStack::new(3);
    let mut store = NodeStore::new();
    let root_id = store.root_id();
    for i in 0..5 {
        stack.push(&store);
        store.add(&format!("Node{i}"), NodeType::Frame, root_id).unwrap();
    }
    assert_eq!(stack.undo_count(), 3);
}

#[test]
fn undo_on_empty_returns_none() {
    let mut stack = UndoStack::new(10);
    let store = NodeStore::new();
    assert!(stack.undo(&store).is_none());
}

#[test]
fn redo_on_empty_returns_none() {
    let mut stack = UndoStack::new(10);
    let store = NodeStore::new();
    assert!(stack.redo(&store).is_none());
}

#[test]
fn multiple_undo_redo_cycles() {
    let mut stack = UndoStack::new(10);
    let mut store = NodeStore::new();
    let root_id = store.root_id();
    stack.push(&store);
    store.add("A", NodeType::Frame, root_id).unwrap();
    assert_eq!(store.len(), 2);
    stack.push(&store);
    store.add("B", NodeType::Frame, root_id).unwrap();
    assert_eq!(store.len(), 3);
    store = stack.undo(&store).unwrap();
    assert_eq!(store.len(), 2);
    store = stack.undo(&store).unwrap();
    assert_eq!(store.len(), 1);
    store = stack.redo(&store).unwrap();
    assert_eq!(store.len(), 2);
    store = stack.redo(&store).unwrap();
    assert_eq!(store.len(), 3);
}

#[test]
fn add_with_missing_parent_reports_not_found() {
    let mut store = NodeStore::new();
    let missing = store.root_id().wrapping_add(7);
    assert_eq!(store.add("X", NodeType::Group, missing), Err(StoreError::NotFound(missing)));
}

#[test]
fn fmt_num_integer() {
    assert_eq!(fmt_num(m(100.0)), "100");
    assert_eq!(fmt_num(m(0.0)), "0");
}

#[test]
fn fmt_num_fractional() {
    assert_eq!(fmt_num(m(10.5)), "10.5");
}

#[test]
fn whole_numbers_follow_saturating_cast() {
    assert_eq!(whole_number_value(m(-0.0)), Some(0));
    assert_eq!(whole_number_value(m(-5.0)), Some(-5));
    assert_eq!(whole_number_value(m(0.5)), None);
    assert_eq!(whole_number_value(m(f64::NAN)), None);
    assert_eq!(whole_number_value(m(f64::INFINITY)), Some(i64::MAX));
    assert_eq!(whole_number_value(m(f64::NEG_INFINITY)), Some(i64::MIN));
    assert_eq!(whole_number_value(m(1e300)), Some(i64::MAX));
    assert_eq!(whole_number_value(m(-9223372036854775808.0)), Some(i64::MIN));
    assert_eq!(whole_number_value(m(4503599627370497.0)), Some(4503599627370497));
    assert_eq!(whole_number_value(m(f64::MIN_POSITIVE / 2.0)), None);
    for v in [1.0f64, 3.0, 1024.0, 123456789.0, -77.0, 9007199254740992.0] {
        assert_eq!(whole_number_value(m(v)), Some(v as i64));
    }
    assert_eq!(whole_number_text(m(-42.0)).unwrap(), "-42");
}

fn outline(store: &NodeStore) -> Vec<(u128, String, Option<u128>, Vec<u128>)> {
    let mut v: Vec<_> = store
        .nodes()
        .into_iter()
        .map(|n| (n.id, n.name.clone(), n.parent_id, n.children.clone()))
        .collect();
    v.sort();
    v
}

#[test]
fn delete_after_add_restores_the_store() {
    let mut store = NodeStore::new();
    let root_id = store.root_id();
    let a = store.add("A", NodeType::Frame, root_id).unwrap();
    store.add("B", NodeType::Text, a).unwrap();
    let before = outline(&store);
    let c = store.add("C", NodeType::Group, a).unwrap();
    assert_ne!(outline(&store), before);
    store.delete(c).unwrap();
    assert_eq!(outline(&store), before);
}

#[test]
fn reload_keeps_documents_as_saved() {
    let mut store = NodeStore::new();
    let root_id = store.root_id();
    let a = store.add("A", NodeType::Frame, root_id).unwrap();
    let mut saved: Vec<(u128, Node)> = store.nodes().into_iter().map(|n| (n.id, n.duplicate())).collect();
    let restored = load_store(root_id, &saved);
    assert_eq!(outline(&restored), outline(&store));
    // a node whose parent is missing is loaded as it is
    for e in saved.iter_mut() {
        if e.0 == a {
            e.1.parent_id = Some(root_id ^ 3);
        }
    }
    let broken = load_store(root_id, &saved);
    assert_eq!(broken.len(), 2);
    assert_eq!(broken.get(a).unwrap().parent_id, Some(root_id ^ 3));
    // a later entry for the same key wins
    let mut renamed = store.get(a).unwrap().duplicate();
    renamed.name = "A2".to_string();
    saved.push((a, renamed));
    let again = load_store(root_id, &saved);
    assert_eq!(again.len(), 2);
    assert_eq!(again.get(a).unwrap().name, "A2");
}

#[test]
fn new_nodes_have_no_auto_layout() {
    let store = NodeStore::new();
    let root = store.get(store.root_id()).unwrap();
    assert_eq!(root.auto_layout, AutoLayout::default());
    assert_eq!(root.auto_layout.mode, LayoutMode::Manual);
}

#[test]
fn add_with_id_replaces_a_node_under_that_id() {
    let mut store = NodeStore::new();
    let root_id = store.root_id();
    let id = root_id ^ 0x77;
    store.add_with_id(id, "Fixed", NodeType::Rectangle, root_id).unwrap();
    assert_eq!(store.get(id).unwrap().name, "Fixed");
    store.add_with_id(id, "Again", NodeType::Ellipse, root_id).unwrap();
    assert_eq!(store.len(), 2);
    assert_eq!(store.get(id).unwrap().name, "Again");
    assert_eq!(store.get(root_id).unwrap().children, vec![id, id]);
    assert_eq!(store.add_with_id(5, "X", NodeType::Group, 6), Err(StoreError::NotFound(6)));
}

#[test]
fn get_mut_edits_a_node_in_place() {
    let mut store = NodeStore::new();
    let root_id = store.root_id();
    let id = store.add("Box", NodeType::Rectangle, root_id).unwrap();
    {
        let node = store.get_mut(id).unwrap();
        node.name = "Red Box".to_string();
        node.style.fill = Some("#ff0000".to_string());
        node.layout.width = m(200.0);
    }
    let node = store.get(id).unwrap();
    assert_eq!(node.name, "Red Box");
    assert_eq!(node.style.fill.as_deref(), Some("#ff0000"));
    assert_eq!(node.layout.width, m(200.0));
    assert!(store.get_mut(root_id ^ 1).is_err());
}

#[test]
fn stamp_with_given_ids() {
    let mut store = NodeStore::new();
    let root_id = store.root_id();
    let ids = vec![11u128, 12, 13, 14];
    stamp(ComponentKind::StatCard, &mut store, root_id, &ids).unwrap();
    assert_eq!(store.len(), 5);
    assert_eq!(store.get(11).unwrap().name, "Stat Card");
    assert_eq!(store.get(11).unwrap().children, vec![12, 13, 14]);
    assert_eq!(store.get(13).unwrap().typography.content.as_deref(), Some("0"));
    let before = outline(&store);
    // a missing parent leaves the store as it was
    assert_eq!(stamp(ComponentKind::Button, &mut store, 99, &vec![22, 23]), Err(StoreError::NotFound(99)));
    assert_eq!(outline(&store), before);
    stamp(ComponentKind::ChartBar, &mut store, 11, &vec![30, 31, 32]).unwrap();
    assert_eq!(store.get(30).unwrap().parent_id, Some(11));
    assert_eq!(store.get(31).unwrap().name, "Bar");
    // a taken id: the node stored under it is replaced
    stamp(ComponentKind::Button, &mut store, root_id, &vec![20, 12]).unwrap();
    assert_eq!(store.get(12).unwrap().parent_id, Some(20));
    assert_eq!(store.get(12).unwrap().typography.content.as_deref(), Some("Click me"));
}

#[test]
fn instantiate_under_missing_parent_changes_nothing() {
    let mut store = NodeStore::new();
    let missing = store.root_id() ^ 2;
    assert_eq!(instantiate_nav_item(&mut store, missing), Err(StoreError::NotFound(missing)));
    assert_eq!(store.len(), 1);
}
