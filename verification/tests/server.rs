use wisp::store::StoreError;
use wisp::workspace::node_type_named;
use wisp::model::{Layout, NodeType, PartialLayout, Style, Typography};
use wisp::protocol::{
    state_changed, ComponentUseParams, NodeCreateParams, NodeDeleteParams, NodeEditParams,
    NodeMoveParams, NodeQueryParams, NodeShowParams, StateChange, METHOD_NOT_FOUND, NODE_NOT_FOUND,
    OPERATION_FAILED, PARSE_ERROR,
};
use wisp::tree::whole_number_text;
use wisp::workspace::{parse_failure, unknown_method, Answer, Method, Reply, Workspace};

fn m(v: f64) -> u64 {
    v.to_bits()
}

fn fmt_num(b: u64) -> String {
    match whole_number_text(b) {
        Some(t) => t,
        None => format!("{}", f64::from_bits(b)),
    }
}

fn create(ws: &mut Workspace, name: &str, node_type: NodeType, parent_id: u128) -> Reply {
    ws.node_create(NodeCreateParams {
        name: name.to_string(),
        node_type,
        parent_id,
        layout: None,
        style: None,
        typography: None,
    })
}

fn created_id(r: &Reply) -> u128 {
    match &r.answer {
        Ok(Answer::Created(c)) => c.id,
        other => panic!("unexpected answer {other:?}"),
    }
}

fn no_edit(id: u128) -> NodeEditParams {
    NodeEditParams { id, name: None, layout: None, style: None, typography: None }
}

#[test]
fn test_node_create() {
    let mut ws = Workspace::new();
    let root_id = ws.store().root_id();
    let resp = create(&mut ws, "Header", NodeType::Frame, root_id);
    assert!(resp.answer.is_ok());
    let id = created_id(&resp);
    let node = ws.store().get(id).unwrap();
    assert_eq!(node.name, "Header");
    assert_eq!(resp.change, Some(StateChange::NodeCreated { id, parent_id: root_id }));
}

#[test]
fn test_node_edit() {
    let mut ws = Workspace::new();
    let root_id = ws.store().root_id();
    let id = created_id(&create(&mut ws, "Box", NodeType::Rectangle, root_id));
    let mut p = no_edit(id);
    p.name = Some("Red Box".to_string());
    p.style = Some(Style { fill: Some("#ff0000".to_string()), ..Style::default() });
    let resp = ws.node_edit(p);
    assert!(resp.answer.is_ok());
    let node = ws.store().get(id).unwrap();
    assert_eq!(node.name, "Red Box");
    assert_eq!(node.style.fill.as_deref(), Some("#ff0000"));
}

#[test]
fn test_node_delete() {
    let mut ws = Workspace::new();
    let root_id = ws.store().root_id();
    let id = created_id(&create(&mut ws, "Temp", NodeType::Rectangle, root_id));
    let resp = ws.node_delete(NodeDeleteParams { id });
    assert!(resp.answer.is_ok());
    assert_eq!(ws.store().len(), 1);
}

#[test]
fn test_tree_get() {
    let mut ws = Workspace::new();
    let root_id = ws.store().root_id();
    create(&mut ws, "Header", NodeType::Frame, root_id);
    let resp = ws.tree_get(&fmt_num);
    match resp.answer {
        Ok(Answer::Tree(t)) => {
            assert!(t.tree.contains("Document"));
            assert!(t.tree.contains("Header"));
        }
        other => panic!("unexpected answer {other:?}"),
    }
}

#[test]
fn test_node_query() {
    let mut ws = Workspace::new();
    let root_id = ws.store().root_id();
    create(&mut ws, "Header", NodeType::Frame, root_id);
    create(&mut ws, "Footer", NodeType::Frame, root_id);
    let resp = ws.node_query(&NodeQueryParams { name: "head".to_string() });
    match resp.answer {
        Ok(Answer::Found(r)) => {
            assert_eq!(r.nodes.len(), 1);
            assert_eq!(r.nodes[0].name, "Header");
        }
        other => panic!("unexpected answer {other:?}"),
    }
}

#[test]
fn test_partial_edit_preserves_unset_fields() {
    let mut ws = Workspace::new();
    let root_id = ws.store().root_id();
    let resp = ws.node_create(NodeCreateParams {
        name: "Box".to_string(),
        node_type: NodeType::Rectangle,
        parent_id: root_id,
        layout: Some(Layout { x: m(100.0), y: m(200.0), width: m(300.0), height: m(400.0) }),
        style: Some(Style { fill: Some("#ff0000".to_string()), opacity: Some(m(0.8)), ..Style::default() }),
        typography: None,
    });
    let id = created_id(&resp);
    let mut p = no_edit(id);
    p.style = Some(Style { fill: Some("#00ff00".to_string()), ..Style::default() });
    let resp = ws.node_edit(p);
    assert!(resp.answer.is_ok());
    let node = ws.store().get(id).unwrap();
    assert_eq!(node.style.fill.as_deref(), Some("#00ff00"));
    assert_eq!(node.style.opacity, Some(m(0.8)));
    assert_eq!(node.layout.x, m(100.0));
    assert_eq!(node.layout.y, m(200.0));
    assert_eq!(node.layout.width, m(300.0));
    assert_eq!(node.layout.height, m(400.0));
}

#[test]
fn test_partial_layout_edit() {
    let mut ws = Workspace::new();
    let root_id = ws.store().root_id();
    let resp = ws.node_create(NodeCreateParams {
        name: "Box".to_string(),
        node_type: NodeType::Rectangle,
        parent_id: root_id,
        layout: Some(Layout { x: m(100.0), y: m(200.0), width: m(300.0), height: m(400.0) }),
        style: None,
        typography: None,
    });
    let id = created_id(&resp);
    let mut p = no_edit(id);
    p.layout = Some(PartialLayout { x: Some(m(50.0)), y: None, width: None, height: None });
    let resp = ws.node_edit(p);
    assert!(resp.answer.is_ok());
    let node = ws.store().get(id).unwrap();
    assert_eq!(node.layout.x, m(50.0));
    assert_eq!(node.layout.y, m(200.0));
    assert_eq!(node.layout.width, m(300.0));
    assert_eq!(node.layout.height, m(400.0));
}

#[test]
fn test_component_list() {
    let ws = Workspace::new();
    let resp = ws.component_list();
    match resp.answer {
        Ok(Answer::Components(r)) => {
            assert_eq!(r.components.len(), 4);
            assert!(r.components.iter().any(|c| c.name == "stat-card"));
        }
        other => panic!("unexpected answer {other:?}"),
    }
}

#[test]
fn test_component_use_stat_card() {
    let mut ws = Workspace::new();
    let root_id = ws.store().root_id();
    let resp = ws.component_use(&ComponentUseParams {
        name: "stat-card".to_string(),
        parent_id: root_id,
        x: None,
        y: None,
        label: None,
        value: None,
    });
    match resp.answer {
        Ok(Answer::Used(r)) => assert_eq!(r.ids.len(), 4),
        other => panic!("unexpected answer {other:?}"),
    }
    assert_eq!(ws.store().len(), 5);
}

#[test]
fn test_component_use_unknown() {
    let mut ws = Workspace::new();
    let resp = ws.component_use(&ComponentUseParams {
        name: "nonexistent".to_string(),
        parent_id: 0,
        x: None,
        y: None,
        label: None,
        value: None,
    });
    assert!(resp.answer.is_err());
}

#[test]
fn test_undo_redo() {
    let mut ws = Workspace::new();
    let root_id = ws.store().root_id();
    let resp = create(&mut ws, "UndoTest", NodeType::Frame, root_id);
    assert!(resp.answer.is_ok());
    assert_eq!(ws.store().len(), 2);
    let resp = ws.undo();
    assert!(resp.answer.is_ok());
    assert_eq!(ws.store().len(), 1);
    let resp = ws.redo();
    assert!(resp.answer.is_ok());
    assert_eq!(ws.store().len(), 2);
}

#[test]
fn test_process_invalid_json() {
    let f = parse_failure("expected value at line 1 column 1");
    assert_eq!(f.code, PARSE_ERROR);
    assert!(f.message.starts_with("Parse error: "));
}

#[test]
fn test_process_unknown_method() {
    assert!(Method::from_name("foo.bar").is_none());
    let f = unknown_method("foo.bar");
    assert_eq!(f.code, METHOD_NOT_FOUND);
    assert_eq!(f.message, "Unknown method: foo.bar");
}

#[test]
fn state_change_notification() {
    let change = StateChange::NodeCreated { id: 1, parent_id: 2 };
    assert_eq!(state_changed(), "state.changed");
    assert_eq!(change.kind(), "node.created");
}

#[test]
fn e2e_nil_uuid_uses_root() {
    let mut ws = Workspace::new();
    let root_id = ws.store().root_id();
    let resp = create(&mut ws, "TestNode", NodeType::Frame, 0);
    let id = created_id(&resp);
    assert_eq!(ws.store().get(id).unwrap().parent_id, Some(root_id));
    match ws.tree_get(&fmt_num).answer {
        Ok(Answer::Tree(t)) => assert!(t.tree.contains("TestNode")),
        other => panic!("unexpected answer {other:?}"),
    }
}

#[test]
fn edit_of_missing_node_is_node_not_found() {
    let mut ws = Workspace::new();
    let missing = ws.store().root_id() ^ 5;
    let resp = ws.node_edit(no_edit(missing));
    match resp.answer {
        Err(f) => assert_eq!(f.code, NODE_NOT_FOUND),
        other => panic!("unexpected answer {other:?}"),
    }
    assert!(resp.change.is_none());
}

#[test]
fn move_into_own_child_fails_and_undo_restores() {
    let mut ws = Workspace::new();
    let root_id = ws.store().root_id();
    let a = created_id(&create(&mut ws, "A", NodeType::Frame, root_id));
    let b = created_id(&create(&mut ws, "B", NodeType::Frame, a));
    let resp = ws.node_move(NodeMoveParams { id: a, new_parent_id: b });
    match resp.answer {
        Err(f) => {
            assert_eq!(f.code, OPERATION_FAILED);
            assert_eq!(f.message, "cannot move node under itself or its descendant");
        }
        other => panic!("unexpected answer {other:?}"),
    }
    let resp = ws.node_move(NodeMoveParams { id: b, new_parent_id: root_id });
    assert_eq!(resp.change, Some(StateChange::NodeMoved { id: b, new_parent_id: root_id }));
    assert_eq!(ws.store().get(b).unwrap().parent_id, Some(root_id));
    ws.undo();
    assert_eq!(ws.store().get(b).unwrap().parent_id, Some(a));
}

#[test]
fn show_and_root_get() {
    let mut ws = Workspace::new();
    let root_id = ws.store().root_id();
    let id = created_id(&create(&mut ws, "Shown", NodeType::Ellipse, root_id));
    match ws.node_show(NodeShowParams { id }).answer {
        Ok(Answer::Shown(s)) => assert_eq!(s.node.name, "Shown"),
        other => panic!("unexpected answer {other:?}"),
    }
    match ws.root_get().answer {
        Ok(Answer::Root { root_id: r }) => assert_eq!(r, root_id),
        other => panic!("unexpected answer {other:?}"),
    }
}

#[test]
fn undo_with_empty_history_fails() {
    let mut ws = Workspace::new();
    match ws.undo().answer {
        Err(f) => assert_eq!(f.message, "Nothing to undo"),
        other => panic!("unexpected answer {other:?}"),
    }
    match ws.redo().answer {
        Err(f) => assert_eq!(f.message, "Nothing to redo"),
        other => panic!("unexpected answer {other:?}"),
    }
}

#[test]
fn unknown_component_message() {
    let mut ws = Workspace::new();
    let resp = ws.component_use(&ComponentUseParams {
        name: "widget".to_string(),
        parent_id: 0,
        x: None,
        y: None,
        label: None,
        value: None,
    });
    match resp.answer {
        Err(f) => assert!(f.message.contains("widget")),
        other => panic!("unexpected answer {other:?}"),
    }
}

fn uuid_string(id: u128) -> String {
    uuid::Uuid::from_u128(id).to_string()
}

#[test]
fn desktop_create_node() {
    let mut ws = Workspace::new();
    let root_id = ws.store().root_id();
    let (id, change) = ws.create_node_command("Panel", "group", &uuid_string(root_id)).unwrap();
    assert_eq!(change, StateChange::NodeCreated { id, parent_id: root_id });
    assert_eq!(ws.store().get(id).unwrap().node_type, NodeType::Group);
    assert_eq!(ws.history().undo_count(), 0);
    assert_eq!(
        ws.create_node_command("X", "circle", &uuid_string(root_id)).unwrap_err(),
        "Invalid node type: unknown variant `circle`, expected one of `frame`, `text`, `rectangle`, `ellipse`, `group`"
    );
    assert!(ws.create_node_command("X", "frame", "not-a-uuid").unwrap_err().starts_with("Invalid UUID: "));
    let missing = uuid_string(root_id ^ 9);
    assert!(ws.create_node_command("X", "frame", &missing).unwrap_err().starts_with("node not found: "));
    assert_eq!(node_type_named("ellipse"), Some(NodeType::Ellipse));
    assert_eq!(node_type_named("Frame"), None);
}

#[test]
fn uuid_text_matches_uuid_crate() {
    let id = 0x0123_4567_89ab_cdef_0011_2233_4455_6677u128;
    assert_eq!(
        StoreError::NotFound(id).message(),
        "node not found: 01234567-89ab-cdef-0011-223344556677"
    );
    assert_eq!(StoreError::DeleteRoot.message(), "cannot delete root node");
}

fn tree_text(ws: &Workspace) -> String {
    match ws.tree_get(&fmt_num).answer {
        Ok(Answer::Tree(t)) => t.tree,
        other => panic!("unexpected answer {other:?}"),
    }
}

#[test]
fn e2e_full_lifecycle() {
    let mut ws = Workspace::new();
    let root_id = match ws.root_get().answer {
        Ok(Answer::Root { root_id }) => root_id,
        other => panic!("unexpected answer {other:?}"),
    };
    let header = created_id(&ws.node_create(NodeCreateParams {
        name: "Header".to_string(),
        node_type: NodeType::Frame,
        parent_id: root_id,
        layout: Some(Layout { x: m(0.0), y: m(0.0), width: m(1920.0), height: m(80.0) }),
        style: None,
        typography: None,
    }));
    let title = created_id(&ws.node_create(NodeCreateParams {
        name: "Title".to_string(),
        node_type: NodeType::Text,
        parent_id: header,
        layout: None,
        style: None,
        typography: Some(Typography { content: Some("Wisp v0.1".to_string()), ..Typography::default() }),
    }));
    let mut p = no_edit(title);
    p.name = Some("Main Title".to_string());
    p.style = Some(Style { fill: Some("#1a1a2e".to_string()), ..Style::default() });
    assert!(ws.node_edit(p).answer.is_ok());

    let tree = tree_text(&ws);
    assert!(tree.contains("Document"));
    assert!(tree.contains("Header"));
    assert!(tree.contains("Main Title"));
    assert!(tree.contains("fill=#1a1a2e"));

    match ws.node_show(NodeShowParams { id: title }).answer {
        Ok(Answer::Shown(s)) => {
            assert_eq!(s.node.name, "Main Title");
            assert_eq!(s.node.typography.content.as_deref(), Some("Wisp v0.1"));
        }
        other => panic!("unexpected answer {other:?}"),
    }
    match ws.node_query(&NodeQueryParams { name: "title".to_string() }).answer {
        Ok(Answer::Found(r)) => {
            assert_eq!(r.nodes.len(), 1);
            assert_eq!(r.nodes[0].name, "Main Title");
        }
        other => panic!("unexpected answer {other:?}"),
    }
    assert!(ws.node_delete(NodeDeleteParams { id: title }).answer.is_ok());
    let tree = tree_text(&ws);
    assert!(!tree.contains("Main Title"));
    assert!(tree.contains("Header"));
    assert!(ws.node_delete(NodeDeleteParams { id: root_id }).answer.is_err());
    assert_eq!(unknown_method("foo.bar").code, METHOD_NOT_FOUND);
}

#[test]
fn node_create_with_given_id() {
    let mut ws = Workspace::new();
    let root_id = ws.store().root_id();
    let p = NodeCreateParams {
        name: "Header".to_string(),
        node_type: NodeType::Frame,
        parent_id: root_id,
        layout: None,
        style: None,
        typography: None,
    };
    let resp = ws.node_create_with_id(p.clone(), 42);
    assert_eq!(created_id(&resp), 42);
    assert_eq!(ws.store().get(root_id).unwrap().children, vec![42]);
    assert_eq!(ws.history().undo_count(), 1);
    let again = ws.node_create_with_id(p.clone(), 42);
    assert_eq!(created_id(&again), 42);
    assert_eq!(ws.store().len(), 2);
    assert_eq!(ws.store().get(root_id).unwrap().children, vec![42, 42]);
    let mut orphan = p;
    orphan.parent_id = 7;
    match ws.node_create_with_id(orphan, 43).answer {
        Err(f) => assert_eq!(f.code, NODE_NOT_FOUND),
        other => panic!("unexpected answer {other:?}"),
    }
}

#[test]
fn missing_ids_answer_node_not_found() {
    let mut ws = Workspace::new();
    let root_id = ws.store().root_id();
    let a = created_id(&create(&mut ws, "A", NodeType::Frame, root_id));
    let missing = root_id ^ a ^ 1;
    for resp in [
        ws.node_delete(NodeDeleteParams { id: missing }),
        ws.node_move(NodeMoveParams { id: missing, new_parent_id: root_id }),
        ws.node_move(NodeMoveParams { id: a, new_parent_id: missing }),
        create(&mut ws, "B", NodeType::Frame, missing),
    ] {
        match resp.answer {
            Err(f) => assert_eq!(f.code, NODE_NOT_FOUND),
            other => panic!("unexpected answer {other:?}"),
        }
    }
    match ws.node_delete(NodeDeleteParams { id: root_id }).answer {
        Err(f) => assert_eq!(f.code, OPERATION_FAILED),
        other => panic!("unexpected answer {other:?}"),
    }
}

#[test]
fn undo_and_redo_announce_the_change() {
    let mut ws = Workspace::new();
    let root_id = ws.store().root_id();
    create(&mut ws, "A", NodeType::Frame, root_id);
    let u = ws.undo();
    assert_eq!(u.change, Some(StateChange::DocUndone));
    assert_eq!(StateChange::DocUndone.kind(), "doc.undone");
    let r = ws.redo();
    assert_eq!(r.change, Some(StateChange::DocRedone));
    assert!(ws.undo().change.is_some());
    assert!(ws.undo().change.is_none());
}

#[test]
fn component_use_with_given_ids() {
    let mut ws = Workspace::new();
    let root_id = ws.store().root_id();
    let params = ComponentUseParams {
        name: "button".to_string(),
        parent_id: 0,
        x: Some(m(5.0)),
        y: None,
        label: Some("Go".to_string()),
        value: None,
    };
    let resp = ws.component_use_with_ids(&params, &vec![100, 101]);
    match &resp.answer {
        Ok(Answer::Used(r)) => assert_eq!(r.ids, vec![100, 101]),
        other => panic!("unexpected answer {other:?}"),
    }
    assert_eq!(resp.change, Some(StateChange::NodeCreated { id: 100, parent_id: root_id }));
    assert_eq!(ws.store().get(100).unwrap().layout.x, m(5.0));
    assert_eq!(ws.store().get(101).unwrap().typography.content.as_deref(), Some("Go"));
    let again = ws.component_use_with_ids(&params, &vec![102, 101]);
    assert!(again.answer.is_ok());
    assert_eq!(ws.store().len(), 4);
    assert_eq!(ws.store().get(101).unwrap().parent_id, Some(102));
    assert_eq!(ws.history().undo_count(), 2);
}
