use wisp::text::push_decimal;
use wisp::screenshot::{
    delivery_result, no_emitter_error, screenshot_request_id, screenshot_result, ScreenshotWait,
};
use wisp::cli::{build_request, shell_split, Command, ComponentAction, Field, NodeAction, NodeFields};
use wisp::client::{
    notification_line, response_output, screenshot_saved_line, session_refusal,
    session_step, trim, watch_action, Line, Output, ReplyFacts, Response, SessionStep, WatchAction,
};

fn no_fields() -> NodeFields {
    NodeFields {
        x: None,
        y: None,
        width: None,
        height: None,
        fill: None,
        stroke: None,
        stroke_width: None,
        text: None,
        font_size: None,
        font_family: None,
        font_weight: None,
        color: None,
        text_align: None,
        radius: None,
        opacity: None,
        z_index: None,
        clip: false,
        text_wrap: false,
        layout_mode: None,
        direction: None,
        align: None,
        justify: None,
        gap: None,
        padding: None,
    }
}

fn facts() -> ReplyFacts {
    ReplyFacts {
        tree: None,
        path: None,
        bytes: None,
        components: None,
        ids: None,
        undo_available: None,
        redo_available: None,
        id: None,
        has_node: false,
        png_base64: None,
    }
}

fn stdout_lines(o: &Output) -> Vec<String> {
    match o {
        Output::Print(v) => v
            .iter()
            .map(|l| match l {
                Line::Stdout(s) => s.clone(),
                Line::Stderr(s) => format!("E:{s}"),
                Line::ResultJson => "<result>".to_string(),
                Line::NodeJson => "<node>".to_string(),
            })
            .collect(),
        other => panic!("unexpected output {other:?}"),
    }
}

fn field_str(f: &Field) -> String {
    match f {
        Field::Str(s) => s.clone(),
        other => panic!("unexpected field {other:?}"),
    }
}

#[test]
fn shell_split_respects_quotes() {
    assert_eq!(
        shell_split("node add \"My Header\" -t\tframe"),
        vec!["node", "add", "My Header", "-t", "frame"]
    );
    assert!(shell_split("   ").is_empty());
    assert_eq!(shell_split("a\"\"b"), vec!["ab"]);
}

#[test]
fn tree_request_has_no_params() {
    let r = build_request(&Command::Tree).unwrap();
    assert_eq!(r.method, "tree.get");
    assert!(r.params.fields.is_empty() && r.params.groups.is_empty());
}

#[test]
fn watch_and_session_are_not_requests() {
    assert_eq!(build_request(&Command::Watch).unwrap_err(), "watch/session are handled separately");
    assert!(build_request(&Command::Session).is_err());
}

#[test]
fn node_add_defaults_parent_to_nil_and_fills_layout() {
    let mut f = no_fields();
    f.width = Some(200f64.to_bits());
    f.fill = Some("#fff".to_string());
    f.clip = true;
    let cmd = Command::Node(NodeAction::Add {
        name: "Card".to_string(),
        node_type: "frame".to_string(),
        parent: None,
        fields: f,
    });
    let r = build_request(&cmd).unwrap();
    assert_eq!(r.method, "node.create");
    assert_eq!(r.params.fields.len(), 3);
    assert_eq!(r.params.fields[2].0, "parent_id");
    assert_eq!(field_str(&r.params.fields[2].1), "00000000-0000-0000-0000-000000000000");
    assert_eq!(r.params.groups.len(), 2);
    let (name, layout) = &r.params.groups[0];
    assert_eq!(name, "layout");
    assert_eq!(layout.len(), 4);
    assert!(matches!(layout[0].1, Field::Num(0)));
    assert!(matches!(layout[2].1, Field::Num(b) if b == 200f64.to_bits()));
    let (name, style) = &r.params.groups[1];
    assert_eq!(name, "style");
    assert_eq!(style.len(), 2);
    assert!(matches!(style[1].1, Field::Bool(true)));
}

#[test]
fn node_edit_sends_only_given_fields() {
    let mut f = no_fields();
    f.x = Some(5f64.to_bits());
    f.font_weight = Some(700);
    let cmd = Command::Node(NodeAction::Edit { id: "abc".to_string(), name: None, fields: f });
    let r = build_request(&cmd).unwrap();
    assert_eq!(r.method, "node.edit");
    assert_eq!(r.params.fields.len(), 1);
    assert_eq!(r.params.groups.len(), 2);
    assert_eq!(r.params.groups[0].0, "layout");
    assert_eq!(r.params.groups[0].1.len(), 1);
    assert_eq!(r.params.groups[1].0, "typography");
    assert!(matches!(r.params.groups[1].1[0].1, Field::Int(700)));
}

#[test]
fn component_use_request_fields() {
    let cmd = Command::Components(ComponentAction::Use {
        name: "button".to_string(),
        parent: Some("p".to_string()),
        x: None,
        y: Some(3f64.to_bits()),
        label: Some("Go".to_string()),
        value: None,
    });
    let r = build_request(&cmd).unwrap();
    assert_eq!(r.method, "component.use");
    let keys: Vec<&str> = r.params.fields.iter().map(|e| e.0.as_str()).collect();
    assert_eq!(keys, vec!["name", "parent_id", "y", "label"]);
}

#[test]
fn session_lines() {
    assert!(matches!(session_step("   \t", false), SessionStep::Skip));
    assert!(matches!(session_step("  quit ", false), SessionStep::Quit));
    assert!(matches!(session_step("exit", true), SessionStep::Quit));
    match session_step(" tree ", true) {
        SessionStep::Run(args) => assert_eq!(args, vec!["wisp", "--json", "tree"]),
        other => panic!("unexpected step {other:?}"),
    }
    assert_eq!(session_refusal(&Command::Watch).unwrap(), "Cannot nest session/watch commands");
    assert!(session_refusal(&Command::Tree).is_none());
}

#[test]
fn trim_removes_unicode_white_space() {
    assert_eq!(trim("\u{3000} a b \n"), "a b");
    assert_eq!(trim(""), "");
}

#[test]
fn notification_lines() {
    let s = |v: &str| Some(v.to_string());
    assert_eq!(notification_line(&s("node.created"), &s("id1"), &None, "{}"), "[created] id1");
    assert_eq!(notification_line(&s("node.moved"), &s("a"), &s("b"), "{}"), "[moved] a -> b");
    assert_eq!(notification_line(&s("node.deleted"), &None, &None, "{}"), "[deleted] ?");
    assert_eq!(notification_line(&None, &None, &None, "{\"x\":1}"), "[unknown] {\"x\":1}");
}

#[test]
fn watch_actions() {
    let sc = Some("state.changed".to_string());
    assert_eq!(watch_action(&sc, false, false), WatchAction::Line);
    assert_eq!(watch_action(&sc, false, true), WatchAction::ParamsJson);
    assert_eq!(watch_action(&Some("x".to_string()), false, true), WatchAction::Ignore);
    assert_eq!(watch_action(&None, true, true), WatchAction::ResponseJson);
    assert_eq!(watch_action(&None, true, false), WatchAction::Ignore);
}

#[test]
fn decimal_numerals() {
    let mut s = String::new();
    push_decimal(&mut s, 0);
    assert_eq!(s, "0");
    let mut s = "n=".to_string();
    push_decimal(&mut s, 18446744073709551615);
    assert_eq!(s, "n=18446744073709551615");
}

#[test]
fn server_error_output() {
    let r = Response::Failed { code: -32000, message: "node not found".to_string() };
    let o = response_output(&Command::Tree, false, &r);
    assert_eq!(stdout_lines(&o), vec!["E:Server error [-32000]: node not found"]);
}

#[test]
fn json_mode_prints_result() {
    let o = response_output(&Command::Undo, true, &Response::Succeeded(facts()));
    assert_eq!(stdout_lines(&o), vec!["<result>"]);
}

#[test]
fn history_and_save_lines() {
    let mut f = facts();
    f.undo_available = Some(3);
    let o = response_output(&Command::Undo, false, &Response::Succeeded(f));
    assert_eq!(stdout_lines(&o), vec!["Undone (undo: 3, redo: 0)"]);
    let mut f = facts();
    f.path = Some("/tmp/a.json".to_string());
    f.bytes = Some(1234);
    let o = response_output(&Command::Save { path: "a.json".to_string() }, false, &Response::Succeeded(f));
    assert_eq!(stdout_lines(&o), vec!["Saved to /tmp/a.json (1234 bytes)"]);
}

#[test]
fn component_list_is_padded() {
    let mut f = facts();
    f.components = Some(vec![
        (Some("button".to_string()), Some("Clickable".to_string())),
        (None, None),
        (Some("a-very-long-template-name".to_string()), Some("d".to_string())),
    ]);
    let o = response_output(&Command::Components(ComponentAction::List), false, &Response::Succeeded(f));
    assert_eq!(
        stdout_lines(&o),
        vec![
            "  button           Clickable",
            "  ?                ",
            "  a-very-long-template-name d"
        ]
    );
}

#[test]
fn component_use_lines() {
    let mut f = facts();
    f.ids = Some(vec![Some("r1".to_string()), None]);
    let cmd = Command::Components(ComponentAction::Use {
        name: "stat-card".to_string(),
        parent: None,
        x: None,
        y: None,
        label: None,
        value: None,
    });
    let o = response_output(&cmd, false, &Response::Succeeded(f));
    assert_eq!(stdout_lines(&o), vec!["Created stat-card (2 nodes)", "  root: r1"]);
}

#[test]
fn screenshot_outputs() {
    let cmd = Command::Screenshot { out: "shot.png".to_string() };
    let mut f = facts();
    f.png_base64 = Some(String::new());
    match response_output(&cmd, false, &Response::Succeeded(f)) {
        Output::Abort(m) => assert_eq!(m, "Screenshot capture failed (no canvas element?)"),
        other => panic!("unexpected output {other:?}"),
    }
    let mut f = facts();
    f.png_base64 = Some("aGk=".to_string());
    match response_output(&cmd, false, &Response::Succeeded(f)) {
        Output::SavePng { out, png } => {
            assert_eq!(out, "shot.png");
            assert_eq!(png, b"hi".to_vec());
        }
        other => panic!("unexpected output {other:?}"),
    }
    let mut f = facts();
    f.png_base64 = Some("!!".to_string());
    match response_output(&cmd, false, &Response::Succeeded(f)) {
        Output::Fail(m) => assert!(m.starts_with("Base64 decode error: ")),
        other => panic!("unexpected output {other:?}"),
    }
    assert_eq!(screenshot_saved_line("shot.png", 2), "Screenshot saved to shot.png (2 bytes)");
}

#[test]
fn screenshot_relay_answers() {
    let id = screenshot_request_id();
    assert!(id.starts_with("ss-"));
    assert_eq!(id.len(), 39);
    assert_eq!(&id[17..18], "4");
    assert_ne!(id, screenshot_request_id());
    assert_eq!(screenshot_result(ScreenshotWait::Delivered("abc".to_string())), Ok("abc".to_string()));
    assert_eq!(screenshot_result(ScreenshotWait::Closed), Err("Screenshot channel closed".to_string()));
    assert_eq!(screenshot_result(ScreenshotWait::TimedOut), Err("Screenshot timed out (10s)".to_string()));
    assert_eq!(no_emitter_error(), "Screenshot emitter not configured (app not running?)");
    assert_eq!(delivery_result("ss-1", false, true), Err("No pending screenshot request: ss-1".to_string()));
    assert_eq!(delivery_result("ss-1", true, false), Err("Failed to deliver screenshot".to_string()));
    assert_eq!(delivery_result("ss-1", true, true), Ok(()));
}
