//! The running turn's tool-call group, the flush between agent rounds, and
//! the build output window.

use stemcell_tui::message_expand::ToolCallEntry;
use stemcell_tui::tool_markers::{split_tool_markers, MarkerSegment};
use stemcell_tui::tool_group::{
    all_completed, build_progress_text, cut_turn_appends, cut_turn_content, call_completed, call_started, intermediate_flush, push_build_line,
    FlushItem, ToolCallGroup, BUILD_LINES_SHOWN,
};

fn running(desc: &str) -> ToolCallEntry {
    ToolCallEntry {
        description: desc.to_string(),
        success: true,
        details: None,
        completed: false,
        input_json: Some("{}".to_string()),
    }
}

#[test]
fn completion_updates_the_newest_running_call() {
    let g = call_started(None, running("bash: ls"));
    assert!(!g.expanded);
    let g = call_started(Some(g), running("Read a"));
    let g = call_started(Some(g), running("bash: ls"));
    assert!(!all_completed(&g));
    let g = call_completed(Some(g), "bash: ls".to_string(), false, Some("err".to_string()), None);
    assert_eq!(g.calls.len(), 3);
    assert!(!g.calls[0].completed);
    assert!(g.calls[2].completed);
    assert!(!g.calls[2].success);
    assert_eq!(g.calls[2].details.as_deref(), Some("err"));
    assert_eq!(g.calls[2].input_json.as_deref(), Some("{}"));
    let g = call_completed(Some(g), "bash: ls".to_string(), true, None, None);
    assert!(g.calls[0].completed);
    let g = call_completed(Some(g), "Read a".to_string(), true, None, None);
    assert!(all_completed(&g));
    // A completion without a running call is added as a finished call.
    let g = call_completed(Some(g), "Write b".to_string(), true, None, None);
    assert_eq!(g.calls.len(), 4);
    assert!(g.calls[3].completed);
    let fresh = call_completed(None, "x".to_string(), true, None, None);
    assert_eq!(fresh, ToolCallGroup { calls: vec![ToolCallEntry {
        description: "x".to_string(), success: true, details: None, completed: true, input_json: None,
    }], expanded: false });
}

#[test]
fn flush_orders_group_and_text() {
    let a = |c: &str, d: Option<&str>| FlushItem::Assistant { content: c.to_string(), details: d.map(|x| x.to_string()) };
    assert_eq!(intermediate_flush("Hi", "Hi", None, true), vec![FlushItem::ToolGroup, a("Hi", None)]);
    // Stripping everything falls back to the raw text.
    assert_eq!(intermediate_flush("<x/>", "", Some("r"), false), vec![a("<x/>", Some("r"))]);
    assert_eq!(intermediate_flush("", "", Some("think"), true), vec![a("", Some("think")), FlushItem::ToolGroup]);
    assert_eq!(intermediate_flush(" ", " ", Some(" "), true), vec![FlushItem::ToolGroup]);
    assert_eq!(intermediate_flush("", "", None, false), vec![]);
}

#[test]
fn build_window_keeps_the_newest_lines() {
    let mut lines: Vec<String> = Vec::new();
    for i in 0..8 {
        push_build_line(&mut lines, format!("Compiling c{i}"));
    }
    assert_eq!(lines.len(), BUILD_LINES_SHOWN);
    assert_eq!(lines[0], "Compiling c2");
    assert_eq!(lines[5], "Compiling c7");
    let text = build_progress_text(&vec!["a".to_string(), "b".to_string()]);
    assert_eq!(text, "🦀 Building StemCell...\na\nb");
    assert_eq!(build_progress_text(&vec![]), "🦀 Building StemCell...\n");
}

#[test]
fn cut_turn_saves_calls_and_streamed_text() {
    assert_eq!(
        cut_turn_content(Some(r#"[{"d":"bash: ls","s":true,"i":null}]"#), Some("partial")),
        Some("\n<!-- tools-v2: [{\"d\":\"bash: ls\",\"s\":true,\"i\":null}] -->\npartial\n\n".to_string())
    );
    assert_eq!(cut_turn_content(None, Some("  ")), None);
    assert_eq!(cut_turn_content(None, None), None);
    assert_eq!(cut_turn_content(None, Some("x")), Some("x\n\n".to_string()));
    assert!(cut_turn_appends(Some("assistant")));
    assert!(!cut_turn_appends(Some("user")));
    assert!(!cut_turn_appends(None));
}

#[test]
fn cut_turn_reloads_as_marker_then_text() {
    let json = r#"[{"d":"read: a.rs","s":null,"i":{"path":"a.rs"}}]"#;
    let saved = cut_turn_content(Some(json), Some("  half a sentence ")).unwrap();
    assert_eq!(
        split_tool_markers(&saved),
        vec![
            MarkerSegment::ToolsV2(json.to_string()),
            MarkerSegment::Text("half a sentence".to_string()),
        ]
    );
    let only_calls = cut_turn_content(Some(json), Some(" ")).unwrap();
    assert_eq!(split_tool_markers(&only_calls), vec![MarkerSegment::ToolsV2(json.to_string())]);
    let only_text = cut_turn_content(None, Some("done")).unwrap();
    assert_eq!(split_tool_markers(&only_text), vec![MarkerSegment::Text("done".to_string())]);
}
