//! Splitting stored assistant messages at their tool-call markers.

use stemcell_tui::tool_markers::{
    message_expansion, split_tool_markers, tool_group_label, Expansion, MarkerSegment,
};

fn text(s: &str) -> MarkerSegment {
    MarkerSegment::Text(s.to_string())
}

#[test]
fn v1_marker_between_texts() {
    let segs = split_tool_markers("Before\n<!-- tools: Read a.rs | bash: ls -->\nAfter");
    assert_eq!(
        segs,
        vec![
            text("Before"),
            MarkerSegment::ToolsV1(vec!["Read a.rs".to_string(), "bash: ls".to_string()]),
            text("After"),
        ]
    );
}

#[test]
fn v2_marker_with_arrow_inside_json() {
    let content = "x <!-- tools-v2: [{\"d\":\"bash\",\"o\":\"--> src/main.rs:42\"}] --> y";
    let segs = split_tool_markers(content);
    assert_eq!(
        segs,
        vec![
            text("x"),
            MarkerSegment::ToolsV2("[{\"d\":\"bash\",\"o\":\"--> src/main.rs:42\"}]".to_string()),
            text("y"),
        ]
    );
}

#[test]
fn earlier_marker_kind_comes_first() {
    let segs = split_tool_markers("<!-- tools: a --><!-- tools-v2: [] -->");
    assert_eq!(
        segs,
        vec![MarkerSegment::ToolsV1(vec!["a".to_string()]), MarkerSegment::ToolsV2("[]".to_string())]
    );
}

#[test]
fn unclosed_markers_end_the_split() {
    assert_eq!(split_tool_markers("a <!-- tools: x y"), vec![text("a"), text("x y")]);
    assert_eq!(split_tool_markers("a <!-- tools-v2: [1, 2 -->"), vec![text("a"), text("[1, 2 -->")]);
    assert_eq!(split_tool_markers("a <!-- tools-v2: [1] tail -->"), vec![text("a"), text("[1] tail -->")]);
}

#[test]
fn plain_and_blank_messages() {
    assert_eq!(split_tool_markers("  just text  "), vec![text("just text")]);
    assert!(split_tool_markers("   ").is_empty());
    assert_eq!(split_tool_markers("<!-- tools: -->"), vec![MarkerSegment::ToolsV1(vec![String::new()])]);
}

#[test]
fn expansion_kinds() {
    assert_eq!(message_expansion("user", "[CONTEXT COMPACTION] summary", None), Expansion::Hidden);
    assert_eq!(message_expansion("user", "<!-- tools: a -->", None), Expansion::Single);
    assert_eq!(message_expansion("assistant", "hello", None), Expansion::Single);
    assert_eq!(message_expansion("assistant", "hello", Some("  ")), Expansion::Single);
    assert_eq!(message_expansion("assistant", "hello", Some("hmm")), Expansion::Split);
    assert_eq!(message_expansion("assistant", "<THINK>x</THINK>", None), Expansion::Split);
    assert_eq!(message_expansion("assistant", "a <!-- tools-v2: [] -->", None), Expansion::Split);
    assert_eq!(message_expansion("assistant", "see <tool_call>", None), Expansion::Split);
}

#[test]
fn group_labels() {
    assert_eq!(tool_group_label(1), "1 tool call");
    assert_eq!(tool_group_label(3), "3 tool calls");
    assert_eq!(tool_group_label(0), "0 tool calls");
}
