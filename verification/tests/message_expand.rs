//! Stored assistant messages with tool markers and reasoning, shown again.

use stemcell_tui::message_expand::{expand_stored_message, v2_calls, ExpandedPiece, ToolCallEntry, V2Fields};

fn text(content: &str, details: Option<&str>, original: bool) -> ExpandedPiece {
    ExpandedPiece::Text {
        content: content.to_string(),
        details: details.map(|d| d.to_string()),
        original,
    }
}

fn v1(desc: &str) -> ToolCallEntry {
    ToolCallEntry {
        description: desc.to_string(),
        success: true,
        details: None,
        completed: true,
        input_json: None,
    }
}

#[test]
fn v1_markers_become_groups_between_text_pieces() {
    let pieces = expand_stored_message("Hello <!-- tools: read a | write b --> Done", None).unwrap();
    assert_eq!(
        pieces,
        vec![
            text("Hello", None, true),
            ExpandedPiece::ToolGroup {
                label: "2 tool calls".to_string(),
                calls: vec![v1("read a"), v1("write b")],
                details: None,
            },
            text("Done", None, false),
        ]
    );
}

#[test]
fn v2_entries_take_defaults_for_missing_fields() {
    let content = r#"Intro <!-- tools-v2: [{"d":"bash: ls","s":false,"o":"x","i":{"command":"ls"}},{"o":""}] -->"#;
    let pieces = expand_stored_message(content, None).unwrap();
    assert_eq!(pieces.len(), 2);
    assert_eq!(pieces[0], text("Intro", None, true));
    match &pieces[1] {
        ExpandedPiece::ToolGroup { label, calls, details } => {
            assert_eq!(label, "2 tool calls");
            assert_eq!(details, &None);
            assert_eq!(calls[0].description, "bash: ls");
            assert!(!calls[0].success);
            assert_eq!(calls[0].details.as_deref(), Some("x"));
            assert_eq!(calls[0].input_json.as_deref(), Some(r#"{"command":"ls"}"#));
            assert_eq!(calls[1], ToolCallEntry {
                description: "?".to_string(),
                success: true,
                details: None,
                completed: true,
                input_json: None,
            });
        }
        other => panic!("expected a tool group, got {other:?}"),
    }
}

#[test]
fn reasoning_is_split_off_the_text() {
    let pieces = expand_stored_message("<think>plan</think>Answer <!-- tools: x -->", None).unwrap();
    assert_eq!(pieces[0], text("Answer", Some("plan"), true));
    assert_eq!(pieces.len(), 2);
}

#[test]
fn stored_reasoning_goes_to_the_first_text_or_first_piece() {
    let pieces = expand_stored_message("<!-- tools: a -->", Some("pondering")).unwrap();
    assert_eq!(
        pieces,
        vec![ExpandedPiece::ToolGroup {
            label: "1 tool call".to_string(),
            calls: vec![v1("a")],
            details: Some("pondering".to_string()),
        }]
    );
    let pieces = expand_stored_message("<!-- tools: a --> Hi", Some("pondering")).unwrap();
    assert_eq!(pieces[1], text("Hi", Some("pondering"), true));
    // Reasoning already in the text wins; blank stored reasoning is ignored.
    let pieces = expand_stored_message("<think>t</think>Hi", Some("other")).unwrap();
    assert_eq!(pieces, vec![text("Hi", Some("t"), true)]);
    let pieces = expand_stored_message("Hi <!-- tools: a -->", Some("   ")).unwrap();
    assert_eq!(pieces[0], text("Hi", None, true));
}

#[test]
fn markers_without_calls_leave_a_placeholder() {
    let pieces = expand_stored_message("<!-- tools-v2: [oops] -->", None).unwrap();
    assert_eq!(pieces, vec![text("", None, true)]);
    // An unclosed v2 marker: the text after its opening is kept as text.
    let pieces = expand_stored_message("Before <!-- tools-v2: not json", None).unwrap();
    assert_eq!(pieces, vec![text("Before", None, true), text("not json", None, false)]);
}

#[test]
fn v2_fields_become_calls_with_defaults() {
    let fields = vec![
        V2Fields { d: Some("bash: ls".to_string()), s: Some(false), o: Some("err".to_string()), i: Some("{}".to_string()) },
        V2Fields { d: None, s: None, o: Some(String::new()), i: None },
    ];
    let calls = v2_calls(&fields);
    assert_eq!(calls.len(), 2);
    assert_eq!(calls[0].description, "bash: ls");
    assert!(!calls[0].success);
    assert_eq!(calls[0].details.as_deref(), Some("err"));
    assert_eq!(calls[0].input_json.as_deref(), Some("{}"));
    assert!(calls[0].completed);
    assert_eq!(calls[1].description, "?");
    assert!(calls[1].success);
    assert_eq!(calls[1].details, None);
    assert_eq!(calls[1].input_json, None);
}
