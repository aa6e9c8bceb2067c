//! Reasoning split off response texts.

use stemcell_tui::reasoning::extract_reasoning;

fn split(text: &str) -> (Option<String>, String) {
    extract_reasoning(text).expect("no cut inside a char")
}

#[test]
fn reasoning_comments() {
    assert_eq!(
        split("<!-- reasoning -->think hard<!-- /reasoning -->Answer"),
        (Some("think hard".to_string()), "Answer".to_string())
    );
    assert_eq!(
        split("Start <!-- reasoning --> unfinished"),
        (Some("unfinished".to_string()), "Start".to_string())
    );
}

#[test]
fn think_tags_ignore_case_and_join_parts() {
    assert_eq!(
        split("<think>a</think>b<THINK>c</THINK>"),
        (Some("a\n\nc".to_string()), "b".to_string())
    );
    assert_eq!(
        split("<antThinking>x</antThinking> y"),
        (Some("x".to_string()), "y".to_string())
    );
    assert_eq!(split("<think>rest of it"), (Some("rest of it".to_string()), String::new()));
}

#[test]
fn self_closing_and_stray_tags() {
    assert_eq!(split("a<think/>b"), (None, "ab".to_string()));
    assert_eq!(split("a<think note/>b"), (Some("note".to_string()), "ab".to_string()));
    assert_eq!(split("hello</think>"), (None, "hello".to_string()));
    assert_eq!(split("x</ANTTHINKING>y"), (None, "xy".to_string()));
    assert_eq!(split("a <think never closed"), (None, "a <think never closed".to_string()));
}

#[test]
fn plain_text_is_only_trimmed() {
    assert_eq!(split("  plain  "), (None, "plain".to_string()));
    assert_eq!(split(""), (None, String::new()));
}

#[test]
fn cut_inside_a_char_is_reported() {
    // Lowercasing 'İ' adds a byte, so the positions found in the lowercased
    // text no longer fit the text itself.
    assert!(extract_reasoning("İ<think>x</think>").is_none());
}
