//! Cursor and buffer editing of the chat input.

use stemcell_tui::input_edit::{
    byte_offset_at_display_col, clear_escape_garbage, cursor_line_position, cursor_visual_down,
    cursor_visual_up, delete_last_word, input_visual_line_width, is_mouse_sequence_fragment,
    drain_stream_prefix, insert_text_at, kill_to_line_start, word_left, word_right,
};

#[test]
fn mouse_fragment_after_csi_start() {
    // "[<35;116" typed so far: digits, ';', 'M' continue the report.
    let buf = "hello [<35;116";
    let cur = buf.len();
    assert!(is_mouse_sequence_fragment('7', buf, cur));
    assert!(is_mouse_sequence_fragment(';', buf, cur));
    assert!(is_mouse_sequence_fragment('M', buf, cur));
    assert!(!is_mouse_sequence_fragment('x', buf, cur));
}

#[test]
fn mouse_fragment_bracket_then_letter() {
    let buf = "abc[";
    assert!(is_mouse_sequence_fragment('<', buf, buf.len()));
    assert!(!is_mouse_sequence_fragment('5', buf, buf.len()));
    assert!(!is_mouse_sequence_fragment('[', "plain text", 10));
}

#[test]
fn mouse_fragment_closed_report_does_not_swallow_digits() {
    // After a complete report and some text, a digit is ordinary input.
    let buf = "[<35;1;1M ok";
    assert!(!is_mouse_sequence_fragment('2', buf, buf.len()));
    // A digit right after text that still holds `[<` is swallowed.
    let buf = "[<35;1;1M and 4";
    assert!(is_mouse_sequence_fragment('2', buf, buf.len()));
    // Only the tail before the cursor counts.
    let buf = "[<35;1 hello";
    assert!(is_mouse_sequence_fragment('3', buf, 6));
}

#[test]
fn mouse_fragment_tail_snaps_to_char_boundary() {
    // 30 bytes back lands inside the crab emoji; the scan must not panic.
    let buf = format!("🦀{}[<1", "a".repeat(26));
    assert_eq!(buf.len(), 33);
    assert!(is_mouse_sequence_fragment('2', &buf, buf.len()));
}

#[test]
fn cursor_line_position_on_second_line() {
    assert_eq!(cursor_line_position("ab\ncde", 5), (3, 2));
    assert_eq!(cursor_line_position("abc", 2), (0, 2));
    assert_eq!(cursor_line_position("ab\n", 3), (3, 0));
}

#[test]
fn display_col_offsets() {
    assert_eq!(byte_offset_at_display_col("hello", 3), 3);
    assert_eq!(byte_offset_at_display_col("hello", 0), 0);
    assert_eq!(byte_offset_at_display_col("hi", 9), 2);
    // Wide chars take two columns and three bytes.
    assert_eq!(byte_offset_at_display_col("日本語", 2), 3);
    assert_eq!(byte_offset_at_display_col("日本語", 3), 6);
}

#[test]
fn delete_last_word_cases() {
    assert_eq!(delete_last_word("hello world", 11), ("hello ".to_string(), 6));
    assert_eq!(delete_last_word("hello world   ", 14), ("hello ".to_string(), 6));
    assert_eq!(delete_last_word("single", 6), ("".to_string(), 0));
    assert_eq!(delete_last_word("ab cd ef", 5), ("ab  ef".to_string(), 3));
    assert_eq!(delete_last_word("abc", 0), ("abc".to_string(), 0));
    assert_eq!(delete_last_word("héllo wörld", 13), ("héllo ".to_string(), 7));
}

#[test]
fn visual_line_width_floor() {
    assert_eq!(input_visual_line_width(80), 76);
    assert_eq!(input_visual_line_width(12), 10);
    assert_eq!(input_visual_line_width(2), 10);
}

#[test]
fn visual_up_and_down_in_wrapped_line() {
    // Terminal 14 wide: 10 columns per visual row.
    let buf = "abcdefghijklmnopqrstuvwxy";
    assert_eq!(cursor_visual_up(buf, 13, 14), Some(3));
    assert_eq!(cursor_visual_up(buf, 3, 14), None);
    assert_eq!(cursor_visual_down(buf, 3, 14), Some(13));
    assert_eq!(cursor_visual_down(buf, 13, 14), Some(23));
    assert_eq!(cursor_visual_down(buf, 23, 14), None);
    // Moving down clamps to the end of a short last row.
    assert_eq!(cursor_visual_down(buf, 19, 14), Some(25));
}

#[test]
fn visual_moves_stay_in_logical_line() {
    let buf = "first\nsecond line";
    assert_eq!(cursor_visual_up(buf, 8, 80), None);
    assert_eq!(cursor_visual_down(buf, 2, 80), None);
}

#[test]
fn escape_garbage_cleared() {
    let (b, c) = clear_escape_garbage("[<35;1M[<35;2M", 14);
    assert_eq!(b, "35;135;2");
    assert_eq!(c, 8);
    let (b, c) = clear_escape_garbage("\u{1b}[<<<M", 6);
    assert_eq!(b, "");
    assert_eq!(c, 0);
}

#[test]
fn ordinary_text_is_not_scrubbed() {
    let (b, c) = clear_escape_garbage("Hello Mom", 3);
    assert_eq!(b, "Hello Mom");
    assert_eq!(c, 3);
    let (b, c) = clear_escape_garbage("", 0);
    assert_eq!(b, "");
    assert_eq!(c, 0);
}

#[test]
fn word_jumps_and_line_kill() {
    let buf = "git  commit -m";
    assert_eq!(word_left(buf, buf.len()), 12);
    assert_eq!(word_left(buf, 11), 5);
    assert_eq!(word_left(buf, 5), 0);
    assert_eq!(word_left(buf, 0), 0);
    assert_eq!(word_right(buf, 0), 5);
    assert_eq!(word_right(buf, 5), 12);
    assert_eq!(word_right(buf, 12), buf.len());
    // Multi-byte whitespace and letters keep byte offsets on char boundaries.
    let wide = "é\u{3000}ü";
    assert_eq!(word_left(wide, wide.len()), "é\u{3000}".len());
    assert_eq!(word_right(wide, 0), "é\u{3000}".len());
    assert_eq!(kill_to_line_start("one\ntwo three", 11), ("one\nee".to_string(), 4));
    assert_eq!(kill_to_line_start("one\ntwo three", 13), ("one\n".to_string(), 4));
    assert_eq!(kill_to_line_start("abc", 2), ("c".to_string(), 0));
}

#[test]
fn inserting_and_draining_respect_char_boundaries() {
    assert_eq!(insert_text_at("ab", 1, "XY"), ("aXYb".to_string(), 3));
    // A cursor inside "é" (bytes 1..3) moves down to its start.
    assert_eq!(insert_text_at("aéb", 2, "-"), ("a-éb".to_string(), 2));
    // A cursor past the end goes to the end.
    assert_eq!(insert_text_at("ab", 9, "!"), ("ab!".to_string(), 3));
    assert_eq!(drain_stream_prefix("preamble: body", 10), Some("body".to_string()));
    assert_eq!(drain_stream_prefix("aéb", 2), Some("éb".to_string()));
    assert_eq!(drain_stream_prefix("abc", 3), None);
    assert_eq!(drain_stream_prefix("abc", 99), None);
    assert_eq!(drain_stream_prefix("abc", 0), Some("abc".to_string()));
}

#[test]
fn escape_garbage_cursor_lands_on_char_boundary() {
    let (b, c) = clear_escape_garbage("[[[[[[aé", 2);
    assert_eq!(b, "aé");
    assert_eq!(c, 1);
    let (b, c) = clear_escape_garbage("[[[[[[aé", 8);
    assert_eq!(b, "aé");
    assert_eq!(c, 3);
}
