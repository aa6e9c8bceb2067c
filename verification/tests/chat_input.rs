//! Editing keys, history browsing and the other chat-view key decisions.

use stemcell_tui::chat_input::{
    backspace, cursor_left, cursor_right, delete_forward, edit_key, insert_char,
    line_end_position, InputEdit, InputHistory,
};
use stemcell_tui::chat_keys::{wheel_scroll, submitted_text, bang_echo, shell_report, shell_spawn_error, 
    append_attachment_markers, attachment_focus_key, bang_command, ctrl_o_loads_history,
    escape_action, page_down, page_up, suggestion_down, suggestion_up, toggle_target,
    EscapeAction, FocusKey, FocusStep, ScrollState,
};
use stemcell_tui::input_edit::{cursor_line_down, cursor_line_up};
use stemcell_tui::keys::{KeyCode, KeyEvent, KeyModifiers};

fn key(code: KeyCode) -> KeyEvent {
    KeyEvent::plain(code)
}

#[test]
fn insert_and_backspace_round_trip() {
    let (b, c) = insert_char("héllo", 3, 'ß');
    assert_eq!(b, "héßllo");
    assert_eq!(c, 5);
    let (b2, c2) = backspace(&b, c);
    assert_eq!(b2, "héllo");
    assert_eq!(c2, 3);
    assert_eq!(backspace("abc", 0), ("abc".to_string(), 0));
}

#[test]
fn delete_and_moves_by_char() {
    assert_eq!(delete_forward("añb", 1), ("ab".to_string(), 1));
    assert_eq!(delete_forward("ab", 2), ("ab".to_string(), 2));
    assert_eq!(cursor_left("añb", 3), 1);
    assert_eq!(cursor_left("añb", 0), 0);
    assert_eq!(cursor_right("añb", 1), 3);
    assert_eq!(cursor_right("añb", 4), 4);
    assert_eq!(line_end_position("ab\ncd", 1), 2);
    assert_eq!(line_end_position("ab\ncd", 3), 5);
}

#[test]
fn edit_key_dispatch() {
    assert_eq!(edit_key("ab", 1, key(KeyCode::Char('x'))), InputEdit::Buffer("axb".to_string(), 2));
    assert_eq!(edit_key("ab", 1, key(KeyCode::Char('@'))), InputEdit::OpenFilePicker);
    let ctrl_x = KeyEvent::new(KeyCode::Char('x'), KeyModifiers { shift: false, control: true, alt: false, super_key: false, hyper: false, meta: false });
    assert_eq!(edit_key("ab", 1, ctrl_x), InputEdit::Ignored);
    let ctrl_alt_x = KeyEvent::new(KeyCode::Char('x'), KeyModifiers { shift: false, control: true, alt: true, super_key: false, hyper: false, meta: false });
    assert_eq!(edit_key("ab", 1, ctrl_alt_x), InputEdit::Buffer("axb".to_string(), 2));
    // A leaked mouse-report char is dropped.
    assert_eq!(edit_key("x[<35", 5, key(KeyCode::Char(';'))), InputEdit::Ignored);
    assert_eq!(edit_key("ab", 2, key(KeyCode::Backspace)), InputEdit::Buffer("a".to_string(), 1));
    assert_eq!(edit_key("ab", 0, key(KeyCode::Backspace)), InputEdit::Ignored);
    assert_eq!(edit_key("ab", 2, key(KeyCode::Delete)), InputEdit::Ignored);
    assert_eq!(edit_key("ab", 0, key(KeyCode::Right)), InputEdit::Cursor(1));
    assert_eq!(edit_key("ab", 0, key(KeyCode::Left)), InputEdit::Ignored);
    assert_eq!(edit_key("ab\ncd", 4, key(KeyCode::Home)), InputEdit::Cursor(3));
    assert_eq!(edit_key("ab\ncd", 0, key(KeyCode::End)), InputEdit::Cursor(2));
    assert_eq!(edit_key("ab", 0, key(KeyCode::F(1))), InputEdit::Ignored);
}

#[test]
fn history_browse_up_and_back_down() {
    let mut h = InputHistory::new();
    assert!(h.record_submission("first"));
    assert!(h.record_submission("second"));
    assert!(!h.record_submission("second"));
    assert_eq!(h.entries, vec!["first".to_string(), "second".to_string()]);
    let mut buf = "draft".to_string();
    assert_eq!(h.browse_older(&mut buf), Some(6));
    assert_eq!(buf, "second");
    assert_eq!(h.browse_older(&mut buf), Some(5));
    assert_eq!(buf, "first");
    assert_eq!(h.browse_older(&mut buf), None);
    assert_eq!(h.browse_newer(&mut buf), Some(6));
    assert_eq!(buf, "second");
    assert_eq!(h.browse_newer(&mut buf), Some(5));
    assert_eq!(buf, "draft");
    assert_eq!(h.index, None);
    assert_eq!(h.stash, "");
    assert_eq!(h.browse_newer(&mut buf), None);
}

#[test]
fn readline_history_keeps_stash_for_empty_buffer() {
    let mut h = InputHistory::new();
    h.record_submission("cmd");
    h.stash = "kept".to_string();
    let mut buf = String::new();
    assert_eq!(h.browse_older_readline(&mut buf), Some(3));
    assert_eq!(h.stash, "kept");
    let mut empty = InputHistory::new();
    let mut b = "x".to_string();
    assert_eq!(empty.browse_older_readline(&mut b), None);
    assert_eq!(empty.stash, "x");
    assert_eq!(empty.browse_older(&mut b), None);
}

#[test]
fn suggestion_navigation() {
    assert_eq!(suggestion_up(0), 0);
    assert_eq!(suggestion_up(3), 2);
    assert_eq!(suggestion_down(1, 3), 2);
    assert_eq!(suggestion_down(2, 3), 2);
    assert_eq!(suggestion_down(4, 0), 4);
}

#[test]
fn attachment_focus_moves_and_removals() {
    assert_eq!(attachment_focus_key(1, 3, FocusKey::Up), FocusStep { focus: Some(0), remove: None, pass_on: false });
    assert_eq!(attachment_focus_key(0, 3, FocusKey::Up).focus, Some(0));
    assert_eq!(attachment_focus_key(1, 3, FocusKey::Down).focus, Some(2));
    assert_eq!(attachment_focus_key(2, 3, FocusKey::Down).focus, None);
    assert_eq!(attachment_focus_key(2, 3, FocusKey::Remove), FocusStep { focus: Some(1), remove: Some(2), pass_on: false });
    assert_eq!(attachment_focus_key(0, 3, FocusKey::Remove).focus, Some(0));
    assert_eq!(attachment_focus_key(0, 1, FocusKey::Remove).focus, None);
    assert_eq!(attachment_focus_key(1, 3, FocusKey::Cancel).pass_on, false);
    assert_eq!(attachment_focus_key(1, 3, FocusKey::Other), FocusStep { focus: None, remove: None, pass_on: true });
}

#[test]
fn escape_actions() {
    assert_eq!(escape_action(true, None, true, false), EscapeAction::ArmAbort);
    assert_eq!(escape_action(true, Some(1000), true, false), EscapeAction::AbortTurn);
    assert_eq!(escape_action(true, Some(3000), true, false), EscapeAction::ArmAbort);
    assert_eq!(escape_action(false, Some(10), false, false), EscapeAction::ScrollToBottom);
    assert_eq!(escape_action(false, Some(10), true, true), EscapeAction::DismissNotice);
    assert_eq!(escape_action(false, Some(10), true, false), EscapeAction::ClearInput);
    assert_eq!(escape_action(false, Some(5000), true, false), EscapeAction::ArmClear);
    assert_eq!(escape_action(false, None, true, false), EscapeAction::ArmClear);
}

#[test]
fn scrolling_and_ctrl_o() {
    let s = page_up(ScrollState { offset: 5, auto_scroll: true });
    assert_eq!(s, ScrollState { offset: 15, auto_scroll: false });
    assert_eq!(page_up(ScrollState { offset: usize::MAX - 3, auto_scroll: false }).offset, usize::MAX);
    assert_eq!(page_down(s), ScrollState { offset: 5, auto_scroll: false });
    assert_eq!(page_down(ScrollState { offset: 5, auto_scroll: false }), ScrollState { offset: 0, auto_scroll: true });
    assert!(ctrl_o_loads_history(3, 1000));
    assert!(!ctrl_o_loads_history(3, 300_000));
    assert!(!ctrl_o_loads_history(0, 10));
    assert!(!toggle_target(Some(true), Some(false)));
    assert!(toggle_target(None, Some(false)));
    assert!(toggle_target(None, None));
}

#[test]
fn bang_commands_and_markers() {
    assert_eq!(bang_command("  !ls -la  "), Some("ls -la".to_string()));
    assert_eq!(bang_command("!"), Some(String::new()));
    assert_eq!(bang_command("hello !x"), None);
    let paths = vec!["/a.png".to_string(), "/b c.jpg".to_string()];
    assert_eq!(append_attachment_markers("look", &paths), "look <<IMG:/a.png>> <<IMG:/b c.jpg>>");
    assert_eq!(append_attachment_markers("t", &[]), "t");
}

#[test]
fn logical_line_up_and_down() {
    // 80-column terminal: 76 columns per row.
    let buf = "hello\nab";
    assert_eq!(cursor_line_up(buf, 8, 80), 2);
    assert_eq!(cursor_line_up("abc", 2, 80), 0);
    assert_eq!(cursor_line_down(buf, 4, 80), 8);
    assert_eq!(cursor_line_down(buf, 7, 80), 8);
    assert_eq!(cursor_line_down("abc\nxyz", 1, 80), 5);
    // Onto the last visual row of a wrapped previous line (10 columns a row).
    let wrapped = "abcdefghijklmno\nxy";
    assert_eq!(cursor_line_up(wrapped, 18, 14), 12);
}

#[test]
fn shell_runs_are_reported() {
    assert_eq!(bang_echo("ls -la"), "$ ls -la");
    assert_eq!(shell_report("a\nb\n", "", true, "exit status: 0"), "a\nb");
    assert_eq!(shell_report("out  \n", "warn\n", true, "exit status: 0"), "out\nwarn");
    assert_eq!(shell_report("", "boom\n", false, "exit status: 2"), "boom\n(exit exit status: 2)");
    assert_eq!(shell_report("", "", true, "exit status: 0"), "(no output)");
    assert_eq!(shell_report("\n", "", false, "exit status: 1"), "(no output, exit exit status: 1)");
    assert_eq!(shell_spawn_error("no such file"), "Failed to run command: no such file");
}

#[test]
fn submitted_text_drops_attached_paths() {
    assert_eq!(submitted_text("look /tmp/a.png", "look", true), "look");
    assert_eq!(submitted_text(" hi ", "hi", true), " hi ");
    assert_eq!(submitted_text("look /tmp/a.png", "look", false), "look /tmp/a.png");
}

#[test]
fn mouse_wheel_scrolls_one_row() {
    let s = wheel_scroll(ScrollState { offset: 0, auto_scroll: true }, true);
    assert_eq!(s, ScrollState { offset: 1, auto_scroll: false });
    let s = wheel_scroll(s, false);
    assert_eq!(s, ScrollState { offset: 0, auto_scroll: true });
    let s = wheel_scroll(ScrollState { offset: 3, auto_scroll: false }, false);
    assert_eq!(s, ScrollState { offset: 2, auto_scroll: false });
}
