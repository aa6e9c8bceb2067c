//! The file and directory pickers and the sessions screen.

use stemcell_tui::file_picker::{
    apply_file_picker_filter, chosen_entry, file_picker_source_change, PickerCursor, PickerEntry,
};
use stemcell_tui::keys::{KeyCode, KeyEvent};
use stemcell_tui::sessions_screen::{
    rename_key, session_command, session_down, session_up, RenameOutcome, SessionCommand,
};

fn entry(label: &str, is_parent: bool) -> PickerEntry {
    PickerEntry { is_parent, label: label.to_string() }
}

#[test]
fn filter_matches_case_insensitively_and_drops_parent() {
    let entries = vec![
        entry("..", true),
        entry("Main.rs", false),
        entry("src/tui/render.rs", false),
        entry("README.md", false),
    ];
    assert_eq!(apply_file_picker_filter(&entries, ""), vec![0, 1, 2, 3]);
    assert_eq!(apply_file_picker_filter(&entries, "main"), vec![1]);
    assert_eq!(apply_file_picker_filter(&entries, "RS"), vec![1, 2]);
    assert_eq!(apply_file_picker_filter(&entries, "tui/r"), vec![2]);
    assert_eq!(apply_file_picker_filter(&entries, "."), vec![1, 2, 3]);
    assert!(apply_file_picker_filter(&entries, "zzz").is_empty());
}

#[test]
fn recursive_walk_from_two_chars() {
    assert_eq!(file_picker_source_change("ab", false), Some(true));
    assert_eq!(file_picker_source_change("a", true), Some(false));
    assert_eq!(file_picker_source_change("é", false), None);
    assert_eq!(file_picker_source_change("abc", true), None);
}

#[test]
fn picker_window_follows_highlight() {
    let mut c = PickerCursor::new();
    for _ in 0..25 {
        c.down(100);
    }
    assert_eq!(c, PickerCursor { selected: 25, scroll_offset: 6 });
    c.down(26);
    assert_eq!(c.selected, 25);
    for _ in 0..10 {
        c.up();
    }
    assert_eq!(c, PickerCursor { selected: 15, scroll_offset: 6 });
    for _ in 0..20 {
        c.up();
    }
    assert_eq!(c, PickerCursor { selected: 0, scroll_offset: 0 });
}

#[test]
fn chosen_entry_resolves_shown_row() {
    assert_eq!(chosen_entry(&[2, 5], 6, 1), Some(5));
    assert_eq!(chosen_entry(&[2, 5], 5, 1), None);
    assert_eq!(chosen_entry(&[2, 5], 6, 2), None);
}

#[test]
fn session_list_navigation_and_commands() {
    assert_eq!(session_up(0), 0);
    assert_eq!(session_up(2), 1);
    assert_eq!(session_down(1, 3), 2);
    assert_eq!(session_down(2, 3), 2);
    assert_eq!(session_down(0, 0), 0);
    assert_eq!(session_command(KeyEvent::plain(KeyCode::Char('R'))), Some(SessionCommand::Rename));
    assert_eq!(session_command(KeyEvent::plain(KeyCode::Char('n'))), Some(SessionCommand::New));
    assert_eq!(session_command(KeyEvent::plain(KeyCode::Char('|'))), Some(SessionCommand::SplitHorizontal));
    assert_eq!(session_command(KeyEvent::plain(KeyCode::Char('_'))), Some(SessionCommand::SplitVertical));
    assert_eq!(session_command(KeyEvent::plain(KeyCode::Char('D'))), Some(SessionCommand::Delete));
    assert_eq!(session_command(KeyEvent::plain(KeyCode::Char('x'))), None);
    assert_eq!(session_command(KeyEvent::plain(KeyCode::Enter)), None);
}

#[test]
fn renaming_a_session() {
    let mut buf = "Old".to_string();
    assert_eq!(rename_key(&mut buf, KeyEvent::plain(KeyCode::Backspace)), RenameOutcome::Editing);
    assert_eq!(buf, "Ol");
    assert_eq!(rename_key(&mut buf, KeyEvent::plain(KeyCode::Char('d'))), RenameOutcome::Editing);
    buf.push_str("  ");
    assert_eq!(
        rename_key(&mut buf, KeyEvent::plain(KeyCode::Enter)),
        RenameOutcome::Commit(Some("Old".to_string()))
    );
    assert_eq!(buf, "");
    let mut blank = "   ".to_string();
    assert_eq!(rename_key(&mut blank, KeyEvent::plain(KeyCode::Enter)), RenameOutcome::Commit(None));
    let mut b = "x".to_string();
    assert_eq!(rename_key(&mut b, KeyEvent::plain(KeyCode::Esc)), RenameOutcome::Cancel);
    assert_eq!(b, "");
    let mut e = String::new();
    assert_eq!(rename_key(&mut e, KeyEvent::plain(KeyCode::Backspace)), RenameOutcome::Editing);
    assert_eq!(rename_key(&mut e, KeyEvent::plain(KeyCode::Tab)), RenameOutcome::Editing);
    assert_eq!(e, "");
}
