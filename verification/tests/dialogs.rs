//! Key handling of the dialogs: `/export`, `/skills`, `/kg`, Mission Control.

use stemcell_tui::catalog::Skill;
use stemcell_tui::export_dialog::{self as export, ExportDialogState, ExportTarget};
use stemcell_tui::keys::{KeyCode, KeyEvent, KeyModifiers};
use stemcell_tui::kg_review::{self as kg, KgPendingBatch, KgReviewState, KgView, LogEntry};
use stemcell_tui::mission_control::{self as mc, McPanel, McState};
use stemcell_tui::selection::{clamped_move, wrapped_move};
use stemcell_tui::skills_dialog::{self as skills, SkillsDialogState};

fn key(code: KeyCode) -> KeyEvent {
    KeyEvent::plain(code)
}

fn ctrl(c: char) -> KeyEvent {
    KeyEvent::new(KeyCode::Char(c), KeyModifiers { shift: false, control: true, alt: false, super_key: false, hyper: false, meta: false })
}

fn skill(name: &str, description: &str, body: &str) -> Skill {
    Skill {
        name: name.to_string(),
        description: description.to_string(),
        body: body.to_string(),
        slash_name: format!("/{}", name),
    }
}

#[test]
fn wrapped_move_wraps_at_both_ends() {
    assert_eq!(wrapped_move(2, 1, 3), 0);
    assert_eq!(wrapped_move(0, -1, 3), 2);
    assert_eq!(wrapped_move(1, 1, 3), 2);
    assert_eq!(wrapped_move(7, 1, 3), 0);
    assert_eq!(wrapped_move(5, 1, 0), 0);
}

#[test]
fn clamped_move_stops_at_both_ends() {
    assert_eq!(clamped_move(2, 1, 3), 2);
    assert_eq!(clamped_move(0, -1, 3), 0);
    assert_eq!(clamped_move(1, -1, 3), 0);
    assert_eq!(clamped_move(9, -1, 3), 1);
    assert_eq!(clamped_move(4, 1, 0), 0);
}

#[test]
fn wrapping_through_all_rows_returns_to_start() {
    let mut i = 1;
    for _ in 0..5 {
        i = wrapped_move(i, 1, 5);
    }
    assert_eq!(i, 1);
    assert_eq!(wrapped_move(wrapped_move(3, 1, 5), -1, 5), 3);
}

#[test]
fn export_dialog_navigation_and_confirm() {
    let mut st = ExportDialogState::new();
    assert_eq!(export::decide(&mut st, key(KeyCode::Down)), export::KeyOutcome::Consumed);
    assert_eq!(st.selected_index, 1);
    assert_eq!(export::decide(&mut st, key(KeyCode::Char('j'))), export::KeyOutcome::Consumed);
    assert_eq!(st.selected_index, 2);
    assert_eq!(export::decide(&mut st, key(KeyCode::Tab)), export::KeyOutcome::Consumed);
    assert_eq!(st.selected_index, 0);
    assert_eq!(export::decide(&mut st, key(KeyCode::BackTab)), export::KeyOutcome::Consumed);
    assert_eq!(st.selected_index, 2);
    assert_eq!(export::decide(&mut st, key(KeyCode::Enter)), export::KeyOutcome::Confirm(2));
    assert_eq!(export::decide(&mut st, key(KeyCode::Char(' '))), export::KeyOutcome::Confirm(2));
    assert_eq!(export::decide(&mut st, key(KeyCode::Esc)), export::KeyOutcome::Close);
    assert_eq!(export::decide(&mut st, key(KeyCode::Char('x'))), export::KeyOutcome::NotConsumed);
    assert_eq!(export::decide(&mut st, ctrl('j')), export::KeyOutcome::NotConsumed);
    assert_eq!(st.selected_index, 2);
    st.reset();
    assert_eq!(st.selected_index, 0);
}

#[test]
fn export_options_in_display_order() {
    let opts = export::export_options();
    assert_eq!(opts.len(), export::EXPORT_OPTION_COUNT);
    assert_eq!(opts[0].label, "Copy to clipboard");
    assert_eq!(opts[1].target, ExportTarget::File);
    assert_eq!(opts[2].target, ExportTarget::Both);
    assert_eq!(export::export_target(0), Some(ExportTarget::Clipboard));
    assert_eq!(export::export_target(3), None);
}

#[test]
fn skills_matching_is_case_insensitive_on_name_and_description() {
    let list = vec![
        skill("Deploy", "Ship the build", "deploy body"),
        skill("review", "Look over a DIFF", "review body"),
        skill("notes", "take notes", "notes body"),
    ];
    let all = skills::matching(&list, "");
    assert_eq!(all.len(), 3);
    let m = skills::matching(&list, "dep");
    assert_eq!(m.len(), 1);
    assert_eq!(m[0].name, "Deploy");
    let m = skills::matching(&list, "diff");
    assert_eq!(m.len(), 1);
    assert_eq!(m[0].name, "review");
    assert!(skills::matching(&list, "zzz").is_empty());
}

#[test]
fn skills_dialog_filter_and_execute() {
    let list = vec![
        skill("deploy", "ship it", "deploy body"),
        skill("review", "read the diff", "review body"),
    ];
    let mut st = SkillsDialogState::new();
    assert_eq!(skills::decide(&mut st, &list, key(KeyCode::Down)), skills::KeyOutcome::Consumed);
    assert_eq!(st.selected_index, 1);
    assert_eq!(skills::decide(&mut st, &list, key(KeyCode::Down)), skills::KeyOutcome::Consumed);
    assert_eq!(st.selected_index, 0);
    assert_eq!(skills::decide(&mut st, &list, key(KeyCode::Char('r'))), skills::KeyOutcome::Consumed);
    assert_eq!(st.filter, "r");
    assert_eq!(st.selected_index, 0);
    assert_eq!(skills::decide(&mut st, &list, key(KeyCode::Char('e'))), skills::KeyOutcome::Consumed);
    assert_eq!(st.filter, "re");
    assert_eq!(
        skills::decide(&mut st, &list, key(KeyCode::Enter)),
        skills::KeyOutcome::Execute("review body".to_string())
    );
    assert_eq!(skills::decide(&mut st, &list, key(KeyCode::Backspace)), skills::KeyOutcome::Consumed);
    assert_eq!(st.filter, "r");
    assert_eq!(skills::decide(&mut st, &list, ctrl('c')), skills::KeyOutcome::NotConsumed);
    assert_eq!(skills::decide(&mut st, &list, key(KeyCode::Esc)), skills::KeyOutcome::Close);
    st.filter = "zzz".to_string();
    assert_eq!(skills::decide(&mut st, &list, key(KeyCode::Enter)), skills::KeyOutcome::Consumed);
    st.reset();
    assert_eq!(st.filter, "");
}

fn kg_state() -> KgReviewState {
    let mut st = KgReviewState::new();
    st.batches = vec![
        KgPendingBatch { id: "b1".to_string(), summary: "first".to_string() },
        KgPendingBatch { id: "b2".to_string(), summary: "second".to_string() },
    ];
    st.log = vec![LogEntry { sha: "abc".to_string(), summary: "init".to_string() }];
    st
}

#[test]
fn kg_queue_navigation_and_actions() {
    let mut st = kg_state();
    assert_eq!(st.row_count(), 2);
    assert_eq!(kg::decide(&mut st, key(KeyCode::Down)), kg::KeyOutcome::SelectionChanged);
    assert_eq!(st.selected_index, 1);
    assert_eq!(kg::decide(&mut st, key(KeyCode::Down)), kg::KeyOutcome::SelectionChanged);
    assert_eq!(st.selected_index, 1);
    assert_eq!(st.selected_batch().unwrap().id, "b2");
    assert_eq!(kg::decide(&mut st, key(KeyCode::Char('a'))), kg::KeyOutcome::Approve);
    assert_eq!(kg::decide(&mut st, key(KeyCode::Char('d'))), kg::KeyOutcome::Decline);
    assert_eq!(kg::decide(&mut st, key(KeyCode::PageDown)), kg::KeyOutcome::Consumed);
    assert_eq!(st.diff_scroll, 10);
    assert_eq!(kg::decide(&mut st, key(KeyCode::PageUp)), kg::KeyOutcome::Consumed);
    assert_eq!(kg::decide(&mut st, key(KeyCode::PageUp)), kg::KeyOutcome::Consumed);
    assert_eq!(st.diff_scroll, 0);
    assert_eq!(kg::decide(&mut st, key(KeyCode::Char('q'))), kg::KeyOutcome::Close);
}

#[test]
fn kg_restore_needs_two_keys() {
    let mut st = kg_state();
    assert_eq!(kg::decide(&mut st, key(KeyCode::Tab)), kg::KeyOutcome::SelectionChanged);
    assert_eq!(st.view, KgView::Log);
    assert_eq!(st.selected_commit().unwrap().sha, "abc");
    assert_eq!(kg::decide(&mut st, key(KeyCode::Char('r'))), kg::KeyOutcome::Consumed);
    assert!(st.confirm_restore);
    assert_eq!(kg::decide(&mut st, key(KeyCode::Char('r'))), kg::KeyOutcome::Restore);
    // Any other key disarms.
    let mut st = kg_state();
    st.view = KgView::Log;
    kg::decide(&mut st, key(KeyCode::Char('r')));
    assert_eq!(kg::decide(&mut st, key(KeyCode::Char('x'))), kg::KeyOutcome::Consumed);
    assert!(!st.confirm_restore);
    assert_eq!(kg::decide(&mut st, key(KeyCode::Enter)), kg::KeyOutcome::Consumed);
}

#[test]
fn kg_actions_ignored_on_empty_queue_and_log_view() {
    let mut st = KgReviewState::new();
    assert_eq!(kg::decide(&mut st, key(KeyCode::Char('a'))), kg::KeyOutcome::Consumed);
    assert_eq!(kg::decide(&mut st, key(KeyCode::Char('r'))), kg::KeyOutcome::Consumed);
    assert!(!st.confirm_restore);
    let mut st = kg_state();
    st.view = KgView::Log;
    assert_eq!(kg::decide(&mut st, key(KeyCode::Char('a'))), kg::KeyOutcome::Consumed);
}

#[test]
fn kg_clamp_selection_and_reset() {
    let mut st = kg_state();
    st.selected_index = 5;
    st.clamp_selection();
    assert_eq!(st.selected_index, 1);
    st.batches.clear();
    st.clamp_selection();
    assert_eq!(st.selected_index, 0);
    st.diff = Some("x".to_string());
    st.view = KgView::Log;
    st.reset();
    assert_eq!(st.view, KgView::Queue);
    assert_eq!(st.diff.as_deref(), Some("x"));
}

#[test]
fn mission_control_focus_cycles() {
    let mut st = McState::new();
    st.focus_next();
    assert_eq!(st.focused_panel, McPanel::Activity);
    st.focus_next();
    st.focus_next();
    assert_eq!(st.focused_panel, McPanel::Inbox);
    st.focus_prev();
    assert_eq!(st.focused_panel, McPanel::Schedule);
    st.selected_index = 4;
    st.reset_focus();
    assert_eq!(st.focused_panel, McPanel::Inbox);
    assert_eq!(st.selected_index, 0);
}

#[test]
fn mission_control_keys() {
    let mut st = McState::new();
    assert_eq!(mc::decide(&mut st, 3, key(KeyCode::Down)), mc::KeyOutcome::Consumed);
    assert_eq!(mc::decide(&mut st, 3, key(KeyCode::End)), mc::KeyOutcome::Consumed);
    assert_eq!(st.selected_index, 2);
    assert_eq!(mc::decide(&mut st, 3, key(KeyCode::Down)), mc::KeyOutcome::Consumed);
    assert_eq!(st.selected_index, 2);
    assert_eq!(mc::decide(&mut st, 3, key(KeyCode::Char('g'))), mc::KeyOutcome::Consumed);
    assert_eq!(st.selected_index, 0);
    assert_eq!(mc::decide(&mut st, 3, key(KeyCode::Enter)), mc::KeyOutcome::Consumed);
    assert!(st.detail_open);
    assert_eq!(mc::decide(&mut st, 3, key(KeyCode::Char('j'))), mc::KeyOutcome::Consumed);
    assert_eq!(st.selected_index, 1);
    assert_eq!(mc::decide(&mut st, 3, key(KeyCode::Tab)), mc::KeyOutcome::NotConsumed);
    assert_eq!(mc::decide(&mut st, 3, key(KeyCode::Esc)), mc::KeyOutcome::Consumed);
    assert!(!st.detail_open);
    assert_eq!(mc::decide(&mut st, 3, key(KeyCode::Tab)), mc::KeyOutcome::Consumed);
    assert_eq!(st.focused_panel, McPanel::Activity);
    assert_eq!(mc::decide(&mut st, 0, key(KeyCode::Enter)), mc::KeyOutcome::Consumed);
    assert!(!st.detail_open);
    assert_eq!(mc::decide(&mut st, 0, key(KeyCode::Esc)), mc::KeyOutcome::Close);
    st.selected_index = 7;
    st.clamp_selection(3);
    assert_eq!(st.selected_index, 2);
}

#[test]
fn skills_dialog_j_and_k_move_the_selection() {
    let list = vec![
        skill("deploy", "ship it", "deploy body"),
        skill("review", "read the diff", "review body"),
    ];
    let mut st = SkillsDialogState::new();
    assert_eq!(skills::decide(&mut st, &list, key(KeyCode::Char('j'))), skills::KeyOutcome::Consumed);
    assert_eq!(st.selected_index, 1);
    assert_eq!(st.filter, "");
    assert_eq!(skills::decide(&mut st, &list, key(KeyCode::Char('k'))), skills::KeyOutcome::Consumed);
    assert_eq!(st.selected_index, 0);
    assert_eq!(skills::decide(&mut st, &list, key(KeyCode::Char('k'))), skills::KeyOutcome::Consumed);
    assert_eq!(st.selected_index, 1);
    assert_eq!(st.filter, "");
}
