//! The approval requests over their life: superseded, left unresolved, answered.

use stemcell_tui::approval::ApprovalState;
use stemcell_tui::approval_book::{answer_latest, on_approval_request, on_turn_end, ApprovalItem};

fn state_of(items: &[Option<ApprovalItem>], i: usize) -> ApprovalState {
    items[i].as_ref().unwrap().state.clone()
}

#[test]
fn new_request_supersedes_the_waiting_one() {
    let mut items: Vec<Option<ApprovalItem>> = vec![None];
    assert!(on_approval_request(&mut items, 7).is_empty());
    assert_eq!(items.len(), 2);
    assert_eq!(state_of(&items, 1), ApprovalState::Pending);
    let answers = on_approval_request(&mut items, 8);
    assert_eq!(answers.len(), 1);
    assert_eq!(answers[0].request_id, 7);
    assert!(!answers[0].approved);
    assert_eq!(answers[0].reason.as_deref(), Some("Superseded by new request"));
    assert_eq!(state_of(&items, 1), ApprovalState::Denied("Superseded by new request".to_string()));
    assert_eq!(state_of(&items, 2), ApprovalState::Pending);
}

#[test]
fn turn_end_denies_unanswered_requests() {
    let mut items: Vec<Option<ApprovalItem>> = Vec::new();
    on_approval_request(&mut items, 3);
    let answers = on_turn_end(&mut items);
    assert_eq!(answers.len(), 1);
    assert_eq!(answers[0].request_id, 3);
    assert_eq!(answers[0].reason.as_deref(), Some("Agent completed without resolution"));
    assert_eq!(state_of(&items, 0), ApprovalState::Denied("Agent completed without resolution".to_string()));
    assert!(on_turn_end(&mut items).is_empty());
}

#[test]
fn answer_goes_to_the_newest_request_and_removes_it() {
    let mut items: Vec<Option<ApprovalItem>> = vec![None];
    on_approval_request(&mut items, 1);
    items.push(None);
    let a = answer_latest(&mut items, false).unwrap();
    assert_eq!(a.request_id, 1);
    assert!(!a.approved);
    assert_eq!(a.reason.as_deref(), Some("User denied permission"));
    assert_eq!(items.len(), 2);
    assert!(items.iter().all(|m| m.is_none()));
    assert!(answer_latest(&mut items, true).is_none());
    on_approval_request(&mut items, 2);
    let a = answer_latest(&mut items, true).unwrap();
    assert!(a.approved);
    assert_eq!(a.reason, None);
    on_approval_request(&mut items, 4);
    on_turn_end(&mut items);
    assert!(answer_latest(&mut items, true).is_none());
}
