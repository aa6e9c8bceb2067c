//! Decisions taken when the user sends a message.

use stemcell_tui::turn_start::{
    agent_error_message, is_system_trigger, plan_on_user_message, queue_message, task_crash_message,
    with_pending_context, PlanAction, PlanStatus,
};

#[test]
fn plan_fate_follows_its_status() {
    assert_eq!(plan_on_user_message(PlanStatus::Completed), PlanAction::DiscardFile);
    assert_eq!(plan_on_user_message(PlanStatus::Rejected), PlanAction::DiscardFile);
    assert_eq!(plan_on_user_message(PlanStatus::Cancelled), PlanAction::DiscardFile);
    assert_eq!(plan_on_user_message(PlanStatus::InProgress), PlanAction::Keep);
    assert_eq!(plan_on_user_message(PlanStatus::Draft), PlanAction::HideWidget);
    assert_eq!(plan_on_user_message(PlanStatus::PendingApproval), PlanAction::HideWidget);
    assert_eq!(plan_on_user_message(PlanStatus::Approved), PlanAction::HideWidget);
}

#[test]
fn queued_messages_stack_on_new_lines() {
    let q = queue_message(None, "first");
    assert_eq!(q, "first");
    assert_eq!(queue_message(Some(q), "second"), "first\nsecond");
}

#[test]
fn pending_context_is_prepended() {
    assert_eq!(with_pending_context(&vec![], "hi"), "hi");
    let notes = vec!["Model changed to x".to_string(), "Working directory: /tmp".to_string()];
    assert_eq!(
        with_pending_context(&notes, "hi"),
        "Model changed to x\nWorking directory: /tmp\n\nhi"
    );
}

#[test]
fn system_triggers_and_error_texts() {
    assert!(is_system_trigger("[SYSTEM: Compact context now.]"));
    assert!(!is_system_trigger(" [SYSTEM: x]"));
    assert!(agent_error_message("reqwest: error decoding response body").starts_with("Provider stream broke unexpectedly"));
    assert!(agent_error_message("Repetition detected in stream").starts_with("Provider got stuck in a loop"));
    assert_eq!(agent_error_message("rate limited"), "rate limited");
    assert_eq!(
        task_crash_message("oops"),
        "Agent task crashed unexpectedly: oops. You can continue chatting."
    );
}

#[test]
fn every_queued_message_arrives_in_order() {
    let mut q = None;
    for m in ["a", "b c", "d"] {
        q = Some(queue_message(q, m));
    }
    assert_eq!(q.unwrap(), ["a", "b c", "d"].join("\n"));
}
