//! The inline tool-approval prompt and the `/approve` policy menu.

use stemcell_tui::approval::{
    any_pending_approval, any_pending_menu, policy_from_config_value, approval_route, background_approval_reason, deny_pending, ApprovalRoute, policy_config_value, policy_for_selection, policy_label, ApprovalOption, ApprovalPolicy,
    ApprovalPrompt, ApprovalState, ApproveMenu, ApproveMenuState, MenuOutcome, PromptKey,
    PromptOutcome, MENU_CANCELLED,
};

#[test]
fn menu_highlight_stops_at_both_ends() {
    let mut m = ApproveMenu::new();
    assert_eq!(m.handle_key(PromptKey::Previous), MenuOutcome::Consumed);
    assert_eq!(m.selected_option, 0);
    m.handle_key(PromptKey::Next);
    m.handle_key(PromptKey::Next);
    m.handle_key(PromptKey::Next);
    assert_eq!(m.selected_option, 2);
    m.handle_key(PromptKey::Previous);
    assert_eq!(m.selected_option, 1);
}

#[test]
fn menu_confirm_applies_and_resolves() {
    let mut m = ApproveMenu::new();
    m.handle_key(PromptKey::Next);
    assert_eq!(m.handle_key(PromptKey::Confirm), MenuOutcome::Apply(1));
    assert_eq!(m.state, ApproveMenuState::Selected(1));
    assert!(!m.is_pending());
    // A resolved menu no longer moves.
    m.handle_key(PromptKey::Next);
    assert_eq!(m.selected_option, 1);
    assert_eq!(m.handle_key(PromptKey::Confirm), MenuOutcome::Apply(0));
    assert_eq!(m.state, ApproveMenuState::Selected(1));
}

#[test]
fn menu_cancel_keeps_policy() {
    let mut m = ApproveMenu::new();
    assert_eq!(m.handle_key(PromptKey::Cancel), MenuOutcome::Cancelled);
    assert_eq!(m.state, ApproveMenuState::Selected(MENU_CANCELLED));
    let mut m = ApproveMenu::new();
    assert_eq!(m.handle_key(PromptKey::Deny), MenuOutcome::Consumed);
    assert!(m.is_pending());
}

#[test]
fn policies_by_row() {
    assert_eq!(policy_for_selection(0), ApprovalPolicy { auto_session: false, auto_always: false });
    assert_eq!(policy_for_selection(1), ApprovalPolicy { auto_session: true, auto_always: false });
    assert_eq!(policy_for_selection(2), ApprovalPolicy { auto_session: false, auto_always: true });
    assert_eq!(policy_for_selection(7), ApprovalPolicy { auto_session: false, auto_always: true });
    assert_eq!(policy_label(0), "Approve-only (always ask)");
    assert_eq!(policy_label(1), "Allow all for this session");
    assert_eq!(policy_label(2), "Yolo mode (execute without approval)");
    assert_eq!(policy_config_value(0), "ask");
    assert_eq!(policy_config_value(1), "auto-session");
    assert_eq!(policy_config_value(2), "auto-always");
}

#[test]
fn prompt_confirm_by_option() {
    let mut p = ApprovalPrompt::new();
    assert_eq!(p.handle_key(PromptKey::Confirm), PromptOutcome::Approve(ApprovalOption::AllowOnce));
    p.handle_key(PromptKey::Next);
    assert_eq!(p.handle_key(PromptKey::Confirm), PromptOutcome::Approve(ApprovalOption::AllowAlways));
    p.handle_key(PromptKey::Next);
    p.handle_key(PromptKey::Next);
    assert_eq!(p.selected_option, 2);
    assert_eq!(p.handle_key(PromptKey::Confirm), PromptOutcome::Deny);
}

#[test]
fn prompt_deny_details_and_other_keys() {
    let mut p = ApprovalPrompt::new();
    assert_eq!(p.handle_key(PromptKey::Deny), PromptOutcome::Deny);
    assert_eq!(p.handle_key(PromptKey::Cancel), PromptOutcome::Deny);
    assert_eq!(p.handle_key(PromptKey::ToggleDetails), PromptOutcome::Consumed);
    assert!(p.show_details);
    p.handle_key(PromptKey::ToggleDetails);
    assert!(!p.show_details);
    assert_eq!(p.handle_key(PromptKey::Other), PromptOutcome::Consumed);
    assert_eq!(p, ApprovalPrompt::new());
}

#[test]
fn approval_state_pending() {
    assert!(ApprovalState::Pending.is_pending());
    assert!(!ApprovalState::Approved(ApprovalOption::AllowForSession).is_pending());
    assert!(!ApprovalState::Denied("no".to_string()).is_pending());
}

#[test]
fn route_follows_policy_and_focus() {
    let ask = ApprovalPolicy { auto_session: false, auto_always: false };
    let session = ApprovalPolicy { auto_session: true, auto_always: false };
    let always = ApprovalPolicy { auto_session: false, auto_always: true };
    assert_eq!(approval_route(ask, true), ApprovalRoute::Prompt);
    assert_eq!(approval_route(ask, false), ApprovalRoute::AutoApproveBackground);
    assert_eq!(approval_route(session, true), ApprovalRoute::AutoApprove);
    assert_eq!(approval_route(session, false), ApprovalRoute::AutoApprove);
    assert_eq!(approval_route(always, false), ApprovalRoute::AutoApprove);
    assert_eq!(background_approval_reason(), "Auto-approved (background session)");
}

#[test]
fn deny_pending_denies_only_waiting_requests() {
    let mut states = vec![
        ApprovalState::Pending,
        ApprovalState::Approved(ApprovalOption::AllowOnce),
        ApprovalState::Denied("old".to_string()),
        ApprovalState::Pending,
    ];
    let denied = deny_pending(&mut states, "Superseded by new request");
    assert_eq!(denied, vec![0, 3]);
    assert_eq!(states[0], ApprovalState::Denied("Superseded by new request".to_string()));
    assert_eq!(states[1], ApprovalState::Approved(ApprovalOption::AllowOnce));
    assert_eq!(states[2], ApprovalState::Denied("old".to_string()));
    assert_eq!(states[3], ApprovalState::Denied("Superseded by new request".to_string()));
    assert!(states.iter().all(|s| !s.is_pending()));
    // A second call finds nothing left to deny.
    assert!(deny_pending(&mut states, "again").is_empty());
}

#[test]
fn configured_policy_value_reads_back() {
    for row in 0..3usize {
        assert_eq!(policy_from_config_value(policy_config_value(row)), policy_for_selection(row));
    }
    assert_eq!(
        policy_from_config_value("auto-session"),
        ApprovalPolicy { auto_session: true, auto_always: false }
    );
    assert_eq!(
        policy_from_config_value("auto-always"),
        ApprovalPolicy { auto_session: false, auto_always: true }
    );
    assert_eq!(
        policy_from_config_value("bogus"),
        ApprovalPolicy { auto_session: false, auto_always: false }
    );
    assert_eq!(policy_from_config_value(""), ApprovalPolicy { auto_session: false, auto_always: false });
}

#[test]
fn pending_requests_are_found_in_any_message() {
    assert!(!any_pending_approval(&[]));
    assert!(!any_pending_approval(&[None, Some(ApprovalState::Denied("x".to_string()))]));
    assert!(any_pending_approval(&[Some(ApprovalState::Pending), None]));
    let mut resolved = ApproveMenu::new();
    resolved.handle_key(PromptKey::Cancel);
    assert!(!any_pending_menu(&[None, Some(resolved)]));
    assert!(any_pending_menu(&[Some(ApproveMenu::new()), Some(resolved)]));
}
