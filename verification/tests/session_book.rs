//! Per-session bookkeeping when turns end and remote channels report.

use stemcell_tui::session_state::LiveTurn;
use stemcell_tui::session_book::{
    on_channel_finished, on_channel_started, on_focused_complete, on_pending_resumed, on_session_updated, on_turn_end,
    SessionBook, TurnEnd, TurnEndAction,
};

#[test]
fn background_response_marks_unread_and_drops_running_state() {
    let mut b = SessionBook::new();
    on_pending_resumed(&mut b, 5, false);
    b.background.push(5);
    assert!(b.processing.contains(&5) && b.cancel_tokens.contains(&5));
    let out = on_turn_end(&mut b, 5, false, TurnEnd::Complete { local_running: false });
    assert_eq!(out, TurnEndAction::RefreshPane);
    assert!(!b.processing.contains(&5));
    assert!(!b.cancel_tokens.contains(&5));
    assert!(b.unread.contains(&5));
    assert!(!b.background.contains(&5));
}

#[test]
fn focused_turn_end_actions() {
    let mut b = SessionBook::new();
    assert_eq!(on_turn_end(&mut b, 1, true, TurnEnd::Complete { local_running: true }), TurnEndAction::CompleteResponse);
    assert_eq!(on_turn_end(&mut b, 1, true, TurnEnd::Complete { local_running: false }), TurnEndAction::Reload);
    on_pending_resumed(&mut b, 1, true);
    assert!(b.processing.contains(&1) && !b.cancel_tokens.contains(&1));
    assert_eq!(on_turn_end(&mut b, 1, true, TurnEnd::Error("Cancelled".to_string())), TurnEndAction::Nothing);
    assert!(!b.processing.contains(&1));
    assert_eq!(on_turn_end(&mut b, 1, true, TurnEnd::Error("boom".to_string())), TurnEndAction::ReloadAndShowError);
    assert_eq!(on_turn_end(&mut b, 2, false, TurnEnd::Error("boom".to_string())), TurnEndAction::RefreshPane);
    assert!(b.unread.is_empty());
}

#[test]
fn channel_turns_and_updates() {
    let mut b = SessionBook::new();
    on_channel_started(&mut b, 3);
    assert!(b.processing.contains(&3) && b.channel.contains(&3));
    assert!(on_session_updated(&mut b, 3, true));
    assert!(!on_session_updated(&mut b, 4, false));
    assert!(b.unread.contains(&4));
    assert!(!on_channel_finished(&mut b, 3, true, true));
    assert!(b.processing.contains(&3) && !b.channel.contains(&3));
    assert!(!on_session_updated(&mut b, 3, true));
    assert!(on_channel_finished(&mut b, 3, true, false));
    assert!(!b.processing.contains(&3));
    assert!(on_session_updated(&mut b, 3, true));
}

#[test]
fn focused_completion_ends_the_turn() {
    let mut b = SessionBook::new();
    on_pending_resumed(&mut b, 9, true);
    on_channel_started(&mut b, 9);
    let mut turn: LiveTurn<u8, u64> = LiveTurn {
        streaming_response: Some("partial".to_string()),
        streaming_reasoning: Some("thinking".to_string()),
        active_tool_group: Some(3),
        is_processing: true,
        processing_started_at: Some(17),
        last_input_tokens: Some(100),
        streaming_output_tokens: 12,
        display_token_count: 200,
    };
    let (reasoning, group) = on_focused_complete(&mut b, 9, &mut turn);
    assert_eq!(reasoning.as_deref(), Some("thinking"));
    assert_eq!(group, Some(3));
    assert!(!b.processing.contains(&9));
    assert!(b.channel.contains(&9));
    assert!(!turn.is_processing && turn.processing_started_at.is_none());
    assert!(turn.streaming_response.is_none() && turn.streaming_reasoning.is_none());
    assert!(turn.active_tool_group.is_none());
    assert_eq!(turn.streaming_output_tokens, 0);
    assert_eq!(turn.last_input_tokens, Some(100));
    assert_eq!(turn.display_token_count, 200);
}
