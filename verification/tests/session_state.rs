//! Live turn state of background sessions and focus switches.

use stemcell_tui::session_state::{response_placement, ResponsePlacement, demote_to_background, error_gets_bubble, input_tokens_after_error, promote_to_foreground, BackgroundSessionState, LiveTurn};

type Bg = BackgroundSessionState<u8, &'static str, u64>;

fn idle_turn() -> LiveTurn<u8, u64> {
    LiveTurn {
        streaming_response: None,
        streaming_reasoning: None,
        active_tool_group: None,
        is_processing: false,
        processing_started_at: None,
        last_input_tokens: Some(10),
        streaming_output_tokens: 0,
        display_token_count: 5,
    }
}

#[test]
fn streaming_chunks_accumulate_and_end_reasoning() {
    let mut b: Bg = BackgroundSessionState::new();
    assert!(!b.has_live_state());
    b.append_reasoning_chunk("thinking");
    assert_eq!(b.streaming_reasoning.as_deref(), Some("thinking"));
    b.append_streaming_chunk("Hel");
    b.append_streaming_chunk("lo");
    assert_eq!(b.streaming_response.as_deref(), Some("Hello"));
    assert!(b.streaming_reasoning.is_none());
    assert!(b.has_live_state());
}

#[test]
fn reasoning_chunks_skip_empty_and_leading_whitespace() {
    let mut b: Bg = BackgroundSessionState::new();
    b.append_reasoning_chunk("");
    b.append_reasoning_chunk("  \n");
    assert!(b.streaming_reasoning.is_none());
    b.append_reasoning_chunk("a");
    b.append_reasoning_chunk(" ");
    assert_eq!(b.streaming_reasoning.as_deref(), Some("a "));
}

#[test]
fn processing_clock_and_tokens() {
    let mut b: Bg = BackgroundSessionState::new();
    b.set_processing(true, 100);
    b.set_processing(true, 200);
    assert_eq!(b.processing_started_at, Some(100));
    b.add_streaming_output_tokens(7);
    b.add_streaming_output_tokens(3);
    assert_eq!(b.streaming_output_tokens, 10);
    b.set_processing(false, 300);
    assert!(!b.is_processing);
    assert_eq!(b.processing_started_at, None);
}

#[test]
fn tool_group_and_counters() {
    let mut b: Bg = BackgroundSessionState::new();
    b.set_active_tool_group(Some(3));
    assert_eq!(b.take_active_tool_group(), Some(3));
    assert_eq!(b.take_active_tool_group(), None);
    b.set_display_token_count(99);
    b.set_last_input_tokens(12);
    assert_eq!(b.display_token_count, 99);
    assert_eq!(b.last_input_tokens, Some(12));
}

#[test]
fn clear_turn_keeps_pending_messages() {
    let mut b: Bg = BackgroundSessionState::new();
    b.append_streaming_chunk("x");
    b.set_processing(true, 1);
    b.push_message("flushed");
    b.clear_turn_state();
    assert!(b.streaming_response.is_none());
    assert!(!b.is_processing);
    assert_eq!(b.pending_messages, vec!["flushed"]);
    assert!(b.has_live_state());
    let mut c: Bg = BackgroundSessionState::new();
    c.append_streaming_chunk("x");
    c.clear_turn_state();
    assert!(!c.has_live_state());
}

#[test]
fn idle_session_is_not_kept_in_background() {
    let r: Option<Bg> = demote_to_background(idle_turn(), None);
    assert!(r.is_none());
}

#[test]
fn demote_then_promote_restores_turn_and_merges_messages() {
    let mut turn = idle_turn();
    turn.streaming_response = Some("partial".to_string());
    turn.is_processing = true;
    turn.processing_started_at = Some(42);
    let mut prior: Bg = BackgroundSessionState::new();
    prior.push_message("earlier");
    let mut bg = demote_to_background(turn, Some(prior)).expect("live state kept");
    bg.push_message("later");
    let mut messages = vec!["shown"];
    let back = promote_to_foreground(Some(bg), &mut messages).expect("entry present");
    assert_eq!(back.streaming_response.as_deref(), Some("partial"));
    assert!(back.is_processing);
    assert_eq!(back.processing_started_at, Some(42));
    assert_eq!(back.last_input_tokens, Some(10));
    assert_eq!(messages, vec!["shown", "earlier", "later"]);
}

#[test]
fn promote_without_entry_changes_nothing() {
    let mut messages = vec!["a"];
    let r = promote_to_foreground::<u8, &str, u64>(None, &mut messages);
    assert!(r.is_none());
    assert_eq!(messages, vec!["a"]);
}

#[test]
fn pending_messages_alone_keep_the_entry() {
    let mut prior: Bg = BackgroundSessionState::new();
    prior.push_message("m");
    let r = demote_to_background(idle_turn(), Some(prior)).expect("kept for its messages");
    assert_eq!(r.pending_messages, vec!["m"]);
    assert_eq!(r.display_token_count, 5);
}

#[test]
fn cancellations_get_no_error_bubble() {
    assert!(!error_gets_bubble("Cancelled"));
    assert!(!error_gets_bubble("Press Ctrl+C again to quit"));
    assert!(error_gets_bubble("Cancelled by server"));
    assert!(error_gets_bubble("connection reset"));
    assert!(error_gets_bubble(""));
}

#[test]
fn failed_turn_keeps_last_input_tokens() {
    assert_eq!(input_tokens_after_error(Some(7), 120), Some(7));
    assert_eq!(input_tokens_after_error(None, 120), Some(120));
    assert_eq!(input_tokens_after_error(None, 0), None);
    assert_eq!(input_tokens_after_error(Some(0), 0), Some(0));
}

#[test]
fn finished_response_updates_the_streamed_message_or_appends() {
    let roles: Vec<String> = ["user", "assistant", "tool_group", "system"].iter().map(|r| r.to_string()).collect();
    assert_eq!(response_placement(false, &roles, false, false), ResponsePlacement::Append);
    assert_eq!(
        response_placement(true, &roles, false, true),
        ResponsePlacement::UpdateLast { index: 1, replace_content: true, replace_details: true }
    );
    // An empty response keeps the streamed text.
    assert_eq!(
        response_placement(true, &roles, true, false),
        ResponsePlacement::UpdateLast { index: 1, replace_content: false, replace_details: false }
    );
    let no_assistant: Vec<String> = vec!["user".to_string()];
    assert_eq!(response_placement(true, &no_assistant, false, false), ResponsePlacement::Append);
}

#[test]
fn focused_turn_streams_and_thinks() {
    let mut t = idle_turn();
    assert!(!t.append_reasoning_chunk(""));
    assert!(t.append_reasoning_chunk("  "));
    assert_eq!(t.streaming_reasoning, None);
    t.append_reasoning_chunk("plan");
    t.append_reasoning_chunk(" ");
    assert_eq!(t.streaming_reasoning.as_deref(), Some("plan "));
    assert!(t.append_streaming_chunk("Hel"));
    assert!(!t.append_streaming_chunk("lo"));
    assert_eq!(t.streaming_response.as_deref(), Some("Hello"));
    assert_eq!(t.streaming_reasoning.as_deref(), Some("plan "));
    t.set_processing(true, 5);
    t.set_processing(true, 9);
    assert_eq!(t.processing_started_at, Some(5));
    let (r, g) = t.finish();
    assert_eq!(r.as_deref(), Some("plan "));
    assert_eq!(g, None);
    assert!(!t.is_processing && t.streaming_response.is_none());
}
