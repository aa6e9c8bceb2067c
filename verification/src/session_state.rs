//! Live state of a session's in-flight turn, for the focused pane and for
//! sessions shown in a non-focused pane. Events for a background session
//! land in its `BackgroundSessionState`; on a focus switch the leaving
//! session's live turn is demoted into such an entry and the entering
//! session's entry is promoted back.
//!
//! The tool-call group (`G`), the chat message (`M`) and the clock reading
//! (`I`) are carried through unchanged; the state never looks inside them.

use vstd::prelude::*;
use crate::text::{
    chars_eq, chars_start_with, lemma_trim_start_ws_append, seq_starts_with, str_chars, trim_chars,
    trim_end_ws, trim_start_ws, trim_ws,
};
use crate::unicode::is_whitespace_char;

verus! {

/// The in-flight turn of the focused session.
#[derive(Clone, Debug)]
pub struct LiveTurn<G, I> {
    /// Streaming response text of the turn; `None` between turns.
    pub streaming_response: Option<String>,
    /// Streaming reasoning ("Thinking ...") text of the turn.
    pub streaming_reasoning: Option<String>,
    /// Tool calls executing this turn.
    pub active_tool_group: Option<G>,
    /// Whether the agent is mid-turn.
    pub is_processing: bool,
    /// When the current turn started.
    pub processing_started_at: Option<I>,
    /// Last input-token count seen.
    pub last_input_tokens: Option<u32>,
    /// Output tokens streamed so far this turn.
    pub streaming_output_tokens: u32,
    /// Context-token count shown in the footer.
    pub display_token_count: usize,
}

/// Live state of a session shown in a non-focused pane: the same fields as
/// the focused session's live turn, plus the messages flushed while the
/// session was in the background.
#[derive(Clone, Debug)]
pub struct BackgroundSessionState<G, M, I> {
    pub streaming_response: Option<String>,
    pub streaming_reasoning: Option<String>,
    pub active_tool_group: Option<G>,
    pub is_processing: bool,
    pub processing_started_at: Option<I>,
    pub last_input_tokens: Option<u32>,
    pub streaming_output_tokens: u32,
    pub display_token_count: usize,
    /// Messages flushed while in the background, merged into the message
    /// list when the session is focused again.
    pub pending_messages: Vec<M>,
}

/// The text of an optional buffer.
pub open spec fn text_of(o: Option<String>) -> Option<Seq<char>> {
    match o {
        Some(s) => Some(s@),
        None => None,
    }
}

/// Whether a live turn holds anything worth rendering.
pub open spec fn turn_is_live<G, I>(t: LiveTurn<G, I>) -> bool {
    t.streaming_response is Some || t.streaming_reasoning is Some || t.active_tool_group is Some
        || t.is_processing || t.streaming_output_tokens > 0
}

/// Whether a background entry holds anything worth rendering.
pub open spec fn bg_is_live<G, M, I>(b: BackgroundSessionState<G, M, I>) -> bool {
    b.streaming_response is Some || b.streaming_reasoning is Some || b.active_tool_group is Some
        || b.is_processing || b.streaming_output_tokens > 0 || b.pending_messages@.len() > 0
}

/// The background entry holds exactly the turn `t` with pending messages
/// `p`.
pub open spec fn holds_turn<G, M, I>(b: BackgroundSessionState<G, M, I>, t: LiveTurn<G, I>, p: Seq<
    M,
>) -> bool {
    &&& text_of(b.streaming_response) == text_of(t.streaming_response)
    &&& text_of(b.streaming_reasoning) == text_of(t.streaming_reasoning)
    &&& b.active_tool_group == t.active_tool_group
    &&& b.is_processing == t.is_processing
    &&& b.processing_started_at == t.processing_started_at
    &&& b.last_input_tokens == t.last_input_tokens
    &&& b.streaming_output_tokens == t.streaming_output_tokens
    &&& b.display_token_count == t.display_token_count
    &&& b.pending_messages@ == p
}

/// Two live turns agree on every field (texts by content).
pub open spec fn same_turn<G, I>(a: LiveTurn<G, I>, t: LiveTurn<G, I>) -> bool {
    &&& text_of(a.streaming_response) == text_of(t.streaming_response)
    &&& text_of(a.streaming_reasoning) == text_of(t.streaming_reasoning)
    &&& a.active_tool_group == t.active_tool_group
    &&& a.is_processing == t.is_processing
    &&& a.processing_started_at == t.processing_started_at
    &&& a.last_input_tokens == t.last_input_tokens
    &&& a.streaming_output_tokens == t.streaming_output_tokens
    &&& a.display_token_count == t.display_token_count
}

/// Two background entries agree on every field except possibly those
/// named by the operation (stated separately).
pub open spec fn same_except_turn_text<G, M, I>(
    a: BackgroundSessionState<G, M, I>,
    b: BackgroundSessionState<G, M, I>,
) -> bool {
    &&& a.active_tool_group == b.active_tool_group
    &&& a.is_processing == b.is_processing
    &&& a.processing_started_at == b.processing_started_at
    &&& a.last_input_tokens == b.last_input_tokens
    &&& a.streaming_output_tokens == b.streaming_output_tokens
    &&& a.display_token_count == b.display_token_count
    &&& a.pending_messages@ == b.pending_messages@
}

/// The reasoning text after a chunk `t` arrives: an empty chunk changes
/// nothing; a chunk is appended to a started text; a whitespace-only chunk
/// does not start one.
pub open spec fn reasoning_after(r0: Option<Seq<char>>, t: Seq<char>) -> Option<Seq<char>> {
    if t.len() == 0 {
        r0
    } else {
        match r0 {
            Some(s) => Some(s + t),
            None => if trim_ws(t).len() == 0 {
                None
            } else {
                Some(t)
            },
        }
    }
}

/// The reasoning text is absent or holds a char that is not whitespace.
pub open spec fn reasoning_shown(r: Option<Seq<char>>) -> bool {
    match r {
        Some(s) => trim_ws(s).len() > 0,
        None => true,
    }
}

proof fn lemma_trim_end_ws_len(x: Seq<char>)
    ensures
        trim_end_ws(x).len() <= x.len(),
    decreases x.len(),
{
    if x.len() > 0 && is_whitespace_char(x.last()) {
        lemma_trim_end_ws_len(x.drop_last());
    }
}

proof fn lemma_trim_end_ws_grows(x: Seq<char>, t: Seq<char>)
    ensures
        trim_end_ws(x + t).len() >= trim_end_ws(x).len(),
    decreases t.len(),
{
    if t.len() == 0 {
        assert(x + t =~= x);
    } else {
        assert((x + t).last() == t.last());
        assert((x + t).drop_last() =~= x + t.drop_last());
        lemma_trim_end_ws_grows(x, t.drop_last());
        lemma_trim_end_ws_len(x);
    }
}

/// A reasoning text that is shown stays shown after any chunk: the
/// "Thinking" label never appears without content.
pub proof fn law_reasoning_stays_shown(r0: Option<Seq<char>>, t: Seq<char>)
    requires
        reasoning_shown(r0),
    ensures
        reasoning_shown(reasoning_after(r0, t)),
{
    if t.len() > 0 {
        if let Some(s) = r0 {
            assert(trim_start_ws(s).len() > 0);
            lemma_trim_start_ws_append(s, t);
            lemma_trim_end_ws_grows(trim_start_ws(s), t);
        }
    }
}

impl<G, I> LiveTurn<G, I> {
    /// Appends a chunk of the focused session's streaming response.
    /// Returns whether it started the response (the chat then scrolls to
    /// the bottom when auto-scroll is on).
    pub fn append_streaming_chunk(&mut self, text: &str) -> (started: bool)
        ensures
            started == (old(self).streaming_response is None),
            text_of(final(self).streaming_response) == Some(
                match text_of(old(self).streaming_response) {
                    Some(s) => s,
                    None => Seq::<char>::empty(),
                } + text@,
            ),
            text_of(final(self).streaming_reasoning) == text_of(old(self).streaming_reasoning),
            final(self).active_tool_group == old(self).active_tool_group,
            final(self).is_processing == old(self).is_processing,
            final(self).processing_started_at == old(self).processing_started_at,
            final(self).last_input_tokens == old(self).last_input_tokens,
            final(self).streaming_output_tokens == old(self).streaming_output_tokens,
            final(self).display_token_count == old(self).display_token_count,
    {
        let cur = self.streaming_response.take();
        match cur {
            Some(mut s) => {
                s.append(text);
                self.streaming_response = Some(s);
                false
            },
            None => {
                self.streaming_response = Some(String::from_str(text));
                true
            },
        }
    }

    /// Appends a reasoning chunk to the focused session's turn (see
    /// `reasoning_after`). Returns whether the chunk was not empty (the
    /// chat then scrolls to the bottom when auto-scroll is on).
    pub fn append_reasoning_chunk(&mut self, text: &str) -> (nonempty: bool)
        ensures
            nonempty == (text@.len() > 0),
            text_of(final(self).streaming_reasoning) == reasoning_after(
                text_of(old(self).streaming_reasoning),
                text@,
            ),
            text_of(final(self).streaming_response) == text_of(old(self).streaming_response),
            final(self).active_tool_group == old(self).active_tool_group,
            final(self).is_processing == old(self).is_processing,
            final(self).processing_started_at == old(self).processing_started_at,
            final(self).last_input_tokens == old(self).last_input_tokens,
            final(self).streaming_output_tokens == old(self).streaming_output_tokens,
            final(self).display_token_count == old(self).display_token_count,
    {
        let chars = str_chars(text);
        if chars.len() == 0 {
            return false;
        }
        let trimmed = trim_chars(&chars);
        let cur = self.streaming_reasoning.take();
        match cur {
            Some(mut s) => {
                s.append(text);
                self.streaming_reasoning = Some(s);
            },
            None => {
                if trimmed.len() > 0 {
                    self.streaming_reasoning = Some(String::from_str(text));
                }
            },
        }
        true
    }

    /// Marks the focused session as processing a turn or not. Starting
    /// records `now` as the turn's start unless one is recorded; stopping
    /// clears it.
    pub fn set_processing(&mut self, processing: bool, now: I)
        ensures
            final(self).is_processing == processing,
            final(self).processing_started_at == (if processing {
                match old(self).processing_started_at {
                    Some(t) => Some(t),
                    None => Some(now),
                }
            } else {
                None
            }),
            text_of(final(self).streaming_response) == text_of(old(self).streaming_response),
            text_of(final(self).streaming_reasoning) == text_of(old(self).streaming_reasoning),
            final(self).active_tool_group == old(self).active_tool_group,
            final(self).last_input_tokens == old(self).last_input_tokens,
            final(self).streaming_output_tokens == old(self).streaming_output_tokens,
            final(self).display_token_count == old(self).display_token_count,
    {
        self.is_processing = processing;
        if processing {
            if self.processing_started_at.is_none() {
                self.processing_started_at = Some(now);
            }
        } else {
            self.processing_started_at = None;
        }
    }

    /// Ends the focused session's turn when its response is complete: it
    /// stops processing, and the streamed response, the streamed-token
    /// count, the reasoning and the tool-call group are cleared. Returns
    /// the reasoning and the group, which the caller files into the chat.
    pub fn finish(&mut self) -> (done: (Option<String>, Option<G>))
        ensures
            text_of(done.0) == text_of(old(self).streaming_reasoning),
            done.1 == old(self).active_tool_group,
            !final(self).is_processing,
            final(self).processing_started_at is None,
            final(self).streaming_response is None,
            final(self).streaming_reasoning is None,
            final(self).active_tool_group is None,
            final(self).streaming_output_tokens == 0,
            final(self).last_input_tokens == old(self).last_input_tokens,
            final(self).display_token_count == old(self).display_token_count,
            !turn_is_live(*final(self)),
    {
        self.is_processing = false;
        self.processing_started_at = None;
        self.streaming_response = None;
        self.streaming_output_tokens = 0;
        let reasoning = self.streaming_reasoning.take();
        let group = self.active_tool_group.take();
        (reasoning, group)
    }
}

impl<G, M, I> BackgroundSessionState<G, M, I> {
    /// An entry with no live state.
    pub fn new() -> (s: Self)
        ensures
            s.streaming_response is None,
            s.streaming_reasoning is None,
            s.active_tool_group is None,
            !s.is_processing,
            s.processing_started_at is None,
            s.last_input_tokens is None,
            s.streaming_output_tokens == 0,
            s.display_token_count == 0,
            s.pending_messages@.len() == 0,
    {
        BackgroundSessionState {
            streaming_response: None,
            streaming_reasoning: None,
            active_tool_group: None,
            is_processing: false,
            processing_started_at: None,
            last_input_tokens: None,
            streaming_output_tokens: 0,
            display_token_count: 0,
            pending_messages: Vec::new(),
        }
    }

    /// Whether there is any live state worth rendering; empty entries are
    /// dropped to keep the map of background sessions bounded.
    pub fn has_live_state(&self) -> (b: bool)
        ensures
            b == bg_is_live(*self),
    {
        self.streaming_response.is_some() || self.streaming_reasoning.is_some()
            || self.active_tool_group.is_some() || self.is_processing
            || self.streaming_output_tokens > 0 || self.pending_messages.len() > 0
    }

    /// Appends a chunk of the streaming response; a response chunk ends the
    /// reasoning shown so far.
    pub fn append_streaming_chunk(&mut self, text: &str)
        ensures
            text_of(final(self).streaming_response) == Some(
                match text_of(old(self).streaming_response) {
                    Some(s) => s,
                    None => Seq::<char>::empty(),
                } + text@,
            ),
            final(self).streaming_reasoning is None,
            same_except_turn_text(*final(self), *old(self)),
    {
        self.streaming_reasoning = None;
        let cur = self.streaming_response.take();
        let mut s = match cur {
            Some(s) => s,
            None => String::new(),
        };
        s.append(text);
        self.streaming_response = Some(s);
    }

    /// Appends a reasoning chunk. An empty chunk is ignored, and a
    /// whitespace-only chunk does not start a reasoning text (it is appended
    /// to one already started).
    pub fn append_reasoning_chunk(&mut self, text: &str)
        ensures
            text_of(final(self).streaming_reasoning) == reasoning_after(
                text_of(old(self).streaming_reasoning),
                text@,
            ),
            text_of(final(self).streaming_response) == text_of(old(self).streaming_response),
            same_except_turn_text(*final(self), *old(self)),
    {
        let chars = str_chars(text);
        if chars.len() == 0 {
            return;
        }
        let trimmed = trim_chars(&chars);
        let cur = self.streaming_reasoning.take();
        match cur {
            Some(mut s) => {
                s.append(text);
                self.streaming_reasoning = Some(s);
            },
            None => {
                if trimmed.len() > 0 {
                    self.streaming_reasoning = Some(String::from_str(text));
                }
            },
        }
    }

    /// Marks the session as processing a turn or not. Starting records
    /// `now` as the turn's start unless one is recorded; stopping clears it.
    pub fn set_processing(&mut self, processing: bool, now: I)
        ensures
            final(self).is_processing == processing,
            final(self).processing_started_at == (if processing {
                match old(self).processing_started_at {
                    Some(t) => Some(t),
                    None => Some(now),
                }
            } else {
                None
            }),
            text_of(final(self).streaming_response) == text_of(old(self).streaming_response),
            text_of(final(self).streaming_reasoning) == text_of(old(self).streaming_reasoning),
            final(self).active_tool_group == old(self).active_tool_group,
            final(self).last_input_tokens == old(self).last_input_tokens,
            final(self).streaming_output_tokens == old(self).streaming_output_tokens,
            final(self).display_token_count == old(self).display_token_count,
            final(self).pending_messages@ == old(self).pending_messages@,
    {
        self.is_processing = processing;
        if processing {
            if self.processing_started_at.is_none() {
                self.processing_started_at = Some(now);
            }
        } else {
            self.processing_started_at = None;
        }
    }

    /// Adds streamed output tokens to the turn's count.
    pub fn add_streaming_output_tokens(&mut self, tokens: u32)
        requires
            old(self).streaming_output_tokens + tokens <= u32::MAX,
        ensures
            final(self).streaming_output_tokens == old(self).streaming_output_tokens + tokens,
            text_of(final(self).streaming_response) == text_of(old(self).streaming_response),
            text_of(final(self).streaming_reasoning) == text_of(old(self).streaming_reasoning),
            final(self).active_tool_group == old(self).active_tool_group,
            final(self).is_processing == old(self).is_processing,
            final(self).processing_started_at == old(self).processing_started_at,
            final(self).last_input_tokens == old(self).last_input_tokens,
            final(self).display_token_count == old(self).display_token_count,
            final(self).pending_messages@ == old(self).pending_messages@,
    {
        self.streaming_output_tokens = self.streaming_output_tokens + tokens;
    }

    /// Replaces the active tool-call group.
    pub fn set_active_tool_group(&mut self, group: Option<G>)
        ensures
            final(self).active_tool_group == group,
            text_of(final(self).streaming_response) == text_of(old(self).streaming_response),
            text_of(final(self).streaming_reasoning) == text_of(old(self).streaming_reasoning),
            final(self).is_processing == old(self).is_processing,
            final(self).processing_started_at == old(self).processing_started_at,
            final(self).last_input_tokens == old(self).last_input_tokens,
            final(self).streaming_output_tokens == old(self).streaming_output_tokens,
            final(self).display_token_count == old(self).display_token_count,
            final(self).pending_messages@ == old(self).pending_messages@,
    {
        self.active_tool_group = group;
    }

    /// Takes the active tool-call group out, leaving none.
    pub fn take_active_tool_group(&mut self) -> (g: Option<G>)
        ensures
            g == old(self).active_tool_group,
            final(self).active_tool_group is None,
            text_of(final(self).streaming_response) == text_of(old(self).streaming_response),
            text_of(final(self).streaming_reasoning) == text_of(old(self).streaming_reasoning),
            final(self).is_processing == old(self).is_processing,
            final(self).processing_started_at == old(self).processing_started_at,
            final(self).last_input_tokens == old(self).last_input_tokens,
            final(self).streaming_output_tokens == old(self).streaming_output_tokens,
            final(self).display_token_count == old(self).display_token_count,
            final(self).pending_messages@ == old(self).pending_messages@,
    {
        self.active_tool_group.take()
    }

    /// Sets the context-token count shown in the footer.
    pub fn set_display_token_count(&mut self, count: usize)
        ensures
            final(self).display_token_count == count,
            text_of(final(self).streaming_response) == text_of(old(self).streaming_response),
            text_of(final(self).streaming_reasoning) == text_of(old(self).streaming_reasoning),
            final(self).active_tool_group == old(self).active_tool_group,
            final(self).is_processing == old(self).is_processing,
            final(self).processing_started_at == old(self).processing_started_at,
            final(self).last_input_tokens == old(self).last_input_tokens,
            final(self).streaming_output_tokens == old(self).streaming_output_tokens,
            final(self).pending_messages@ == old(self).pending_messages@,
    {
        self.display_token_count = count;
    }

    /// Records the last input-token count.
    pub fn set_last_input_tokens(&mut self, count: u32)
        ensures
            final(self).last_input_tokens == Some(count),
            text_of(final(self).streaming_response) == text_of(old(self).streaming_response),
            text_of(final(self).streaming_reasoning) == text_of(old(self).streaming_reasoning),
            final(self).active_tool_group == old(self).active_tool_group,
            final(self).is_processing == old(self).is_processing,
            final(self).processing_started_at == old(self).processing_started_at,
            final(self).streaming_output_tokens == old(self).streaming_output_tokens,
            final(self).display_token_count == old(self).display_token_count,
            final(self).pending_messages@ == old(self).pending_messages@,
    {
        self.last_input_tokens = Some(count);
    }

    /// Appends a flushed message to the pending messages.
    pub fn push_message(&mut self, msg: M)
        ensures
            final(self).pending_messages@ == old(self).pending_messages@.push(msg),
            text_of(final(self).streaming_response) == text_of(old(self).streaming_response),
            text_of(final(self).streaming_reasoning) == text_of(old(self).streaming_reasoning),
            final(self).active_tool_group == old(self).active_tool_group,
            final(self).is_processing == old(self).is_processing,
            final(self).processing_started_at == old(self).processing_started_at,
            final(self).last_input_tokens == old(self).last_input_tokens,
            final(self).streaming_output_tokens == old(self).streaming_output_tokens,
            final(self).display_token_count == old(self).display_token_count,
    {
        self.pending_messages.push(msg);
    }

    /// Clears the in-flight turn once it is finalised. The pending messages,
    /// the last input-token count and the context-token count stay.
    pub fn clear_turn_state(&mut self)
        ensures
            final(self).streaming_response is None,
            final(self).streaming_reasoning is None,
            final(self).active_tool_group is None,
            !final(self).is_processing,
            final(self).processing_started_at is None,
            final(self).streaming_output_tokens == 0,
            final(self).last_input_tokens == old(self).last_input_tokens,
            final(self).display_token_count == old(self).display_token_count,
            final(self).pending_messages@ == old(self).pending_messages@,
    {
        self.streaming_response = None;
        self.streaming_reasoning = None;
        self.active_tool_group = None;
        self.is_processing = false;
        self.processing_started_at = None;
        self.streaming_output_tokens = 0;
    }
}

/// Snapshot of the live turn of a session that loses focus, kept as its
/// background entry. Messages still pending from an earlier background
/// stint (`prior`) are kept. `None` when there is nothing live to keep.
pub fn demote_to_background<G, M, I>(
    turn: LiveTurn<G, I>,
    prior: Option<BackgroundSessionState<G, M, I>>,
) -> (r: Option<BackgroundSessionState<G, M, I>>)
    ensures
        ({
            let p = match prior {
                Some(b) => b.pending_messages@,
                None => Seq::<M>::empty(),
            };
            &&& r is None <==> !turn_is_live(turn) && p.len() == 0
            &&& r matches Some(b) ==> holds_turn(b, turn, p)
        }),
{
    let pending = match prior {
        Some(b) => b.pending_messages,
        None => Vec::new(),
    };
    let bg = BackgroundSessionState {
        streaming_response: turn.streaming_response,
        streaming_reasoning: turn.streaming_reasoning,
        active_tool_group: turn.active_tool_group,
        is_processing: turn.is_processing,
        processing_started_at: turn.processing_started_at,
        last_input_tokens: turn.last_input_tokens,
        streaming_output_tokens: turn.streaming_output_tokens,
        display_token_count: turn.display_token_count,
        pending_messages: pending,
    };
    if bg.has_live_state() {
        Some(bg)
    } else {
        None
    }
}

/// The live turn of a session that gains focus, taken from its background
/// entry; its pending messages are appended to `messages`. `None`, with
/// `messages` unchanged, when the session has no entry.
pub fn promote_to_foreground<G, M, I>(
    entry: Option<BackgroundSessionState<G, M, I>>,
    messages: &mut Vec<M>,
) -> (r: Option<LiveTurn<G, I>>)
    ensures
        entry is None ==> r is None && final(messages)@ == old(messages)@,
        entry matches Some(b) ==> r matches Some(t) && holds_turn(b, t, b.pending_messages@)
            && final(messages)@ == old(messages)@ + b.pending_messages@,
{
    match entry {
        None => None,
        Some(b) => {
            let mut pending = b.pending_messages;
            messages.append(&mut pending);
            Some(
                LiveTurn {
                    streaming_response: b.streaming_response,
                    streaming_reasoning: b.streaming_reasoning,
                    active_tool_group: b.active_tool_group,
                    is_processing: b.is_processing,
                    processing_started_at: b.processing_started_at,
                    last_input_tokens: b.last_input_tokens,
                    streaming_output_tokens: b.streaming_output_tokens,
                    display_token_count: b.display_token_count,
                },
            )
        },
    }
}

/// Demoting a session and promoting it again gives back its live turn,
/// and the messages flushed meanwhile follow the foreground's messages.
pub proof fn law_demote_then_promote<G, M, I>(
    turn: LiveTurn<G, I>,
    pending: Seq<M>,
    b: BackgroundSessionState<G, M, I>,
    t: LiveTurn<G, I>,
)
    requires
        holds_turn(b, turn, pending),
        holds_turn(b, t, b.pending_messages@),
    ensures
        same_turn(t, turn),
        b.pending_messages@ == pending,
{
}

/// A finished turn leaves nothing live unless messages are pending.
pub proof fn law_cleared_entry_liveness<G, M, I>(b: BackgroundSessionState<G, M, I>)
    requires
        b.streaming_response is None,
        b.streaming_reasoning is None,
        b.active_tool_group is None,
        !b.is_processing,
        b.streaming_output_tokens == 0,
    ensures
        bg_is_live(b) <==> b.pending_messages@.len() > 0,
{
}

/// Whether an error ending a turn also stays in the chat as a message:
/// every error but the cancellation notice and the quit hint.
pub fn error_gets_bubble(error: &str) -> (b: bool)
    ensures
        b == !(error@ == "Cancelled"@ || seq_starts_with(error@, "Press Ctrl+C"@)),
{
    let e = str_chars(error);
    !(chars_eq(&e, &str_chars("Cancelled")) || chars_start_with(&e, &str_chars("Press Ctrl+C")))
}

/// The input-token count kept when a turn fails: the last one seen, or the
/// live context count when none was seen (as `u32`, truncated).
pub fn input_tokens_after_error(last: Option<u32>, display_token_count: usize) -> (r: Option<u32>)
    ensures
        last is None && display_token_count > 0 ==> r == Some(display_token_count as u32),
        !(last is None && display_token_count > 0) ==> r == last,
{
    if last.is_none() && display_token_count > 0 {
        Some(display_token_count as u32)
    } else {
        last
    }
}

/// Where a finished response goes in the chat.
#[derive(Clone, Copy, Debug, PartialEq, Eq, Structural)]
pub enum ResponsePlacement {
    /// Update the last assistant message (at `index`), which holds the text
    /// streamed before the last tool call: its text is replaced when
    /// `replace_content`, its reasoning when `replace_details`; its token
    /// count and cost are set.
    UpdateLast { index: usize, replace_content: bool, replace_details: bool },
    /// Add the response as a new assistant message.
    Append,
}

/// Position of the last message with role `assistant` among the first `n`.
pub open spec fn last_assistant(roles: Seq<Seq<char>>, n: int) -> Option<int>
    decreases n,
{
    if n <= 0 || n > roles.len() {
        None
    } else if roles[n - 1] == "assistant"@ {
        Some(n - 1)
    } else {
        last_assistant(roles, n - 1)
    }
}

/// Where a finished response goes: when text already streamed in (before
/// the turn's tool calls) it updates the last assistant message, keeping
/// the streamed text when the response itself carries none (as command-line
/// providers return); otherwise, or when there is no assistant message, it
/// is added as a new one. `roles` holds the role of each message shown.
pub fn response_placement(
    intermediate_text_received: bool,
    roles: &[String],
    response_empty: bool,
    has_reasoning: bool,
) -> (r: ResponsePlacement)
    ensures
        r == if intermediate_text_received {
            match last_assistant(crate::tool_markers::strings_view(roles@), roles@.len() as int) {
                Some(i) => ResponsePlacement::UpdateLast {
                    index: i as usize,
                    replace_content: !response_empty,
                    replace_details: has_reasoning,
                },
                None => ResponsePlacement::Append,
            }
        } else {
            ResponsePlacement::Append
        },
{
    if !intermediate_text_received {
        return ResponsePlacement::Append;
    }
    let ghost rv = crate::tool_markers::strings_view(roles@);
    let assistant = str_chars("assistant");
    let mut n: usize = roles.len();
    while n > 0
        invariant
            n <= roles@.len(),
            intermediate_text_received,
            rv == crate::tool_markers::strings_view(roles@),
            assistant@ == "assistant"@,
            last_assistant(rv, roles@.len() as int) == last_assistant(rv, n as int),
        decreases n,
    {
        let role = str_chars(roles[n - 1].as_str());
        assert(rv[n as int - 1] == roles@[n as int - 1]@);
        if chars_eq(&role, &assistant) {
            assert(last_assistant(rv, n as int) == Some(n as int - 1));

            return ResponsePlacement::UpdateLast {
                index: n - 1,
                replace_content: !response_empty,
                replace_details: has_reasoning,
            };
        }
        n -= 1;
    }
    ResponsePlacement::Append
}

} // verus!
