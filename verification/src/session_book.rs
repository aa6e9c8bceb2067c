//! Per-session bookkeeping across agent turns: which sessions are
//! processing, which hold a cancel token for a background turn, which have
//! unread output, which are driven by a remote channel, and which keep a
//! background live-state sidecar. Each event updates the book and names
//! the work the app does for it.

use vstd::prelude::*;
use crate::session_state::{text_of, turn_is_live, LiveTurn};
use crate::text::{chars_eq, str_chars};

verus! {

/// The sessions listed in `v`.
pub open spec fn ids(v: Seq<u64>) -> Set<u64> {
    Set::new(|x: u64| v.contains(x))
}

/// Sets of sessions, each held as a list.
pub struct SessionBook {
    /// Sessions with a turn running (local or channel).
    pub processing: Vec<u64>,
    /// Background sessions holding a cancel token for their turn.
    pub cancel_tokens: Vec<u64>,
    /// Sessions with output the user has not seen.
    pub unread: Vec<u64>,
    /// Sessions whose turn a remote channel drives.
    pub channel: Vec<u64>,
    /// Sessions with a background live-state sidecar.
    pub background: Vec<u64>,
}

/// The book as sets.
pub struct BookView {
    pub processing: Set<u64>,
    pub cancel_tokens: Set<u64>,
    pub unread: Set<u64>,
    pub channel: Set<u64>,
    pub background: Set<u64>,
}

impl SessionBook {
    pub open spec fn view(&self) -> BookView {
        BookView {
            processing: ids(self.processing@),
            cancel_tokens: ids(self.cancel_tokens@),
            unread: ids(self.unread@),
            channel: ids(self.channel@),
            background: ids(self.background@),
        }
    }

    /// An empty book.
    pub fn new() -> (b: SessionBook)
        ensures
            b.view().processing == Set::<u64>::empty(),
            b.view().cancel_tokens == Set::<u64>::empty(),
            b.view().unread == Set::<u64>::empty(),
            b.view().channel == Set::<u64>::empty(),
            b.view().background == Set::<u64>::empty(),
    {
        let b = SessionBook {
            processing: Vec::new(),
            cancel_tokens: Vec::new(),
            unread: Vec::new(),
            channel: Vec::new(),
            background: Vec::new(),
        };
        assert(ids(b.processing@) =~= Set::<u64>::empty());
        assert(ids(b.cancel_tokens@) =~= Set::<u64>::empty());
        assert(ids(b.unread@) =~= Set::<u64>::empty());
        assert(ids(b.channel@) =~= Set::<u64>::empty());
        assert(ids(b.background@) =~= Set::<u64>::empty());
        b
    }
}

/// Adds `x` to the set held in `v`.
fn add_id(v: &mut Vec<u64>, x: u64)
    ensures
        ids(final(v)@) == ids(old(v)@).insert(x),
{
    let mut i: usize = 0;
    while i < v.len()
        invariant
            i <= v@.len(),
            forall|j: int| 0 <= j < i ==> v@[j] != x,
        decreases v@.len() - i,
    {
        if v[i] == x {
            assert(v@.contains(x));
            assert(ids(v@) =~= ids(v@).insert(x));
            return;
        }
        i += 1;
    }
    let ghost before = v@;
    v.push(x);
    assert forall|y: u64| ids(v@).contains(y) == ids(before).insert(x).contains(y) by {
        if y != x && before.contains(y) {
            let k = choose|k: int| 0 <= k < before.len() && #[trigger] before[k] == y;
            assert(v@[k] == y);
        }
        if y != x && v@.contains(y) {
            let k = choose|k: int| 0 <= k < v@.len() && #[trigger] v@[k] == y;
            assert(before[k] == y);
        }
        if y == x {
            assert(v@[before.len() as int] == x);
        }
    }
    assert(ids(v@) =~= ids(before).insert(x));
}

/// Removes `x` from the set held in `v`.
fn remove_id(v: &mut Vec<u64>, x: u64)
    ensures
        ids(final(v)@) == ids(old(v)@).remove(x),
{
    let ghost orig = v@;
    let mut kept: Vec<u64> = Vec::new();
    let mut i: usize = 0;
    while i < v.len()
        invariant
            v@ == orig,
            i <= orig.len(),
            forall|y: u64| kept@.contains(y) <==> (y != x && orig.take(i as int).contains(y)),
        decreases orig.len() - i,
    {
        let ghost before = kept@;
        let y0: u64 = v[i];
        assert forall|y: u64| orig.take(i as int + 1).contains(y) <==> (orig.take(i as int).contains(y) || y == y0) by {
            if orig.take(i as int + 1).contains(y) {
                let k = choose|k: int| 0 <= k < i + 1 && #[trigger] orig.take(i as int + 1)[k] == y;
                if k < i {
                    assert(orig.take(i as int)[k] == y);
                }
            }
            if orig.take(i as int).contains(y) {
                let k = choose|k: int| 0 <= k < i && #[trigger] orig.take(i as int)[k] == y;
                assert(orig.take(i as int + 1)[k] == y);
            }
            if y == y0 {
                assert(orig.take(i as int + 1)[i as int] == y);
            }
        }
        if y0 != x {
            kept.push(y0);
            assert forall|y: u64| kept@.contains(y) <==> (before.contains(y) || y == y0) by {
                if kept@.contains(y) {
                    let k = choose|k: int| 0 <= k < kept@.len() && #[trigger] kept@[k] == y;
                    if k < before.len() {
                        assert(before[k] == y);
                    }
                }
                if before.contains(y) {
                    let k = choose|k: int| 0 <= k < before.len() && #[trigger] before[k] == y;
                    assert(kept@[k] == y);
                }
                if y == y0 {
                    assert(kept@[before.len() as int] == y);
                }
            }
        }
        assert forall|y: u64| kept@.contains(y) <==> (y != x && orig.take(i as int + 1).contains(y)) by {
            assert(before.contains(y) <==> (y != x && orig.take(i as int).contains(y)));
        }
        i += 1;
    }
    assert(orig.take(orig.len() as int) =~= orig);
    assert(ids(kept@) =~= ids(orig).remove(x));
    *v = kept;
}

/// How an agent turn ended.
pub enum TurnEnd {
    /// The response arrived; `local_running` tells whether the focused
    /// session still counts its turn as running (not cancelled).
    Complete { local_running: bool },
    /// The turn failed with `message` (`Cancelled` after a double Esc).
    Error(String),
}

/// The work the app does after a turn ends.
#[derive(Clone, Copy, Debug, PartialEq, Eq, Structural)]
pub enum TurnEndAction {
    /// Finish the focused response (promote the streamed text).
    CompleteResponse,
    /// Reload the focused session from the database.
    Reload,
    /// Reload the focused session and show the error.
    ReloadAndShowError,
    /// Refresh the split pane's copy of the background session.
    RefreshPane,
    /// Leave what is on screen as it is.
    Nothing,
}

/// The error message of a cancelled turn.
pub open spec fn cancelled_message() -> Seq<char> {
    "Cancelled"@
}

/// The book after a turn of session `sid` ends.
pub open spec fn turn_end_book(b: BookView, sid: u64, is_current: bool, is_error: bool) -> BookView {
    if is_error {
        BookView {
            processing: b.processing.remove(sid),
            cancel_tokens: b.cancel_tokens.remove(sid),
            ..b
        }
    } else if is_current {
        b
    } else {
        BookView {
            processing: b.processing.remove(sid),
            cancel_tokens: b.cancel_tokens.remove(sid),
            unread: b.unread.insert(sid),
            background: b.background.remove(sid),
            ..b
        }
    }
}

/// A turn of session `sid` ended. A background session's response marks it
/// unread, drops its running state and its sidecar, and refreshes its
/// pane; the focused one's is finished (see `on_focused_complete`), or
/// reloaded when it was cancelled.
/// An error always drops the session's running state; on the focused
/// session it reloads and shows the error, except for a cancel, which
/// leaves the screen as it is.
pub fn on_turn_end(book: &mut SessionBook, sid: u64, is_current: bool, end: TurnEnd) -> (out: TurnEndAction)
    ensures
        final(book).view() == turn_end_book(old(book).view(), sid, is_current, end is Error),
        out == match end {
            TurnEnd::Complete { local_running } => if !is_current {
                TurnEndAction::RefreshPane
            } else if local_running {
                TurnEndAction::CompleteResponse
            } else {
                TurnEndAction::Reload
            },
            TurnEnd::Error(m) => if !is_current {
                TurnEndAction::RefreshPane
            } else if m@ == cancelled_message() {
                TurnEndAction::Nothing
            } else {
                TurnEndAction::ReloadAndShowError
            },
        },
{
    match end {
        TurnEnd::Complete { local_running } => {
            if is_current {
                if local_running {
                    TurnEndAction::CompleteResponse
                } else {
                    TurnEndAction::Reload
                }
            } else {
                remove_id(&mut book.processing, sid);
                remove_id(&mut book.cancel_tokens, sid);
                add_id(&mut book.unread, sid);
                remove_id(&mut book.background, sid);
                TurnEndAction::RefreshPane
            }
        },
        TurnEnd::Error(m) => {
            remove_id(&mut book.processing, sid);
            remove_id(&mut book.cancel_tokens, sid);
            if is_current {
                proof {
                    reveal_strlit("Cancelled");
                }
                if chars_eq(&str_chars(m.as_str()), &str_chars("Cancelled")) {
                    TurnEndAction::Nothing
                } else {
                    TurnEndAction::ReloadAndShowError
                }
            } else {
                TurnEndAction::RefreshPane
            }
        },
    }
}

/// The focused session `sid` completed its turn while it was still
/// running: it stops processing and holds no cancel token, and its live
/// turn is ended (see `LiveTurn::finish`). Returns the turn's reasoning and
/// tool-call group, which the caller files into the chat.
pub fn on_focused_complete<G, I>(book: &mut SessionBook, sid: u64, turn: &mut LiveTurn<G, I>) -> (done: (Option<String>, Option<G>))
    ensures
        final(book).view() == (BookView {
            processing: old(book).view().processing.remove(sid),
            cancel_tokens: old(book).view().cancel_tokens.remove(sid),
            ..old(book).view()
        }),
        text_of(done.0) == text_of(old(turn).streaming_reasoning),
        done.1 == old(turn).active_tool_group,
        !final(turn).is_processing,
        final(turn).processing_started_at is None,
        final(turn).streaming_response is None,
        final(turn).streaming_reasoning is None,
        final(turn).active_tool_group is None,
        final(turn).streaming_output_tokens == 0,
        final(turn).last_input_tokens == old(turn).last_input_tokens,
        final(turn).display_token_count == old(turn).display_token_count,
        !turn_is_live(*final(turn)),
{
    remove_id(&mut book.processing, sid);
    remove_id(&mut book.cancel_tokens, sid);
    turn.finish()
}

/// A remote channel updated session `sid`. The focused session is
/// refreshed (debounced) unless a local turn of its own is running; any
/// other session is marked unread. Returns whether to schedule the refresh.
pub fn on_session_updated(book: &mut SessionBook, sid: u64, is_current: bool) -> (refresh: bool)
    ensures
        is_current ==> final(book).view() == old(book).view() && refresh == (!old(
            book,
        ).view().processing.contains(sid) || old(book).view().channel.contains(sid)),
        !is_current ==> !refresh && final(book).view() == (BookView {
            unread: old(book).view().unread.insert(sid),
            ..old(book).view()
        }),
{
    if is_current {
        let p = contains_id(&book.processing, sid);
        let c = contains_id(&book.channel, sid);
        !p || c
    } else {
        add_id(&mut book.unread, sid);
        false
    }
}

/// Whether `x` is in the set held in `v`.
fn contains_id(v: &Vec<u64>, x: u64) -> (b: bool)
    ensures
        b == ids(v@).contains(x),
{
    let mut i: usize = 0;
    while i < v.len()
        invariant
            i <= v@.len(),
            forall|j: int| 0 <= j < i ==> v@[j] != x,
        decreases v@.len() - i,
    {
        if v[i] == x {
            assert(v@.contains(x));
            return true;
        }
        i += 1;
    }
    false
}

/// A remote channel started a turn of session `sid`: it is processing and
/// channel-driven.
pub fn on_channel_started(book: &mut SessionBook, sid: u64)
    ensures
        final(book).view() == (BookView {
            processing: old(book).view().processing.insert(sid),
            channel: old(book).view().channel.insert(sid),
            ..old(book).view()
        }),
{
    add_id(&mut book.channel, sid);
    add_id(&mut book.processing, sid);
}

/// A remote channel finished its turn of session `sid`: it is no longer
/// channel-driven, and unless it is the focused session with a local turn
/// of its own still running, it stops processing. Returns whether its
/// running state was cleared (the focused session is then refreshed).
pub fn on_channel_finished(book: &mut SessionBook, sid: u64, is_current: bool, local_turn_running: bool) -> (cleared: bool)
    ensures
        cleared == !(is_current && local_turn_running),
        final(book).view() == (BookView {
            processing: if cleared {
                old(book).view().processing.remove(sid)
            } else {
                old(book).view().processing
            },
            channel: old(book).view().channel.remove(sid),
            ..old(book).view()
        }),
{
    remove_id(&mut book.channel, sid);
    let clear = !(is_current && local_turn_running);
    if clear {
        remove_id(&mut book.processing, sid);
    }
    clear
}

/// A turn of session `sid` left pending at shutdown was resumed: it is
/// processing, and a background session keeps the turn's cancel token
/// (the focused session holds it itself).
pub fn on_pending_resumed(book: &mut SessionBook, sid: u64, is_current: bool)
    ensures
        final(book).view() == (BookView {
            processing: old(book).view().processing.insert(sid),
            cancel_tokens: if is_current {
                old(book).view().cancel_tokens
            } else {
                old(book).view().cancel_tokens.insert(sid)
            },
            ..old(book).view()
        }),
{
    add_id(&mut book.processing, sid);
    if !is_current {
        add_id(&mut book.cancel_tokens, sid);
    }
}

/// An error always ends the session's turn: it is no longer processing and
/// holds no cancel token; a background response also leaves it unread.
pub proof fn law_turn_end_stops_processing(b: BookView, sid: u64, is_current: bool, is_error: bool)
    requires
        is_error || !is_current,
    ensures
        !turn_end_book(b, sid, is_current, is_error).processing.contains(sid),
        !turn_end_book(b, sid, is_current, is_error).cancel_tokens.contains(sid),
        !is_error ==> turn_end_book(b, sid, is_current, is_error).unread.contains(sid),
{
}

} // verus!
