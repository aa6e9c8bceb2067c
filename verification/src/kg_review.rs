//! The `/kg` review screen: a queue of pending knowledge-graph batches and the
//! vault's commit log. Tab switches views, Up/Down/j/k move (clamped),
//! PageUp/PageDown scroll the diff, `a`/`d` approve or decline the selected
//! batch, and `r` in the log view arms a restore that a second `r` or Enter
//! confirms (any other key cancels).

use vstd::prelude::*;
use crate::keys::{KeyCode, KeyEvent};
use crate::selection::{clamp_step, clamped_move};

verus! {

/// A pending batch of knowledge-graph changes awaiting review.
#[derive(Clone, Debug)]
pub struct KgPendingBatch {
    /// Batch id (its branch name).
    pub id: String,
    /// One-line summary of the batch.
    pub summary: String,
}

/// One commit of the vault history.
#[derive(Clone, Debug)]
pub struct LogEntry {
    /// Commit hash.
    pub sha: String,
    /// Commit subject line.
    pub summary: String,
}

/// Which view the `/kg` screen shows.
#[derive(Clone, Copy, Debug, PartialEq, Eq, Structural)]
pub enum KgView {
    /// The pending-batch review queue (the landing view).
    Queue,
    /// The vault commit history.
    Log,
}

/// All `/kg`-screen runtime state.
#[derive(Clone, Debug)]
pub struct KgReviewState {
    /// Which view keyboard input affects.
    pub view: KgView,
    /// Selected row within the active view's list.
    pub selected_index: usize,
    /// Cached pending batches.
    pub batches: Vec<KgPendingBatch>,
    /// Cached commit log.
    pub log: Vec<LogEntry>,
    /// Diff text of the selected batch, once loaded.
    pub diff: Option<String>,
    /// Vertical scroll offset into the diff pane.
    pub diff_scroll: u16,
    /// Whether a destructive restore is armed and awaits confirmation.
    pub confirm_restore: bool,
}

/// Rows in the active view.
pub open spec fn kg_row_count(view: KgView, batches: int, log: int) -> int {
    match view {
        KgView::Queue => batches,
        KgView::Log => log,
    }
}

impl KgReviewState {
    /// An empty screen on the Queue view.
    pub fn new() -> (s: KgReviewState)
        ensures
            s.view == KgView::Queue,
            s.selected_index == 0,
            s.batches@.len() == 0,
            s.log@.len() == 0,
            s.diff is None,
            s.diff_scroll == 0,
            !s.confirm_restore,
    {
        KgReviewState {
            view: KgView::Queue,
            selected_index: 0,
            batches: Vec::new(),
            log: Vec::new(),
            diff: None,
            diff_scroll: 0,
            confirm_restore: false,
        }
    }

    /// Reset view and selection when (re-)entering the screen.
    pub fn reset(&mut self)
        ensures
            final(self).view == KgView::Queue,
            final(self).selected_index == 0,
            final(self).diff_scroll == 0,
            !final(self).confirm_restore,
            final(self).batches@ == old(self).batches@,
            final(self).log@ == old(self).log@,
            final(self).diff == old(self).diff,
    {
        self.view = KgView::Queue;
        self.selected_index = 0;
        self.diff_scroll = 0;
        self.confirm_restore = false;
    }

    /// Number of rows in the active view.
    pub fn row_count(&self) -> (n: usize)
        ensures
            n == kg_row_count(self.view, self.batches@.len() as int, self.log@.len() as int),
    {
        match self.view {
            KgView::Queue => self.batches.len(),
            KgView::Log => self.log.len(),
        }
    }

    /// The selected pending batch, if the Queue view is active and in range.
    pub fn selected_batch(&self) -> (r: Option<&KgPendingBatch>)
        ensures
            r is Some <==> self.view == KgView::Queue && self.selected_index < self.batches@.len(),
            r matches Some(b) ==> *b == self.batches@[self.selected_index as int],
    {
        match self.view {
            KgView::Queue => if self.selected_index < self.batches.len() {
                Some(&self.batches[self.selected_index])
            } else {
                None
            },
            KgView::Log => None,
        }
    }

    /// The selected log commit, if the Log view is active and in range.
    pub fn selected_commit(&self) -> (r: Option<&LogEntry>)
        ensures
            r is Some <==> self.view == KgView::Log && self.selected_index < self.log@.len(),
            r matches Some(e) ==> *e == self.log@[self.selected_index as int],
    {
        match self.view {
            KgView::Log => if self.selected_index < self.log.len() {
                Some(&self.log[self.selected_index])
            } else {
                None
            },
            KgView::Queue => None,
        }
    }

    /// Keep the selection inside the active view after its rows changed.
    pub fn clamp_selection(&mut self)
        ensures
            ({
                let n = kg_row_count(
                    old(self).view,
                    old(self).batches@.len() as int,
                    old(self).log@.len() as int,
                );
                &&& n == 0 ==> final(self).selected_index == 0
                &&& n > 0 ==> final(self).selected_index as int == if old(self).selected_index < n {
                    old(self).selected_index as int
                } else {
                    n - 1
                }
            }),
            final(self).view == old(self).view,
            final(self).batches@ == old(self).batches@,
            final(self).log@ == old(self).log@,
            final(self).diff == old(self).diff,
            final(self).diff_scroll == old(self).diff_scroll,
            final(self).confirm_restore == old(self).confirm_restore,
    {
        let count = self.row_count();
        if count == 0 {
            self.selected_index = 0;
        } else if self.selected_index > count - 1 {
            self.selected_index = count - 1;
        }
    }
}

/// App-level effect of a keystroke on the `/kg` screen.
#[derive(Clone, Copy, Debug, PartialEq, Eq, Structural)]
pub enum KeyOutcome {
    /// Key consumed; nothing else to do.
    Consumed,
    /// Leave the screen.
    Close,
    /// Selection moved: reload the diff pane.
    SelectionChanged,
    /// Approve the selected pending batch.
    Approve,
    /// Decline the selected pending batch.
    Decline,
    /// Restore the vault to the selected commit (already confirmed).
    Restore,
}

/// Movement asked for by a key: `1` down, `-1` up, `0` none.
pub open spec fn kg_key_delta(key: KeyEvent) -> int {
    match key.code {
        KeyCode::Up => -1,
        KeyCode::Down => 1,
        KeyCode::Char(c) => if c == 'k' {
            -1
        } else if c == 'j' {
            1
        } else {
            0
        },
        _ => 0,
    }
}

/// The key is `c` typed as a char.
pub open spec fn is_char_key(key: KeyEvent, c: char) -> bool {
    key.code == KeyCode::Char(c)
}

/// Effect of `key` given the view, row count and armed restore.
pub open spec fn kg_outcome(key: KeyEvent, view: KgView, count: int, confirm: bool) -> KeyOutcome {
    if confirm {
        if is_char_key(key, 'r') || key.code == KeyCode::Enter {
            KeyOutcome::Restore
        } else {
            KeyOutcome::Consumed
        }
    } else if key.code == KeyCode::Esc || is_char_key(key, 'q') {
        KeyOutcome::Close
    } else if key.code == KeyCode::Tab || kg_key_delta(key) != 0 {
        KeyOutcome::SelectionChanged
    } else if is_char_key(key, 'a') && view == KgView::Queue && count > 0 {
        KeyOutcome::Approve
    } else if is_char_key(key, 'd') && view == KgView::Queue && count > 0 {
        KeyOutcome::Decline
    } else {
        KeyOutcome::Consumed
    }
}

/// Whether a key acts on the screen at all (rather than on an armed restore
/// or by closing it).
pub open spec fn kg_plain_key(key: KeyEvent, confirm: bool) -> bool {
    !confirm && !(key.code == KeyCode::Esc || is_char_key(key, 'q'))
}

/// View after `key`: Tab toggles it.
pub open spec fn kg_next_view(key: KeyEvent, view: KgView, confirm: bool) -> KgView {
    if kg_plain_key(key, confirm) && key.code == KeyCode::Tab {
        match view {
            KgView::Queue => KgView::Log,
            KgView::Log => KgView::Queue,
        }
    } else {
        view
    }
}

/// Selected row after `key`.
pub open spec fn kg_next_index(key: KeyEvent, sel: usize, count: int, confirm: bool) -> int {
    if !kg_plain_key(key, confirm) {
        sel as int
    } else if key.code == KeyCode::Tab {
        0
    } else if kg_key_delta(key) != 0 {
        if count == 0 {
            0
        } else {
            clamp_step(sel as int, kg_key_delta(key), count)
        }
    } else {
        sel as int
    }
}

/// Diff scroll after `key`.
pub open spec fn kg_next_scroll(key: KeyEvent, scroll: u16, count: int, confirm: bool) -> int {
    if !kg_plain_key(key, confirm) {
        scroll as int
    } else if key.code == KeyCode::Tab {
        0
    } else if kg_key_delta(key) != 0 {
        if count == 0 {
            scroll as int
        } else {
            0
        }
    } else if key.code == KeyCode::PageUp {
        if scroll >= 10 {
            scroll - 10
        } else {
            0
        }
    } else if key.code == KeyCode::PageDown {
        if scroll + 10 <= u16::MAX {
            scroll + 10
        } else {
            u16::MAX as int
        }
    } else {
        scroll as int
    }
}

/// Armed-restore flag after `key`: `r` on a non-empty Log arms it; any key
/// other than the confirming ones disarms it.
pub open spec fn kg_next_confirm(key: KeyEvent, view: KgView, count: int, confirm: bool) -> bool {
    if confirm {
        is_char_key(key, 'r') || key.code == KeyCode::Enter
    } else if kg_plain_key(key, confirm) && key.code != KeyCode::Tab && kg_key_delta(key) == 0
        && is_char_key(key, 'r') && view == KgView::Log && count > 0 {
        true
    } else {
        false
    }
}

/// Move the selection by `delta` among `count` rows, clamped; a move
/// resets the diff scroll.
pub fn move_selection(state: &mut KgReviewState, count: usize, delta: i32)
    requires
        delta == 1 || delta == -1,
        count <= i32::MAX,
    ensures
        count == 0 ==> final(state).selected_index == 0 && final(state).diff_scroll
            == old(state).diff_scroll,
        count > 0 ==> final(state).selected_index as int == clamp_step(
            old(state).selected_index as int,
            delta as int,
            count as int,
        ) && final(state).diff_scroll == 0,
        final(state).view == old(state).view,
        final(state).batches@ == old(state).batches@,
        final(state).log@ == old(state).log@,
        final(state).diff == old(state).diff,
        final(state).confirm_restore == old(state).confirm_restore,
{
    state.selected_index = clamped_move(state.selected_index, delta, count);
    if count > 0 {
        state.diff_scroll = 0;
    }
}

/// Decide what a keystroke does on the `/kg` screen.
pub fn decide(state: &mut KgReviewState, key: KeyEvent) -> (out: KeyOutcome)
    requires
        old(state).batches@.len() <= i32::MAX,
        old(state).log@.len() <= i32::MAX,
    ensures
        ({
            let count = kg_row_count(
                old(state).view,
                old(state).batches@.len() as int,
                old(state).log@.len() as int,
            );
            &&& out == kg_outcome(key, old(state).view, count, old(state).confirm_restore)
            &&& final(state).view == kg_next_view(key, old(state).view, old(state).confirm_restore)
            &&& final(state).selected_index == kg_next_index(
                key,
                old(state).selected_index,
                count,
                old(state).confirm_restore,
            )
            &&& final(state).diff_scroll == kg_next_scroll(
                key,
                old(state).diff_scroll,
                count,
                old(state).confirm_restore,
            )
            &&& final(state).confirm_restore == kg_next_confirm(
                key,
                old(state).view,
                count,
                old(state).confirm_restore,
            )
        }),
        final(state).batches@ == old(state).batches@,
        final(state).log@ == old(state).log@,
        final(state).diff == old(state).diff,
{
    let count = state.row_count();
    let is_r = key.code == KeyCode::Char('r');
    let is_enter = key.code == KeyCode::Enter;
    if state.confirm_restore {
        if is_r || is_enter {
            return KeyOutcome::Restore;
        }
        state.confirm_restore = false;
        return KeyOutcome::Consumed;
    }
    if key.code == KeyCode::Esc || key.code == KeyCode::Char('q') {
        return KeyOutcome::Close;
    }
    if key.code == KeyCode::Tab {
        state.view = match state.view {
            KgView::Queue => KgView::Log,
            KgView::Log => KgView::Queue,
        };
        state.selected_index = 0;
        state.diff_scroll = 0;
        return KeyOutcome::SelectionChanged;
    }
    if key.code == KeyCode::Up || key.code == KeyCode::Char('k') {
        move_selection(state, count, -1);
        return KeyOutcome::SelectionChanged;
    }
    if key.code == KeyCode::Down || key.code == KeyCode::Char('j') {
        move_selection(state, count, 1);
        return KeyOutcome::SelectionChanged;
    }
    if key.code == KeyCode::PageUp {
        state.diff_scroll = state.diff_scroll.saturating_sub(10);
        return KeyOutcome::Consumed;
    }
    if key.code == KeyCode::PageDown {
        state.diff_scroll = state.diff_scroll.saturating_add(10);
        return KeyOutcome::Consumed;
    }
    if key.code == KeyCode::Char('a') {
        if state.view == KgView::Queue && count > 0 {
            return KeyOutcome::Approve;
        }
        return KeyOutcome::Consumed;
    }
    if key.code == KeyCode::Char('d') {
        if state.view == KgView::Queue && count > 0 {
            return KeyOutcome::Decline;
        }
        return KeyOutcome::Consumed;
    }
    if is_r {
        if state.view == KgView::Log && count > 0 {
            state.confirm_restore = true;
        }
        return KeyOutcome::Consumed;
    }
    KeyOutcome::Consumed
}

/// A restore is never answered to a single key: without an armed
/// confirmation no key restores.
pub proof fn law_restore_needs_confirmation(key: KeyEvent, view: KgView, count: int)
    ensures
        kg_outcome(key, view, count, false) != KeyOutcome::Restore,
{
}

/// `r` on a non-empty commit log arms the restore, and a second `r` (or
/// Enter) then restores; any other key disarms it.
pub proof fn law_restore_two_keys(key: KeyEvent, count: int)
    requires
        count > 0,
        key.code == KeyCode::Char('r'),
    ensures
        kg_next_confirm(key, KgView::Log, count, false),
        kg_outcome(key, KgView::Log, count, false) == KeyOutcome::Consumed,
        kg_outcome(key, KgView::Log, count, true) == KeyOutcome::Restore,
{
}

/// An armed restore is disarmed by every key other than `r` and Enter.
pub proof fn law_restore_disarmed(key: KeyEvent, view: KgView, count: int)
    requires
        !is_char_key(key, 'r'),
        key.code != KeyCode::Enter,
    ensures
        !kg_next_confirm(key, view, count, true),
        kg_outcome(key, view, count, true) == KeyOutcome::Consumed,
{
}

/// The selection stays on a row of the view whatever key is pressed.
pub proof fn law_kg_selection_in_range(key: KeyEvent, sel: usize, count: int, confirm: bool)
    requires
        count > 0,
        sel < count,
    ensures
        0 <= kg_next_index(key, sel, count, confirm) < count,
{
}

} // verus!
