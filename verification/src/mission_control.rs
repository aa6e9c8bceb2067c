//! Mission Control: three panels (inbox, activity, schedule). Tab/l and
//! BackTab/h cycle the focused panel, Up/Down/j/k move within it (clamped),
//! Home/g and End/G jump, Enter opens the detail popup; with the popup open,
//! Esc closes it and Up/Down/j/k still move the selection underneath.

use vstd::prelude::*;
use crate::keys::{KeyCode, KeyEvent};
use crate::selection::{clamp_step, clamped_move};

verus! {

/// Which panel has focus.
#[derive(Clone, Copy, Debug, PartialEq, Eq, Structural)]
pub enum McPanel {
    Inbox,
    Activity,
    Schedule,
}

/// All Mission-Control runtime state.
#[derive(Clone, Copy, Debug)]
pub struct McState {
    /// Which panel keyboard input affects.
    pub focused_panel: McPanel,
    /// Selected item within the focused panel.
    pub selected_index: usize,
    /// Rows scrolled past the top of the focused panel.
    pub scroll_offset: u16,
    /// Whether the detail popup is open.
    pub detail_open: bool,
}

/// Panel after `focus_next`.
pub open spec fn next_panel(p: McPanel) -> McPanel {
    match p {
        McPanel::Inbox => McPanel::Activity,
        McPanel::Activity => McPanel::Schedule,
        McPanel::Schedule => McPanel::Inbox,
    }
}

/// Panel after `focus_prev`.
pub open spec fn prev_panel(p: McPanel) -> McPanel {
    match p {
        McPanel::Inbox => McPanel::Schedule,
        McPanel::Activity => McPanel::Inbox,
        McPanel::Schedule => McPanel::Activity,
    }
}

impl McState {
    /// Inbox focused, top row, no popup.
    pub fn new() -> (s: McState)
        ensures
            s.focused_panel == McPanel::Inbox,
            s.selected_index == 0,
            s.scroll_offset == 0,
            !s.detail_open,
    {
        McState {
            focused_panel: McPanel::Inbox,
            selected_index: 0,
            scroll_offset: 0,
            detail_open: false,
        }
    }

    /// Reset focus and selection when re-entering; the popup flag is kept.
    pub fn reset_focus(&mut self)
        ensures
            final(self).focused_panel == McPanel::Inbox,
            final(self).selected_index == 0,
            final(self).scroll_offset == 0,
            final(self).detail_open == old(self).detail_open,
    {
        self.focused_panel = McPanel::Inbox;
        self.selected_index = 0;
        self.scroll_offset = 0;
    }

    /// Focus the next panel (inbox, activity, schedule, inbox, ...) at its top.
    pub fn focus_next(&mut self)
        ensures
            final(self).focused_panel == next_panel(old(self).focused_panel),
            final(self).selected_index == 0,
            final(self).scroll_offset == 0,
            final(self).detail_open == old(self).detail_open,
    {
        self.focused_panel = match self.focused_panel {
            McPanel::Inbox => McPanel::Activity,
            McPanel::Activity => McPanel::Schedule,
            McPanel::Schedule => McPanel::Inbox,
        };
        self.selected_index = 0;
        self.scroll_offset = 0;
    }

    /// Focus the previous panel at its top.
    pub fn focus_prev(&mut self)
        ensures
            final(self).focused_panel == prev_panel(old(self).focused_panel),
            final(self).selected_index == 0,
            final(self).scroll_offset == 0,
            final(self).detail_open == old(self).detail_open,
    {
        self.focused_panel = match self.focused_panel {
            McPanel::Inbox => McPanel::Schedule,
            McPanel::Activity => McPanel::Inbox,
            McPanel::Schedule => McPanel::Activity,
        };
        self.selected_index = 0;
        self.scroll_offset = 0;
    }

    /// Keep the selection inside a panel that now holds `count` items (used
    /// after an inbox item was applied or rejected).
    pub fn clamp_selection(&mut self, count: usize)
        ensures
            count == 0 ==> final(self).selected_index == 0,
            count > 0 ==> final(self).selected_index == if old(self).selected_index < count {
                old(self).selected_index
            } else {
                (count - 1) as usize
            },
            final(self).focused_panel == old(self).focused_panel,
            final(self).scroll_offset == old(self).scroll_offset,
            final(self).detail_open == old(self).detail_open,
    {
        if count == 0 {
            self.selected_index = 0;
        } else if self.selected_index > count - 1 {
            self.selected_index = count - 1;
        }
    }
}

/// Effect of a keystroke that the caller applies.
#[derive(Clone, Copy, Debug, PartialEq, Eq, Structural)]
pub enum KeyOutcome {
    /// Key consumed; nothing else to do.
    Consumed,
    /// Leave Mission Control.
    Close,
    /// Key not recognised.
    NotConsumed,
}

/// Movement asked for by a key: `1` down, `-1` up, `0` none.
pub open spec fn mc_key_delta(key: KeyEvent) -> int {
    if key.code == KeyCode::Up || key.code == KeyCode::Char('k') {
        -1
    } else if key.code == KeyCode::Down || key.code == KeyCode::Char('j') {
        1
    } else {
        0
    }
}

/// Key focuses the next panel.
pub open spec fn mc_is_next(key: KeyEvent) -> bool {
    key.code == KeyCode::Tab || key.code == KeyCode::Char('l')
}

/// Key focuses the previous panel.
pub open spec fn mc_is_prev(key: KeyEvent) -> bool {
    key.code == KeyCode::BackTab || key.code == KeyCode::Char('h')
}

/// Key jumps to the first item.
pub open spec fn mc_is_home(key: KeyEvent) -> bool {
    key.code == KeyCode::Home || key.code == KeyCode::Char('g')
}

/// Key jumps to the last item.
pub open spec fn mc_is_end(key: KeyEvent) -> bool {
    key.code == KeyCode::End || key.code == KeyCode::Char('G')
}

/// Selection after a clamped move.
pub open spec fn mc_moved(sel: usize, delta: int, count: int) -> int {
    if count == 0 {
        0
    } else {
        clamp_step(sel as int, delta, count)
    }
}

/// Effect of `key`.
pub open spec fn mc_outcome(key: KeyEvent, popup: bool) -> KeyOutcome {
    if popup {
        if key.code == KeyCode::Esc || mc_key_delta(key) != 0 {
            KeyOutcome::Consumed
        } else {
            KeyOutcome::NotConsumed
        }
    } else if key.code == KeyCode::Esc {
        KeyOutcome::Close
    } else if mc_is_next(key) || mc_is_prev(key) || mc_key_delta(key) != 0 || mc_is_home(key)
        || mc_is_end(key) || key.code == KeyCode::Enter {
        KeyOutcome::Consumed
    } else {
        KeyOutcome::NotConsumed
    }
}

/// State after `key`, given `count` items in the focused panel.
pub open spec fn mc_next(s: McState, count: int, key: KeyEvent) -> McState {
    if s.detail_open {
        if key.code == KeyCode::Esc {
            McState { detail_open: false, ..s }
        } else if mc_key_delta(key) != 0 {
            McState { selected_index: mc_moved(s.selected_index, mc_key_delta(key), count) as usize, ..s }
        } else {
            s
        }
    } else if key.code == KeyCode::Esc {
        s
    } else if mc_is_next(key) {
        McState { focused_panel: next_panel(s.focused_panel), selected_index: 0, scroll_offset: 0, ..s }
    } else if mc_is_prev(key) {
        McState { focused_panel: prev_panel(s.focused_panel), selected_index: 0, scroll_offset: 0, ..s }
    } else if mc_key_delta(key) != 0 {
        McState { selected_index: mc_moved(s.selected_index, mc_key_delta(key), count) as usize, ..s }
    } else if mc_is_home(key) {
        McState { selected_index: 0, ..s }
    } else if mc_is_end(key) {
        McState { selected_index: if count > 0 { (count - 1) as usize } else { 0 }, ..s }
    } else if key.code == KeyCode::Enter {
        McState { detail_open: count > 0, ..s }
    } else {
        s
    }
}

/// Move the selection by `delta` among `count` items, clamped.
pub fn move_selection(state: &mut McState, count: usize, delta: i32)
    requires
        delta == 1 || delta == -1,
        count <= i32::MAX,
    ensures
        *final(state) == (McState {
            selected_index: mc_moved(old(state).selected_index, delta as int, count as int) as usize,
            ..*old(state)
        }),
{
    state.selected_index = clamped_move(state.selected_index, delta, count);
}

/// Decide with the detail popup open.
pub fn decide_with_popup(state: &mut McState, panel_item_count: usize, key: KeyEvent) -> (out:
    KeyOutcome)
    requires
        old(state).detail_open,
        panel_item_count <= i32::MAX,
    ensures
        out == mc_outcome(key, true),
        *final(state) == mc_next(*old(state), panel_item_count as int, key),
{
    if key.code == KeyCode::Esc {
        state.detail_open = false;
        return KeyOutcome::Consumed;
    }
    if key.code == KeyCode::Up || key.code == KeyCode::Char('k') {
        move_selection(state, panel_item_count, -1);
        return KeyOutcome::Consumed;
    }
    if key.code == KeyCode::Down || key.code == KeyCode::Char('j') {
        move_selection(state, panel_item_count, 1);
        return KeyOutcome::Consumed;
    }
    KeyOutcome::NotConsumed
}

/// Decide with no popup open.
pub fn decide_without_popup(state: &mut McState, panel_item_count: usize, key: KeyEvent) -> (out:
    KeyOutcome)
    requires
        !old(state).detail_open,
        panel_item_count <= i32::MAX,
    ensures
        out == mc_outcome(key, false),
        *final(state) == mc_next(*old(state), panel_item_count as int, key),
{
    if key.code == KeyCode::Esc {
        return KeyOutcome::Close;
    }
    if key.code == KeyCode::Tab || key.code == KeyCode::Char('l') {
        state.focus_next();
        return KeyOutcome::Consumed;
    }
    if key.code == KeyCode::BackTab || key.code == KeyCode::Char('h') {
        state.focus_prev();
        return KeyOutcome::Consumed;
    }
    if key.code == KeyCode::Up || key.code == KeyCode::Char('k') {
        move_selection(state, panel_item_count, -1);
        return KeyOutcome::Consumed;
    }
    if key.code == KeyCode::Down || key.code == KeyCode::Char('j') {
        move_selection(state, panel_item_count, 1);
        return KeyOutcome::Consumed;
    }
    if key.code == KeyCode::Home || key.code == KeyCode::Char('g') {
        state.selected_index = 0;
        return KeyOutcome::Consumed;
    }
    if key.code == KeyCode::End || key.code == KeyCode::Char('G') {
        state.selected_index = panel_item_count.saturating_sub(1);
        return KeyOutcome::Consumed;
    }
    if key.code == KeyCode::Enter {
        if panel_item_count > 0 {
            state.detail_open = true;
        }
        return KeyOutcome::Consumed;
    }
    KeyOutcome::NotConsumed
}

/// Decide what a keystroke does; `panel_item_count` is the number of items
/// in the focused panel.
pub fn decide(state: &mut McState, panel_item_count: usize, key: KeyEvent) -> (out: KeyOutcome)
    requires
        panel_item_count <= i32::MAX,
    ensures
        out == mc_outcome(key, old(state).detail_open),
        *final(state) == mc_next(*old(state), panel_item_count as int, key),
{
    if state.detail_open {
        decide_with_popup(state, panel_item_count, key)
    } else {
        decide_without_popup(state, panel_item_count, key)
    }
}

/// Focusing the next panel and then the previous one (or the other way
/// round) gives back the panel that had focus.
pub proof fn law_focus_next_prev_inverse(p: McPanel)
    ensures
        prev_panel(next_panel(p)) == p,
        next_panel(prev_panel(p)) == p,
{
}

/// Three `focus_next` steps cycle through all panels back to the start.
pub proof fn law_focus_cycle(p: McPanel)
    ensures
        next_panel(next_panel(next_panel(p))) == p,
        next_panel(p) != p,
        next_panel(next_panel(p)) != p,
{
}

} // verus!
