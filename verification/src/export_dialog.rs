//! The `/export` dialog: a short wrapping list of export targets.
//! Up/Down/Tab/BackTab/j/k move the selection, Enter or Space confirm the
//! highlighted option, Esc closes without exporting.

use vstd::prelude::*;
use crate::keys::{KeyCode, KeyEvent};
use crate::selection::{wrap_step, wrapped_move};

verus! {

/// What the export action does with the rendered transcript.
#[derive(Clone, Copy, Debug, PartialEq, Eq, Structural)]
pub enum ExportTarget {
    /// Copy the transcript to the system clipboard.
    Clipboard,
    /// Write the transcript to a timestamped file.
    File,
    /// Both copy to the clipboard and write a file.
    Both,
}

/// One selectable export option: label, one-line description and target.
pub struct ExportOption {
    pub label: &'static str,
    pub description: &'static str,
    pub target: ExportTarget,
}

/// Number of options the dialog shows.
pub const EXPORT_OPTION_COUNT: usize = 3;

/// Target of the option at display position `i`.
pub open spec fn export_target_at(i: int) -> ExportTarget {
    if i == 0 {
        ExportTarget::Clipboard
    } else if i == 1 {
        ExportTarget::File
    } else {
        ExportTarget::Both
    }
}

/// The export options in display order.
pub fn export_options() -> (v: Vec<ExportOption>)
    ensures
        v@.len() == EXPORT_OPTION_COUNT,
        forall|i: int| 0 <= i < v@.len() ==> #[trigger] v@[i].target == export_target_at(i),
{
    let mut v: Vec<ExportOption> = Vec::new();
    v.push(ExportOption {
        label: "Copy to clipboard",
        description: "Copy the full transcript to your clipboard",
        target: ExportTarget::Clipboard,
    });
    v.push(ExportOption {
        label: "Export to file",
        description: "Write the transcript to ~/.stemcell/exports/",
        target: ExportTarget::File,
    });
    v.push(ExportOption {
        label: "Both",
        description: "Copy to clipboard and write a file",
        target: ExportTarget::Both,
    });
    v
}

/// The target of the option at `idx`, if there is one.
pub fn export_target(idx: usize) -> (t: Option<ExportTarget>)
    ensures
        idx < EXPORT_OPTION_COUNT ==> t == Some(export_target_at(idx as int)),
        idx >= EXPORT_OPTION_COUNT ==> t is None,
{
    if idx == 0 {
        Some(ExportTarget::Clipboard)
    } else if idx == 1 {
        Some(ExportTarget::File)
    } else if idx == 2 {
        Some(ExportTarget::Both)
    } else {
        None
    }
}

/// Runtime state of the `/export` dialog.
#[derive(Clone, Debug)]
pub struct ExportDialogState {
    /// Index of the highlighted option.
    pub selected_index: usize,
}

impl ExportDialogState {
    /// A dialog with the top row highlighted.
    pub fn new() -> (s: ExportDialogState)
        ensures
            s.selected_index == 0,
    {
        ExportDialogState { selected_index: 0 }
    }

    /// Reset the selection to the top row.
    pub fn reset(&mut self)
        ensures
            final(self).selected_index == 0,
    {
        self.selected_index = 0;
    }
}

/// Effect of a keystroke that the caller applies.
#[derive(Clone, Copy, Debug, PartialEq, Eq, Structural)]
pub enum KeyOutcome {
    /// Key consumed; nothing else to do.
    Consumed,
    /// Leave the dialog without exporting.
    Close,
    /// Run the export for the option at this index, then close.
    Confirm(usize),
    /// Key not recognised.
    NotConsumed,
}

/// Move the highlighted row by `delta`, wrapping at both ends.
pub fn move_selection(state: &mut ExportDialogState, delta: i32)
    requires
        delta == 1 || delta == -1,
    ensures
        final(state).selected_index as int == wrap_step(
            old(state).selected_index as int,
            delta as int,
            EXPORT_OPTION_COUNT as int,
        ),
{
    state.selected_index = wrapped_move(state.selected_index, delta, EXPORT_OPTION_COUNT);
}

/// Decide what a keystroke does. Mutates the selection; returns the effect.
pub fn decide(state: &mut ExportDialogState, key: KeyEvent) -> (out: KeyOutcome)
    ensures
        out == export_outcome(key, old(state).selected_index),
        final(state).selected_index == export_next_index(key, old(state).selected_index),
{
    let delta: i32 = match key.code {
        KeyCode::Down | KeyCode::Tab => 1,
        KeyCode::Up | KeyCode::BackTab => -1,
        KeyCode::Char(c) => if c == 'j' && !key.modifiers.control {
            1
        } else if c == 'k' && !key.modifiers.control {
            -1
        } else {
            0
        },
        _ => 0,
    };
    let sel = state.selected_index;
    if delta != 0 {
        move_selection(state, delta);
    }
    match key.code {
        KeyCode::Esc => KeyOutcome::Close,
        KeyCode::Enter => KeyOutcome::Confirm(sel),
        KeyCode::Char(' ') => KeyOutcome::Confirm(sel),
        _ => if delta != 0 {
            KeyOutcome::Consumed
        } else {
            KeyOutcome::NotConsumed
        },
    }
}

/// Row movement a key asks for: `1` down, `-1` up, `0` none.
pub open spec fn export_key_delta(key: KeyEvent) -> int {
    match key.code {
        KeyCode::Down | KeyCode::Tab => 1,
        KeyCode::Up | KeyCode::BackTab => -1,
        KeyCode::Char(c) => if c == 'j' && !key.modifiers.control {
            1
        } else if c == 'k' && !key.modifiers.control {
            -1
        } else {
            0
        },
        _ => 0,
    }
}

/// Effect of `key` on a dialog whose highlighted row is `sel`.
pub open spec fn export_outcome(key: KeyEvent, sel: usize) -> KeyOutcome {
    match key.code {
        KeyCode::Esc => KeyOutcome::Close,
        KeyCode::Enter => KeyOutcome::Confirm(sel),
        KeyCode::Char(c) if c == ' ' => KeyOutcome::Confirm(sel),
        _ => if export_key_delta(key) != 0 {
            KeyOutcome::Consumed
        } else {
            KeyOutcome::NotConsumed
        },
    }
}

/// Highlighted row after `key`, from highlighted row `sel`.
pub open spec fn export_next_index(key: KeyEvent, sel: usize) -> int {
    let d = export_key_delta(key);
    if d == 0 {
        sel as int
    } else {
        wrap_step(sel as int, d, EXPORT_OPTION_COUNT as int)
    }
}

/// Every key leaves the highlight on one of the three options.
pub proof fn law_export_selection_in_range(key: KeyEvent, sel: usize)
    requires
        sel < EXPORT_OPTION_COUNT,
    ensures
        0 <= export_next_index(key, sel) < EXPORT_OPTION_COUNT,
{
}

/// Enter confirms exactly the highlighted option, which is a valid export
/// target.
pub proof fn law_export_confirm_targets_highlight(key: KeyEvent, sel: usize)
    requires
        sel < EXPORT_OPTION_COUNT,
        key.code == KeyCode::Enter,
    ensures
        export_outcome(key, sel) == KeyOutcome::Confirm(sel),
        export_next_index(key, sel) == sel,
{
}

} // verus!
