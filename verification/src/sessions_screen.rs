//! The sessions screen: moving through the session list, the letter
//! commands, and renaming a session in place.

use vstd::prelude::*;
use crate::keys::{KeyCode, KeyEvent};
use crate::text::{str_chars, string_from_chars, string_push, trim_chars, trim_ws};

verus! {

/// Highlighted session after Up: one up, stopping at the top.
pub fn session_up(selected: usize) -> (r: usize)
    ensures
        r == if selected > 0 {
            selected - 1
        } else {
            0
        },
{
    selected.saturating_sub(1)
}

/// Highlighted session after Down among `count`: one down, stopping at the
/// last (0 for an empty list).
pub fn session_down(selected: usize, count: usize) -> (r: usize)
    ensures
        r == if count == 0 {
            0
        } else if selected + 1 < count {
            selected + 1
        } else {
            count - 1
        },
{
    let last = count.saturating_sub(1);
    if selected < last {
        selected + 1
    } else {
        last
    }
}

/// Letter commands of the sessions screen.
#[derive(Clone, Copy, Debug, PartialEq, Eq, Structural)]
pub enum SessionCommand {
    /// `r`/`R`: rename the highlighted session.
    Rename,
    /// `n`/`N`: start a new session.
    New,
    /// `|`: split the pane side by side.
    SplitHorizontal,
    /// `_`: split the pane top and bottom.
    SplitVertical,
    /// `d`/`D`: delete the highlighted session.
    Delete,
}

/// The letter command of a key, if it is one.
pub open spec fn session_command_spec(code: KeyCode) -> Option<SessionCommand> {
    match code {
        KeyCode::Char(c) => if c == 'r' || c == 'R' {
            Some(SessionCommand::Rename)
        } else if c == 'n' || c == 'N' {
            Some(SessionCommand::New)
        } else if c == '|' {
            Some(SessionCommand::SplitHorizontal)
        } else if c == '_' {
            Some(SessionCommand::SplitVertical)
        } else if c == 'd' || c == 'D' {
            Some(SessionCommand::Delete)
        } else {
            None
        },
        _ => None,
    }
}

/// The letter command of a key (see `session_command_spec`).
pub fn session_command(key: KeyEvent) -> (r: Option<SessionCommand>)
    ensures
        r == session_command_spec(key.code),
{
    match key.code {
        KeyCode::Char(c) => if c == 'r' || c == 'R' {
            Some(SessionCommand::Rename)
        } else if c == 'n' || c == 'N' {
            Some(SessionCommand::New)
        } else if c == '|' {
            Some(SessionCommand::SplitHorizontal)
        } else if c == '_' {
            Some(SessionCommand::SplitVertical)
        } else if c == 'd' || c == 'D' {
            Some(SessionCommand::Delete)
        } else {
            None
        },
        _ => None,
    }
}

/// Effect of a key while a session is being renamed.
#[derive(Clone, Debug, PartialEq, Eq)]
pub enum RenameOutcome {
    /// Save this title (`None` clears it) and leave rename mode.
    Commit(Option<String>),
    /// Leave rename mode without saving.
    Cancel,
    /// Still typing.
    Editing,
}

/// The title a rename saves: the trimmed buffer, or no title when only
/// whitespace was typed.
pub open spec fn rename_title_spec(buffer: Seq<char>) -> Option<Seq<char>> {
    if trim_ws(buffer).len() == 0 {
        None
    } else {
        Some(trim_ws(buffer))
    }
}

/// Handles a key in rename mode: Enter commits the trimmed name, Esc
/// cancels, Backspace deletes the last char, a char is appended; the buffer
/// is emptied when rename mode ends.
pub fn rename_key(buffer: &mut String, key: KeyEvent) -> (r: RenameOutcome)
    ensures
        match key.code {
            KeyCode::Enter => final(buffer)@.len() == 0 && match r {
                RenameOutcome::Commit(t) => match t {
                    Some(s) => rename_title_spec(old(buffer)@) == Some(s@),
                    None => rename_title_spec(old(buffer)@) is None,
                },
                _ => false,
            },
            KeyCode::Esc => final(buffer)@.len() == 0 && r == RenameOutcome::Cancel,
            KeyCode::Backspace => r == RenameOutcome::Editing && final(buffer)@ == (if old(
                buffer,
            )@.len() > 0 {
                old(buffer)@.drop_last()
            } else {
                old(buffer)@
            }),
            KeyCode::Char(c) => r == RenameOutcome::Editing && final(buffer)@ == old(buffer)@.push(c),
            _ => r == RenameOutcome::Editing && final(buffer)@ == old(buffer)@,
        },
{
    match key.code {
        KeyCode::Enter => {
            let chars = str_chars(buffer.as_str());
            let t = trim_chars(&chars);
            *buffer = String::new();
            if t.len() == 0 {
                RenameOutcome::Commit(None)
            } else {
                RenameOutcome::Commit(Some(string_from_chars(&t)))
            }
        },
        KeyCode::Esc => {
            *buffer = String::new();
            RenameOutcome::Cancel
        },
        KeyCode::Backspace => {
            let chars = str_chars(buffer.as_str());
            if chars.len() > 0 {
                let mut kept = chars;
                kept.pop();
                *buffer = string_from_chars(&kept);
            }
            RenameOutcome::Editing
        },
        KeyCode::Char(c) => {
            string_push(buffer, c);
            RenameOutcome::Editing
        },
        _ => RenameOutcome::Editing,
    }
}

} // verus!
