//! Keys the application handles before any screen sees them: the mouse
//! capture toggle, the password prompts of privileged commands, the
//! double Ctrl+C to quit, and the word and line editing chords of the
//! input line.

use vstd::prelude::*;
use crate::chat_keys::ESCAPE_CONFIRM_MS;
use crate::keys::{KeyCode, KeyEvent};
use crate::text::{str_chars, string_from_chars, string_push};

verus! {

/// The notice after F12 toggles mouse capture to `enabled`.
pub fn mouse_capture_notice(enabled: bool) -> (r: &'static str)
    ensures
        enabled ==> r@ == "Mouse capture ON (F12 to enable text selection)"@,
        !enabled ==> r@ == "Mouse capture OFF — drag to select, F12 to re-enable"@,
{
    if enabled {
        "Mouse capture ON (F12 to enable text selection)"
    } else {
        "Mouse capture OFF — drag to select, F12 to re-enable"
    }
}

/// Effect of a key on a password prompt (sudo, ssh).
#[derive(Clone, Debug, PartialEq, Eq)]
pub enum PasswordOutcome {
    /// Enter: answer with this password.
    Submit(String),
    /// Esc: answer without a password.
    Cancel,
    /// Still typing.
    Editing,
}

/// Handles a key on a password prompt: Enter answers with what was typed
/// (and empties the buffer), Esc answers with none (and empties it),
/// Backspace deletes the last char, a char is appended, anything else is
/// ignored.
pub fn password_key(buffer: &mut String, code: KeyCode) -> (r: PasswordOutcome)
    ensures
        match code {
            KeyCode::Enter => final(buffer)@.len() == 0 && (r matches PasswordOutcome::Submit(p) && p@ == old(buffer)@),
            KeyCode::Esc => final(buffer)@.len() == 0 && r == PasswordOutcome::Cancel,
            KeyCode::Backspace => r == PasswordOutcome::Editing && final(buffer)@ == (if old(buffer)@.len() > 0 {
                old(buffer)@.drop_last()
            } else {
                old(buffer)@
            }),
            KeyCode::Char(c) => r == PasswordOutcome::Editing && final(buffer)@ == old(buffer)@.push(c),
            _ => r == PasswordOutcome::Editing && final(buffer)@ == old(buffer)@,
        },
{
    match code {
        KeyCode::Enter => {
            let typed = string_from_chars(&str_chars(buffer.as_str()));
            *buffer = String::new();
            PasswordOutcome::Submit(typed)
        },
        KeyCode::Esc => {
            *buffer = String::new();
            PasswordOutcome::Cancel
        },
        KeyCode::Backspace => {
            let mut chars = str_chars(buffer.as_str());
            if chars.len() > 0 {
                chars.pop();
                *buffer = string_from_chars(&chars);
            }
            PasswordOutcome::Editing
        },
        KeyCode::Char(c) => {
            string_push(buffer, c);
            PasswordOutcome::Editing
        },
        _ => PasswordOutcome::Editing,
    }
}

/// What Ctrl+C does.
#[derive(Clone, Copy, Debug, PartialEq, Eq, Structural)]
pub enum QuitAction {
    /// The view is scrolled up: jump back to the newest message and clear
    /// the input.
    ScrollToBottom,
    /// A second Ctrl+C soon after the first: quit.
    Quit,
    /// Clear the input and arm quitting ("Press Ctrl+C again to quit").
    Arm,
}

/// What Ctrl+C does, given whether the view follows the newest message and
/// how long ago an armed Ctrl+C was pressed (if one is armed).
pub open spec fn quit_spec(auto_scroll: bool, armed_ms_ago: Option<u64>) -> QuitAction {
    if !auto_scroll {
        QuitAction::ScrollToBottom
    } else if armed_ms_ago matches Some(ms) && ms < ESCAPE_CONFIRM_MS {
        QuitAction::Quit
    } else {
        QuitAction::Arm
    }
}

/// What Ctrl+C does (see `quit_spec`).
pub fn quit_action(auto_scroll: bool, armed_ms_ago: Option<u64>) -> (r: QuitAction)
    ensures
        r == quit_spec(auto_scroll, armed_ms_ago),
{
    if !auto_scroll {
        QuitAction::ScrollToBottom
    } else {
        match armed_ms_ago {
            Some(ms) => if ms < ESCAPE_CONFIRM_MS {
                QuitAction::Quit
            } else {
                QuitAction::Arm
            },
            None => QuitAction::Arm,
        }
    }
}

/// The application never quits on a single Ctrl+C: it takes an armed one
/// less than three seconds old.
pub proof fn law_quit_needs_confirmation(auto_scroll: bool, armed_ms_ago: Option<u64>)
    requires
        !(armed_ms_ago matches Some(ms) && ms < ESCAPE_CONFIRM_MS),
    ensures
        quit_spec(auto_scroll, armed_ms_ago) != QuitAction::Quit,
{
}

/// An editing chord of the input line.
#[derive(Clone, Copy, Debug, PartialEq, Eq, Structural)]
pub enum LineChord {
    /// Delete the word before the cursor.
    DeleteWord,
    /// Move to the start of the word before the cursor.
    WordLeft,
    /// Move past the word at the cursor and the whitespace after it.
    WordRight,
    /// Delete from the start of the line to the cursor.
    KillToLineStart,
}

/// The editing chord of a key, if it is one: Ctrl/Alt/Super+Backspace, the
/// raw DEL char (unmodified or with those), the raw Ctrl+H and Ctrl+W
/// chars, and Ctrl+H / Ctrl+W delete a word; Ctrl/Alt+Left and Alt+B move
/// a word left; Ctrl/Alt+Right and Alt+F a word right; Ctrl+U alone kills
/// to the line start.
pub open spec fn line_chord_spec(key: KeyEvent) -> Option<LineChord> {
    let m = key.modifiers;
    let delete_word = match key.code {
        KeyCode::Backspace => m.control || m.alt || m.super_key,
        KeyCode::Char(c) => if c == '\x7f' {
            m.alt || m.control || m.super_key || m.is_empty()
        } else if c == '\x08' || c == '\x17' {
            true
        } else if c == 'h' || c == 'w' {
            m.control
        } else {
            false
        },
        _ => false,
    };
    if delete_word {
        Some(LineChord::DeleteWord)
    } else if (key.code == KeyCode::Left && (m.control || m.alt)) || (key.code == KeyCode::Char('b') && m.alt) {
        Some(LineChord::WordLeft)
    } else if (key.code == KeyCode::Right && (m.control || m.alt)) || (key.code == KeyCode::Char('f') && m.alt) {
        Some(LineChord::WordRight)
    } else if key.code == KeyCode::Char('u') && m.is_control_only() {
        Some(LineChord::KillToLineStart)
    } else {
        None
    }
}

/// The editing chord of a key (see `line_chord_spec`).
pub fn line_chord(key: KeyEvent) -> (r: Option<LineChord>)
    ensures
        r == line_chord_spec(key),
{
    let m = key.modifiers;
    let empty = !m.shift && !m.control && !m.alt && !m.super_key && !m.hyper && !m.meta;
    let delete_word = match key.code {
        KeyCode::Backspace => m.control || m.alt || m.super_key,
        KeyCode::Char(c) => if c == '\x7f' {
            m.alt || m.control || m.super_key || empty
        } else if c == '\x08' || c == '\x17' {
            true
        } else if c == 'h' || c == 'w' {
            m.control
        } else {
            false
        },
        _ => false,
    };
    let left = match key.code {
        KeyCode::Left => m.control || m.alt,
        KeyCode::Char(c) => c == 'b' && m.alt,
        _ => false,
    };
    let right = match key.code {
        KeyCode::Right => m.control || m.alt,
        KeyCode::Char(c) => c == 'f' && m.alt,
        _ => false,
    };
    let kill = match key.code {
        KeyCode::Char(c) => c == 'u' && m.control && !m.shift && !m.alt && !m.super_key && !m.hyper && !m.meta,
        _ => false,
    };
    if delete_word {
        Some(LineChord::DeleteWord)
    } else if left {
        Some(LineChord::WordLeft)
    } else if right {
        Some(LineChord::WordRight)
    } else if kill {
        Some(LineChord::KillToLineStart)
    } else {
        None
    }
}

} // verus!
