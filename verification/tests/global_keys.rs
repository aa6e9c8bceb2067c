//! Keys handled before any screen: mouse capture, password prompts, quit,
//! and the input line's editing chords.

use stemcell_tui::global_keys::{
    line_chord, mouse_capture_notice, password_key, quit_action, LineChord, PasswordOutcome, QuitAction,
};
use stemcell_tui::keys::{KeyCode, KeyEvent, KeyModifiers};

fn mods(control: bool, alt: bool, super_key: bool) -> KeyModifiers {
    KeyModifiers { shift: false, control, alt, super_key, hyper: false, meta: false }
}

#[test]
fn mouse_capture_notices() {
    assert_eq!(mouse_capture_notice(true), "Mouse capture ON (F12 to enable text selection)");
    assert_eq!(mouse_capture_notice(false), "Mouse capture OFF — drag to select, F12 to re-enable");
}

#[test]
fn password_prompt_collects_and_answers() {
    let mut buf = String::new();
    assert_eq!(password_key(&mut buf, KeyCode::Char('p')), PasswordOutcome::Editing);
    assert_eq!(password_key(&mut buf, KeyCode::Char('w')), PasswordOutcome::Editing);
    assert_eq!(password_key(&mut buf, KeyCode::Backspace), PasswordOutcome::Editing);
    assert_eq!(password_key(&mut buf, KeyCode::Char('x')), PasswordOutcome::Editing);
    assert_eq!(password_key(&mut buf, KeyCode::Tab), PasswordOutcome::Editing);
    assert_eq!(buf, "px");
    assert_eq!(password_key(&mut buf, KeyCode::Enter), PasswordOutcome::Submit("px".to_string()));
    assert!(buf.is_empty());
    buf.push_str("secret");
    assert_eq!(password_key(&mut buf, KeyCode::Esc), PasswordOutcome::Cancel);
    assert!(buf.is_empty());
}

#[test]
fn quitting_takes_two_presses() {
    assert_eq!(quit_action(false, Some(10)), QuitAction::ScrollToBottom);
    assert_eq!(quit_action(true, None), QuitAction::Arm);
    assert_eq!(quit_action(true, Some(500)), QuitAction::Quit);
    assert_eq!(quit_action(true, Some(3000)), QuitAction::Arm);
}

#[test]
fn editing_chords() {
    let k = |code, m| KeyEvent::new(code, m);
    assert_eq!(line_chord(k(KeyCode::Backspace, mods(true, false, false))), Some(LineChord::DeleteWord));
    assert_eq!(line_chord(k(KeyCode::Backspace, mods(false, false, true))), Some(LineChord::DeleteWord));
    assert_eq!(line_chord(k(KeyCode::Backspace, mods(false, false, false))), None);
    assert_eq!(line_chord(k(KeyCode::Char('\x7f'), mods(false, false, false))), Some(LineChord::DeleteWord));
    assert_eq!(line_chord(k(KeyCode::Char('\x17'), mods(false, false, false))), Some(LineChord::DeleteWord));
    assert_eq!(line_chord(k(KeyCode::Char('w'), mods(true, false, false))), Some(LineChord::DeleteWord));
    assert_eq!(line_chord(k(KeyCode::Char('w'), mods(false, false, false))), None);
    assert_eq!(line_chord(k(KeyCode::Left, mods(false, true, false))), Some(LineChord::WordLeft));
    assert_eq!(line_chord(k(KeyCode::Char('b'), mods(false, true, false))), Some(LineChord::WordLeft));
    assert_eq!(line_chord(k(KeyCode::Right, mods(true, false, false))), Some(LineChord::WordRight));
    assert_eq!(line_chord(k(KeyCode::Char('f'), mods(false, true, false))), Some(LineChord::WordRight));
    assert_eq!(line_chord(k(KeyCode::Char('u'), mods(true, false, false))), Some(LineChord::KillToLineStart));
    assert_eq!(line_chord(k(KeyCode::Char('u'), mods(true, true, false))), None);
    assert_eq!(line_chord(k(KeyCode::Left, mods(false, false, false))), None);
}
