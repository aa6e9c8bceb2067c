//! Decisions the chat view takes on keys besides plain editing: moving
//! through the suggestion popups and the attached files, the double-Escape
//! confirmations, scrolling, and preparing a submitted message.

use vstd::prelude::*;
use crate::text::{
    push_chars, str_chars, string_from_chars, sub_chars, trim_chars, trim_end_chars, trim_end_ws, trim_ws,
};

verus! {

/// Highlighted row of a suggestion popup (slash commands, emoji) after Up:
/// one row up, stopping at the top.
pub fn suggestion_up(selected: usize) -> (r: usize)
    ensures
        r == if selected > 0 {
            selected - 1
        } else {
            0
        },
{
    selected.saturating_sub(1)
}

/// Highlighted row after Down among `count` suggestions: one row down,
/// stopping at the last; unchanged when there are none.
pub fn suggestion_down(selected: usize, count: usize) -> (r: usize)
    ensures
        count == 0 ==> r == selected,
        count > 0 ==> r == if selected + 1 < count {
            selected + 1
        } else {
            count - 1
        },
{
    if count == 0 {
        selected
    } else if selected < count - 1 {
        selected + 1
    } else {
        count - 1
    }
}

/// What a key means while an attached file has focus.
#[derive(Clone, Copy, Debug, PartialEq, Eq, Structural)]
pub enum FocusKey {
    Up,
    Down,
    /// Backspace or Delete.
    Remove,
    /// Esc.
    Cancel,
    Other,
}

/// Effect of a key on the focused attachment.
#[derive(Clone, Copy, Debug, PartialEq, Eq, Structural)]
pub struct FocusStep {
    /// Focus afterwards; `None` returns to the text input.
    pub focus: Option<usize>,
    /// Attachment to remove, by index before removal.
    pub remove: Option<usize>,
    /// The key goes on to the text input as well.
    pub pass_on: bool,
}

/// Focus after a key, with `count` attachments and attachment `idx`
/// focused.
pub open spec fn focus_step_spec(idx: usize, count: usize, key: FocusKey) -> FocusStep {
    match key {
        FocusKey::Up => FocusStep {
            focus: Some(if idx > 0 { (idx - 1) as usize } else { idx }),
            remove: None,
            pass_on: false,
        },
        FocusKey::Down => FocusStep {
            focus: if idx + 1 < count { Some((idx + 1) as usize) } else { None },
            remove: None,
            pass_on: false,
        },
        FocusKey::Remove => if idx < count {
            FocusStep {
                focus: if count - 1 == 0 {
                    None
                } else if idx >= count - 1 {
                    Some((count - 2) as usize)
                } else {
                    Some(idx)
                },
                remove: Some(idx),
                pass_on: false,
            }
        } else {
            FocusStep { focus: Some(idx), remove: None, pass_on: false }
        },
        FocusKey::Cancel => FocusStep { focus: None, remove: None, pass_on: false },
        FocusKey::Other => FocusStep { focus: None, remove: None, pass_on: true },
    }
}

/// Handles a key while attachment `idx` of `count` has focus: Up and Down
/// move between attachments (Down past the last returns to the input),
/// Backspace/Delete removes the focused one and keeps focus on a remaining
/// one, Esc returns to the input, and any other key returns to the input
/// and is handled there too.
pub fn attachment_focus_key(idx: usize, count: usize, key: FocusKey) -> (r: FocusStep)
    ensures
        r == focus_step_spec(idx, count, key),
{
    match key {
        FocusKey::Up => FocusStep {
            focus: Some(
                if idx > 0 {
                    idx - 1
                } else {
                    idx
                },
            ),
            remove: None,
            pass_on: false,
        },
        FocusKey::Down => FocusStep {
            focus: if count > 0 && idx < count - 1 {
                Some(idx + 1)
            } else {
                None
            },
            remove: None,
            pass_on: false,
        },
        FocusKey::Remove => if idx < count {
            let left = count - 1;
            FocusStep {
                focus: if left == 0 {
                    None
                } else if idx >= left {
                    Some(left - 1)
                } else {
                    Some(idx)
                },
                remove: Some(idx),
                pass_on: false,
            }
        } else {
            FocusStep { focus: Some(idx), remove: None, pass_on: false }
        },
        FocusKey::Cancel => FocusStep { focus: None, remove: None, pass_on: false },
        FocusKey::Other => FocusStep { focus: None, remove: None, pass_on: true },
    }
}

/// After a removal the focus names one of the remaining attachments.
pub proof fn law_focus_after_remove_in_range(idx: usize, count: usize)
    requires
        idx < count,
    ensures
        focus_step_spec(idx, count, FocusKey::Remove).focus matches Some(f) ==> f < count - 1,
        focus_step_spec(idx, count, FocusKey::Remove).focus is None <==> count == 1,
{
}

/// What Esc does in the chat view.
#[derive(Clone, Copy, Debug, PartialEq, Eq, Structural)]
pub enum EscapeAction {
    /// Second Esc while the agent works: abort the turn.
    AbortTurn,
    /// First Esc while the agent works: arm the abort and say so.
    ArmAbort,
    /// Scrolled up: jump back to the bottom and clear the notice.
    ScrollToBottom,
    /// Empty input: just clear the notice.
    DismissNotice,
    /// Second Esc with text in the input: put the text aside and clear the
    /// input, attachments and popups.
    ClearInput,
    /// First Esc with text in the input: arm the clearing and say so.
    ArmClear,
}

/// Milliseconds within which a second Esc confirms the first.
pub const ESCAPE_CONFIRM_MS: u64 = 3000;

/// The action of Esc, given whether the agent is processing, how long ago
/// an armed Esc was pressed (if one is armed), whether the view follows the
/// newest message, and whether the input is empty.
pub open spec fn escape_spec(processing: bool, armed_ms_ago: Option<u64>, auto_scroll: bool, input_empty: bool) -> EscapeAction {
    let confirmed = armed_ms_ago matches Some(ms) && ms < ESCAPE_CONFIRM_MS;
    if processing {
        if confirmed {
            EscapeAction::AbortTurn
        } else {
            EscapeAction::ArmAbort
        }
    } else if !auto_scroll {
        EscapeAction::ScrollToBottom
    } else if input_empty {
        EscapeAction::DismissNotice
    } else if confirmed {
        EscapeAction::ClearInput
    } else {
        EscapeAction::ArmClear
    }
}

/// Decides what Esc does (see `escape_spec`).
pub fn escape_action(processing: bool, armed_ms_ago: Option<u64>, auto_scroll: bool, input_empty: bool) -> (r: EscapeAction)
    ensures
        r == escape_spec(processing, armed_ms_ago, auto_scroll, input_empty),
{
    let confirmed = match armed_ms_ago {
        Some(ms) => ms < ESCAPE_CONFIRM_MS,
        None => false,
    };
    if processing {
        if confirmed {
            EscapeAction::AbortTurn
        } else {
            EscapeAction::ArmAbort
        }
    } else if !auto_scroll {
        EscapeAction::ScrollToBottom
    } else if input_empty {
        EscapeAction::DismissNotice
    } else if confirmed {
        EscapeAction::ClearInput
    } else {
        EscapeAction::ArmClear
    }
}

/// Nothing destructive happens on a single Esc: without an armed Esc less
/// than three seconds old, Esc neither aborts a turn nor clears the input.
pub proof fn law_escape_needs_confirmation(processing: bool, armed_ms_ago: Option<u64>, auto_scroll: bool, input_empty: bool)
    requires
        !(armed_ms_ago matches Some(ms) && ms < ESCAPE_CONFIRM_MS),
    ensures
        escape_spec(processing, armed_ms_ago, auto_scroll, input_empty) != EscapeAction::AbortTurn,
        escape_spec(processing, armed_ms_ago, auto_scroll, input_empty) != EscapeAction::ClearInput,
{
}

/// Scroll position of the message list: rows scrolled up from the newest,
/// and whether the view follows new messages.
#[derive(Clone, Copy, Debug, PartialEq, Eq, Structural)]
pub struct ScrollState {
    pub offset: usize,
    pub auto_scroll: bool,
}

/// Page Up: ten rows up; the view stops following new messages.
pub fn page_up(s: ScrollState) -> (r: ScrollState)
    ensures
        r.offset == if s.offset + 10 <= usize::MAX {
            (s.offset + 10) as usize
        } else {
            usize::MAX
        },
        !r.auto_scroll,
{
    ScrollState { offset: s.offset.saturating_add(10), auto_scroll: false }
}

/// Page Down: ten rows down; reaching the bottom follows new messages
/// again.
pub fn page_down(s: ScrollState) -> (r: ScrollState)
    ensures
        r.offset == if s.offset >= 10 {
            (s.offset - 10) as usize
        } else {
            0
        },
        r.auto_scroll == (r.offset == 0 || s.auto_scroll),
{
    let offset = s.offset.saturating_sub(10);
    ScrollState { offset, auto_scroll: if offset == 0 { true } else { s.auto_scroll } }
}

/// The view after a mouse-wheel step in the chat: up scrolls one row up
/// and stops following new messages; down scrolls one row down and follows
/// them again once at the bottom.
pub open spec fn wheel_spec(s: ScrollState, up: bool) -> ScrollState {
    if up {
        ScrollState { offset: if s.offset < usize::MAX { (s.offset + 1) as usize } else { usize::MAX }, auto_scroll: false }
    } else {
        let offset = if s.offset > 0 { (s.offset - 1) as usize } else { 0 };
        ScrollState { offset, auto_scroll: offset == 0 || s.auto_scroll }
    }
}

/// A mouse-wheel step in the chat (see `wheel_spec`).
pub fn wheel_scroll(s: ScrollState, up: bool) -> (r: ScrollState)
    ensures
        r == wheel_spec(s, up),
{
    if up {
        ScrollState { offset: s.offset.saturating_add(1), auto_scroll: false }
    } else {
        let offset = s.offset.saturating_sub(1);
        ScrollState { offset, auto_scroll: if offset == 0 { true } else { s.auto_scroll } }
    }
}

/// A wheel step up and then one down come back to the same row, and the
/// view follows new messages again exactly when that row is the bottom.
pub proof fn law_wheel_up_then_down(s: ScrollState)
    requires
        s.offset < usize::MAX,
    ensures
        wheel_spec(wheel_spec(s, true), false).offset == s.offset,
        wheel_spec(wheel_spec(s, true), false).auto_scroll == (s.offset == 0),
{
}

/// Tokens on screen above which Ctrl+O stops loading older messages.
pub const HISTORY_LOAD_LIMIT: usize = 300_000;

/// Ctrl+O loads older messages while some are hidden and fewer than
/// `HISTORY_LOAD_LIMIT` tokens are shown; otherwise it toggles the tool
/// groups.
pub fn ctrl_o_loads_history(hidden_older: usize, display_tokens: usize) -> (b: bool)
    ensures
        b == (hidden_older > 0 && display_tokens < HISTORY_LOAD_LIMIT),
{
    hidden_older > 0 && display_tokens < HISTORY_LOAD_LIMIT
}

/// The expanded state Ctrl+O gives every tool group: the opposite of the
/// active group's, else of the newest group's, else expanded.
pub fn toggle_target(active_expanded: Option<bool>, newest_expanded: Option<bool>) -> (b: bool)
    ensures
        b == match active_expanded {
            Some(e) => !e,
            None => match newest_expanded {
                Some(e) => !e,
                None => true,
            },
        },
{
    match active_expanded {
        Some(e) => !e,
        None => match newest_expanded {
            Some(e) => !e,
            None => true,
        },
    }
}

/// The shell command of a `!cmd` input: the trimmed input without its
/// leading `!`, trimmed again. `None` when the input does not start with
/// `!`.
pub open spec fn bang_command_spec(input: Seq<char>) -> Option<Seq<char>> {
    let t = trim_ws(input);
    if t.len() > 0 && t[0] == '!' {
        Some(trim_ws(t.drop_first()))
    } else {
        None
    }
}

/// The shell command of a `!cmd` input (run directly, without the agent);
/// an empty command is ignored by the caller.
pub fn bang_command(input: &str) -> (r: Option<String>)
    ensures
        match r {
            Some(c) => bang_command_spec(input@) == Some(c@),
            None => bang_command_spec(input@) is None,
        },
{
    let chars = str_chars(input);
    let t = trim_chars(&chars);
    if t.len() > 0 && t[0] == '!' {
        let rest = sub_chars(&t, 1, t.len());
        assert(rest@ =~= t@.drop_first());
        let cmd = trim_chars(&rest);
        Some(string_from_chars(&cmd))
    } else {
        None
    }
}

/// The message sent for `text` with files attached: one ` <<IMG:path>>`
/// marker per attachment, in order.
pub open spec fn with_markers(text: Seq<char>, paths: Seq<String>) -> Seq<char>
    decreases paths.len(),
{
    if paths.len() == 0 {
        text
    } else {
        with_markers(text, paths.drop_last()) + " <<IMG:"@ + paths.last()@ + ">>"@
    }
}

/// Appends the attachment markers to the text of a message.
pub fn append_attachment_markers(text: &str, paths: &[String]) -> (r: String)
    ensures
        r@ == with_markers(text@, paths@),
{
    let mut out = str_chars(text);
    let mut i: usize = 0;
    while i < paths.len()
        invariant
            i <= paths@.len(),
            out@ == with_markers(text@, paths@.take(i as int)),
        decreases paths@.len() - i,
    {
        let mut open = str_chars(" <<IMG:");
        let mut p = str_chars(paths[i].as_str());
        let mut close = str_chars(">>");
        out.append(&mut open);
        out.append(&mut p);
        out.append(&mut close);
        assert(paths@.take(i as int + 1).drop_last() =~= paths@.take(i as int));
        i += 1;
    }
    assert(paths@.take(paths@.len() as int) =~= paths@);
    string_from_chars(&out)
}

/// The line echoing a `!cmd` input in the chat.
pub fn bang_echo(cmd: &str) -> (r: String)
    ensures
        r@ == "$ "@ + cmd@,
{
    let mut out = str_chars("$ ");
    push_chars(&mut out, &str_chars(cmd));
    string_from_chars(&out)
}

/// The chat message reporting a `!cmd` run from its output (`stdout`,
/// `stderr`), whether it succeeded, and its exit status as text.
pub open spec fn shell_report_spec(stdout: Seq<char>, stderr: Seq<char>, success: bool, status: Seq<char>) -> Seq<char> {
    let c1 = if stdout.len() > 0 { trim_end_ws(stdout) } else { Seq::empty() };
    let c2 = if stderr.len() > 0 {
        if c1.len() > 0 { c1 + seq!['\n'] + trim_end_ws(stderr) } else { c1 + trim_end_ws(stderr) }
    } else {
        c1
    };
    if c2.len() == 0 {
        if success { "(no output)"@ } else { "(no output, exit "@ + status + ")"@ }
    } else if !success {
        c2 + "\n(exit "@ + status + ")"@
    } else {
        c2
    }
}

/// The chat message reporting a `!cmd` run: its output, then its error
/// output on a new line (each without trailing whitespace), the exit status
/// after a failure, and a note when nothing was printed.
pub fn shell_report(stdout: &str, stderr: &str, success: bool, status: &str) -> (r: String)
    ensures
        r@ == shell_report_spec(stdout@, stderr@, success, status@),
{
    let out_chars = str_chars(stdout);
    let err_chars = str_chars(stderr);
    let mut combined: Vec<char> = Vec::new();
    if out_chars.len() > 0 {
        push_chars(&mut combined, &trim_end_chars(&out_chars));
    }
    if err_chars.len() > 0 {
        if combined.len() > 0 {
            combined.push('\n');
        }
        push_chars(&mut combined, &trim_end_chars(&err_chars));
    }
    if combined.len() == 0 {
        if success {
            string_from_chars(&str_chars("(no output)"))
        } else {
            let mut m = str_chars("(no output, exit ");
            push_chars(&mut m, &str_chars(status));
            m.push(')');
            assert(m@ =~= "(no output, exit "@ + status@ + ")"@) by {
                reveal_strlit(")");
            }
            string_from_chars(&m)
        }
    } else if !success {
        let mut m = combined;
        push_chars(&mut m, &str_chars("\n(exit "));
        push_chars(&mut m, &str_chars(status));
        m.push(')');
        assert(m@ =~= shell_report_spec(stdout@, stderr@, success, status@)) by {
            reveal_strlit(")");
        }
        string_from_chars(&m)
    } else {
        string_from_chars(&combined)
    }
}

/// The chat message when a `!cmd` could not be started.
pub fn shell_spawn_error(error: &str) -> (r: String)
    ensures
        r@ == "Failed to run command: "@ + error@,
{
    let mut out = str_chars("Failed to run command: ");
    push_chars(&mut out, &str_chars(error));
    string_from_chars(&out)
}

/// The text sent for a submitted input `content`: when files are attached
/// and taking their paths out of the input changed it (beyond surrounding
/// whitespace), the input without the paths (`clean_text`); else the input
/// as typed.
pub fn submitted_text(content: &str, clean_text: &str, has_attachments: bool) -> (r: String)
    ensures
        r@ == if has_attachments && trim_ws(clean_text@) != trim_ws(content@) { clean_text@ } else { content@ },
{
    let c = str_chars(content);
    let k = str_chars(clean_text);
    if has_attachments && !crate::text::chars_eq(&trim_chars(&k), &trim_chars(&c)) {
        string_from_chars(&k)
    } else {
        string_from_chars(&c)
    }
}

} // verus!
