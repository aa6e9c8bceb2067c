//! Editing of the chat input line: inserting and deleting chars at the
//! cursor, moving it by chars and to the ends of its logical line, and the
//! plain keys that do so. The cursor is a byte offset into the buffer.

use vstd::prelude::*;
use vstd::string::StringSliceAdditionalSpecFns;
use vstd::utf8::*;
use crate::input_edit::{
    byte_len_of, char_index_at_byte, char_index_of, cursor_line_position,
    is_mouse_sequence_fragment, lemma_boundary_char_offset, lemma_byte_len_le,
    lemma_char_index_unique, line_start_before, mouse_fragment_spec, prefix_byte_len, tail_start,
};
use crate::keys::{KeyCode, KeyEvent};
use crate::text::{char_utf8_len, lemma_encode_utf8_concat, lemma_encode_utf8_take_push, str_chars, string_from_chars, sub_chars};

verus! {

/// Buffer and cursor after an edit.
pub open spec fn edited(r: (String, usize), s: Seq<char>, cursor: int) -> bool {
    r.0@ == s && r.1 == cursor
}

/// Inserts `c` at the cursor; the cursor moves past it.
pub fn insert_char(buf: &str, cursor: usize, c: char) -> (r: (String, usize))
    requires
        is_char_boundary(buf.spec_bytes(), cursor as int),
        buf.spec_bytes().len() + 4 <= usize::MAX,
    ensures
        ({
            let k = char_index_of(buf@, cursor as int);
            edited(
                r,
                buf@.take(k) + seq![c] + buf@.skip(k),
                cursor + encode_scalar(c as u32).len(),
            )
        }),
{
    let chars = str_chars(buf);
    let ghost s = chars@;
    proof {
        lemma_boundary_char_offset(s, cursor as int);
    }
    let k = char_index_at_byte(&chars, cursor);
    let mut out = sub_chars(&chars, 0, k);
    out.push(c);
    let mut rest = sub_chars(&chars, k, chars.len());
    out.append(&mut rest);
    proof {
        lemma_byte_len_le(s, k as int);
    }
    assert(out@ =~= s.take(k as int) + seq![c] + s.skip(k as int));
    (string_from_chars(&out), cursor + char_utf8_len(c))
}

/// Byte offset of the char before the cursor (the cursor must not be at 0).
fn prev_boundary(chars: &[char], k: usize, total: usize) -> (r: usize)
    requires
        0 < k <= chars@.len(),
        total == encode_utf8(chars@).len(),
    ensures
        r == byte_len_of(chars@, k - 1),
{
    prefix_byte_len(chars, k - 1, total)
}

/// Backspace: deletes the char before the cursor, which moves onto its
/// start. Nothing happens at the start of the buffer.
pub fn backspace(buf: &str, cursor: usize) -> (r: (String, usize))
    requires
        is_char_boundary(buf.spec_bytes(), cursor as int),
    ensures
        cursor == 0 ==> edited(r, buf@, 0),
        cursor > 0 ==> ({
            let k = char_index_of(buf@, cursor as int);
            edited(r, buf@.take(k - 1) + buf@.skip(k), byte_len_of(buf@, k - 1) as int)
        }),
{
    let chars = str_chars(buf);
    let ghost s = chars@;
    proof {
        lemma_boundary_char_offset(s, cursor as int);
    }
    if cursor == 0 {
        return (string_from_chars(&chars), 0);
    }
    let total = buf.as_bytes().len();
    let k = char_index_at_byte(&chars, cursor);
    assert(k > 0) by {
        if k == 0 {
            assert(s.take(0) =~= Seq::<char>::empty());
        }
    }
    let prev = prev_boundary(&chars, k, total);
    let mut out = sub_chars(&chars, 0, k - 1);
    let mut rest = sub_chars(&chars, k, chars.len());
    out.append(&mut rest);
    assert(out@ =~= s.take(k - 1) + s.skip(k as int));
    (string_from_chars(&out), prev)
}

/// Delete: removes the char at the cursor; nothing happens at the end of
/// the buffer.
pub fn delete_forward(buf: &str, cursor: usize) -> (r: (String, usize))
    requires
        is_char_boundary(buf.spec_bytes(), cursor as int),
    ensures
        ({
            let k = char_index_of(buf@, cursor as int);
            &&& k == buf@.len() ==> edited(r, buf@, cursor as int)
            &&& k < buf@.len() ==> edited(r, buf@.take(k) + buf@.skip(k + 1), cursor as int)
        }),
{
    let chars = str_chars(buf);
    let ghost s = chars@;
    proof {
        lemma_boundary_char_offset(s, cursor as int);
    }
    let k = char_index_at_byte(&chars, cursor);
    if k == chars.len() {
        return (string_from_chars(&chars), cursor);
    }
    let mut out = sub_chars(&chars, 0, k);
    let mut rest = sub_chars(&chars, k + 1, chars.len());
    out.append(&mut rest);
    assert(out@ =~= s.take(k as int) + s.skip(k + 1));
    (string_from_chars(&out), cursor)
}

/// The cursor one char to the left (unchanged at the start).
pub fn cursor_left(buf: &str, cursor: usize) -> (r: usize)
    requires
        is_char_boundary(buf.spec_bytes(), cursor as int),
    ensures
        cursor == 0 ==> r == 0,
        cursor > 0 ==> r == byte_len_of(buf@, char_index_of(buf@, cursor as int) - 1),
{
    let chars = str_chars(buf);
    let ghost s = chars@;
    proof {
        lemma_boundary_char_offset(s, cursor as int);
    }
    if cursor == 0 {
        return 0;
    }
    let total = buf.as_bytes().len();
    let k = char_index_at_byte(&chars, cursor);
    assert(k > 0) by {
        if k == 0 {
            assert(s.take(0) =~= Seq::<char>::empty());
        }
    }
    prev_boundary(&chars, k, total)
}

/// The cursor one char to the right (unchanged at the end).
pub fn cursor_right(buf: &str, cursor: usize) -> (r: usize)
    requires
        is_char_boundary(buf.spec_bytes(), cursor as int),
    ensures
        ({
            let k = char_index_of(buf@, cursor as int);
            &&& k == buf@.len() ==> r == cursor
            &&& k < buf@.len() ==> r == byte_len_of(buf@, k + 1)
        }),
{
    let chars = str_chars(buf);
    let ghost s = chars@;
    proof {
        lemma_boundary_char_offset(s, cursor as int);
    }
    let total = buf.as_bytes().len();
    let k = char_index_at_byte(&chars, cursor);
    if k == chars.len() {
        return cursor;
    }
    prefix_byte_len(&chars, k + 1, total)
}

/// Offset of the first `\n` at or after byte `i` of `b`, or `b.len()`.
pub open spec fn line_end_from(b: Seq<u8>, i: int) -> int
    decreases b.len() - i,
{
    if i < 0 || i >= b.len() {
        b.len() as int
    } else if b[i] == 10u8 {
        i
    } else {
        line_end_from(b, i + 1)
    }
}

/// End of the cursor's logical line (End, Ctrl+E): the next `\n` at or
/// after the cursor, or the end of the buffer.
pub fn line_end_position(buf: &str, cursor: usize) -> (r: usize)
    requires
        cursor <= buf.spec_bytes().len(),
    ensures
        r == line_end_from(buf.spec_bytes(), cursor as int),
{
    let bytes = buf.as_bytes();
    let mut i: usize = cursor;
    while i < bytes.len() && bytes[i] != 10u8
        invariant
            bytes@ == buf.spec_bytes(),
            cursor <= i <= bytes@.len(),
            line_end_from(bytes@, i as int) == line_end_from(bytes@, cursor as int),
        decreases bytes@.len() - i,
    {
        i += 1;
    }
    i
}

/// Typing a char and deleting it again with Backspace gives back the
/// buffer and the cursor: after the insertion the cursor sits just past the
/// new char, and Backspace removes exactly that char and returns the cursor
/// to where it was.
pub proof fn law_insert_then_backspace(s: Seq<char>, cursor: int, c: char)
    requires
        is_char_boundary(encode_utf8(s), cursor),
    ensures
        ({
            let k = char_index_of(s, cursor);
            let s2 = s.take(k) + seq![c] + s.skip(k);
            let c2 = cursor + encode_scalar(c as u32).len();
            &&& c2 > 0
            &&& char_index_of(s2, c2) == k + 1
            &&& s2.take(k + 1 - 1) + s2.skip(k + 1) == s
            &&& byte_len_of(s2, k + 1 - 1) == cursor
        }),
{
    lemma_boundary_char_offset(s, cursor);
    let k = char_index_of(s, cursor);
    let s2 = s.take(k) + seq![c] + s.skip(k);
    let c2 = cursor + encode_scalar(c as u32).len();
    assert(s2.take(k) =~= s.take(k));
    assert(s2.take(k + 1) =~= s.take(k) + seq![c]);
    lemma_encode_utf8_concat(s.take(k), seq![c]);
    crate::text::lemma_encode_utf8_single(c);
    assert(byte_len_of(s2, k + 1) == c2);
    lemma_char_index_unique(s2, c2, k + 1);
    assert(s2.take(k) + s2.skip(k + 1) =~= s);
    lemma_encode_utf8_take_push(s2, k);
}

/// Moving right and then left returns the cursor to where it was (away
/// from the end of the buffer).
pub proof fn law_right_then_left(s: Seq<char>, cursor: int)
    requires
        is_char_boundary(encode_utf8(s), cursor),
        char_index_of(s, cursor) < s.len(),
    ensures
        ({
            let k = char_index_of(s, cursor);
            let r = byte_len_of(s, k + 1);
            &&& r > 0
            &&& char_index_of(s, r as int) == k + 1
            &&& byte_len_of(s, k + 1 - 1) == cursor
        }),
{
    lemma_boundary_char_offset(s, cursor);
    let k = char_index_of(s, cursor);
    lemma_encode_utf8_take_push(s, k);
    lemma_char_index_unique(s, byte_len_of(s, k + 1) as int, k + 1);
}

/// What a plain key does to the input line.
#[derive(Clone, Debug, PartialEq, Eq)]
pub enum InputEdit {
    /// New buffer and cursor.
    Buffer(String, usize),
    /// Same buffer, new cursor.
    Cursor(usize),
    /// `@` opens the file picker.
    OpenFilePicker,
    /// Nothing changes.
    Ignored,
}

/// No modifier held.
pub open spec fn no_modifiers(key: KeyEvent) -> bool {
    key.modifiers.is_empty()
}

/// Handles a key that reaches the input line as plain editing: `@` opens
/// the file picker; a char typed without Ctrl (or with Alt) is inserted
/// unless it continues a leaked mouse report; unmodified Backspace, Delete,
/// Left and Right edit or move by one char where there is one; Home and End
/// go to the ends of the logical line.
pub fn edit_key(buf: &str, cursor: usize, key: KeyEvent) -> (r: InputEdit)
    requires
        is_char_boundary(buf.spec_bytes(), cursor as int),
        buf.spec_bytes().len() + 4 <= usize::MAX,
    ensures
        ({
            let b = buf.spec_bytes();
            let s = buf@;
            let k = char_index_of(s, cursor as int);
            match key.code {
                KeyCode::Char(c) => if c == '@' {
                    r == InputEdit::OpenFilePicker
                } else if key.modifiers.control && !key.modifiers.alt {
                    r == InputEdit::Ignored
                } else if mouse_fragment_spec(c, b.subrange(tail_start(b, cursor as int), cursor as int)) {
                    r == InputEdit::Ignored
                } else {
                    r matches InputEdit::Buffer(nb, nc) && nb@ == s.take(k) + seq![c] + s.skip(k)
                        && nc == cursor + encode_scalar(c as u32).len()
                },
                KeyCode::Backspace => if no_modifiers(key) && cursor > 0 {
                    r matches InputEdit::Buffer(nb, nc) && nb@ == s.take(k - 1) + s.skip(k) && nc
                        == byte_len_of(s, k - 1)
                } else {
                    r == InputEdit::Ignored
                },
                KeyCode::Delete => if no_modifiers(key) && cursor < b.len() {
                    r matches InputEdit::Buffer(nb, nc) && nb@ == s.take(k) + s.skip(k + 1) && nc
                        == cursor
                } else {
                    r == InputEdit::Ignored
                },
                KeyCode::Left => if no_modifiers(key) && cursor > 0 {
                    r == InputEdit::Cursor(byte_len_of(s, k - 1) as usize)
                } else {
                    r == InputEdit::Ignored
                },
                KeyCode::Right => if no_modifiers(key) && cursor < b.len() {
                    r == InputEdit::Cursor(byte_len_of(s, k + 1) as usize)
                } else {
                    r == InputEdit::Ignored
                },
                KeyCode::Home => r == InputEdit::Cursor(line_start_before(b, cursor as int) as usize),
                KeyCode::End => r == InputEdit::Cursor(line_end_from(b, cursor as int) as usize),
                _ => r == InputEdit::Ignored,
            }
        }),
{
    let ghost s = buf@;
    let n = buf.as_bytes().len();
    let m = key.modifiers;
    let plain = !m.shift && !m.control && !m.alt && !m.super_key && !m.hyper && !m.meta;
    proof {
        lemma_boundary_char_offset(s, cursor as int);
        let k = char_index_of(s, cursor as int);
        if k == s.len() {
            assert(s.take(s.len() as int) =~= s);
        } else {
            lemma_byte_len_le(s, k + 1);
            lemma_encode_utf8_take_push(s, k);
        }
    }
    match key.code {
        KeyCode::Char(c) => {
            if c == '@' {
                InputEdit::OpenFilePicker
            } else if key.modifiers.control && !key.modifiers.alt {
                InputEdit::Ignored
            } else if is_mouse_sequence_fragment(c, buf, cursor) {
                InputEdit::Ignored
            } else {
                let (nb, nc) = insert_char(buf, cursor, c);
                InputEdit::Buffer(nb, nc)
            }
        },
        KeyCode::Backspace => {
            if plain && cursor > 0 {
                let (nb, nc) = backspace(buf, cursor);
                InputEdit::Buffer(nb, nc)
            } else {
                InputEdit::Ignored
            }
        },
        KeyCode::Delete => {
            if plain && cursor < n {
                let (nb, nc) = delete_forward(buf, cursor);
                InputEdit::Buffer(nb, nc)
            } else {
                InputEdit::Ignored
            }
        },
        KeyCode::Left => {
            if plain && cursor > 0 {
                InputEdit::Cursor(cursor_left(buf, cursor))
            } else {
                InputEdit::Ignored
            }
        },
        KeyCode::Right => {
            if plain && cursor < n {
                InputEdit::Cursor(cursor_right(buf, cursor))
            } else {
                InputEdit::Ignored
            }
        },
        KeyCode::Home => {
            let (ls, _) = cursor_line_position(buf, cursor);
            InputEdit::Cursor(ls)
        },
        KeyCode::End => InputEdit::Cursor(line_end_position(buf, cursor)),
        _ => InputEdit::Ignored,
    }
}

/// The submitted inputs and where browsing them stands.
#[derive(Clone, Debug)]
pub struct InputHistory {
    /// Submitted inputs, oldest first.
    pub entries: Vec<String>,
    /// Entry shown while browsing; `None` when editing a fresh input.
    pub index: Option<usize>,
    /// The fresh input put aside while browsing.
    pub stash: String,
}

/// Browsing state and buffer as one value: index, stash, buffer.
pub type Browse = (Option<usize>, Seq<char>, Seq<char>);

/// Arrow Up into the history: entering it puts the buffer aside (the stash)
/// and shows the newest entry; inside it, the next older entry is shown
/// until the oldest.
pub open spec fn older_step(entries: Seq<String>, st: Browse) -> Browse {
    match st.0 {
        None => if entries.len() == 0 {
            st
        } else {
            (Some((entries.len() - 1) as usize), st.2, entries[entries.len() - 1]@)
        },
        Some(i) => if i > 0 {
            (Some((i - 1) as usize), st.1, entries[i - 1]@)
        } else {
            st
        },
    }
}

/// Ctrl+P: as Arrow Up, except that entering the history with an empty
/// buffer keeps the stash.
pub open spec fn older_step_readline(entries: Seq<String>, st: Browse) -> Browse {
    match st.0 {
        None => {
            let stash = if st.2.len() > 0 {
                st.2
            } else {
                st.1
            };
            if entries.len() == 0 {
                (None, stash, st.2)
            } else {
                (Some((entries.len() - 1) as usize), stash, entries[entries.len() - 1]@)
            }
        },
        Some(_) => older_step(entries, st),
    }
}

/// Arrow Down or Ctrl+N: inside the history the next newer entry is shown;
/// past the newest, browsing ends and the stash comes back (and is
/// emptied). Outside the history nothing happens.
pub open spec fn newer_step(entries: Seq<String>, st: Browse) -> Browse {
    match st.0 {
        None => st,
        Some(i) => if i + 1 < entries.len() {
            (Some((i + 1) as usize), st.1, entries[i + 1]@)
        } else {
            (None, Seq::empty(), st.1)
        },
    }
}

impl InputHistory {
    /// A browsing position always names an entry.
    pub open spec fn wf(&self) -> bool {
        self.index matches Some(i) ==> i < self.entries@.len()
    }

    /// No history, not browsing.
    pub fn new() -> (h: InputHistory)
        ensures
            h.wf(),
            h.entries@.len() == 0,
            h.index is None,
            h.stash@.len() == 0,
    {
        InputHistory { entries: Vec::new(), index: None, stash: String::new() }
    }

    /// Arrow Up (see `older_step`). Returns the new cursor, the end of the
    /// buffer, when the buffer was replaced.
    pub fn browse_older(&mut self, buffer: &mut String) -> (r: Option<usize>)
        requires
            old(self).wf(),
        ensures
            final(self).wf(),
            final(self).entries@ == old(self).entries@,
            (final(self).index, final(self).stash@, final(buffer)@) == older_step(
                old(self).entries@,
                (old(self).index, old(self).stash@, old(buffer)@),
            ),
            r is Some <==> final(self).index != old(self).index,
            r matches Some(c) ==> c == encode_utf8(final(buffer)@).len(),
    {
        match self.index {
            None => {
                if self.entries.len() == 0 {
                    return None;
                }
                self.stash = buffer.clone();
                let i = self.entries.len() - 1;
                self.index = Some(i);
                *buffer = self.entries[i].clone();
                Some(buffer.as_str().as_bytes().len())
            },
            Some(i) => {
                if i > 0 {
                    self.index = Some(i - 1);
                    *buffer = self.entries[i - 1].clone();
                    Some(buffer.as_str().as_bytes().len())
                } else {
                    None
                }
            },
        }
    }

    /// Ctrl+P (see `older_step_readline`). Returns the new cursor when the
    /// buffer was replaced.
    pub fn browse_older_readline(&mut self, buffer: &mut String) -> (r: Option<usize>)
        requires
            old(self).wf(),
        ensures
            final(self).wf(),
            final(self).entries@ == old(self).entries@,
            (final(self).index, final(self).stash@, final(buffer)@) == older_step_readline(
                old(self).entries@,
                (old(self).index, old(self).stash@, old(buffer)@),
            ),
            r is Some <==> final(self).index != old(self).index,
            r matches Some(c) ==> c == encode_utf8(final(buffer)@).len(),
    {
        match self.index {
            None => {
                if buffer.as_str().as_bytes().len() > 0 {
                    self.stash = buffer.clone();
                }
                if self.entries.len() == 0 {
                    return None;
                }
                let i = self.entries.len() - 1;
                self.index = Some(i);
                *buffer = self.entries[i].clone();
                Some(buffer.as_str().as_bytes().len())
            },
            Some(i) => {
                if i > 0 {
                    self.index = Some(i - 1);
                    *buffer = self.entries[i - 1].clone();
                    Some(buffer.as_str().as_bytes().len())
                } else {
                    None
                }
            },
        }
    }

    /// Arrow Down or Ctrl+N (see `newer_step`). Returns the new cursor when
    /// the buffer was replaced.
    pub fn browse_newer(&mut self, buffer: &mut String) -> (r: Option<usize>)
        requires
            old(self).wf(),
        ensures
            final(self).wf(),
            final(self).entries@ == old(self).entries@,
            (final(self).index, final(self).stash@, final(buffer)@) == newer_step(
                old(self).entries@,
                (old(self).index, old(self).stash@, old(buffer)@),
            ),
            r is Some <==> old(self).index is Some,
            r matches Some(c) ==> c == encode_utf8(final(buffer)@).len(),
    {
        match self.index {
            None => None,
            Some(i) => {
                let n = self.entries.len();
                if i < n - 1 {
                    self.index = Some(i + 1);
                    *buffer = self.entries[i + 1].clone();
                } else {
                    self.index = None;
                    let mut taken = String::new();
                    std::mem::swap(&mut taken, &mut self.stash);
                    *buffer = taken;
                }
                Some(buffer.as_str().as_bytes().len())
            },
        }
    }

    /// Records a submitted input (already trimmed): it is added unless it
    /// repeats the newest entry, browsing ends and the stash is emptied.
    /// Returns whether it was added (and so is to be saved).
    pub fn record_submission(&mut self, trimmed: &str) -> (added: bool)
        requires
            old(self).wf(),
        ensures
            final(self).wf(),
            added == (old(self).entries@.len() == 0 || old(self).entries@.last()@ != trimmed@),
            added ==> final(self).entries@.len() == old(self).entries@.len() + 1
                && final(self).entries@.last()@ == trimmed@ && final(self).entries@.drop_last()
                == old(self).entries@,
            !added ==> final(self).entries@ == old(self).entries@,
            final(self).index is None,
            final(self).stash@.len() == 0,
    {
        let n = self.entries.len();
        let t = str_chars(trimmed);
        let repeat = if n > 0 {
            let last = str_chars(self.entries[n - 1].as_str());
            crate::text::chars_eq(&last, &t)
        } else {
            false
        };
        if !repeat {
            self.entries.push(string_from_chars(&t));
        }
        self.index = None;
        self.stash = String::new();
        proof {
            if !repeat {
                assert(self.entries@.drop_last() =~= old(self).entries@);
            }
        }
        !repeat
    }
}

/// Arrow Up into the history and straight back down gives the fresh input
/// back and ends the browsing, with the stash emptied.
pub proof fn law_history_up_then_down(entries: Seq<String>, stash: Seq<char>, buffer: Seq<char>)
    requires
        0 < entries.len() <= usize::MAX,
    ensures
        newer_step(entries, older_step(entries, (None, stash, buffer))) == (
            None::<usize>,
            Seq::<char>::empty(),
            buffer,
        ),
{
}

/// Stepping one entry older and then one newer inside the history returns
/// to the entry shown before.
pub proof fn law_history_older_then_newer(entries: Seq<String>, st: Browse)
    requires
        st.0 matches Some(i) && 0 < i < entries.len(),
    ensures
        newer_step(entries, older_step(entries, st)) == (st.0, st.1, entries[st.0->0 as int]@),
{
}

} // verus!
