//! Mouse selection in the chat transcript: clicks that highlight a message,
//! drags that select text, and turning a dragged span of screen cells back
//! into the plain text that was drawn there.

use vstd::prelude::*;
use crate::text::{push_chars, str_chars, string_from_chars, trim_start_chars, trim_chars, trim_start_ws, trim_ws};

verus! {

/// Where the chat transcript is drawn: its top-left cell, its height in
/// rows, and how many rendered lines are scrolled off above it.
#[derive(Clone, Copy, Debug, PartialEq, Eq, Structural)]
pub struct ChatViewport {
    pub area_x: u16,
    pub area_y: u16,
    pub area_height: u16,
    pub render_scroll: usize,
}

impl ChatViewport {
    /// Screen coordinates leave room for the one-cell padding, and the
    /// scroll offset leaves room for any row of the screen below it.
    pub open spec fn wf(self) -> bool {
        &&& self.area_x < u16::MAX
        &&& self.area_y < u16::MAX
        &&& self.render_scroll + 65536 <= usize::MAX
    }
}

/// `a` comes no later than `b` in reading order (row first, then column);
/// a cell is `(column, row)`.
pub open spec fn reading_le(a: (u16, u16), b: (u16, u16)) -> bool {
    a.1 < b.1 || (a.1 == b.1 && a.0 <= b.0)
}

/// Rendered line shown on screen row `row`, if the row lies inside the text
/// area (below the one-row top padding, above the bottom of the area).
pub open spec fn row_line_spec(v: ChatViewport, row: u16) -> Option<int> {
    if row < v.area_y + 1 {
        None
    } else if row - (v.area_y + 1) >= v.area_height - 1 {
        None
    } else {
        Some(v.render_scroll + (row - (v.area_y + 1)))
    }
}

/// Char column within a rendered line of screen column `col` (the text
/// starts one cell in; columns left of it count as 0).
pub open spec fn col_spec(v: ChatViewport, col: u16) -> int {
    if col >= v.area_x + 1 {
        col - (v.area_x + 1)
    } else {
        0
    }
}

/// The chars of `line` from `from` up to `to`, both clamped to its length.
pub open spec fn slice_spec(line: Seq<char>, from: int, to: int) -> Seq<char> {
    let f = if from < line.len() { from } else { line.len() as int };
    let t = if to < line.len() { to } else { line.len() as int };
    if f >= t {
        Seq::empty()
    } else {
        line.subrange(f, t)
    }
}

pub open spec fn is_digit(c: char) -> bool {
    '0' <= c && c <= '9'
}

/// `s` without its leading ASCII digits.
pub open spec fn drop_digits(s: Seq<char>) -> Seq<char>
    decreases s.len(),
{
    if s.len() > 0 && is_digit(s[0]) {
        drop_digits(s.drop_first())
    } else {
        s
    }
}

pub open spec fn bar_space() -> Seq<char> {
    seq!['│', ' ']
}

pub open spec fn space_bar_space() -> Seq<char> {
    seq![' ', '│', ' ']
}

pub open spec fn starts_with(s: Seq<char>, p: Seq<char>) -> bool {
    p.len() <= s.len() && s.take(p.len() as int) == p
}

/// A rendered line as the user reads it: leading padding removed, and a
/// code-block gutter such as `"12 │ "` removed after it.
pub open spec fn strip_gutter_spec(s: Seq<char>) -> Seq<char> {
    let t = trim_start_ws(s);
    if t.len() > 0 && is_digit(t[0]) {
        let rest = drop_digits(t);
        if starts_with(rest, space_bar_space()) {
            rest.skip(3)
        } else if starts_with(rest, bar_space()) {
            rest.skip(2)
        } else {
            t
        }
    } else {
        t
    }
}

/// A line holds nothing but whitespace.
pub open spec fn is_blank(s: Seq<char>) -> bool {
    trim_ws(s).len() == 0
}

/// Part of rendered line `idx` that a drag from line `s` (column `from`) to
/// line `e` (up to column `to`, exclusive) covers, when `s < e`.
pub open spec fn span_piece(line: Seq<char>, idx: int, s: int, e: int, from: int, to: int) -> Seq<char> {
    if idx == s {
        slice_spec(line, from, line.len() as int)
    } else if idx == e {
        slice_spec(line, 0, to)
    } else {
        line
    }
}

/// Text of the first `n` lines of a multi-line drag starting at line `s`:
/// each covered line that exists, stripped, and not blank, joined by
/// newlines.
pub open spec fn span_text(lines: Seq<Seq<char>>, s: int, e: int, from: int, to: int, n: nat) -> Seq<char>
    decreases n,
{
    if n == 0 {
        Seq::empty()
    } else {
        let prev = span_text(lines, s, e, from, to, (n - 1) as nat);
        let idx = s + n - 1;
        if idx < 0 || idx >= lines.len() {
            prev
        } else {
            let c = strip_gutter_spec(span_piece(lines[idx], idx, s, e, from, to));
            if is_blank(c) {
                prev
            } else if prev.len() == 0 {
                c
            } else {
                prev + seq!['\n'] + c
            }
        }
    }
}

pub open spec fn lines_view(lines: Seq<String>) -> Seq<Seq<char>> {
    lines.map_values(|l: String| l@)
}

/// The text drawn between cells `a` and `b` of the chat area, in either
/// order: empty where the area has no height or either end lies outside the
/// text rows.
pub open spec fn drag_text(lines: Seq<Seq<char>>, v: ChatViewport, a: (u16, u16), b: (u16, u16)) -> Seq<char> {
    let st = if reading_le(a, b) { a } else { b };
    let en = if reading_le(a, b) { b } else { a };
    if v.area_height == 0 {
        Seq::empty()
    } else {
        match (row_line_spec(v, st.1), row_line_spec(v, en.1)) {
            (Some(sl), Some(el)) => {
                if sl == el {
                    if sl < lines.len() {
                        let from = col_spec(v, st.0);
                        let c = col_spec(v, en.0);
                        let to = if c > from { c } else { from };
                        strip_gutter_spec(slice_spec(lines[sl], from, to + 1))
                    } else {
                        Seq::empty()
                    }
                } else {
                    span_text(lines, sl, el, col_spec(v, st.0), col_spec(v, en.0) + 1, (el - sl + 1) as nat)
                }
            },
            _ => Seq::empty(),
        }
    }
}

fn row_to_line(v: &ChatViewport, row: u16) -> (r: Option<usize>)
    requires
        v.wf(),
        v.area_height > 0,
    ensures
        match row_line_spec(*v, row) {
            Some(l) => r == Some(l as usize),
            None => r is None,
        },
{
    if row < v.area_y + 1 {
        return None;
    }
    let row_in_chat: u16 = row - (v.area_y + 1);
    if row_in_chat >= v.area_height - 1 {
        return None;
    }
    Some(v.render_scroll + row_in_chat as usize)
}

fn col_in_line(v: &ChatViewport, col: u16) -> (r: usize)
    requires
        v.wf(),
    ensures
        r == col_spec(*v, col),
{
    if col >= v.area_x + 1 {
        (col - (v.area_x + 1)) as usize
    } else {
        0
    }
}

fn slice_line(line: &[char], from: usize, to: usize) -> (out: Vec<char>)
    ensures
        out@ == slice_spec(line@, from as int, to as int),
{
    let f = if from < line.len() { from } else { line.len() };
    let t = if to < line.len() { to } else { line.len() };
    let mut out: Vec<char> = Vec::new();
    if f >= t {
        return out;
    }
    let mut j: usize = f;
    while j < t
        invariant
            f <= j <= t <= line@.len(),
            out@ == line@.subrange(f as int, j as int),
        decreases t - j,
    {
        out.push(line[j]);
        assert(line@.subrange(f as int, j as int + 1) =~= line@.subrange(f as int, j as int).push(line@[j as int]));
        j += 1;
    }
    out
}

proof fn lemma_drop_digits_skip(s: Seq<char>, i: int)
    requires
        0 <= i < s.len(),
        is_digit(s[i]),
    ensures
        drop_digits(s.skip(i)) == drop_digits(s.skip(i + 1)),
{
    assert(s.skip(i).drop_first() =~= s.skip(i + 1));
}

/// Whether `v` from position `at` begins with `p`.
fn starts_with_at(v: &[char], at: usize, p: &[char]) -> (b: bool)
    requires
        at <= v@.len(),
    ensures
        b == starts_with(v@.skip(at as int), p@),
{
    if p.len() > v.len() - at {
        return false;
    }
    let end: usize = at + p.len();
    let mut k: usize = 0;
    while k < p.len()
        invariant
            k <= p@.len(),
            end == at + p@.len(),
            end <= v@.len(),
            forall|m: int| 0 <= m < k ==> v@[at + m] == p@[m],
        decreases p@.len() - k,
    {
        if v[at + k] != p[k] {
            assert(v@.skip(at as int).take(p@.len() as int)[k as int] != p@[k as int]);
            return false;
        }
        k += 1;
    }
    assert(v@.skip(at as int).take(p@.len() as int) =~= p@);
    true
}

/// The chars of `t` from position `from` on.
fn skip_chars(t: &[char], from: usize) -> (out: Vec<char>)
    requires
        from <= t@.len(),
    ensures
        out@ == t@.skip(from as int),
{
    let mut out: Vec<char> = Vec::new();
    let mut j: usize = from;
    while j < t.len()
        invariant
            from <= j <= t@.len(),
            out@ == t@.subrange(from as int, j as int),
        decreases t@.len() - j,
    {
        out.push(t[j]);
        assert(t@.subrange(from as int, j as int + 1) =~= t@.subrange(from as int, j as int).push(t@[j as int]));
        j += 1;
    }
    out
}

/// Number of leading ASCII digits of `t`.
fn digit_run(t: &[char]) -> (i: usize)
    ensures
        i <= t@.len(),
        drop_digits(t@) == t@.skip(i as int),
{
    let mut i: usize = 0;
    assert(t@.skip(0) =~= t@);
    while i < t.len() && '0' <= t[i] && t[i] <= '9'
        invariant
            i <= t@.len(),
            drop_digits(t@.skip(i as int)) == drop_digits(t@),
        decreases t@.len() - i,
    {
        proof {
            lemma_drop_digits_skip(t@, i as int);
        }
        i += 1;
    }
    i
}

fn strip_gutter(s: &[char]) -> (out: Vec<char>)
    ensures
        out@ == strip_gutter_spec(s@),
{
    let t = trim_start_chars(s);
    if t.len() > 0 && '0' <= t[0] && t[0] <= '9' {
        let i = digit_run(&t);
        let sbs = vec![' ', '│', ' '];
        let bs = vec!['│', ' '];
        assert(sbs@ =~= space_bar_space());
        assert(bs@ =~= bar_space());
        if starts_with_at(&t, i, &sbs) {
            let out = skip_chars(&t, i + 3);
            assert(out@ =~= t@.skip(i as int).skip(3));
            out
        } else if starts_with_at(&t, i, &bs) {
            let out = skip_chars(&t, i + 2);
            assert(out@ =~= t@.skip(i as int).skip(2));
            out
        } else {
            t
        }
    } else {
        t
    }
}

/// The text drawn between screen cells `a` and `b` (each `(column, row)`,
/// in either order) of the chat area, taken from the lines as rendered:
/// padding and code-block gutters are stripped, and on a multi-line drag the
/// blank lines are left out and the rest joined by newlines.
pub fn extract_drag_selection(lines: &Vec<String>, v: &ChatViewport, a: (u16, u16), b: (u16, u16)) -> (out: String)
    requires
        v.wf(),
    ensures
        out@ == drag_text(lines_view(lines@), *v, a, b),
{
    let ghost lv = lines_view(lines@);
    let a_first = a.1 < b.1 || (a.1 == b.1 && a.0 <= b.0);
    let start = if a_first { a } else { b };
    let end = if a_first { b } else { a };
    if v.area_height == 0 {
        return String::new();
    }
    let start_line = match row_to_line(v, start.1) {
        Some(l) => l,
        None => {
            return String::new();
        },
    };
    let end_line = match row_to_line(v, end.1) {
        Some(l) => l,
        None => {
            return String::new();
        },
    };
    let from = col_in_line(v, start.0);
    if start_line == end_line {
        if start_line >= lines.len() {
            return String::new();
        }
        assert(lv[start_line as int] == lines@[start_line as int]@);
        let line = str_chars(lines[start_line].as_str());
        let c = col_in_line(v, end.0);
        let to = if c > from { c } else { from };
        let piece = slice_line(&line, from, to + 1);
        let cleaned = strip_gutter(&piece);
        return string_from_chars(&cleaned);
    }
    let to = col_in_line(v, end.0) + 1;
    let mut out: Vec<char> = Vec::new();
    let mut idx: usize = start_line;
    while idx <= end_line
        invariant
            start_line <= idx <= end_line + 1,
            end_line < usize::MAX,
            lv == lines_view(lines@),
            out@ == span_text(lv, start_line as int, end_line as int, from as int, to as int, (idx - start_line) as nat),
        decreases end_line + 1 - idx,
    {
        if idx < lines.len() {
            assert(lv[idx as int] == lines@[idx as int]@);
            let line = str_chars(lines[idx].as_str());
            let piece = if idx == start_line {
                let n = line.len();
                slice_line(&line, from, n)
            } else if idx == end_line {
                slice_line(&line, 0, to)
            } else {
                line
            };
            let cleaned = strip_gutter(&piece);
            let trimmed = trim_chars(&cleaned);
            if trimmed.len() > 0 {
                if out.len() > 0 {
                    out.push('\n');
                }
                push_chars(&mut out, &cleaned);
            }
        }
        idx += 1;
    }
    string_from_chars(&out)
}

/// The same text comes out whichever end of the drag is given first.
pub proof fn law_drag_text_symmetric(lines: Seq<Seq<char>>, v: ChatViewport, a: (u16, u16), b: (u16, u16))
    ensures
        drag_text(lines, v, a, b) == drag_text(lines, v, b, a),
{
    if reading_le(a, b) && reading_le(b, a) {
        assert(a == b);
    }
}

/// Message drawn on screen row `row`, through the render-time map from
/// rendered lines to messages (rows above the text count as its first row).
pub open spec fn row_msg_spec(v: ChatViewport, line_to_msg: Seq<Option<usize>>, row: u16) -> Option<usize> {
    let r = if row >= v.area_y + 1 { row - (v.area_y + 1) } else { 0 };
    let idx = v.render_scroll + r;
    if idx < line_to_msg.len() {
        line_to_msg[idx]
    } else {
        None
    }
}

/// Message shown on screen row `row`, if any.
pub fn row_to_msg_idx(v: &ChatViewport, line_to_msg: &Vec<Option<usize>>, row: u16) -> (r: Option<usize>)
    requires
        v.wf(),
    ensures
        r == row_msg_spec(*v, line_to_msg@, row),
{
    let row_in_chat: u16 = if row >= v.area_y + 1 { row - (v.area_y + 1) } else { 0 };
    let line_idx = v.render_scroll + row_in_chat as usize;
    if line_idx < line_to_msg.len() {
        line_to_msg[line_idx]
    } else {
        None
    }
}

/// Mouse state of the chat area: the cell where a drag began and the cell
/// it has reached, and the message highlighted by a click.
#[derive(Clone, Copy, Debug, PartialEq, Eq)]
pub struct MouseSelection {
    pub drag_anchor: Option<(u16, u16)>,
    pub drag_current: Option<(u16, u16)>,
    pub selected_message_idx: Option<usize>,
}

/// After a left click on message `msg_idx` (`None`: no message there): any
/// drag ends, and the highlight toggles (clicking the highlighted message
/// clears it, any other click highlights what was clicked).
pub open spec fn click_spec(m: MouseSelection, msg_idx: Option<usize>) -> MouseSelection {
    MouseSelection {
        drag_anchor: None,
        drag_current: None,
        selected_message_idx: if m.selected_message_idx == msg_idx { None } else { msg_idx },
    }
}

/// After the pointer moved to `p` with the left button held: the first such
/// event fixes the anchor and drops the highlight.
pub open spec fn drag_spec(m: MouseSelection, p: (u16, u16)) -> MouseSelection {
    if m.drag_anchor is None {
        MouseSelection { drag_anchor: Some(p), drag_current: Some(p), selected_message_idx: None }
    } else {
        MouseSelection { drag_current: Some(p), ..m }
    }
}

/// After the left button was released at `p` over message `msg_idx`, and
/// the dragged span (anchor, release cell) when there was a drag; without
/// one, the release is a click.
pub open spec fn release_spec(m: MouseSelection, p: (u16, u16), msg_idx: Option<usize>) -> (MouseSelection, Option<((u16, u16), (u16, u16))>) {
    match m.drag_anchor {
        Some(anchor) => (MouseSelection { drag_anchor: None, drag_current: None, ..m }, Some((anchor, p))),
        None => (click_spec(m, msg_idx), None),
    }
}

impl MouseSelection {
    /// Nothing dragged, nothing highlighted.
    pub fn new() -> (m: Self)
        ensures
            m.drag_anchor is None,
            m.drag_current is None,
            m.selected_message_idx is None,
    {
        MouseSelection { drag_anchor: None, drag_current: None, selected_message_idx: None }
    }

    /// Left click on message `msg_idx`.
    pub fn click_select(&mut self, msg_idx: Option<usize>)
        ensures
            *final(self) == click_spec(*old(self), msg_idx),
    {
        self.drag_anchor = None;
        self.drag_current = None;
        if self.selected_message_idx == msg_idx {
            self.selected_message_idx = None;
        } else {
            self.selected_message_idx = msg_idx;
        }
    }

    /// The pointer moved to `(col, row)` with the left button held.
    pub fn mouse_drag(&mut self, col: u16, row: u16)
        ensures
            *final(self) == drag_spec(*old(self), (col, row)),
    {
        if self.drag_anchor.is_none() {
            self.drag_anchor = Some((col, row));
            self.selected_message_idx = None;
        }
        self.drag_current = Some((col, row));
    }

    /// The left button was released at `(col, row)`, over message
    /// `msg_idx`; returns the dragged span whose text is to be copied.
    pub fn mouse_up(&mut self, col: u16, row: u16, msg_idx: Option<usize>) -> (span: Option<((u16, u16), (u16, u16))>)
        ensures
            (*final(self), span) == release_spec(*old(self), (col, row), msg_idx),
    {
        match self.drag_anchor {
            Some(anchor) => {
                self.drag_anchor = None;
                self.drag_current = None;
                Some((anchor, (col, row)))
            },
            None => {
                self.drag_current = None;
                self.click_select(msg_idx);
                None
            },
        }
    }
}

/// A drag runs from the cell of its first motion to the release cell,
/// however the pointer moved between, and no drag is left in flight.
pub proof fn law_drag_spans_first_motion_to_release(
    m: MouseSelection,
    first: (u16, u16),
    moves: Seq<(u16, u16)>,
    release: (u16, u16),
    msg_idx: Option<usize>,
)
    requires
        m.drag_anchor is None,
    ensures
        ({
            let dragged = moves.fold_left(drag_spec(m, first), |acc: MouseSelection, p: (u16, u16)| drag_spec(acc, p));
            let (after, span) = release_spec(dragged, release, msg_idx);
            span == Some((first, release)) && after.drag_anchor is None && after.drag_current is None
        }),
{
    lemma_drags_keep_anchor(drag_spec(m, first), moves);
}

proof fn lemma_drags_keep_anchor(m: MouseSelection, moves: Seq<(u16, u16)>)
    requires
        m.drag_anchor is Some,
    ensures
        moves.fold_left(m, |acc: MouseSelection, p: (u16, u16)| drag_spec(acc, p)).drag_anchor == m.drag_anchor,
    decreases moves.len(),
{
    if moves.len() > 0 {
        lemma_drags_keep_anchor(m, moves.drop_last());
    }
}

/// A click on a message and a second click on it leave the highlight where
/// it was, as long as that was either nothing or that message.
pub proof fn law_click_twice_restores(m: MouseSelection, msg_idx: Option<usize>)
    requires
        m.selected_message_idx is None || m.selected_message_idx == msg_idx,
        msg_idx is Some,
    ensures
        click_spec(click_spec(m, msg_idx), msg_idx).selected_message_idx == m.selected_message_idx,
{
}

/// Message whose text a right click on message `clicked` copies: the
/// clicked one, else the highlighted one, provided it exists and its text
/// is not blank.
pub fn copy_target(clicked: Option<usize>, selected: Option<usize>, contents: &Vec<String>) -> (r: Option<usize>)
    ensures
        ({
            let t = if clicked is Some { clicked } else { selected };
            match t {
                Some(i) => if i < contents@.len() && !is_blank(contents@[i as int]@) { r == Some(i) } else { r is None },
                None => r is None,
            }
        }),
{
    let target = if clicked.is_some() { clicked } else { selected };
    match target {
        Some(i) => {
            if i < contents.len() {
                let chars = str_chars(contents[i].as_str());
                let t = trim_chars(&chars);
                if t.len() > 0 {
                    return Some(i);
                }
            }
            None
        },
        None => None,
    }
}

/// Whether a drag or release at screen row `row` belongs to the input box
/// (rows `input_y` to `input_y + input_height`, or any row while a text
/// selection in the input is under way) rather than to the chat.
pub fn in_input_area(input_drag_selecting: bool, row: u16, input_y: u16, input_height: u16) -> (b: bool)
    ensures
        b == (input_drag_selecting || (input_y <= row && row < input_y + input_height)),
{
    input_drag_selecting || (row >= input_y && (row as u32) < input_y as u32 + input_height as u32)
}

} // verus!
