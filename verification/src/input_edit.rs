//! Editing helpers for the chat input buffer: cursor/line arithmetic over the
//! UTF-8 bytes of the buffer and detection of stray mouse-report fragments.

use vstd::prelude::*;
use vstd::string::StringSliceAdditionalSpecFns;
use vstd::utf8::*;
use crate::text::{
    char_utf8_len, encode_chars, lemma_encode_utf8_concat, lemma_encode_utf8_take_push, str_chars,
    string_from_chars, sub_chars, trim_chars, trim_ws,
};
use crate::paste_cleanup::{strip_escapes_from, strip_terminal_escapes, EscapeScan};
use crate::unicode::{
    char_display_width, char_is_whitespace, str_display_width, unicode_char_width, unicode_str_width,
    is_whitespace_char,
};

verus! {

/// The greatest character boundary at or below `i` (0 when `i <= 0`).
pub open spec fn snap_to_boundary(b: Seq<u8>, i: int) -> int
    decreases i,
{
    if i <= 0 {
        0
    } else if is_char_boundary(b, i) {
        i
    } else {
        snap_to_boundary(b, i - 1)
    }
}

/// Where the inspected tail before the cursor begins: thirty bytes back,
/// snapped down to a character boundary.
pub open spec fn tail_start(b: Seq<u8>, cursor: int) -> int {
    snap_to_boundary(b, if cursor >= 30 { cursor - 30 } else { 0 })
}

/// Start of the last `[<` pair that lies wholly inside `t[..=i+1]`, looking
/// from index `i` downwards.
pub open spec fn rfind_csi_from(t: Seq<u8>, i: int) -> Option<int>
    decreases i + 1,
{
    if i < 0 {
        None
    } else if i + 1 < t.len() && t[i] == 91u8 && t[i + 1] == 60u8 {
        Some(i)
    } else {
        rfind_csi_from(t, i - 1)
    }
}

/// Start of the last `[<` in `t`.
pub open spec fn rfind_csi(t: Seq<u8>) -> Option<int> {
    rfind_csi_from(t, t.len() - 1)
}

/// Bytes that occur in the body of an SGR mouse report: digits, `;`, `M`, `m`.
pub open spec fn is_sgr_byte(x: u8) -> bool {
    (48u8 <= x && x <= 57u8) || x == 59u8 || x == 77u8 || x == 109u8
}

/// Every byte of `t` from `from` on is an SGR body byte.
pub open spec fn all_sgr_from(t: Seq<u8>, from: int) -> bool {
    forall|j: int| from <= j < t.len() ==> #[trigger] is_sgr_byte(t[j])
}

/// Characters that can belong to an SGR mouse report at all.
pub open spec fn is_mouse_char(c: char) -> bool {
    c == '[' || c == '<' || c == '>' || c == 'M' || c == 'm' || c == ';' || ('0' <= c && c <= '9')
}

/// Whether `c`, typed with the tail `t` before the cursor, continues a mouse
/// report that the terminal library failed to parse.
pub open spec fn mouse_fragment_spec(c: char, t: Seq<u8>) -> bool {
    if !is_mouse_char(c) {
        false
    } else if (match rfind_csi(t) {
        Some(p) => all_sgr_from(t, p + 2),
        None => false,
    }) {
        true
    } else if t.len() > 0 && t.last() == 91u8 && (c == '<' || ('A' <= c && c <= 'Z') || ('a' <= c
        && c <= 'z')) {
        true
    } else if (t.len() >= 2 && t[t.len() - 2] == 91u8 && t.last() == 60u8) || (t.len() > 0 && ((
    48u8 <= t.last() && t.last() <= 57u8) || t.last() == 59u8) && rfind_csi(t) is Some) {
        ('0' <= c && c <= '9') || c == ';' || c == 'M' || c == 'm'
    } else {
        false
    }
}

proof fn lemma_snap(b: Seq<u8>, i: int)
    requires
        i <= b.len(),
    ensures
        0 <= snap_to_boundary(b, i),
        i >= 0 ==> snap_to_boundary(b, i) <= i,
    decreases i,
{
    if i > 0 && !is_char_boundary(b, i) {
        lemma_snap(b, i - 1);
    }
}

/// Whether the character `c` about to be inserted at byte offset `cursor` of
/// `buf` looks like part of an SGR mouse report (`ESC [ < 35 ; 116 ; 77 M`)
/// whose escape byte was already consumed. Only the last thirty bytes before
/// the cursor (snapped to a character boundary) are inspected.
pub fn is_mouse_sequence_fragment(c: char, buf: &str, cursor: usize) -> (r: bool)
    requires
        cursor <= buf.spec_bytes().len(),
        is_char_boundary(buf.spec_bytes(), cursor as int),
    ensures
        r == mouse_fragment_spec(
            c,
            buf.spec_bytes().subrange(tail_start(buf.spec_bytes(), cursor as int), cursor as int),
        ),
{
    let code = c as u32;
    let digit = 48u32 <= code && code <= 57u32;
    if !(c == '[' || c == '<' || c == '>' || c == 'M' || c == 'm' || c == ';' || digit) {
        return false;
    }
    let bytes = buf.as_bytes();
    let ghost b = bytes@;
    let mut ts: usize = if cursor >= 30 { cursor - 30 } else { 0 };
    proof {
        lemma_snap(b, ts as int);
    }
    while ts > 0 && !buf.is_char_boundary(ts)
        invariant
            b == bytes@,
            b == buf.spec_bytes(),
            cursor <= b.len(),
            ts <= cursor,
            snap_to_boundary(b, ts as int) == tail_start(b, cursor as int),
        decreases ts,
    {
        ts -= 1;
    }
    let ghost t = b.subrange(ts as int, cursor as int);
    // Last `[<` in the tail.
    let mut found: Option<usize> = None;
    let mut i: usize = cursor;
    while i > ts
        invariant
            b == bytes@,
            ts <= i <= cursor <= b.len(),
            t == b.subrange(ts as int, cursor as int),
            rfind_csi(t) == (match found {
                Some(p) => Some(p - ts),
                None => rfind_csi_from(t, i - ts - 1),
            }),
            found is Some ==> i == ts,
            found matches Some(p) ==> ts <= p && p + 2 <= cursor,
        decreases i,
    {
        let j = i - 1;
        if j + 1 < cursor && bytes[j] == 91u8 && bytes[j + 1] == 60u8 {
            found = Some(j);
            i = ts;
        } else {
            i = j;
        }
    }
    if let Some(p) = found {
        let mut k: usize = p + 2;
        let mut all = true;
        while k < cursor
            invariant
                b == bytes@,
                ts <= p,
                p + 2 <= k <= cursor,
                cursor <= b.len(),
                t == b.subrange(ts as int, cursor as int),
                all == (forall|j: int| p + 2 <= j < k ==> #[trigger] is_sgr_byte(b[j])),
            decreases cursor - k,
        {
            let x = bytes[k];
            let ok = (48u8 <= x && x <= 57u8) || x == 59u8 || x == 77u8 || x == 109u8;
            assert(ok == is_sgr_byte(b[k as int]));
            if !ok {
                all = false;
            }
            k += 1;
        }
        assert(all == all_sgr_from(t, p - ts + 2)) by {
            if all {
                assert forall|j: int| p - ts + 2 <= j < t.len() implies #[trigger] is_sgr_byte(
                    t[j],
                ) by {
                    assert(is_sgr_byte(b[j + ts]));
                }
            } else {
                let j = choose|j: int| p + 2 <= j < k && !#[trigger] is_sgr_byte(b[j]);
                assert(t[j - ts] == b[j]);
            }
        }
        if all {
            return true;
        }
    }
    let len = cursor - ts;
    if len > 0 && bytes[cursor - 1] == 91u8 {
        if c == '<' || (65u32 <= code && code <= 90u32) || (97u32 <= code && code <= 122u32) {
            return true;
        }
    }
    let last_is_digit_or_semi = len > 0 && ((48u8 <= bytes[cursor - 1] && bytes[cursor - 1]
        <= 57u8) || bytes[cursor - 1] == 59u8);
    if (len >= 2 && bytes[cursor - 2] == 91u8 && bytes[cursor - 1] == 60u8) || (
    last_is_digit_or_semi && found.is_some()) {
        return digit || c == ';' || c == 'M' || c == 'm';
    }
    false
}

/// Offset just past the last `\n` among the first `i` bytes of `b`.
pub open spec fn line_start_before(b: Seq<u8>, i: int) -> int
    decreases i,
{
    if i <= 0 {
        0
    } else if b[i - 1] == 10u8 {
        i
    } else {
        line_start_before(b, i - 1)
    }
}

proof fn lemma_line_start(b: Seq<u8>, i: int)
    requires
        0 <= i,
    ensures
        0 <= line_start_before(b, i) <= i,
    decreases i,
{
    if i > 0 && b[i - 1] != 10u8 {
        lemma_line_start(b, i - 1);
    }
}

/// The byte offset where the cursor's logical line starts (just after the
/// previous `\n`, or 0) and the cursor's byte column within that line.
pub fn cursor_line_position(buf: &str, cursor: usize) -> (r: (usize, usize))
    requires
        cursor <= buf.spec_bytes().len(),
        is_char_boundary(buf.spec_bytes(), cursor as int),
    ensures
        r.0 == line_start_before(buf.spec_bytes(), cursor as int),
        r.0 + r.1 == cursor,
{
    let bytes = buf.as_bytes();
    let mut i: usize = cursor;
    proof {
        lemma_line_start(bytes@, cursor as int);
    }
    while i > 0 && bytes[i - 1] != 10u8
        invariant
            bytes@ == buf.spec_bytes(),
            i <= cursor <= bytes@.len(),
            line_start_before(bytes@, i as int) == line_start_before(bytes@, cursor as int),
        decreases i,
    {
        i -= 1;
    }
    (i, cursor - i)
}

/// Columns a char occupies for cursor placement: its display width, with
/// control characters counted as zero.
pub open spec fn char_cols(c: char) -> nat {
    match unicode_char_width(c) {
        Some(w) => w as nat,
        None => 0,
    }
}

/// Columns taken by the first `k` chars of `s`.
pub open spec fn cols_prefix(s: Seq<char>, k: int) -> nat
    decreases k,
{
    if k <= 0 || k > s.len() {
        0
    } else {
        cols_prefix(s, k - 1) + char_cols(s[k - 1])
    }
}

/// Index of the first char, from `i` on, before which at least `target`
/// columns lie; `s.len()` when there is none.
pub open spec fn col_index_from(s: Seq<char>, target: nat, i: int) -> int
    decreases s.len() - i,
{
    if i >= s.len() {
        s.len() as int
    } else if cols_prefix(s, i) >= target {
        i
    } else {
        col_index_from(s, target, i + 1)
    }
}

/// Byte offset in `s` where the running display width first reaches `target`.
pub open spec fn byte_offset_at_col_spec(s: Seq<char>, target: nat) -> int {
    encode_utf8(s.take(col_index_from(s, target, 0))).len() as int
}

/// The byte offset in `text` at which the cumulative display width of the
/// chars before it first reaches `target_col`; the text's length when the
/// whole text is narrower.
pub fn byte_offset_at_display_col(text: &str, target_col: usize) -> (r: usize)
    ensures
        r == byte_offset_at_col_spec(text@, target_col as nat),
{
    let chars = str_chars(text);
    let total = text.as_bytes().len();
    let ghost s = text@;
    proof {
        assert(s.take(s.len() as int) =~= s);
    }
    let mut width: usize = 0;
    let mut idx: usize = 0;
    let mut i: usize = 0;
    while i < chars.len()
        invariant
            chars@ == s,
            s == text@,
            total == encode_utf8(s).len(),
            i <= s.len(),
            idx == encode_utf8(s.take(i as int)).len(),
            width as nat == if cols_prefix(s, i as int) > usize::MAX {
                usize::MAX as nat
            } else {
                cols_prefix(s, i as int)
            },
            col_index_from(s, target_col as nat, 0) == col_index_from(
                s,
                target_col as nat,
                i as int,
            ),
        decreases s.len() - i,
    {
        if width >= target_col {
            return idx;
        }
        let c = chars[i];
        let w = match char_display_width(c) {
            Some(w) => w,
            None => 0,
        };
        proof {
            lemma_encode_utf8_take_push(s, i as int);
            lemma_encode_utf8_concat(s.take(i as int + 1), s.skip(i as int + 1));
            assert(s.take(i as int + 1) + s.skip(i as int + 1) =~= s);
        }
        width = width.saturating_add(w);
        idx = idx + char_utf8_len(c);
        i += 1;
    }
    total
}

/// Bytes taken by the first `k` chars of `s`.
pub open spec fn byte_len_of(s: Seq<char>, k: int) -> nat {
    encode_utf8(s.take(k)).len()
}

/// `cursor` is the byte offset of a char boundary of `s`.
pub open spec fn is_char_offset(s: Seq<char>, cursor: int) -> bool {
    exists|k: int| 0 <= k <= s.len() && byte_len_of(s, k) == cursor
}

/// The number of chars before byte offset `cursor`.
pub open spec fn char_index_of(s: Seq<char>, cursor: int) -> int {
    choose|k: int| 0 <= k <= s.len() && byte_len_of(s, k) == cursor
}

/// Prefix byte lengths grow strictly with the number of chars.
pub proof fn lemma_byte_len_strict(s: Seq<char>, i: int, j: int)
    requires
        0 <= i < j <= s.len(),
    ensures
        byte_len_of(s, i) < byte_len_of(s, j),
    decreases j - i,
{
    lemma_encode_utf8_take_push(s, j - 1);
    if i < j - 1 {
        lemma_byte_len_strict(s, i, j - 1);
    }
}

/// A prefix is never longer in bytes than the whole text.
pub proof fn lemma_byte_len_le(s: Seq<char>, k: int)
    requires
        0 <= k <= s.len(),
    ensures
        byte_len_of(s, k) <= encode_utf8(s).len(),
{
    lemma_encode_utf8_concat(s.take(k), s.skip(k));
    assert(s.take(k) + s.skip(k) =~= s);
}

/// A char boundary of the UTF-8 bytes of `s` is the byte length of some
/// prefix of `s`.
pub proof fn lemma_boundary_char_offset(s: Seq<char>, c: int)
    requires
        is_char_boundary(encode_utf8(s), c),
    ensures
        is_char_offset(s, c),
    decreases s.len(),
{
    broadcast use encode_utf8_valid_utf8;

    let b = encode_utf8(s);
    if c == 0 {
        assert(s.take(0) =~= Seq::<char>::empty());
        assert(byte_len_of(s, 0) == 0);
    } else if s.len() == 0 {
        assert(b.len() == 0);
    } else {
        encode_utf8_first_scalar(s);
        let t = s.drop_first();
        let l = encode_scalar(s[0] as u32).len() as int;
        assert(pop_first_scalar(b) =~= encode_utf8(t));
        assert(is_char_boundary(encode_utf8(t), c - l));
        lemma_boundary_char_offset(t, c - l);
        let k2 = choose|k: int| 0 <= k <= t.len() && byte_len_of(t, k) == c - l;
        assert(s.take(k2 + 1).drop_first() =~= t.take(k2));
        assert(s.take(k2 + 1)[0] == s[0]);
        assert(byte_len_of(s, k2 + 1) == c);
    }
}

/// The byte length of a prefix of `s` is a char boundary of its UTF-8 bytes.
pub proof fn lemma_char_offset_boundary(s: Seq<char>, k: int)
    requires
        0 <= k <= s.len(),
    ensures
        is_char_boundary(encode_utf8(s), byte_len_of(s, k) as int),
    decreases k,
{
    broadcast use encode_utf8_valid_utf8;

    if k == 0 {
        assert(s.take(0) =~= Seq::<char>::empty());
    } else {
        let b = encode_utf8(s);
        let t = s.drop_first();
        encode_utf8_first_scalar(s);
        let l = encode_scalar(s[0] as u32).len() as int;
        assert(pop_first_scalar(b) =~= encode_utf8(t));
        assert(s.take(k)[0] == s[0]);
        assert(s.take(k).drop_first() =~= t.take(k - 1));
        assert(byte_len_of(s, k) == l + byte_len_of(t, k - 1));
        lemma_byte_len_le(s, k);
        lemma_char_offset_boundary(t, k - 1);
    }
}

/// The char index of a byte offset is the only index with that offset.
pub proof fn lemma_char_index_unique(s: Seq<char>, cursor: int, k: int)
    requires
        0 <= k <= s.len(),
        byte_len_of(s, k) == cursor,
    ensures
        char_index_of(s, cursor) == k,
{
    let c = char_index_of(s, cursor);
    if c < k {
        lemma_byte_len_strict(s, c, k);
    } else if k < c {
        lemma_byte_len_strict(s, k, c);
    }
}

/// The char index of byte offset `cursor`.
pub(crate) fn char_index_at_byte(chars: &[char], cursor: usize) -> (k: usize)
    requires
        is_char_offset(chars@, cursor as int),
    ensures
        k == char_index_of(chars@, cursor as int),
        k <= chars@.len(),
        byte_len_of(chars@, k as int) == cursor,
{
    let ghost s = chars@;
    let ghost target = char_index_of(s, cursor as int);
    proof {
        lemma_char_index_unique(s, cursor as int, target);
    }
    let mut i: usize = 0;
    let mut idx: usize = 0;
    while idx < cursor
        invariant
            s == chars@,
            0 <= target <= s.len(),
            byte_len_of(s, target) == cursor,
            i <= target,
            idx == byte_len_of(s, i as int),
        decreases target - i,
    {
        assert(i < target);
        proof {
            lemma_encode_utf8_take_push(s, i as int);
            if i + 1 < target {
                lemma_byte_len_strict(s, i + 1, target);
            }
        }
        idx = idx + char_utf8_len(chars[i]);
        i += 1;
    }
    proof {
        if i < target {
            lemma_byte_len_strict(s, i as int, target);
        }
    }
    i
}

/// Byte length of the first `n` chars, given the byte length of them all.
pub(crate) fn prefix_byte_len(chars: &[char], n: usize, total: usize) -> (r: usize)
    requires
        n <= chars@.len(),
        total == encode_utf8(chars@).len(),
    ensures
        r == byte_len_of(chars@, n as int),
{
    let ghost s = chars@;
    let mut off: usize = 0;
    let mut j: usize = 0;
    proof {
        lemma_byte_len_le(s, n as int);
    }
    while j < n
        invariant
            s == chars@,
            j <= n <= s.len(),
            byte_len_of(s, n as int) <= total,
            off == byte_len_of(s, j as int),
        decreases n - j,
    {
        proof {
            lemma_encode_utf8_take_push(s, j as int);
            if j + 1 < n {
                lemma_byte_len_strict(s, j + 1, n as int);
            }
        }
        off = off + char_utf8_len(chars[j]);
        j += 1;
    }
    off
}

/// End of `s[..k]` once trailing whitespace is trimmed.
pub open spec fn trim_end_index(s: Seq<char>, k: int) -> int
    decreases k,
{
    if k <= 0 {
        0
    } else if is_whitespace_char(s[k - 1]) {
        trim_end_index(s, k - 1)
    } else {
        k
    }
}

/// Start of the word ending at `t`: just after the last whitespace char
/// before `t`, or 0.
pub open spec fn word_start_index(s: Seq<char>, t: int) -> int
    decreases t,
{
    if t <= 0 {
        0
    } else if is_whitespace_char(s[t - 1]) {
        t
    } else {
        word_start_index(s, t - 1)
    }
}

proof fn lemma_trim_end_index(s: Seq<char>, k: int)
    requires
        0 <= k <= s.len(),
    ensures
        0 <= trim_end_index(s, k) <= k,
    decreases k,
{
    if k > 0 && is_whitespace_char(s[k - 1]) {
        lemma_trim_end_index(s, k - 1);
    }
}

proof fn lemma_word_start_index(s: Seq<char>, t: int)
    requires
        0 <= t <= s.len(),
    ensures
        0 <= word_start_index(s, t) <= t,
    decreases t,
{
    if t > 0 && !is_whitespace_char(s[t - 1]) {
        lemma_word_start_index(s, t - 1);
    }
}

/// Char index where the word before char index `k` starts: trailing
/// whitespace before `k` is skipped, then the word runs back to the previous
/// whitespace.
pub open spec fn delete_word_start(s: Seq<char>, k: int) -> int {
    word_start_index(s, trim_end_index(s, k))
}

/// Deletes the word before the cursor (Ctrl/Alt+Backspace): the whitespace
/// just before the cursor and the word before that go, up to the previous
/// whitespace char or the start of the buffer. Returns the new buffer and
/// cursor; a cursor at 0 leaves both unchanged.
pub fn delete_last_word(buf: &str, cursor: usize) -> (r: (String, usize))
    requires
        is_char_boundary(buf.spec_bytes(), cursor as int),
    ensures
        cursor == 0 ==> r.0@ == buf@ && r.1 == 0,
        cursor > 0 ==> ({
            let k = char_index_of(buf@, cursor as int);
            let w = delete_word_start(buf@, k);
            &&& r.0@ == buf@.take(w) + buf@.skip(k)
            &&& r.1 == byte_len_of(buf@, w)
        }),
{
    let chars = str_chars(buf);
    let ghost s = chars@;
    proof {
        lemma_boundary_char_offset(s, cursor as int);
    }
    if cursor == 0 {
        return (string_from_chars(chars.as_slice()), 0);
    }
    let k = char_index_at_byte(chars.as_slice(), cursor);
    let mut t: usize = k;
    proof {
        lemma_trim_end_index(s, k as int);
    }
    while t > 0 && char_is_whitespace(chars[t - 1])
        invariant
            s == chars@,
            t <= k <= s.len(),
            trim_end_index(s, t as int) == trim_end_index(s, k as int),
        decreases t,
    {
        t -= 1;
    }
    let mut w: usize = t;
    proof {
        lemma_word_start_index(s, t as int);
    }
    while w > 0 && !char_is_whitespace(chars[w - 1])
        invariant
            s == chars@,
            w <= t <= s.len(),
            word_start_index(s, w as int) == word_start_index(s, t as int),
        decreases w,
    {
        w -= 1;
    }
    let mut out = sub_chars(chars.as_slice(), 0, w);
    let mut rest = sub_chars(chars.as_slice(), k, chars.len());
    out.append(&mut rest);
    let total = buf.as_bytes().len();
    let off = prefix_byte_len(chars.as_slice(), w, total);
    assert(out@ =~= s.take(w as int) + s.skip(k as int));
    (string_from_chars(out.as_slice()), off)
}

/// Char index where the logical line holding char index `k` starts: just
/// after the last `\n` before `k`, or 0.
pub open spec fn line_start_index(s: Seq<char>, k: int) -> int
    decreases k,
{
    if k <= 0 {
        0
    } else if s[k - 1] == '\n' {
        k
    } else {
        line_start_index(s, k - 1)
    }
}

/// Char index of the first `\n` at or after `i`, or the length of `s`.
pub open spec fn line_end_index(s: Seq<char>, i: int) -> int
    decreases s.len() - i,
{
    if i >= s.len() {
        s.len() as int
    } else if s[i] == '\n' {
        i
    } else {
        line_end_index(s, i + 1)
    }
}

proof fn lemma_line_bounds(s: Seq<char>, k: int, i: int)
    requires
        0 <= k <= s.len(),
        0 <= i <= s.len(),
    ensures
        0 <= line_start_index(s, k) <= k,
        i <= line_end_index(s, i) <= s.len(),
    decreases s.len() - i,
{
    lemma_line_start_index(s, k);
    if i < s.len() && s[i] != '\n' {
        lemma_line_bounds(s, k, i + 1);
    }
}

proof fn lemma_line_start_index(s: Seq<char>, k: int)
    requires
        0 <= k <= s.len(),
    ensures
        0 <= line_start_index(s, k) <= k,
    decreases k,
{
    if k > 0 && s[k - 1] != '\n' {
        lemma_line_start_index(s, k - 1);
    }
}

/// Text columns per visual row of the input box: the terminal width less
/// the two border columns and the two-column prompt, at least ten.
pub open spec fn visual_width_spec(term_width: int) -> int {
    let w = if term_width >= 4 {
        term_width - 4
    } else {
        0
    };
    if w >= 10 {
        w
    } else {
        10
    }
}

/// Text columns per visual row of the input box for a terminal
/// `term_width` columns wide.
pub fn input_visual_line_width(term_width: usize) -> (r: usize)
    ensures
        r == visual_width_spec(term_width as int),
        r >= 10,
{
    let w = term_width.saturating_sub(4);
    if w >= 10 {
        w
    } else {
        10
    }
}

/// The cursor's logical line: char index of its start and end, and the
/// display width of the part before the cursor.
pub open spec fn cursor_line(s: Seq<char>, cursor: int) -> (int, int, int) {
    let k = char_index_of(s, cursor);
    let ls = line_start_index(s, k);
    (ls, line_end_index(s, ls), unicode_str_width(s.subrange(ls, k)) as int)
}

/// Where moving the cursor one visual row up lands, as a byte offset; `None`
/// when the cursor is already on the first visual row of its logical line.
pub open spec fn visual_up_spec(s: Seq<char>, cursor: int, term_width: int) -> Option<int> {
    let (ls, le, dc) = cursor_line(s, cursor);
    let vw = visual_width_spec(term_width);
    let row = dc / vw;
    if row == 0 {
        None
    } else {
        Some(
            byte_len_of(s, ls) + byte_offset_at_col_spec(
                s.subrange(ls, le),
                ((row - 1) * vw + dc % vw) as nat,
            ),
        )
    }
}

/// Where moving the cursor one visual row down lands, as a byte offset;
/// `None` when the cursor is already on the last visual row of its logical
/// line.
pub open spec fn visual_down_spec(s: Seq<char>, cursor: int, term_width: int) -> Option<int> {
    let (ls, le, dc) = cursor_line(s, cursor);
    let vw = visual_width_spec(term_width);
    let total = unicode_str_width(s.subrange(ls, le)) as int;
    let row = dc / vw;
    let max_row = if total == 0 {
        0
    } else {
        (total - 1) / vw
    };
    if row >= max_row {
        None
    } else {
        let t = (row + 1) * vw + dc % vw;
        Some(
            byte_len_of(s, ls) + byte_offset_at_col_spec(
                s.subrange(ls, le),
                (if t <= total {
                    t
                } else {
                    total
                }) as nat,
            ),
        )
    }
}

proof fn lemma_col_index_le(s: Seq<char>, target: nat, i: int)
    requires
        0 <= i <= s.len(),
    ensures
        i <= col_index_from(s, target, i) <= s.len(),
    decreases s.len() - i,
{
    if i < s.len() && cols_prefix(s, i) < target {
        lemma_col_index_le(s, target, i + 1);
    }
}

/// Bytes before the line start plus an offset inside the line stay within
/// the text.
proof fn lemma_line_offset_fits(s: Seq<char>, ls: int, le: int, target: nat)
    requires
        0 <= ls <= le <= s.len(),
    ensures
        byte_len_of(s, ls) + byte_offset_at_col_spec(s.subrange(ls, le), target) <= encode_utf8(
            s,
        ).len(),
{
    let line = s.subrange(ls, le);
    lemma_col_index_le(line, target, 0);
    lemma_byte_len_le(line, col_index_from(line, target, 0));
    lemma_encode_utf8_concat(s.take(ls), line);
    assert(s.take(ls) + line =~= s.take(le));
    lemma_byte_len_le(s, le);
}

/// Char indices of the logical line around char index `k`.
fn line_bounds(chars: &[char], k: usize) -> (r: (usize, usize))
    requires
        k <= chars@.len(),
    ensures
        r.0 == line_start_index(chars@, k as int),
        r.1 == line_end_index(chars@, r.0 as int),
        r.0 <= k <= r.1 <= chars@.len(),
{
    let ghost s = chars@;
    let mut ls: usize = k;
    proof {
        lemma_line_start_index(s, k as int);
    }
    while ls > 0 && chars[ls - 1] != '\n'
        invariant
            s == chars@,
            ls <= k <= s.len(),
            line_start_index(s, ls as int) == line_start_index(s, k as int),
            forall|j: int| ls <= j < k ==> s[j] != '\n',
        decreases ls,
    {
        ls -= 1;
    }
    let mut le: usize = ls;
    while le < chars.len() && chars[le] != '\n'
        invariant
            s == chars@,
            ls <= le <= s.len(),
            ls <= k <= s.len(),
            line_end_index(s, le as int) == line_end_index(s, ls as int),
            forall|j: int| ls <= j < k ==> s[j] != '\n',
            le < k ==> forall|j: int| ls <= j < le ==> s[j] != '\n',
        decreases s.len() - le,
    {
        le += 1;
    }
    if le < k {
        assert(s[le as int] != '\n');
        assert(false);
    }
    (ls, le)
}

/// Moves the cursor one visual row up within its soft-wrapped logical line,
/// keeping its column. Returns the new byte offset of the cursor, or `None`
/// when it is already on the line's first visual row. `term_width` is the
/// terminal's width in columns.
pub fn cursor_visual_up(buf: &str, cursor: usize, term_width: usize) -> (r: Option<usize>)
    requires
        is_char_boundary(buf.spec_bytes(), cursor as int),
    ensures
        r matches Some(n) ==> visual_up_spec(buf@, cursor as int, term_width as int) == Some(
            n as int,
        ),
        r is None ==> visual_up_spec(buf@, cursor as int, term_width as int) is None,
{
    let chars = str_chars(buf);
    let ghost s = chars@;
    proof {
        lemma_boundary_char_offset(s, cursor as int);
    }
    let total_bytes = buf.as_bytes().len();
    let k = char_index_at_byte(chars.as_slice(), cursor);
    let (ls, le) = line_bounds(chars.as_slice(), k);
    let before = string_from_chars(sub_chars(chars.as_slice(), ls, k).as_slice());
    let dc = str_display_width(before.as_str());
    let vw = input_visual_line_width(term_width);
    let row = dc / vw;
    if row == 0 {
        return None;
    }
    let rem = dc % vw;
    proof {
        assert(dc == vw * row + rem && rem < vw) by (nonlinear_arith)
            requires
                vw > 0,
                row == dc / vw,
                rem == dc % vw,
        ;
        assert((row - 1) * vw + rem <= dc) by (nonlinear_arith)
            requires
                dc == vw * row + rem,
                row >= 1,
        ;
    }
    let target = (row - 1) * vw + rem;
    let line = string_from_chars(sub_chars(chars.as_slice(), ls, le).as_slice());
    let off = byte_offset_at_display_col(line.as_str(), target);
    let start = prefix_byte_len(chars.as_slice(), ls, total_bytes);
    proof {
        lemma_line_offset_fits(s, ls as int, le as int, target as nat);
    }
    Some(start + off)
}

/// Moves the cursor one visual row down within its soft-wrapped logical
/// line, keeping its column where the next row is long enough and otherwise
/// going to the line's end. Returns the new byte offset of the cursor, or
/// `None` when it is already on the line's last visual row.
pub fn cursor_visual_down(buf: &str, cursor: usize, term_width: usize) -> (r: Option<usize>)
    requires
        is_char_boundary(buf.spec_bytes(), cursor as int),
    ensures
        r matches Some(n) ==> visual_down_spec(buf@, cursor as int, term_width as int) == Some(
            n as int,
        ),
        r is None ==> visual_down_spec(buf@, cursor as int, term_width as int) is None,
{
    let chars = str_chars(buf);
    let ghost s = chars@;
    proof {
        lemma_boundary_char_offset(s, cursor as int);
    }
    let total_bytes = buf.as_bytes().len();
    let k = char_index_at_byte(chars.as_slice(), cursor);
    let (ls, le) = line_bounds(chars.as_slice(), k);
    let before = string_from_chars(sub_chars(chars.as_slice(), ls, k).as_slice());
    let dc = str_display_width(before.as_str());
    let vw = input_visual_line_width(term_width);
    let line = string_from_chars(sub_chars(chars.as_slice(), ls, le).as_slice());
    let total = str_display_width(line.as_str());
    let row = dc / vw;
    let max_row = if total == 0 {
        0
    } else {
        (total - 1) / vw
    };
    if row >= max_row {
        return None;
    }
    let rem = dc % vw;
    proof {
        assert(rem < vw) by (nonlinear_arith)
            requires
                vw > 0,
                rem == dc % vw,
        ;
        assert((row + 1) * vw <= total - 1) by (nonlinear_arith)
            requires
                vw > 0,
                total >= 1,
                row + 1 <= max_row,
                max_row == (total as int - 1) / (vw as int),
        ;
    }
    let base = (row + 1) * vw;
    let target = if rem > total - base {
        total
    } else {
        base + rem
    };
    let off = byte_offset_at_display_col(line.as_str(), target);
    let start = prefix_byte_len(chars.as_slice(), ls, total_bytes);
    proof {
        lemma_line_offset_fits(s, ls as int, le as int, target as nat);
    }
    Some(start + off)
}

/// Chars typical of escape garbage: ESC, `[`, `<`, `M`, `m`, `^`.
pub open spec fn is_garbage_char(c: char) -> bool {
    c == '\x1b' || c == '[' || c == '<' || c == 'M' || c == 'm' || c == '^'
}

/// Leftover mouse-report chars removed after escape stripping:
/// `[`, `<`, `>`, `M`, `m`, `^`.
pub open spec fn is_fragment_char(c: char) -> bool {
    c == '[' || c == '<' || c == '>' || c == 'M' || c == 'm' || c == '^'
}

/// Number of garbage chars in `s`.
pub open spec fn garbage_count(s: Seq<char>) -> nat
    decreases s.len(),
{
    if s.len() == 0 {
        0
    } else {
        garbage_count(s.drop_last()) + if is_garbage_char(s.last()) {
            1nat
        } else {
            0nat
        }
    }
}

/// `s` without its fragment chars.
pub open spec fn drop_fragment_chars(s: Seq<char>) -> Seq<char>
    decreases s.len(),
{
    if s.len() == 0 {
        s
    } else if is_fragment_char(s.last()) {
        drop_fragment_chars(s.drop_last())
    } else {
        drop_fragment_chars(s.drop_last()).push(s.last())
    }
}

/// More than 30% of the buffer's bytes (counted as chars) are garbage chars,
/// and the buffer is longer than five bytes.
pub open spec fn dominated_by_garbage(s: Seq<char>) -> bool {
    let total = encode_utf8(s).len();
    total > 5 && garbage_count(s) * 100 / total > 30
}

/// The buffer left by the scrub: escapes stripped, then fragment chars
/// dropped.
pub open spec fn scrubbed(s: Seq<char>) -> Seq<char> {
    drop_fragment_chars(strip_escapes_from(s, 0, EscapeScan::Text)->0)
}

proof fn lemma_garbage_count_le(s: Seq<char>)
    ensures
        garbage_count(s) <= s.len(),
    decreases s.len(),
{
    if s.len() > 0 {
        lemma_garbage_count_le(s.drop_last());
    }
}

/// Scrubs mouse-report and escape garbage from the input buffer (done when
/// the terminal regains focus). A buffer that is not dominated by garbage
/// chars is left as it is. Otherwise escapes are stripped and leftover
/// fragment chars dropped; if only whitespace remains the buffer is cleared,
/// else the cursor is clamped to the new byte length and moved down to a
/// char boundary, so a cursor on a boundary stays on one. Returns the new
/// buffer and cursor.
pub fn clear_escape_garbage(buf: &str, cursor: usize) -> (r: (String, usize))
    requires
        dominated_by_garbage(buf@) ==> strip_escapes_from(buf@, 0, EscapeScan::Text) is Some,
    ensures
        !dominated_by_garbage(buf@) ==> r.0@ == buf@ && r.1 == cursor,
        dominated_by_garbage(buf@) && trim_ws(scrubbed(buf@)).len() == 0 ==> r.0@ == Seq::<
            char,
        >::empty() && r.1 == 0,
        dominated_by_garbage(buf@) && trim_ws(scrubbed(buf@)).len() > 0 ==> r.0@ == scrubbed(buf@)
            && exists|k: int|
            #[trigger] floor_boundary_ok(scrubbed(buf@), cursor as int, k) && r.1 == byte_len_of(
                scrubbed(buf@),
                k,
            ),
        is_char_boundary(buf.spec_bytes(), cursor as int) ==> is_char_boundary(
            encode_utf8(r.0@),
            r.1 as int,
        ),
{
    let chars = str_chars(buf);
    let ghost s = chars@;
    let total = buf.as_bytes().len();
    let mut garbage: usize = 0;
    let mut i: usize = 0;
    while i < chars.len()
        invariant
            s == chars@,
            i <= s.len(),
            garbage == garbage_count(s.take(i as int)),
            garbage <= i,
        decreases s.len() - i,
    {
        let c = chars[i];
        assert(s.take(i as int + 1).drop_last() =~= s.take(i as int));
        if c == '\x1b' || c == '[' || c == '<' || c == 'M' || c == 'm' || c == '^' {
            garbage += 1;
        }
        i += 1;
    }
    assert(s.take(s.len() as int) =~= s);
    let g = garbage as u128;
    let dominated = total > 5 && g * 100 / (total as u128) > 30;
    if !dominated {
        return (string_from_chars(chars.as_slice()), cursor);
    }
    let stripped = strip_terminal_escapes(buf);
    let sc = str_chars(stripped.as_str());
    let ghost t = sc@;
    let mut kept: Vec<char> = Vec::new();
    let mut j: usize = 0;
    while j < sc.len()
        invariant
            t == sc@,
            j <= t.len(),
            kept@ == drop_fragment_chars(t.take(j as int)),
        decreases t.len() - j,
    {
        let c = sc[j];
        assert(t.take(j as int + 1).drop_last() =~= t.take(j as int));
        if !(c == '[' || c == '<' || c == '>' || c == 'M' || c == 'm' || c == '^') {
            kept.push(c);
        }
        j += 1;
    }
    assert(t.take(t.len() as int) =~= t);
    let trimmed = trim_chars(kept.as_slice());
    if trimmed.len() == 0 {
        return (String::new(), 0);
    }
    let total2 = encode_chars(&kept).len();
    let k = floor_char_index(&kept, cursor, total2);
    let c2 = prefix_byte_len(&kept, k, total2);
    proof {
        assert(floor_boundary_ok(kept@, cursor as int, k as int));
        lemma_char_offset_boundary(kept@, k as int);
    }
    (string_from_chars(kept.as_slice()), c2)
}

/// Deleting the last word removes exactly one word and the whitespace after
/// it: the deleted chars are a run without whitespace followed by a run of
/// whitespace, and the char before them (if any) is whitespace.
pub proof fn law_delete_word_span(s: Seq<char>, k: int)
    requires
        0 <= k <= s.len(),
    ensures
        0 <= delete_word_start(s, k) <= trim_end_index(s, k) <= k,
        forall|j: int|
            delete_word_start(s, k) <= j < trim_end_index(s, k) ==> !is_whitespace_char(
                #[trigger] s[j],
            ),
        forall|j: int| trim_end_index(s, k) <= j < k ==> is_whitespace_char(#[trigger] s[j]),
        delete_word_start(s, k) > 0 ==> is_whitespace_char(s[delete_word_start(s, k) - 1]),
{
    lemma_trim_end_span(s, k);
    lemma_word_start_span(s, trim_end_index(s, k));
}

proof fn lemma_trim_end_span(s: Seq<char>, k: int)
    requires
        0 <= k <= s.len(),
    ensures
        0 <= trim_end_index(s, k) <= k,
        forall|j: int| trim_end_index(s, k) <= j < k ==> is_whitespace_char(#[trigger] s[j]),
    decreases k,
{
    if k > 0 && is_whitespace_char(s[k - 1]) {
        lemma_trim_end_span(s, k - 1);
    }
}

proof fn lemma_word_start_span(s: Seq<char>, t: int)
    requires
        0 <= t <= s.len(),
    ensures
        0 <= word_start_index(s, t) <= t,
        forall|j: int| word_start_index(s, t) <= j < t ==> !is_whitespace_char(#[trigger] s[j]),
        word_start_index(s, t) > 0 ==> is_whitespace_char(s[word_start_index(s, t) - 1]),
    decreases t,
{
    if t > 0 && !is_whitespace_char(s[t - 1]) {
        lemma_word_start_span(s, t - 1);
    }
}

/// The scrubbed buffer holds no leftover fragment char.
pub proof fn law_scrub_drops_fragment_chars(s: Seq<char>)
    ensures
        forall|j: int|
            0 <= j < drop_fragment_chars(s).len() ==> !is_fragment_char(
                #[trigger] drop_fragment_chars(s)[j],
            ),
    decreases s.len(),
{
    if s.len() > 0 {
        law_scrub_drops_fragment_chars(s.drop_last());
        let prev = drop_fragment_chars(s.drop_last());
        if !is_fragment_char(s.last()) {
            assert forall|j: int| 0 <= j < prev.len() + 1 implies !is_fragment_char(
                #[trigger] prev.push(s.last())[j],
            ) by {
                if j < prev.len() {
                    assert(prev.push(s.last())[j] == prev[j]);
                }
            }
        }
    }
}

/// The byte offset found for a display column lies on a char boundary of
/// the text, never past its end.
pub proof fn law_display_col_offset_in_text(s: Seq<char>, target: nat)
    ensures
        is_char_offset(s, byte_offset_at_col_spec(s, target)),
        byte_offset_at_col_spec(s, target) <= encode_utf8(s).len(),
{
    lemma_col_index_le(s, target, 0);
    lemma_byte_len_le(s, col_index_from(s, target, 0));
}

/// The line start found for the cursor is just after a newline (or the
/// start of the buffer), and no newline lies between it and the cursor.
pub proof fn law_line_start(b: Seq<u8>, i: int)
    requires
        0 <= i <= b.len(),
    ensures
        0 <= line_start_before(b, i) <= i,
        line_start_before(b, i) > 0 ==> b[line_start_before(b, i) - 1] == 10u8,
        forall|j: int| line_start_before(b, i) <= j < i ==> #[trigger] b[j] != 10u8,
    decreases i,
{
    if i > 0 && b[i - 1] != 10u8 {
        law_line_start(b, i - 1);
    }
}

/// Where Up lands when the cursor is already on the first visual row of its
/// logical line: on the first line, the start of the buffer; otherwise the
/// last visual row of the previous line, at the cursor's column within its
/// row where that row is long enough, else at that row's end.
pub open spec fn line_up_spec(s: Seq<char>, cursor: int, term_width: int) -> int {
    let (ls, le, dc) = cursor_line(s, cursor);
    if ls == 0 {
        0
    } else {
        let ps = line_start_index(s, ls - 1);
        let prev = s.subrange(ps, ls - 1);
        let pt = unicode_str_width(prev) as int;
        let vw = visual_width_spec(term_width);
        let last_row = if pt == 0 {
            0
        } else {
            (pt - 1) / vw
        };
        let room = if pt >= last_row * vw {
            pt - last_row * vw
        } else {
            0
        };
        let col = if dc % vw <= room {
            dc % vw
        } else {
            room
        };
        byte_len_of(s, ps) + byte_offset_at_col_spec(prev, (last_row * vw + col) as nat)
    }
}

/// Where Down lands when the cursor is already on the last visual row of
/// its logical line: on the last line, the end of the buffer; otherwise the
/// first visual row of the next line, at the cursor's column within its row
/// where that line is long enough, else at its end.
pub open spec fn line_down_spec(s: Seq<char>, cursor: int, term_width: int) -> int {
    let (ls, le, dc) = cursor_line(s, cursor);
    if le == s.len() {
        encode_utf8(s).len() as int
    } else {
        let ns = le + 1;
        let next = s.subrange(ns, line_end_index(s, ns));
        let nt = unicode_str_width(next) as int;
        let vw = visual_width_spec(term_width);
        let col = if dc % vw <= nt {
            dc % vw
        } else {
            nt
        };
        byte_len_of(s, ns) + byte_offset_at_col_spec(next, col as nat)
    }
}

proof fn lemma_line_start_newline(s: Seq<char>, k: int)
    requires
        0 <= k <= s.len(),
    ensures
        line_start_index(s, k) > 0 ==> s[line_start_index(s, k) - 1] == '\n',
    decreases k,
{
    if k > 0 && s[k - 1] != '\n' {
        lemma_line_start_newline(s, k - 1);
    }
}

proof fn lemma_line_end_newline(s: Seq<char>, i: int)
    requires
        0 <= i <= s.len(),
    ensures
        line_end_index(s, i) < s.len() ==> s[line_end_index(s, i)] == '\n',
    decreases s.len() - i,
{
    if i < s.len() && s[i] != '\n' {
        lemma_line_end_newline(s, i + 1);
    }
}

/// Moves the cursor to the previous logical line (see `line_up_spec`);
/// used when it cannot move up within its own line.
pub fn cursor_line_up(buf: &str, cursor: usize, term_width: usize) -> (r: usize)
    requires
        is_char_boundary(buf.spec_bytes(), cursor as int),
    ensures
        r == line_up_spec(buf@, cursor as int, term_width as int),
{
    let chars = str_chars(buf);
    let ghost s = chars@;
    proof {
        lemma_boundary_char_offset(s, cursor as int);
    }
    let total_bytes = buf.as_bytes().len();
    let k = char_index_at_byte(chars.as_slice(), cursor);
    let (ls, _le) = line_bounds(chars.as_slice(), k);
    if ls == 0 {
        return 0;
    }
    proof {
        lemma_line_start_newline(s, k as int);
    }
    let before = string_from_chars(sub_chars(chars.as_slice(), ls, k).as_slice());
    let dc = str_display_width(before.as_str());
    let (ps, _pe) = line_bounds(chars.as_slice(), ls - 1);
    let prev = string_from_chars(sub_chars(chars.as_slice(), ps, ls - 1).as_slice());
    let pt = str_display_width(prev.as_str());
    let vw = input_visual_line_width(term_width);
    let last_row = if pt == 0 {
        0
    } else {
        (pt - 1) / vw
    };
    proof {
        assert(last_row * vw <= pt) by (nonlinear_arith)
            requires
                vw > 0,
                pt == 0 ==> last_row == 0,
                pt > 0 ==> last_row == (pt - 1) / (vw as int),
        ;
    }
    let room = pt - last_row * vw;
    let rem = dc % vw;
    let col = if rem <= room {
        rem
    } else {
        room
    };
    let target = last_row * vw + col;
    let off = byte_offset_at_display_col(prev.as_str(), target);
    let start = prefix_byte_len(chars.as_slice(), ps, total_bytes);
    proof {
        lemma_line_offset_fits(s, ps as int, ls - 1, target as nat);
    }
    start + off
}

/// Moves the cursor to the next logical line (see `line_down_spec`); used
/// when it cannot move down within its own line.
pub fn cursor_line_down(buf: &str, cursor: usize, term_width: usize) -> (r: usize)
    requires
        is_char_boundary(buf.spec_bytes(), cursor as int),
    ensures
        r == line_down_spec(buf@, cursor as int, term_width as int),
{
    let chars = str_chars(buf);
    let ghost s = chars@;
    proof {
        lemma_boundary_char_offset(s, cursor as int);
    }
    let total_bytes = buf.as_bytes().len();
    let k = char_index_at_byte(chars.as_slice(), cursor);
    let (ls, le) = line_bounds(chars.as_slice(), k);
    if le == chars.len() {
        return total_bytes;
    }
    let before = string_from_chars(sub_chars(chars.as_slice(), ls, k).as_slice());
    let dc = str_display_width(before.as_str());
    let ns = le + 1;
    let (_ns2, ne) = line_bounds(chars.as_slice(), ns);
    proof {
        lemma_line_start_index(s, ns as int);
        lemma_line_end_newline(s, ls as int);
        assert(s[ns - 1] == '\n');
        assert(line_start_index(s, ns as int) == ns);
    }
    let next = string_from_chars(sub_chars(chars.as_slice(), ns, ne).as_slice());
    let nt = str_display_width(next.as_str());
    let vw = input_visual_line_width(term_width);
    let rem = dc % vw;
    let col = if rem <= nt {
        rem
    } else {
        nt
    };
    let off = byte_offset_at_display_col(next.as_str(), col);
    let start = prefix_byte_len(chars.as_slice(), ns, total_bytes);
    proof {
        lemma_line_offset_fits(s, ns as int, ne as int, col as nat);
    }
    start + off
}

/// Moves the cursor to the start of the word before it (Ctrl/Alt+Left,
/// Alt+B): past the whitespace just before it, then back to just after the
/// previous whitespace char, or to 0.
pub fn word_left(buf: &str, cursor: usize) -> (r: usize)
    requires
        is_char_boundary(buf.spec_bytes(), cursor as int),
    ensures
        r == byte_len_of(buf@, delete_word_start(buf@, char_index_of(buf@, cursor as int))),
{
    let chars = str_chars(buf);
    let ghost s = chars@;
    proof {
        lemma_boundary_char_offset(s, cursor as int);
    }
    let k = char_index_at_byte(chars.as_slice(), cursor);
    let mut t: usize = k;
    proof {
        lemma_trim_end_index(s, k as int);
    }
    while t > 0 && char_is_whitespace(chars[t - 1])
        invariant
            s == chars@,
            t <= k <= s.len(),
            trim_end_index(s, t as int) == trim_end_index(s, k as int),
        decreases t,
    {
        t -= 1;
    }
    let mut w: usize = t;
    proof {
        lemma_word_start_index(s, t as int);
    }
    while w > 0 && !char_is_whitespace(chars[w - 1])
        invariant
            s == chars@,
            w <= t <= s.len(),
            word_start_index(s, w as int) == word_start_index(s, t as int),
        decreases w,
    {
        w -= 1;
    }
    let total = buf.as_bytes().len();
    prefix_byte_len(chars.as_slice(), w, total)
}

/// First char index at or after `i` holding whitespace, or the length.
pub open spec fn next_ws_index(s: Seq<char>, i: int) -> int
    decreases s.len() - i,
{
    if i >= s.len() {
        s.len() as int
    } else if is_whitespace_char(s[i]) {
        i
    } else {
        next_ws_index(s, i + 1)
    }
}

/// First char index at or after `i` holding no whitespace, or the length.
pub open spec fn next_non_ws_index(s: Seq<char>, i: int) -> int
    decreases s.len() - i,
{
    if i >= s.len() {
        s.len() as int
    } else if !is_whitespace_char(s[i]) {
        i
    } else {
        next_non_ws_index(s, i + 1)
    }
}

proof fn lemma_next_indices(s: Seq<char>, i: int)
    requires
        0 <= i <= s.len(),
    ensures
        i <= next_ws_index(s, i) <= s.len(),
        i <= next_non_ws_index(s, i) <= s.len(),
    decreases s.len() - i,
{
    if i < s.len() {
        lemma_next_indices(s, i + 1);
    }
}

/// Moves the cursor past the word at it and the whitespace after that
/// (Ctrl/Alt+Right, Alt+F).
pub fn word_right(buf: &str, cursor: usize) -> (r: usize)
    requires
        is_char_boundary(buf.spec_bytes(), cursor as int),
    ensures
        r == byte_len_of(
            buf@,
            next_non_ws_index(buf@, next_ws_index(buf@, char_index_of(buf@, cursor as int))),
        ),
{
    let chars = str_chars(buf);
    let ghost s = chars@;
    proof {
        lemma_boundary_char_offset(s, cursor as int);
    }
    let k = char_index_at_byte(chars.as_slice(), cursor);
    let mut e: usize = k;
    proof {
        lemma_next_indices(s, k as int);
    }
    while e < chars.len() && !char_is_whitespace(chars[e])
        invariant
            s == chars@,
            k <= e <= s.len(),
            next_ws_index(s, e as int) == next_ws_index(s, k as int),
        decreases s.len() - e,
    {
        e += 1;
    }
    let mut f: usize = e;
    proof {
        lemma_next_indices(s, e as int);
    }
    while f < chars.len() && char_is_whitespace(chars[f])
        invariant
            s == chars@,
            e <= f <= s.len(),
            next_non_ws_index(s, f as int) == next_non_ws_index(s, e as int),
        decreases s.len() - f,
    {
        f += 1;
    }
    let total = buf.as_bytes().len();
    prefix_byte_len(chars.as_slice(), f, total)
}

/// Deletes from the start of the cursor's logical line to the cursor
/// (Ctrl+U); the cursor goes to the line start.
pub fn kill_to_line_start(buf: &str, cursor: usize) -> (r: (String, usize))
    requires
        is_char_boundary(buf.spec_bytes(), cursor as int),
    ensures
        ({
            let k = char_index_of(buf@, cursor as int);
            let ls = line_start_index(buf@, k);
            &&& r.0@ == buf@.take(ls) + buf@.skip(k)
            &&& r.1 == byte_len_of(buf@, ls)
        }),
{
    let chars = str_chars(buf);
    let ghost s = chars@;
    proof {
        lemma_boundary_char_offset(s, cursor as int);
    }
    let k = char_index_at_byte(chars.as_slice(), cursor);
    let (ls, _le) = line_bounds(chars.as_slice(), k);
    let mut out = sub_chars(chars.as_slice(), 0, ls);
    let mut rest = sub_chars(chars.as_slice(), k, chars.len());
    out.append(&mut rest);
    assert(out@ =~= s.take(ls as int) + s.skip(k as int));
    let total = buf.as_bytes().len();
    let off = prefix_byte_len(chars.as_slice(), ls, total);
    (string_from_chars(out.as_slice()), off)
}

/// Word jumps go the way they say: a word left never moves the cursor to
/// the right, a word right never to the left, and both stay in the text.
pub proof fn law_word_jumps_direction(s: Seq<char>, k: int)
    requires
        0 <= k <= s.len(),
    ensures
        0 <= delete_word_start(s, k) <= k,
        k <= next_non_ws_index(s, next_ws_index(s, k)) <= s.len(),
{
    lemma_trim_end_index(s, k);
    lemma_word_start_index(s, trim_end_index(s, k));
    lemma_next_indices(s, k);
    lemma_next_indices(s, next_ws_index(s, k));
}

/// The number of whole chars whose bytes fit in the first `c` bytes: the
/// char index of the char boundary at or before byte `c`.
pub(crate) fn floor_char_index(chars: &[char], c: usize, total: usize) -> (k: usize)
    requires
        total == encode_utf8(chars@).len(),
    ensures
        k <= chars@.len(),
        byte_len_of(chars@, k as int) <= c,
        k < chars@.len() ==> byte_len_of(chars@, k as int + 1) > c,
{
    let ghost s = chars@;
    let mut off: usize = 0;
    let mut j: usize = 0;
    proof {
        lemma_byte_len_le(s, 0);
    }
    while j < chars.len()
        invariant
            s == chars@,
            j <= s.len(),
            total == encode_utf8(s).len(),
            off == byte_len_of(s, j as int),
            off <= c,
        decreases s.len() - j,
    {
        proof {
            lemma_encode_utf8_take_push(s, j as int);
            lemma_byte_len_le(s, j as int + 1);
        }
        let n = char_utf8_len(chars[j]);
        if off + n > c {
            return j;
        }
        off = off + n;
        j += 1;
    }
    j
}

/// The char boundary of the text at or before byte `c`: the largest
/// prefix, in whole chars, whose bytes fit in `c`.
pub open spec fn floor_boundary_ok(s: Seq<char>, c: int, k: int) -> bool {
    &&& 0 <= k <= s.len()
    &&& byte_len_of(s, k) <= c
    &&& k < s.len() ==> byte_len_of(s, k + 1) > c
}

/// Inserts `text` at the cursor, first moved down to a char boundary (and
/// into the buffer); the cursor goes past the inserted text.
pub fn insert_text_at(buf: &str, cursor: usize, text: &str) -> (r: (String, usize))
    requires
        buf.spec_bytes().len() + text.spec_bytes().len() <= usize::MAX,
    ensures
        exists|k: int| {
            &&& #[trigger] floor_boundary_ok(buf@, cursor as int, k)
            &&& r.0@ == buf@.take(k) + text@ + buf@.skip(k)
            &&& r.1 == byte_len_of(buf@, k) + text.spec_bytes().len()
        },
{
    let chars = str_chars(buf);
    let ghost s = chars@;
    let total = encode_chars(&chars).len();
    let k = floor_char_index(&chars, cursor, total);
    let off = prefix_byte_len(&chars, k, total);
    proof {
        lemma_byte_len_le(s, k as int);
    }
    let t = str_chars(text);
    let tlen = encode_chars(&t).len();
    let mut out = sub_chars(&chars, 0, k);
    let mut mid = sub_chars(&t, 0, t.len());
    out.append(&mut mid);
    let mut rest = sub_chars(&chars, k, chars.len());
    out.append(&mut rest);
    assert(t@.subrange(0, t@.len() as int) =~= t@);
    assert(out@ =~= s.take(k as int) + t@ + s.skip(k as int));
    assert(floor_boundary_ok(s, cursor as int, k as int));
    (string_from_chars(&out), off + tlen)
}

/// A streaming buffer with its first `bytes` bytes drained (the cut moved
/// down to a char boundary); `None` when nothing is left.
pub fn drain_stream_prefix(buf: &str, bytes: usize) -> (r: Option<String>)
    ensures
        exists|k: int| {
            &&& #[trigger] floor_boundary_ok(buf@, bytes as int, k)
            &&& if k == buf@.len() { r is None } else { r matches Some(t) && t@ == buf@.skip(k) }
        },
{
    let chars = str_chars(buf);
    let ghost s = chars@;
    let total = encode_chars(&chars).len();
    let k = floor_char_index(&chars, bytes, total);
    assert(floor_boundary_ok(s, bytes as int, k as int));
    if k == chars.len() {
        None
    } else {
        let rest = sub_chars(&chars, k, chars.len());
        assert(rest@ =~= s.skip(k as int));
        Some(string_from_chars(&rest))
    }
}

} // verus!
