//! Clean-up of pasted text: terminal escape sequences that leak into paste
//! events, invisible Unicode spacing from web pages, and tab expansion.

use vstd::prelude::*;
use crate::text::{str_chars, string_from_chars, string_push};
use vstd::utf8::*;

verus! {

/// Byte length of a UTF-8 char from its leading byte (`1` for a
/// continuation byte).
pub open spec fn utf8_char_len_spec(b: u8) -> usize {
    if b <= 0x7F {
        1
    } else if 0xC0 <= b <= 0xDF {
        2
    } else if 0xE0 <= b <= 0xEF {
        3
    } else if 0xF0 <= b <= 0xF7 {
        4
    } else {
        1
    }
}

/// Return the byte length of a UTF-8 character from its leading byte.
pub fn utf8_char_len(b: u8) -> (n: usize)
    ensures
        n == utf8_char_len_spec(b),
{
    if b <= 0x7F {
        1
    } else if b >= 0xC0 && b <= 0xDF {
        2
    } else if b >= 0xE0 && b <= 0xEF {
        3
    } else if b >= 0xF0 && b <= 0xF7 {
        4
    } else {
        1
    }
}

/// On the first byte of a char's UTF-8 encoding `utf8_char_len` gives the
/// length of that encoding; on a continuation byte it gives 1.
pub proof fn law_utf8_char_len_of_lead_byte(c: char)
    ensures
        utf8_char_len_spec(encode_utf8(seq![c])[0]) == encode_utf8(seq![c]).len(),
        forall|b: u8| is_continuation_byte(b) ==> #[trigger] utf8_char_len_spec(b) == 1,
{
    let s = seq![c];
    encode_utf8_first_scalar(s);
    assert(s.drop_first() =~= Seq::<char>::empty());
    assert(s[0] == c);
    assert(encode_utf8(s.drop_first()) =~= Seq::<u8>::empty());
    assert(encode_utf8(s) == encode_scalar(s[0] as u32) + encode_utf8(s.drop_first()));
    assert(encode_utf8(s) =~= encode_scalar(c as u32));
}

/// The escape char.
pub open spec fn esc() -> char {
    '\x1b'
}

/// Scanner state while stripping escapes.
#[derive(Clone, Copy, Debug, PartialEq, Eq, Structural)]
pub enum EscapeScan {
    /// Copying ordinary text.
    Text,
    /// Just read ESC.
    AfterEsc,
    /// Inside a CSI sequence (`ESC [`), until a final char in `@`..=`~`.
    Csi,
    /// Inside an OSC sequence (`ESC ]`), until BEL or `ESC \`.
    Osc,
}

/// Text kept from position `i` on, scanning in state `st`; `None` when an
/// ESC is followed directly by a non-ASCII char (a two-byte escape would end
/// inside that char's encoding).
pub open spec fn strip_escapes_from(s: Seq<char>, i: int, st: EscapeScan) -> Option<Seq<char>>
    decreases s.len() - i,
{
    if i < 0 || i >= s.len() {
        Some(Seq::empty())
    } else {
        let c = s[i];
        match st {
            EscapeScan::Text => if c == esc() {
                strip_escapes_from(s, i + 1, EscapeScan::AfterEsc)
            } else {
                match strip_escapes_from(s, i + 1, EscapeScan::Text) {
                    Some(rest) => Some(seq![c] + rest),
                    None => None,
                }
            },
            EscapeScan::AfterEsc => if c == '[' {
                strip_escapes_from(s, i + 1, EscapeScan::Csi)
            } else if c == ']' {
                strip_escapes_from(s, i + 1, EscapeScan::Osc)
            } else if (c as u32) < 0x80 {
                strip_escapes_from(s, i + 1, EscapeScan::Text)
            } else {
                None
            },
            EscapeScan::Csi => if 0x40 <= (c as u32) <= 0x7E {
                strip_escapes_from(s, i + 1, EscapeScan::Text)
            } else {
                strip_escapes_from(s, i + 1, EscapeScan::Csi)
            },
            EscapeScan::Osc => if c == '\x07' {
                strip_escapes_from(s, i + 1, EscapeScan::Text)
            } else if c == esc() && i + 1 < s.len() && s[i + 1] == '\\' {
                strip_escapes_from(s, i + 2, EscapeScan::Text)
            } else {
                strip_escapes_from(s, i + 1, EscapeScan::Osc)
            },
        }
    }
}

/// Strip terminal escape sequences (CSI, SGR mouse, OSC, two-char escapes)
/// from text. An ESC directly followed by a non-ASCII char is not accepted.
pub fn strip_terminal_escapes(text: &str) -> (r: String)
    requires
        strip_escapes_from(text@, 0, EscapeScan::Text) is Some,
    ensures
        strip_escapes_from(text@, 0, EscapeScan::Text) == Some(r@),
{
    let s = str_chars(text);
    let n = s.len();
    let mut out: Vec<char> = Vec::new();
    let mut i: usize = 0;
    let mut st = EscapeScan::Text;
    assert(out@ =~= Seq::<char>::empty());
    while i < n
        invariant
            n == s@.len(),
            s@ == text@,
            i <= n + 1,
            strip_escapes_from(s@, i as int, st) is Some,
            strip_escapes_from(s@, 0, EscapeScan::Text) == Some(
                out@ + strip_escapes_from(s@, i as int, st)->0,
            ),
        decreases n + 1 - i,
    {
        let c = s[i];
        let ghost old_out = out@;
        let ghost old_i = i as int;
        let ghost old_st = st;
        match st {
            EscapeScan::Text => {
                if c == '\x1b' {
                    st = EscapeScan::AfterEsc;
                } else {
                    out.push(c);
                }
                i += 1;
            },
            EscapeScan::AfterEsc => {
                if c == '[' {
                    st = EscapeScan::Csi;
                } else if c == ']' {
                    st = EscapeScan::Osc;
                } else {
                    st = EscapeScan::Text;
                }
                i += 1;
            },
            EscapeScan::Csi => {
                let v = c as u32;
                if v >= 0x40 && v <= 0x7E {
                    st = EscapeScan::Text;
                }
                i += 1;
            },
            EscapeScan::Osc => {
                if c == '\x07' {
                    st = EscapeScan::Text;
                    i += 1;
                } else if c == '\x1b' && i + 1 < n && s[i + 1] == '\\' {
                    st = EscapeScan::Text;
                    i += 2;
                } else {
                    i += 1;
                }
            },
        }
        assert(out@ + strip_escapes_from(s@, i as int, st)->0 =~= old_out + strip_escapes_from(
            s@,
            old_i,
            old_st,
        )->0);
    }
    assert(strip_escapes_from(s@, i as int, st) == Some(Seq::<char>::empty()));
    assert(out@ + Seq::<char>::empty() =~= out@);
    string_from_chars(&out)
}

/// Replacement of one char: non-breaking and typographic spaces become a
/// space, zero-width chars and the soft hyphen become NUL (dropped after).
pub open spec fn normalize_space_char(c: char) -> char {
    if c == '\u{00A0}' || c == '\u{202F}' || c == '\u{2007}' {
        ' '
    } else if c == '\u{200B}' || c == '\u{200C}' || c == '\u{200D}' || c == '\u{FEFF}' {
        '\0'
    } else if ('\u{2000}' <= c && c <= '\u{200A}') || c == '\u{205F}' || c == '\u{3000}' {
        ' '
    } else if c == '\u{00AD}' {
        '\0'
    } else {
        c
    }
}

/// Every char replaced, then every NUL dropped.
pub open spec fn normalize_spaces_spec(s: Seq<char>) -> Seq<char> {
    s.map_values(|c: char| normalize_space_char(c)).filter(|c: char| c != '\0')
}

fn normalize_char(c: char) -> (r: char)
    ensures
        r == normalize_space_char(c),
{
    if c == '\u{00A0}' || c == '\u{202F}' || c == '\u{2007}' {
        ' '
    } else if c == '\u{200B}' || c == '\u{200C}' || c == '\u{200D}' || c == '\u{FEFF}' {
        '\0'
    } else if (c >= '\u{2000}' && c <= '\u{200A}') || c == '\u{205F}' || c == '\u{3000}' {
        ' '
    } else if c == '\u{00AD}' {
        '\0'
    } else {
        c
    }
}

/// Normalize invisible and non-standard spacing that web pages use in
/// tables: such spaces become a plain space, zero-width chars, the soft
/// hyphen and NUL are removed.
pub fn normalize_unicode_whitespace(text: &str) -> (r: String)
    ensures
        r@ == normalize_spaces_spec(text@),
{
    let s = str_chars(text);
    let ghost f = |c: char| normalize_space_char(c);
    let ghost keep = |c: char| c != '\0';
    let mut out: Vec<char> = Vec::new();
    let mut i: usize = 0;
    assert(s@.map_values(f).take(0) =~= Seq::<char>::empty());
    while i < s.len()
        invariant
            i <= s@.len(),
            f == (|c: char| normalize_space_char(c)),
            keep == (|c: char| c != '\0'),
            out@ == s@.map_values(f).take(i as int).filter(keep),
        decreases s@.len() - i,
    {
        reveal_with_fuel(Seq::<_>::filter, 1);
        let m = normalize_char(s[i]);
        let ghost mapped = s@.map_values(f);
        assert(mapped.take(i as int + 1).drop_last() =~= mapped.take(i as int));
        assert(mapped.take(i as int + 1).last() == m);
        if m != '\0' {
            out.push(m);
        }
        i += 1;
    }
    assert(s@.map_values(f).take(s@.len() as int) =~= s@.map_values(f));
    string_from_chars(&out)
}

/// Tab expansion from column `col` (tab stops every 8 columns; a newline
/// resets the column).
pub open spec fn expand_tabs_from(s: Seq<char>, col: nat) -> Seq<char>
    decreases s.len(),
{
    if s.len() == 0 {
        Seq::empty()
    } else if s[0] == '\t' {
        let spaces = (8 - col % 8) as nat;
        Seq::new(spaces, |k: int| ' ') + expand_tabs_from(s.drop_first(), col + spaces)
    } else if s[0] == '\n' {
        seq![s[0]] + expand_tabs_from(s.drop_first(), 0)
    } else {
        seq![s[0]] + expand_tabs_from(s.drop_first(), col + 1)
    }
}

/// Column after the chars of `s`, starting at column `col`.
pub open spec fn column_after(s: Seq<char>, col: nat) -> nat
    decreases s.len(),
{
    if s.len() == 0 {
        col
    } else if s[0] == '\t' {
        column_after(s.drop_first(), col + (8 - col % 8) as nat)
    } else if s[0] == '\n' {
        column_after(s.drop_first(), 0)
    } else {
        column_after(s.drop_first(), col + 1)
    }
}

/// Expanding a prefix then the rest equals expanding the whole.
proof fn lemma_expand_split(s: Seq<char>, col: nat, i: int)
    requires
        0 <= i < s.len(),
    ensures
        expand_tabs_from(s.take(i + 1), col) == expand_tabs_from(s.take(i), col) + expand_tabs_from(
            seq![s[i]],
            column_after(s.take(i), col),
        ),
        column_after(s.take(i + 1), col) == column_after(seq![s[i]], column_after(s.take(i), col)),
    decreases i,
{
    let t = s.take(i + 1);
    if i == 0 {
        assert(s.take(0) =~= Seq::<char>::empty());
        assert(t =~= seq![s[0]]);
        assert(expand_tabs_from(Seq::<char>::empty(), col) =~= Seq::<char>::empty());
        assert(Seq::<char>::empty() + expand_tabs_from(seq![s[0]], col) =~= expand_tabs_from(
            seq![s[0]],
            col,
        ));
    } else {
        let s2 = s.drop_first();
        let col2: nat = if s[0] == '\t' {
            col + (8 - col % 8) as nat
        } else if s[0] == '\n' {
            0
        } else {
            col + 1
        };
        lemma_expand_split(s2, col2, i - 1);
        assert(t.drop_first() =~= s2.take(i));
        assert(s.take(i).drop_first() =~= s2.take(i - 1));
        assert(s2[i - 1] == s[i]);
        assert(t[0] == s[0]);
        assert(s.take(i)[0] == s[0]);
        if s[0] == '\t' {
            let spaces = (8 - col % 8) as nat;
            assert(expand_tabs_from(t, col) == Seq::new(spaces, |k: int| ' ') + expand_tabs_from(
                s2.take(i),
                col2,
            ));
            assert(expand_tabs_from(s.take(i), col) == Seq::new(spaces, |k: int| ' ')
                + expand_tabs_from(s2.take(i - 1), col2));
            assert(expand_tabs_from(t, col) =~= expand_tabs_from(s.take(i), col) + expand_tabs_from(
                seq![s[i]],
                column_after(s.take(i), col),
            ));
        } else {
            assert(expand_tabs_from(t, col) == seq![s[0]] + expand_tabs_from(s2.take(i), col2));
            assert(expand_tabs_from(s.take(i), col) == seq![s[0]] + expand_tabs_from(
                s2.take(i - 1),
                col2,
            ));
            assert(expand_tabs_from(t, col) =~= expand_tabs_from(s.take(i), col) + expand_tabs_from(
                seq![s[i]],
                column_after(s.take(i), col),
            ));
        }
    }
}

/// Expand tab characters to spaces up to the next multiple-of-8 column; a
/// newline resets the column.
pub fn expand_tabs(text: &str) -> (r: String)
    ensures
        r@ == expand_tabs_from(text@, 0),
{
    let s = str_chars(text);
    let mut result = String::new();
    let mut col: usize = 0;
    let mut i: usize = 0;
    assert(s@.take(0) =~= Seq::<char>::empty());
    while i < s.len()
        invariant
            i <= s@.len(),
            col < 8,
            result@ == expand_tabs_from(s@.take(i as int), 0),
            col == column_after(s@.take(i as int), 0) % 8,
        decreases s@.len() - i,
    {
        let ch = s[i];
        let ghost old_res = result@;
        let ghost old_col = column_after(s@.take(i as int), 0);
        proof {
            lemma_expand_split(s@, 0, i as int);
        }
        proof {
            let one = seq![ch];
            assert(one.drop_first() =~= Seq::<char>::empty());
            assert(one[0] == ch);
            assert((old_col % 8) % 8 == old_col % 8) by (nonlinear_arith);
            reveal_with_fuel(column_after, 2);
            reveal_with_fuel(expand_tabs_from, 2);
        }
        if ch == '\t' {
            let spaces = 8 - (col % 8);
            let mut k: usize = 0;
            while k < spaces
                invariant
                    k <= spaces,
                    result@ == old_res + Seq::new(k as nat, |j: int| ' '),
                decreases spaces - k,
            {
                string_push(&mut result, ' ');
                assert(old_res + Seq::new(k as nat + 1, |j: int| ' ') =~= (old_res + Seq::new(
                    k as nat,
                    |j: int| ' ',
                )).push(' '));
                k += 1;
            }
            col = 0;
            proof {
                assert(spaces as nat == (8 - old_col % 8) as nat);
                assert(result@ == old_res + Seq::new(spaces as nat, |j: int| ' '));
                assert((old_col + (8 - old_col % 8) as nat) % 8 == 0) by (nonlinear_arith);
                assert(column_after(seq![ch], old_col) == old_col + (8 - old_col % 8) as nat);
                let one = seq![ch];
                assert(one.drop_first() =~= Seq::<char>::empty());
                assert(expand_tabs_from(Seq::<char>::empty(), old_col + spaces as nat) =~= Seq::<char>::empty());
                assert(expand_tabs_from(one, old_col) =~= Seq::new(spaces as nat, |j: int| ' ')
                    + expand_tabs_from(Seq::<char>::empty(), old_col + spaces as nat));
                assert(result@ =~= old_res + expand_tabs_from(one, old_col));
            }
        } else {
            string_push(&mut result, ch);
            if ch == '\n' {
                col = 0;
            } else {
                col = (col + 1) % 8;
                assert((old_col + 1) % 8 == (old_col % 8 + 1) % 8) by (nonlinear_arith);
            }
            proof {
                let one = seq![ch];
                assert(one.drop_first() =~= Seq::<char>::empty());
            }
        }
        i += 1;
    }
    assert(s@.take(s@.len() as int) =~= s@);
    result
}

/// Tab expansion leaves no tab behind.
pub proof fn law_expand_tabs_removes_tabs(s: Seq<char>, col: nat)
    ensures
        forall|j: int|
            0 <= j < expand_tabs_from(s, col).len() ==> #[trigger] expand_tabs_from(s, col)[j]
                != '\t',
    decreases s.len(),
{
    if s.len() > 0 {
        let c = s[0];
        let next = if c == '\t' {
            col + (8 - col % 8) as nat
        } else if c == '\n' {
            0
        } else {
            col + 1
        };
        law_expand_tabs_removes_tabs(s.drop_first(), next);
        let rest = expand_tabs_from(s.drop_first(), next);
        let head: Seq<char> = if c == '\t' {
            Seq::new((8 - col % 8) as nat, |k: int| ' ')
        } else {
            seq![c]
        };
        assert(expand_tabs_from(s, col) == head + rest);
        assert forall|j: int| 0 <= j < (head + rest).len() implies #[trigger] (head + rest)[j]
            != '\t' by {
            if j >= head.len() {
                assert((head + rest)[j] == rest[j - head.len()]);
            }
        }
    }
}

/// Text without tabs comes out of tab expansion unchanged.
pub proof fn law_expand_tabs_keeps_tabless_text(s: Seq<char>, col: nat)
    requires
        forall|j: int| 0 <= j < s.len() ==> #[trigger] s[j] != '\t',
    ensures
        expand_tabs_from(s, col) == s,
    decreases s.len(),
{
    if s.len() > 0 {
        let next = if s[0] == '\n' {
            0
        } else {
            col + 1
        };
        assert(s[0] != '\t');
        law_expand_tabs_keeps_tabless_text(s.drop_first(), next);
        assert(seq![s[0]] + s.drop_first() =~= s);
    }
}

/// Expanding tabs twice gives the same text as expanding once.
pub proof fn law_expand_tabs_idempotent(s: Seq<char>)
    ensures
        expand_tabs_from(expand_tabs_from(s, 0), 0) == expand_tabs_from(s, 0),
{
    law_expand_tabs_removes_tabs(s, 0);
    law_expand_tabs_keeps_tabless_text(expand_tabs_from(s, 0), 0);
}

/// Escape stripping leaves no ESC char behind.
pub proof fn law_strip_escapes_removes_esc(s: Seq<char>, i: int, st: EscapeScan)
    requires
        strip_escapes_from(s, i, st) is Some,
    ensures
        forall|j: int|
            0 <= j < strip_escapes_from(s, i, st)->0.len() ==> #[trigger] strip_escapes_from(
                s,
                i,
                st,
            )->0[j] != esc(),
    decreases s.len() - i,
{
    if 0 <= i < s.len() {
        let c = s[i];
        match st {
            EscapeScan::Text => if c == esc() {
                law_strip_escapes_removes_esc(s, i + 1, EscapeScan::AfterEsc);
            } else {
                law_strip_escapes_removes_esc(s, i + 1, EscapeScan::Text);
                let rest = strip_escapes_from(s, i + 1, EscapeScan::Text)->0;
                assert forall|j: int| 0 <= j < rest.len() + 1 implies #[trigger] (seq![c]
                    + rest)[j] != esc() by {
                    if j > 0 {
                        assert((seq![c] + rest)[j] == rest[j - 1]);
                    }
                }
            },
            EscapeScan::AfterEsc => if c == '[' {
                law_strip_escapes_removes_esc(s, i + 1, EscapeScan::Csi);
            } else if c == ']' {
                law_strip_escapes_removes_esc(s, i + 1, EscapeScan::Osc);
            } else {
                law_strip_escapes_removes_esc(s, i + 1, EscapeScan::Text);
            },
            EscapeScan::Csi => if 0x40 <= (c as u32) <= 0x7E {
                law_strip_escapes_removes_esc(s, i + 1, EscapeScan::Text);
            } else {
                law_strip_escapes_removes_esc(s, i + 1, EscapeScan::Csi);
            },
            EscapeScan::Osc => if c == '\x07' {
                law_strip_escapes_removes_esc(s, i + 1, EscapeScan::Text);
            } else if c == esc() && i + 1 < s.len() && s[i + 1] == '\\' {
                law_strip_escapes_removes_esc(s, i + 2, EscapeScan::Text);
            } else {
                law_strip_escapes_removes_esc(s, i + 1, EscapeScan::Osc);
            },
        }
    }
}

/// Text without ESC comes out of escape stripping unchanged.
pub proof fn law_strip_escapes_keeps_plain_text(s: Seq<char>, i: int)
    requires
        0 <= i <= s.len(),
        forall|j: int| 0 <= j < s.len() ==> #[trigger] s[j] != esc(),
    ensures
        strip_escapes_from(s, i, EscapeScan::Text) == Some(s.skip(i)),
    decreases s.len() - i,
{
    if i < s.len() {
        law_strip_escapes_keeps_plain_text(s, i + 1);
        assert(seq![s[i]] + s.skip(i + 1) =~= s.skip(i));
    } else {
        assert(s.skip(i) =~= Seq::<char>::empty());
    }
}

/// Stripping escapes twice gives the same text as stripping once.
pub proof fn law_strip_escapes_idempotent(s: Seq<char>)
    requires
        strip_escapes_from(s, 0, EscapeScan::Text) is Some,
    ensures
        strip_escapes_from(strip_escapes_from(s, 0, EscapeScan::Text)->0, 0, EscapeScan::Text)
            == strip_escapes_from(s, 0, EscapeScan::Text),
{
    let r = strip_escapes_from(s, 0, EscapeScan::Text)->0;
    law_strip_escapes_removes_esc(s, 0, EscapeScan::Text);
    law_strip_escapes_keeps_plain_text(r, 0);
    assert(r.skip(0) =~= r);
}

/// A pasted text as it enters the input line: escape sequences stripped,
/// odd spacing normalised, tabs expanded when there are any; `None` when
/// nothing but whitespace is left.
pub open spec fn clean_paste_spec(text: Seq<char>) -> Option<Seq<char>> {
    match strip_escapes_from(text, 0, EscapeScan::Text) {
        Some(stripped) => {
            let n = normalize_spaces_spec(stripped);
            let t = if n.contains('\t') { expand_tabs_from(n, 0) } else { n };
            if crate::text::trim_ws(t).len() == 0 { None } else { Some(t) }
        },
        None => None,
    }
}

/// A pasted text as it enters the input line (see `clean_paste_spec`).
pub fn clean_paste(text: &str) -> (r: Option<String>)
    requires
        strip_escapes_from(text@, 0, EscapeScan::Text) is Some,
    ensures
        match clean_paste_spec(text@) {
            Some(t) => r matches Some(s) && s@ == t,
            None => r is None,
        },
{
    let stripped = strip_terminal_escapes(text);
    let mut filtered = normalize_unicode_whitespace(stripped.as_str());
    if crate::text::chars_contain(&str_chars(filtered.as_str()), '\t') {
        filtered = expand_tabs(filtered.as_str());
    }
    let t = crate::text::trim_chars(&str_chars(filtered.as_str()));
    if t.len() == 0 {
        None
    } else {
        Some(filtered)
    }
}

/// The text a paste inserts: with files recognised in it, the rest of the
/// text when it is not blank (else nothing); without, the whole cleaned
/// paste.
pub fn paste_insertion(filtered: &str, clean_text: &str, found_attachments: bool) -> (r: Option<String>)
    ensures
        found_attachments && crate::text::trim_ws(clean_text@).len() > 0 ==> (r matches Some(t) && t@ == clean_text@),
        found_attachments && crate::text::trim_ws(clean_text@).len() == 0 ==> r is None,
        !found_attachments ==> (r matches Some(t) && t@ == filtered@),
{
    if found_attachments {
        let t = crate::text::trim_chars(&str_chars(clean_text));
        if t.len() > 0 {
            Some(string_from_chars(&str_chars(clean_text)))
        } else {
            None
        }
    } else {
        Some(string_from_chars(&str_chars(filtered)))
    }
}

} // verus!
