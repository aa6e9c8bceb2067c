//! Stored assistant messages keep the turn's tool calls inline as markers:
//! `<!-- tools: desc1 | desc2 -->` (plain descriptions) or
//! `<!-- tools-v2: [JSON] -->` (a JSON array of calls). Reloading a session
//! splits such a message back into its text pieces and tool-call groups.

use vstd::prelude::*;
use crate::text::{
    chars_contain_sub, chars_eq, chars_start_with, find_chars, find_from, lemma_find_from,
    occurs_at, seq_contains_sub, seq_starts_with, str_chars, string_from_chars, sub_chars,
    trim_chars, trim_ws,
};
use crate::tool_description::decimal;
use crate::unicode::{char_is_whitespace, str_to_lowercase, unicode_lowercase, is_whitespace_char};

verus! {

/// Opening of a v2 marker.
pub open spec fn marker_v2() -> Seq<char> {
    "<!-- tools-v2:"@
}

/// Opening of a v1 marker.
pub open spec fn marker_v1() -> Seq<char> {
    "<!-- tools:"@
}

/// End of a marker.
pub open spec fn marker_end() -> Seq<char> {
    "-->"@
}

/// Separator of the descriptions in a v1 marker.
pub open spec fn v1_separator() -> Seq<char> {
    " | "@
}

/// A piece of a stored message.
pub enum SegmentView {
    /// Text between markers (trimmed, non-empty).
    Text(Seq<char>),
    /// A v1 marker's descriptions.
    ToolsV1(Seq<Seq<char>>),
    /// A v2 marker's JSON text (trimmed).
    ToolsV2(Seq<char>),
}

/// The next marker at or after `pos`: its position and whether it is v2
/// (the earlier of the two kinds; v2 on a tie).
pub open spec fn next_marker(s: Seq<char>, pos: int) -> Option<(int, bool)> {
    let v2 = find_from(s, marker_v2(), pos);
    let v1 = find_from(s, marker_v1(), pos);
    if v2 >= 0 && (v1 < 0 || v2 <= v1) {
        Some((v2, true))
    } else if v1 >= 0 {
        Some((v1, false))
    } else {
        None
    }
}

/// First index at or after `i` that does not hold whitespace.
pub open spec fn skip_ws(s: Seq<char>, i: int) -> int
    decreases s.len() - i,
{
    if i < 0 || i >= s.len() || !is_whitespace_char(s[i]) {
        i
    } else {
        skip_ws(s, i + 1)
    }
}

/// Scan for the bracket closing the outermost one, as for the bytes of a
/// JSON array (see `json_scan`), over chars: the index just past it.
pub open spec fn json_end_chars(s: Seq<char>, i: int, depth: int, in_str: bool, esc: bool) -> Option<int>
    decreases s.len() - i,
{
    if i < 0 || i >= s.len() {
        None
    } else if esc {
        json_end_chars(s, i + 1, depth, in_str, false)
    } else if in_str {
        if s[i] == '\\' {
            json_end_chars(s, i + 1, depth, true, true)
        } else if s[i] == '"' {
            json_end_chars(s, i + 1, depth, false, false)
        } else {
            json_end_chars(s, i + 1, depth, true, false)
        }
    } else if s[i] == '"' {
        json_end_chars(s, i + 1, depth, true, false)
    } else if s[i] == '[' || s[i] == '{' {
        json_end_chars(s, i + 1, depth + 1, false, false)
    } else if s[i] == ']' || s[i] == '}' {
        if depth - 1 == 0 {
            Some(i + 1)
        } else {
            json_end_chars(s, i + 1, depth - 1, false, false)
        }
    } else {
        json_end_chars(s, i + 1, depth, false, false)
    }
}

/// End of the balanced JSON array starting at `i`, if one starts there.
pub open spec fn array_end_at(s: Seq<char>, i: int) -> Option<int> {
    if 0 <= i < s.len() && s[i] == '[' {
        json_end_chars(s, i, 0, false, false)
    } else {
        None
    }
}

/// The body of the marker whose content starts at `a`, and the index just
/// past the marker; `None` when the marker is not closed (for v2: not a
/// balanced JSON array followed by `-->`).
pub open spec fn close_marker(s: Seq<char>, a: int, v2: bool) -> Option<(Seq<char>, int)> {
    if v2 {
        match array_end_at(s, skip_ws(s, a)) {
            None => None,
            Some(ae) => {
                let pe = skip_ws(s, ae);
                if occurs_at(s, marker_end(), pe) {
                    Some((trim_ws(s.subrange(a, pe)), pe + marker_end().len()))
                } else {
                    None
                }
            },
        }
    } else {
        let e = find_from(s, marker_end(), a);
        if e < 0 {
            None
        } else {
            Some((trim_ws(s.subrange(a, e)), e + marker_end().len()))
        }
    }
}

/// The pieces `s[pos..]` split at `sep`, as `str::split` yields them.
pub open spec fn split_from(s: Seq<char>, sep: Seq<char>, pos: int) -> Seq<Seq<char>>
    decreases s.len() + 1 - pos,
{
    let i = find_from(s, sep, pos);
    if pos < 0 || pos > s.len() || sep.len() == 0 || i < pos || i + sep.len() > s.len() {
        seq![s.subrange(pos, s.len() as int)]
    } else {
        seq![s.subrange(pos, i)] + split_from(s, sep, i + sep.len())
    }
}

/// The text piece for `t`, if it is not blank.
pub open spec fn text_piece(t: Seq<char>) -> Seq<SegmentView> {
    if trim_ws(t).len() > 0 {
        seq![SegmentView::Text(trim_ws(t))]
    } else {
        Seq::empty()
    }
}

/// The pieces of `s` from `pos` on. A marker that is not closed ends the
/// splitting: the text after its opening is the last piece.
pub open spec fn segments_from(s: Seq<char>, pos: int) -> Seq<SegmentView>
    decreases s.len() + 1 - pos,
{
    if pos < 0 || pos > s.len() {
        Seq::empty()
    } else {
        match next_marker(s, pos) {
            None => text_piece(s.subrange(pos, s.len() as int)),
            Some((m, v2)) => {
                let head = text_piece(s.subrange(pos, m));
                let a = m + if v2 {
                    marker_v2().len()
                } else {
                    marker_v1().len()
                };
                match close_marker(s, a, v2) {
                    None => head + text_piece(s.subrange(a, s.len() as int)),
                    Some((body, next)) => {
                        let seg = if v2 {
                            SegmentView::ToolsV2(body)
                        } else {
                            SegmentView::ToolsV1(split_from(body, v1_separator(), 0))
                        };
                        head + seq![seg] + if pos < next <= s.len() {
                            segments_from(s, next)
                        } else {
                            Seq::empty()
                        }
                    },
                }
            },
        }
    }
}

/// A piece of a stored message.
#[derive(Clone, Debug, PartialEq, Eq)]
pub enum MarkerSegment {
    /// Text between markers (trimmed, non-empty).
    Text(String),
    /// A v1 marker's descriptions.
    ToolsV1(Vec<String>),
    /// A v2 marker's JSON text (trimmed), parsed by the caller.
    ToolsV2(String),
}

/// The texts of a list of strings.
pub open spec fn strings_view(v: Seq<String>) -> Seq<Seq<char>> {
    v.map_values(|s: String| s@)
}

/// The view of a piece.
pub open spec fn segment_view(m: MarkerSegment) -> SegmentView {
    match m {
        MarkerSegment::Text(t) => SegmentView::Text(t@),
        MarkerSegment::ToolsV1(v) => SegmentView::ToolsV1(strings_view(v@)),
        MarkerSegment::ToolsV2(t) => SegmentView::ToolsV2(t@),
    }
}

/// The views of a list of pieces.
pub open spec fn segments_view(v: Seq<MarkerSegment>) -> Seq<SegmentView> {
    v.map_values(|m: MarkerSegment| segment_view(m))
}

/// First index at or after `i` that does not hold whitespace.
fn skip_ws_exec(s: &[char], i: usize) -> (r: usize)
    requires
        i <= s@.len(),
    ensures
        r == skip_ws(s@, i as int),
        i <= r <= s@.len(),
{
    let mut j = i;
    while j < s.len() && char_is_whitespace(s[j])
        invariant
            i <= j <= s@.len(),
            skip_ws(s@, j as int) == skip_ws(s@, i as int),
        decreases s@.len() - j,
    {
        j += 1;
    }
    j
}

proof fn lemma_json_end_bounds(s: Seq<char>, i: int, depth: int, in_str: bool, esc: bool)
    ensures
        json_end_chars(s, i, depth, in_str, esc) matches Some(e) ==> i < e <= s.len(),
    decreases s.len() - i,
{
    if 0 <= i < s.len() {
        if esc {
            lemma_json_end_bounds(s, i + 1, depth, in_str, false);
        } else if in_str {
            if s[i] == '\\' {
                lemma_json_end_bounds(s, i + 1, depth, true, true);
            } else if s[i] == '"' {
                lemma_json_end_bounds(s, i + 1, depth, false, false);
            } else {
                lemma_json_end_bounds(s, i + 1, depth, true, false);
            }
        } else if s[i] == '"' {
            lemma_json_end_bounds(s, i + 1, depth, true, false);
        } else if s[i] == '[' || s[i] == '{' {
            lemma_json_end_bounds(s, i + 1, depth + 1, false, false);
        } else if s[i] == ']' || s[i] == '}' {
            if depth - 1 != 0 {
                lemma_json_end_bounds(s, i + 1, depth - 1, false, false);
            }
        } else {
            lemma_json_end_bounds(s, i + 1, depth, false, false);
        }
    }
}

/// The bracket scan reads a copy of `j` placed at `off` in `c` as it reads
/// `j`: the end it finds is shifted by `off`.
pub proof fn lemma_json_end_shift(
    j: Seq<char>,
    c: Seq<char>,
    off: int,
    i: int,
    depth: int,
    in_str: bool,
    esc: bool,
)
    requires
        0 <= off,
        off + j.len() <= c.len(),
        c.subrange(off, off + j.len()) == j,
    ensures
        json_end_chars(j, i, depth, in_str, esc) matches Some(e) ==> json_end_chars(
            c,
            off + i,
            depth,
            in_str,
            esc,
        ) == Some(off + e),
    decreases j.len() - i,
{
    if 0 <= i < j.len() {
        assert(c[off + i] == j[i]) by {
            assert(c.subrange(off, off + j.len())[i] == c[off + i]);
        }
        if esc {
            lemma_json_end_shift(j, c, off, i + 1, depth, in_str, false);
        } else if in_str {
            if j[i] == '\\' {
                lemma_json_end_shift(j, c, off, i + 1, depth, true, true);
            } else if j[i] == '"' {
                lemma_json_end_shift(j, c, off, i + 1, depth, false, false);
            } else {
                lemma_json_end_shift(j, c, off, i + 1, depth, true, false);
            }
        } else if j[i] == '"' {
            lemma_json_end_shift(j, c, off, i + 1, depth, true, false);
        } else if j[i] == '[' || j[i] == '{' {
            lemma_json_end_shift(j, c, off, i + 1, depth + 1, false, false);
        } else if j[i] == ']' || j[i] == '}' {
            if depth - 1 != 0 {
                lemma_json_end_shift(j, c, off, i + 1, depth - 1, false, false);
            }
        } else {
            lemma_json_end_shift(j, c, off, i + 1, depth, false, false);
        }
    }
}

/// The scan ends just past a closing bracket.
pub proof fn lemma_json_end_closes(s: Seq<char>, i: int, depth: int, in_str: bool, esc: bool)
    ensures
        json_end_chars(s, i, depth, in_str, esc) matches Some(e) ==> (s[e - 1] == ']' || s[e - 1]
            == '}'),
    decreases s.len() - i,
{
    if 0 <= i < s.len() {
        if esc {
            lemma_json_end_closes(s, i + 1, depth, in_str, false);
        } else if in_str {
            if s[i] == '\\' {
                lemma_json_end_closes(s, i + 1, depth, true, true);
            } else if s[i] == '"' {
                lemma_json_end_closes(s, i + 1, depth, false, false);
            } else {
                lemma_json_end_closes(s, i + 1, depth, true, false);
            }
        } else if s[i] == '"' {
            lemma_json_end_closes(s, i + 1, depth, true, false);
        } else if s[i] == '[' || s[i] == '{' {
            lemma_json_end_closes(s, i + 1, depth + 1, false, false);
        } else if s[i] == ']' || s[i] == '}' {
            if depth - 1 != 0 {
                lemma_json_end_closes(s, i + 1, depth - 1, false, false);
            }
        } else {
            lemma_json_end_closes(s, i + 1, depth, false, false);
        }
    }
}

/// End of the balanced JSON array starting at `i`, if one starts there.
fn array_end_exec(s: &[char], i: usize) -> (r: Option<usize>)
    requires
        i <= s@.len(),
    ensures
        match r {
            Some(e) => array_end_at(s@, i as int) == Some(e as int) && i < e <= s@.len(),
            None => array_end_at(s@, i as int) is None,
        },
{
    let n = s.len();
    if i >= n || s[i] != '[' {
        return None;
    }
    proof {
        lemma_json_end_bounds(s@, i as int, 0, false, false);
    }
    let mut depth: usize = 0;
    let mut in_string = false;
    let mut escape = false;
    let mut j: usize = i;
    while j < n
        invariant
            n == s@.len(),
            i <= j <= n,
            i < n,
            s@[i as int] == '[',
            depth <= j - i,
            j > i ==> depth >= 1,
            j == i ==> depth == 0 && !in_string && !escape,
            array_end_at(s@, i as int) == json_end_chars(s@, j as int, depth as int, in_string, escape),
        decreases n - j,
    {
        let c = s[j];
        if escape {
            escape = false;
        } else if in_string {
            if c == '\\' {
                escape = true;
            } else if c == '"' {
                in_string = false;
            }
        } else if c == '"' {
            in_string = true;
        } else if c == '[' || c == '{' {
            depth += 1;
        } else if c == ']' || c == '}' {
            if depth == 1 {
                return Some(j + 1);
            }
            depth -= 1;
        }
        j += 1;
    }
    None
}

/// Whether `p` occurs in `s` at `i`.
fn occurs_at_exec(s: &[char], p: &[char], i: usize) -> (b: bool)
    requires
        i <= s@.len(),
    ensures
        b == occurs_at(s@, p@, i as int),
{
    if p.len() > s.len() - i {
        return false;
    }
    let sub = sub_chars(s, i, i + p.len());
    chars_eq(&sub, p)
}

/// The patterns the splitter looks for.
struct MarkerPatterns {
    v2: Vec<char>,
    v1: Vec<char>,
    end: Vec<char>,
    sep: Vec<char>,
}

impl MarkerPatterns {
    spec fn wf(&self) -> bool {
        &&& self.v2@ == marker_v2()
        &&& self.v1@ == marker_v1()
        &&& self.end@ == marker_end()
        &&& self.sep@ == v1_separator()
    }

    fn new() -> (p: MarkerPatterns)
        ensures
            p.wf(),
    {
        MarkerPatterns {
            v2: str_chars("<!-- tools-v2:"),
            v1: str_chars("<!-- tools:"),
            end: str_chars("-->"),
            sep: str_chars(" | "),
        }
    }
}

/// The pieces of `s[pos..]` split at `sep`.
fn split_exec(s: &[char], sep: &[char]) -> (r: Vec<String>)
    requires
        sep@.len() > 0,
    ensures
        strings_view(r@) == split_from(s@, sep@, 0),
{
    let mut out: Vec<String> = Vec::new();
    let mut pos: usize = 0;
    let n = s.len();
    loop
        invariant
            n == s@.len(),
            sep@.len() > 0,
            pos <= s@.len(),
            strings_view(out@) + split_from(s@, sep@, pos as int) == split_from(s@, sep@, 0),
        decreases s@.len() + 1 - pos,
    {
        let ghost old_out = out@;
        proof {
            lemma_find_from(s@, sep@, pos as int);
        }
        match find_chars(s, sep, pos) {
            None => {
                let piece = string_from_chars(&sub_chars(s, pos, s.len()));
                out.push(piece);
                assert(strings_view(out@) =~= strings_view(old_out).push(piece@));
                assert(strings_view(out@) =~= strings_view(old_out) + split_from(s@, sep@, pos as int));
                return out;
            },
            Some(i) => {
                let piece = string_from_chars(&sub_chars(s, pos, i));
                out.push(piece);
                assert(strings_view(out@) =~= strings_view(old_out).push(piece@));
                assert(strings_view(out@) + split_from(s@, sep@, (i + sep.len()) as int) =~= strings_view(old_out) + split_from(s@, sep@, pos as int));
                pos = i + sep.len();
            },
        }
    }
}

/// The body of the marker whose content starts at `a` and the index just
/// past it (see `close_marker`).
fn close_marker_exec(s: &[char], a: usize, v2: bool, pats: &MarkerPatterns) -> (r: Option<(Vec<char>, usize)>)
    requires
        pats.wf(),
        a <= s@.len(),
    ensures
        match r {
            Some((body, next)) => close_marker(s@, a as int, v2) == Some((body@, next as int)) && a
                < next <= s@.len(),
            None => close_marker(s@, a as int, v2) is None,
        },
{
    let len = s.len();
    assert(len == s@.len());
    if v2 {
        let le = skip_ws_exec(s, a);
        match array_end_exec(s, le) {
            None => None,
            Some(ae) => {
                let pe = skip_ws_exec(s, ae);
                if occurs_at_exec(s, &pats.end, pe) {
                    let body = trim_chars(&sub_chars(s, a, pe));
                    Some((body, pe + pats.end.len()))
                } else {
                    None
                }
            },
        }
    } else {
        proof {
            lemma_find_from(s@, marker_end(), a as int);
        }
        match find_chars(s, &pats.end, a) {
            None => None,
            Some(e) => {
                let body = trim_chars(&sub_chars(s, a, e));
                proof {
                    reveal_strlit("-->");
                }
                Some((body, e + pats.end.len()))
            },
        }
    }
}

/// The text piece for `s[from..to]`, if it is not blank.
fn push_text_piece(out: &mut Vec<MarkerSegment>, s: &[char], from: usize, to: usize)
    requires
        from <= to <= s@.len(),
    ensures
        segments_view(final(out)@) == segments_view(old(out)@) + text_piece(s@.subrange(from as int, to as int)),
{
    let t = trim_chars(&sub_chars(s, from, to));
    let ghost before = old(out)@;
    if t.len() > 0 {
        let piece = string_from_chars(&t);
        out.push(MarkerSegment::Text(piece));
        assert(segments_view(out@) =~= segments_view(before).push(SegmentView::Text(t@)));
    } else {
        assert(segments_view(out@) =~= segments_view(before) + Seq::<SegmentView>::empty());
    }
}

/// Splits a stored assistant message into its text pieces (trimmed, blank
/// ones left out) and its tool-call markers, in order. A v1 marker gives its
/// descriptions split at ` | `; a v2 marker gives its JSON text. A marker
/// that is not closed (for v2: a balanced JSON array followed by `-->`)
/// ends the splitting, and the text after its opening becomes the last
/// piece.
pub fn split_tool_markers(content: &str) -> (r: Vec<MarkerSegment>)
    ensures
        segments_view(r@) == segments_from(content@, 0),
{
    let pats = MarkerPatterns::new();
    let s = str_chars(content);
    let n = s.len();
    let mut out: Vec<MarkerSegment> = Vec::new();
    let mut pos: usize = 0;
    proof {
        reveal_strlit("<!-- tools-v2:");
        reveal_strlit("<!-- tools:");
        reveal_strlit(" | ");
    }
    loop
        invariant
            pats.wf(),
            n == s@.len(),
            s@ == content@,
            pos <= n,
            marker_v2().len() == 14,
            marker_v1().len() == 11,
            v1_separator().len() == 3,
            segments_view(out@) + segments_from(s@, pos as int) == segments_from(s@, 0),
        decreases n + 1 - pos,
    {
        let ghost old_out = out@;
        proof {
            lemma_find_from(s@, marker_v2(), pos as int);
            lemma_find_from(s@, marker_v1(), pos as int);
        }
        let f2 = find_chars(&s, &pats.v2, pos);
        let f1 = find_chars(&s, &pats.v1, pos);
        let found: Option<(usize, bool)> = match (f2, f1) {
            (Some(a2), Some(a1)) => if a2 <= a1 {
                Some((a2, true))
            } else {
                Some((a1, false))
            },
            (Some(a2), None) => Some((a2, true)),
            (None, Some(a1)) => Some((a1, false)),
            (None, None) => None,
        };
        match found {
            None => {
                push_text_piece(&mut out, &s, pos, n);
                assert(segments_view(out@) == segments_from(s@, 0));
                return out;
            },
            Some((m, v2)) => {
                push_text_piece(&mut out, &s, pos, m);
                let a = if v2 {
                    m + pats.v2.len()
                } else {
                    m + pats.v1.len()
                };
                match close_marker_exec(&s, a, v2, &pats) {
                    None => {
                        push_text_piece(&mut out, &s, a, n);
                        assert(segments_view(out@) =~= segments_from(s@, 0));
                        return out;
                    },
                    Some((body, next)) => {
                        let ghost mid = out@;
                        let seg = if v2 {
                            MarkerSegment::ToolsV2(string_from_chars(&body))
                        } else {
                            MarkerSegment::ToolsV1(split_exec(&body, &pats.sep))
                        };
                        out.push(seg);
                        assert(segments_view(out@) =~= segments_view(mid).push(segment_view(seg)));
                        assert(segments_view(out@) + segments_from(s@, next as int) =~= segments_from(s@, 0));
                        pos = next;
                    },
                }
            },
        }
    }
}

/// The label of a tool-call group: "1 tool call", "N tool calls".
pub fn tool_group_label(count: usize) -> (r: String)
    ensures
        r@ == decimal(count as nat) + (if count == 1 {
            " tool call"@
        } else {
            " tool calls"@
        }),
{
    let mut out = crate::history::decimal_digits(count as u64);
    let mut tail = if count == 1 {
        str_chars(" tool call")
    } else {
        str_chars(" tool calls")
    };
    out.append(&mut tail);
    string_from_chars(&out)
}

/// How a stored message is shown again.
#[derive(Clone, Copy, Debug, PartialEq, Eq, Structural)]
pub enum Expansion {
    /// A context-compaction summary: not shown at all.
    Hidden,
    /// Shown as one message.
    Single,
    /// Split into text pieces, reasoning and tool-call groups.
    Split,
}

/// The expansion of a stored message with role `role`, content `content`
/// and reasoning stored beside it (`thinking`).
pub open spec fn expansion_spec(role: Seq<char>, content: Seq<char>, thinking: Option<Seq<char>>) -> Expansion {
    let lower = unicode_lowercase(content);
    let has_thinking = thinking matches Some(t) && trim_ws(t).len() > 0;
    if seq_starts_with(content, "[CONTEXT COMPACTION"@) {
        Expansion::Hidden
    } else if role == "assistant"@ && (seq_contains_sub(content, "<!-- tools"@)
        || seq_contains_sub(content, "<!-- reasoning -->"@) || seq_contains_sub(lower, "<antthinking"@)
        || seq_contains_sub(lower, "<think"@) || has_thinking || seq_contains_sub(
        content,
        "\u{fe0f}\u{20e3}"@,
    ) || seq_contains_sub(content, "<tool_call>"@)) {
        Expansion::Split
    } else {
        Expansion::Single
    }
}

/// Which stored messages are shown again how: a context-compaction summary
/// is hidden; any other message that is not the assistant's is shown as
/// it is; an assistant message holding a tool marker, a reasoning comment,
/// a `<think`/`<antthinking` tag (any case), a `<tool_call>` tag, a keycap
/// emoji or stored reasoning that is not blank is split, and one holding
/// none of these is shown as it is.
pub proof fn law_expansion_by_content(role: Seq<char>, content: Seq<char>, thinking: Option<Seq<char>>)
    ensures
        seq_starts_with(content, "[CONTEXT COMPACTION"@) ==> expansion_spec(role, content, thinking)
            == Expansion::Hidden,
        !seq_starts_with(content, "[CONTEXT COMPACTION"@) && role != "assistant"@ ==> expansion_spec(
            role,
            content,
            thinking,
        ) == Expansion::Single,
        !seq_starts_with(content, "[CONTEXT COMPACTION"@) && role == "assistant"@ ==> (expansion_spec(
            role,
            content,
            thinking,
        ) == Expansion::Split <==> (seq_contains_sub(content, "<!-- tools"@) || seq_contains_sub(
            content,
            "<!-- reasoning -->"@,
        ) || seq_contains_sub(unicode_lowercase(content), "<think"@) || seq_contains_sub(
            unicode_lowercase(content),
            "<antthinking"@,
        ) || seq_contains_sub(content, "<tool_call>"@) || seq_contains_sub(
            content,
            "\u{fe0f}\u{20e3}"@,
        ) || (thinking matches Some(t) && trim_ws(t).len() > 0))),
        !seq_starts_with(content, "[CONTEXT COMPACTION"@) ==> expansion_spec(role, content, thinking)
            != Expansion::Hidden,
{
}

/// Whether `h` contains the text `n`.
fn contains(h: &[char], n: &str) -> (b: bool)
    ensures
        b == seq_contains_sub(h@, n@),
{
    let nc = str_chars(n);
    chars_contain_sub(h, &nc)
}

/// How a stored message is shown again: compaction summaries are hidden;
/// assistant messages with tool markers, reasoning markers or tags, stored
/// reasoning, or tool-call tags are split; anything else is shown as it is.
pub fn message_expansion(role: &str, content: &str, thinking: Option<&str>) -> (r: Expansion)
    ensures
        r == expansion_spec(
            role@,
            content@,
            match thinking {
                Some(t) => Some(t@),
                None => None,
            },
        ),
{
    let c = str_chars(content);
    let prefix = str_chars("[CONTEXT COMPACTION");
    if chars_start_with(&c, &prefix) {
        return Expansion::Hidden;
    }
    let role_chars = str_chars(role);
    let assistant = str_chars("assistant");
    if !chars_eq(&role_chars, &assistant) {
        return Expansion::Single;
    }
    let lower = str_chars(str_to_lowercase(content).as_str());
    let has_thinking = match thinking {
        Some(t) => trim_chars(&str_chars(t)).len() > 0,
        None => false,
    };
    if contains(&c, "<!-- tools") || contains(&c, "<!-- reasoning -->") || contains(
        &lower,
        "<antthinking",
    ) || contains(&lower, "<think") || has_thinking || contains(&c, "\u{fe0f}\u{20e3}")
        || contains(&c, "<tool_call>") {
        Expansion::Split
    } else {
        Expansion::Single
    }
}

/// A message without tool markers comes back as a single trimmed piece
/// (none when blank).
pub proof fn law_plain_text_single_piece(s: Seq<char>)
    requires
        next_marker(s, 0) is None,
    ensures
        segments_from(s, 0) == text_piece(s),
{
    assert(s.subrange(0, s.len() as int) =~= s);
}

/// The pieces joined back with the separator between them.
pub open spec fn join_with(pieces: Seq<Seq<char>>, sep: Seq<char>) -> Seq<char>
    decreases pieces.len(),
{
    if pieces.len() == 0 {
        Seq::empty()
    } else if pieces.len() == 1 {
        pieces[0]
    } else {
        pieces[0] + sep + join_with(pieces.drop_first(), sep)
    }
}

/// Splitting at a separator and joining the pieces with it gives back the
/// text: the descriptions of a v1 marker lose nothing of its body.
pub proof fn law_split_join(s: Seq<char>, sep: Seq<char>, pos: int)
    requires
        0 <= pos <= s.len(),
        sep.len() > 0,
    ensures
        join_with(split_from(s, sep, pos), sep) == s.subrange(pos, s.len() as int),
    decreases s.len() + 1 - pos,
{
    let i = find_from(s, sep, pos);
    lemma_find_from(s, sep, pos);
    if i >= pos && i + sep.len() <= s.len() {
        law_split_join(s, sep, i + sep.len());
        let rest = split_from(s, sep, i + sep.len());
        assert(rest.len() >= 1) by {
            reveal_with_fuel(split_from, 2);
        }
        assert(split_from(s, sep, pos) == seq![s.subrange(pos, i)] + rest);
        assert((seq![s.subrange(pos, i)] + rest).drop_first() =~= rest);
        assert(s.subrange(i, i + sep.len()) == sep);
        assert(s.subrange(pos, i) + sep + s.subrange(i + sep.len(), s.len() as int) =~= s.subrange(
            pos,
            s.len() as int,
        ));
    }
}

/// Joining one more piece adds the separator and the piece (only the piece
/// when there was none).
pub proof fn lemma_join_push(pieces: Seq<Seq<char>>, x: Seq<char>, sep: Seq<char>)
    ensures
        join_with(pieces.push(x), sep) == if pieces.len() == 0 { x } else { join_with(pieces, sep) + sep + x },
    decreases pieces.len(),
{
    if pieces.len() == 0 {
        assert(pieces.push(x) =~= seq![x]);
    } else if pieces.len() == 1 {
        assert(pieces.push(x).drop_first() =~= seq![x]);
        assert(join_with(seq![x], sep) == x);
        assert(pieces.push(x)[0] == pieces[0]);
    } else {
        lemma_join_push(pieces.drop_first(), x, sep);
        assert(pieces.push(x).drop_first() =~= pieces.drop_first().push(x));
        assert(pieces.push(x)[0] == pieces[0]);
        let j = join_with(pieces.drop_first(), sep);
        assert(pieces[0] + sep + (j + sep + x) =~= (pieces[0] + sep + j) + sep + x);
    }
}

} // verus!
