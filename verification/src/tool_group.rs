//! The tool calls of the running agent turn, shown as one group while they
//! run: a started call is added, a completion updates the newest open call
//! with the same description (or is added as a finished call), and the
//! text the agent streams between rounds flushes the group into the chat.
//! Also the rolling window of build output lines.

use vstd::prelude::*;
use crate::message_expand::{entries_view, entry_view, opt_view, EntryView, ToolCallEntry};
use crate::text::{
    find_from, lemma_find_from, lemma_find_from_absent, lemma_trim_end_ws_suffix,
    lemma_trim_start_ws_append, lemma_trim_start_ws_prefix, occurs_at, push_chars,
    seq_contains_sub, str_chars, string_from_chars, trim_chars, trim_end_ws, trim_start_ws,
    trim_ws,
};
use crate::tool_markers::{
    array_end_at, join_with, json_end_chars, lemma_json_end_closes, lemma_json_end_shift,
    marker_end, marker_v1, marker_v2, next_marker, segments_from, skip_ws, strings_view,
    text_piece, SegmentView,
};
use crate::unicode::is_whitespace_char;

verus! {

/// The calls of the running turn.
#[derive(Clone, Debug, PartialEq, Eq)]
pub struct ToolCallGroup {
    pub calls: Vec<ToolCallEntry>,
    pub expanded: bool,
}

/// The calls of a group, none when there is no group.
pub open spec fn group_calls_view(g: Option<ToolCallGroup>) -> Seq<EntryView> {
    match g {
        Some(group) => entries_view(group.calls@),
        None => Seq::empty(),
    }
}

/// Position of the newest call before position `n` that has description
/// `d` and is still running.
pub open spec fn last_open_match(calls: Seq<EntryView>, d: Seq<char>, n: int) -> Option<int>
    decreases n,
{
    if n <= 0 || n > calls.len() {
        None
    } else if calls[n - 1].description == d && !calls[n - 1].completed {
        Some(n - 1)
    } else {
        last_open_match(calls, d, n - 1)
    }
}

/// The calls after a completion of a call described `d`: the newest
/// running call so described is marked finished with the outcome, or a
/// finished call is added when there is none.
pub open spec fn completed_spec(
    calls: Seq<EntryView>,
    d: Seq<char>,
    success: bool,
    details: Option<Seq<char>>,
    input_json: Option<Seq<char>>,
) -> Seq<EntryView> {
    match last_open_match(calls, d, calls.len() as int) {
        Some(i) => calls.update(
            i,
            EntryView { success, details, completed: true, ..calls[i] },
        ),
        None => calls.push(EntryView { description: d, success, details, completed: true, input_json }),
    }
}

proof fn lemma_last_open_match(calls: Seq<EntryView>, d: Seq<char>, n: int)
    ensures
        last_open_match(calls, d, n) matches Some(i) ==> 0 <= i < n && i < calls.len() && calls[i].description == d
            && !calls[i].completed,
    decreases n,
{
    if n > 0 && n <= calls.len() {
        lemma_last_open_match(calls, d, n - 1);
    }
}

/// The group after a call starts: the running call `entry` is added (to a
/// new, collapsed group when there is none).
pub fn call_started(group: Option<ToolCallGroup>, entry: ToolCallEntry) -> (r: ToolCallGroup)
    ensures
        entries_view(r.calls@) == group_calls_view(group).push(entry_view(entry)),
        r.expanded == match group {
            Some(g) => g.expanded,
            None => false,
        },
{
    match group {
        Some(mut g) => {
            let ghost before = g.calls@;
            g.calls.push(entry);
            assert(entries_view(g.calls@) =~= entries_view(before).push(entry_view(entry)));
            g
        },
        None => {
            let calls = vec![entry];
            assert(entries_view(calls@) =~= Seq::<EntryView>::empty().push(entry_view(entry)));
            ToolCallGroup { calls, expanded: false }
        },
    }
}

/// The group after a call described `description` completes (see
/// `completed_spec`); a new group is made when there is none.
pub fn call_completed(
    group: Option<ToolCallGroup>,
    description: String,
    success: bool,
    details: Option<String>,
    input_json: Option<String>,
) -> (r: ToolCallGroup)
    ensures
        entries_view(r.calls@) == completed_spec(
            group_calls_view(group),
            description@,
            success,
            opt_view(details),
            opt_view(input_json),
        ),
{
    let ghost gv = group_calls_view(group);
    let mut g = match group {
        Some(g) => g,
        None => ToolCallGroup { calls: Vec::new(), expanded: false },
    };
    let ghost cv = entries_view(g.calls@);
    assert(cv == gv);
    let d = str_chars(description.as_str());
    let mut n: usize = g.calls.len();
    proof {
        lemma_last_open_match(cv, description@, n as int);
    }
    while n > 0
        invariant
            n <= g.calls@.len(),
            cv == entries_view(g.calls@),
            cv == gv,
            gv == group_calls_view(group),
            d@ == description@,
            last_open_match(cv, description@, g.calls@.len() as int) == last_open_match(cv, description@, n as int),
        decreases n,
    {
        let c = &g.calls[n - 1];
        assert(cv[n as int - 1] == entry_view(g.calls@[n as int - 1]));
        let same = crate::text::chars_eq(&str_chars(c.description.as_str()), &d);
        if same && !c.completed {
            assert(last_open_match(cv, description@, n as int) == Some(n as int - 1));
            let old_entry = g.calls.remove(n - 1);
            let updated = ToolCallEntry {
                description: old_entry.description,
                success,
                details,
                completed: true,
                input_json: old_entry.input_json,
            };
            let ghost u = updated;
            g.calls.insert(n - 1, updated);
            assert(entries_view(g.calls@) =~= cv.update(
                n as int - 1,
                EntryView { success, details: opt_view(u.details), completed: true, ..cv[n as int - 1] },
            ));
            return g;
        }
        n -= 1;
    }
    let entry = ToolCallEntry { description, success, details, completed: true, input_json };
    let ghost ev = entry_view(entry);
    g.calls.push(entry);
    assert(entries_view(g.calls@) =~= cv.push(ev));
    g
}

/// Whether every call of the group has finished.
pub fn all_completed(group: &ToolCallGroup) -> (b: bool)
    ensures
        b == forall|i: int| 0 <= i < group.calls@.len() ==> (#[trigger] group.calls@[i]).completed,
{
    let mut i: usize = 0;
    while i < group.calls.len()
        invariant
            i <= group.calls@.len(),
            forall|j: int| 0 <= j < i ==> (#[trigger] group.calls@[j]).completed,
        decreases group.calls@.len() - i,
    {
        if !group.calls[i].completed {
            return false;
        }
        i += 1;
    }
    true
}

/// A call that starts and then completes ends up as one finished call at
/// the end of the group, with the completion's outcome and the start's
/// input.
pub proof fn law_start_then_complete(
    calls: Seq<EntryView>,
    e: EntryView,
    success: bool,
    details: Option<Seq<char>>,
    input_json: Option<Seq<char>>,
)
    requires
        !e.completed,
    ensures
        completed_spec(calls.push(e), e.description, success, details, input_json) == calls.push(
            EntryView { success, details, completed: true, ..e },
        ),
{
    let s = calls.push(e);
    assert(last_open_match(s, e.description, s.len() as int) == Some(calls.len() as int));
    assert(s.update(calls.len() as int, EntryView { success, details, completed: true, ..e }) =~= calls.push(
        EntryView { success, details, completed: true, ..e },
    ));
}

/// What the agent's text between two rounds adds to the chat.
#[derive(Clone, Debug, PartialEq, Eq)]
pub enum FlushItem {
    /// The group of calls made so far.
    ToolGroup,
    /// An assistant message with its reasoning.
    Assistant { content: String, details: Option<String> },
}

pub enum FlushView {
    ToolGroup,
    Assistant { content: Seq<char>, details: Option<Seq<char>> },
}

pub open spec fn flush_view(f: FlushItem) -> FlushView {
    match f {
        FlushItem::ToolGroup => FlushView::ToolGroup,
        FlushItem::Assistant { content, details } => FlushView::Assistant { content: content@, details: opt_view(details) },
    }
}

/// The text shown for streamed text `raw`, of which `clean` is what is
/// left once model artifacts are stripped: the stripped text, or the raw
/// one when stripping would leave nothing of a text that had something.
pub open spec fn shown_text(raw: Seq<char>, clean: Seq<char>) -> Seq<char> {
    if trim_ws(raw).len() > 0 && trim_ws(clean).len() == 0 { raw } else { clean }
}

/// What the agent's text between two rounds adds to the chat, in order:
/// with text, the group so far and then the message; with reasoning only,
/// an empty message carrying it and then the group; otherwise just the
/// group (each group only when there is one).
pub open spec fn flush_spec(raw: Seq<char>, clean: Seq<char>, reasoning: Option<Seq<char>>, has_group: bool) -> Seq<FlushView> {
    let text = shown_text(raw, clean);
    let group = if has_group { seq![FlushView::ToolGroup] } else { Seq::empty() };
    if trim_ws(text).len() > 0 {
        group.push(FlushView::Assistant { content: text, details: reasoning })
    } else if reasoning matches Some(r) && trim_ws(r).len() > 0 {
        seq![FlushView::Assistant { content: Seq::empty(), details: reasoning }] + group
    } else {
        group
    }
}

/// What the chat gets from the text between two rounds:
/// - cleaned text that is not blank is shown as the message, after the
///   group: the raw text with its model artifacts is never shown then;
/// - the raw text is shown only when cleaning leaves nothing of a text
///   that had something;
/// - with no text, reasoning that is not blank comes as an empty message
///   carrying it, before the group;
/// - with neither, only the group (when there is one) is added.
pub proof fn law_flush_shows_cleaned_text(raw: Seq<char>, clean: Seq<char>, reasoning: Option<Seq<char>>, has_group: bool)
    ensures
        trim_ws(clean).len() > 0 ==> flush_spec(raw, clean, reasoning, has_group) == (if has_group {
            seq![FlushView::ToolGroup, FlushView::Assistant { content: clean, details: reasoning }]
        } else {
            seq![FlushView::Assistant { content: clean, details: reasoning }]
        }),
        trim_ws(clean).len() == 0 && trim_ws(raw).len() > 0 ==> flush_spec(raw, clean, reasoning, has_group) == (if has_group {
            seq![FlushView::ToolGroup, FlushView::Assistant { content: raw, details: reasoning }]
        } else {
            seq![FlushView::Assistant { content: raw, details: reasoning }]
        }),
        trim_ws(clean).len() == 0 && trim_ws(raw).len() == 0 && (reasoning matches Some(r) && trim_ws(r).len() > 0)
            ==> flush_spec(raw, clean, reasoning, has_group) == (if has_group {
            seq![FlushView::Assistant { content: Seq::empty(), details: reasoning }, FlushView::ToolGroup]
        } else {
            seq![FlushView::Assistant { content: Seq::empty(), details: reasoning }]
        }),
        trim_ws(clean).len() == 0 && trim_ws(raw).len() == 0 && !(reasoning matches Some(r) && trim_ws(r).len() > 0)
            ==> flush_spec(raw, clean, reasoning, has_group) == (if has_group {
            seq![FlushView::ToolGroup]
        } else {
            Seq::<FlushView>::empty()
        }),
{
    let g = if has_group { seq![FlushView::ToolGroup] } else { Seq::<FlushView>::empty() };
    assert(g.push(FlushView::Assistant { content: clean, details: reasoning }) =~= (if has_group {
        seq![FlushView::ToolGroup, FlushView::Assistant { content: clean, details: reasoning }]
    } else {
        seq![FlushView::Assistant { content: clean, details: reasoning }]
    }));
    assert(g.push(FlushView::Assistant { content: raw, details: reasoning }) =~= (if has_group {
        seq![FlushView::ToolGroup, FlushView::Assistant { content: raw, details: reasoning }]
    } else {
        seq![FlushView::Assistant { content: raw, details: reasoning }]
    }));
    assert(seq![FlushView::Assistant { content: Seq::<char>::empty(), details: reasoning }] + g =~= (if has_group {
        seq![FlushView::Assistant { content: Seq::empty(), details: reasoning }, FlushView::ToolGroup]
    } else {
        seq![FlushView::Assistant { content: Seq::empty(), details: reasoning }]
    }));
}

/// What the agent's text between two rounds adds to the chat (see
/// `flush_spec`).
pub fn intermediate_flush(raw: &str, clean: &str, reasoning: Option<&str>, has_group: bool) -> (r: Vec<FlushItem>)
    ensures
        r@.map_values(|f: FlushItem| flush_view(f)) == flush_spec(
            raw@,
            clean@,
            match reasoning {
                Some(t) => Some(t@),
                None => None,
            },
            has_group,
        ),
{
    let raw_chars = str_chars(raw);
    let clean_chars = str_chars(clean);
    let raw_has = trim_chars(&raw_chars).len() > 0;
    let clean_has = trim_chars(&clean_chars).len() > 0;
    let text = if raw_has && !clean_has { raw_chars } else { clean_chars };
    let has_text = trim_chars(&text).len() > 0;
    let ghost rv = match reasoning {
        Some(t) => Some(t@),
        None => None::<Seq<char>>,
    };
    let details: Option<String> = match reasoning {
        Some(t) => Some(string_from_chars(&str_chars(t))),
        None => None,
    };
    let has_reasoning = match reasoning {
        Some(t) => trim_chars(&str_chars(t)).len() > 0,
        None => false,
    };
    let mut out: Vec<FlushItem> = Vec::new();
    if has_text {
        if has_group {
            out.push(FlushItem::ToolGroup);
        }
        out.push(FlushItem::Assistant { content: string_from_chars(&text), details });
    } else if has_reasoning {
        out.push(FlushItem::Assistant { content: String::new(), details });
        if has_group {
            out.push(FlushItem::ToolGroup);
        }
    } else if has_group {
        out.push(FlushItem::ToolGroup);
    }
    assert(out@.map_values(|f: FlushItem| flush_view(f)) =~= flush_spec(raw@, clean@, rv, has_group));
    out
}

/// Build output lines kept on screen.
pub const BUILD_LINES_SHOWN: usize = 6;

/// The build output window after `line` arrives: the newest
/// `BUILD_LINES_SHOWN` lines.
pub fn push_build_line(lines: &mut Vec<String>, line: String)
    requires
        old(lines)@.len() <= BUILD_LINES_SHOWN,
    ensures
        old(lines)@.len() < BUILD_LINES_SHOWN ==> final(lines)@ == old(lines)@.push(line),
        old(lines)@.len() == BUILD_LINES_SHOWN ==> final(lines)@ == old(lines)@.push(line).drop_first(),
        final(lines)@.len() <= BUILD_LINES_SHOWN,
{
    lines.push(line);
    if lines.len() > BUILD_LINES_SHOWN {
        lines.remove(0);
    }
}

/// The build progress message: a header and the window's lines.
pub fn build_progress_text(lines: &Vec<String>) -> (r: String)
    ensures
        r@ == "🦀 Building StemCell...\n"@ + join_with(strings_view(lines@), seq!['\n']),
{
    let mut out = str_chars("🦀 Building StemCell...\n");
    let ghost lv = strings_view(lines@);
    let ghost head = out@;
    let mut i: usize = 0;
    assert(lv.take(0) =~= Seq::<Seq<char>>::empty());
    while i < lines.len()
        invariant
            i <= lines@.len(),
            lv == strings_view(lines@),
            out@ == head + join_with(lv.take(i as int), seq!['\n']),
        decreases lines@.len() - i,
    {
        if i > 0 {
            out.push('\n');
        }
        push_chars(&mut out, &str_chars(lines[i].as_str()));
        proof {
            crate::tool_markers::lemma_join_push(lv.take(i as int), lv[i as int], seq!['\n']);
            assert(lv.take(i as int + 1) =~= lv.take(i as int).push(lv[i as int]));
        }
        i += 1;
    }
    assert(lv.take(lines@.len() as int) =~= lv);
    string_from_chars(&out)
}

/// What is saved of a turn cut short (the second Esc): the running calls
/// as a v2 tool marker around `tools_json` (their JSON array, when there
/// are calls), then the streamed text when it is not blank, followed by a
/// blank line; `None` when there is nothing to save.
pub open spec fn cut_turn_content_spec(tools_json: Option<Seq<char>>, streaming: Option<Seq<char>>) -> Option<Seq<char>> {
    let tools = match tools_json {
        Some(j) => "\n<!-- tools-v2: "@ + j + " -->\n"@,
        None => Seq::empty(),
    };
    let text = match streaming {
        Some(t) => if trim_ws(t).len() > 0 { t + "\n\n"@ } else { Seq::empty() },
        None => Seq::empty(),
    };
    let all = tools + text;
    if all.len() == 0 { None } else { Some(all) }
}

/// What is saved of a turn cut short (see `cut_turn_content_spec`).
pub fn cut_turn_content(tools_json: Option<&str>, streaming: Option<&str>) -> (r: Option<String>)
    ensures
        ({
            let tj = match tools_json {
                Some(j) => Some(j@),
                None => None,
            };
            let st = match streaming {
                Some(t) => Some(t@),
                None => None,
            };
            match cut_turn_content_spec(tj, st) {
                Some(c) => r matches Some(s) && s@ == c,
                None => r is None,
            }
        }),
{
    let mut out: Vec<char> = Vec::new();
    match tools_json {
        Some(j) => {
            push_chars(&mut out, &str_chars("\n<!-- tools-v2: "));
            push_chars(&mut out, &str_chars(j));
            push_chars(&mut out, &str_chars(" -->\n"));
        },
        None => {},
    }
    match streaming {
        Some(t) => {
            let tc = str_chars(t);
            if trim_chars(&tc).len() > 0 {
                push_chars(&mut out, &tc);
                push_chars(&mut out, &str_chars("\n\n"));
            }
        },
        None => {},
    }
    if out.len() == 0 {
        None
    } else {
        Some(string_from_chars(&out))
    }
}

/// Where the saved part of a cut turn goes: appended to the session's last
/// message when that is the assistant's, else into a new assistant message.
pub fn cut_turn_appends(last_role: Option<&str>) -> (b: bool)
    ensures
        b == (last_role matches Some(r) && r@ == "assistant"@),
{
    match last_role {
        Some(r) => crate::text::chars_eq(&str_chars(r), &str_chars("assistant")),
        None => false,
    }
}

/// No marker `m` starts at or after `from` in `c` when, from there on, `c`
/// holds newlines around one copy of `t` (at `start`) in which `m` does not
/// occur, and `m` holds no newline.
proof fn lemma_no_marker_after(c: Seq<char>, m: Seq<char>, t: Seq<char>, from: int, start: int)
    requires
        0 <= from <= start,
        start + t.len() <= c.len(),
        c.subrange(start, start + t.len()) == t,
        forall|q: int| from <= q < start ==> c[q] == '\n',
        forall|q: int| start + t.len() <= q < c.len() ==> c[q] == '\n',
        m.len() > 0,
        forall|k: int| 0 <= k < m.len() ==> m[k] != '\n',
        !seq_contains_sub(t, m),
    ensures
        find_from(c, m, from) == -1,
{
    let e = start + t.len();
    assert forall|p: int| from <= p implies !#[trigger] occurs_at(c, m, p) by {
        if occurs_at(c, m, p) {
            assert(c[p] == m[0]) by {
                assert(c.subrange(p, p + m.len())[0] == c[p]);
            }
            if p < start {
            } else if p >= e {
            } else if p + m.len() <= e {
                assert forall|k: int| 0 <= k < m.len() implies t[p - start + k] == m[k] by {
                    assert(c.subrange(start, e)[p - start + k] == c[p + k]);
                    assert(c.subrange(p, p + m.len())[k] == c[p + k]);
                }
                assert(t.subrange(p - start, p - start + m.len()) =~= m);
                assert(occurs_at(t, m, p - start));
            } else {
                assert(c[e] == m[e - p]) by {
                    assert(c.subrange(p, p + m.len())[e - p] == c[e]);
                }
            }
        }
    }
    lemma_find_from_absent(c, m, from);
}

/// A lone newline trims to nothing.
proof fn lemma_trim_newline()
    ensures
        trim_ws(seq!['\n']).len() == 0,
{
    let e = Seq::<char>::empty();
    assert(seq!['\n'].drop_first() =~= e);
    assert(is_whitespace_char(seq!['\n'][0]));
    assert(trim_start_ws(e) == e);
    assert(trim_start_ws(seq!['\n']) == e);
    assert(trim_end_ws(e) == e);
}

/// Blank lines around a text that is not blank go when it is trimmed.
proof fn lemma_trim_padded(t: Seq<char>)
    requires
        trim_ws(t).len() > 0,
    ensures
        trim_ws(t + "\n\n"@) == trim_ws(t),
        trim_ws(seq!['\n'] + (t + "\n\n"@)) == trim_ws(t),
{
    reveal_strlit("\n\n");
    let n2: Seq<char> = "\n\n"@;
    assert(is_whitespace_char('\n'));
    assert(trim_start_ws(t).len() > 0);
    lemma_trim_start_ws_append(t, n2);
    lemma_trim_end_ws_suffix(trim_start_ws(t), n2);
    lemma_trim_start_ws_prefix(seq!['\n'], t + n2);
}

/// What a turn cut short saves reads back, on reload, as what was on
/// screen: the running calls' v2 marker, whose body is their JSON array,
/// then the streamed text, trimmed, when it is not blank. Holds when the
/// calls' JSON is one balanced array and the streamed text holds no tool
/// marker of its own.
pub proof fn law_cut_turn_reloads(tools_json: Option<Seq<char>>, streaming: Seq<char>)
    requires
        tools_json matches Some(j) ==> array_end_at(j, 0) == Some(j.len() as int),
        !seq_contains_sub(streaming, marker_v1()),
        !seq_contains_sub(streaming, marker_v2()),
        cut_turn_content_spec(tools_json, Some(streaming)) is Some,
    ensures
        segments_from(cut_turn_content_spec(tools_json, Some(streaming)).unwrap(), 0) == (match tools_json {
            Some(j) => seq![SegmentView::ToolsV2(j)],
            None => Seq::empty(),
        }) + text_piece(streaming),
{
    reveal_strlit("\n<!-- tools-v2: ");
    reveal_strlit(" -->\n");
    reveal_strlit("\n\n");
    reveal_strlit("<!-- tools-v2:");
    reveal_strlit("<!-- tools:");
    reveal_strlit("-->");
    let t = streaming;
    let n2: Seq<char> = "\n\n"@;
    let blank = !(trim_ws(t).len() > 0);
    let text: Seq<char> = if !blank { t + n2 } else { Seq::empty() };
    let tt: Seq<char> = if !blank { t } else { Seq::empty() };
    let c = cut_turn_content_spec(tools_json, Some(t)).unwrap();
    assert(is_whitespace_char('\n'));
    assert forall|k: int| 0 <= k < marker_v1().len() implies marker_v1()[k] != '\n' by {}
    assert forall|k: int| 0 <= k < marker_v2().len() implies marker_v2()[k] != '\n' by {}
    assert(!seq_contains_sub(tt, marker_v1()));
    assert(!seq_contains_sub(tt, marker_v2()));
    if !blank {
        lemma_trim_padded(t);
    } else {
        lemma_trim_newline();
    }
    match tools_json {
        None => {
            assert(c =~= t + n2);
            assert(c.subrange(0, t.len() as int) =~= t);
            lemma_no_marker_after(c, marker_v2(), t, 0, 0);
            lemma_no_marker_after(c, marker_v1(), t, 0, 0);
            assert(next_marker(c, 0) is None);
            assert(c.subrange(0, c.len() as int) =~= c);
        },
        Some(j) => {
            let jl = j.len() as int;
            let pre: Seq<char> = "\n<!-- tools-v2: "@;
            let suf: Seq<char> = " -->\n"@;
            assert(c =~= pre + j + suf + text);
            assert(j[0] == '[');
            assert(c[0] == '\n');
            assert(c[15] == ' ');
            assert(c.subrange(16, 16 + jl) =~= j);
            assert(c[16] == '[');
            assert(c[16 + jl] == ' ');
            assert(c[17 + jl] == '-');
            assert(c[20 + jl] == '\n');
            assert(c.subrange(21 + jl, 21 + jl + tt.len()) =~= tt);
            // the marker at 1 is the first one
            assert(!occurs_at(c, marker_v2(), 0)) by {
                assert(c.subrange(0, 14)[0] == c[0]);
            }
            assert(!occurs_at(c, marker_v1(), 0)) by {
                assert(c.subrange(0, 11)[0] == c[0]);
            }
            assert(occurs_at(c, marker_v2(), 1)) by {
                assert(c.subrange(1, 15) =~= marker_v2());
            }
            assert(find_from(c, marker_v2(), 1) == 1);
            assert(find_from(c, marker_v2(), 0) == 1);
            lemma_find_from(c, marker_v1(), 0);
            assert(next_marker(c, 0) == Some((1int, true)));
            assert(trim_ws(c.subrange(0, 1)).len() == 0) by {
                assert(c.subrange(0, 1) =~= seq!['\n']);
                lemma_trim_newline();
            }
            // the marker's body
            assert(skip_ws(c, 16) == 16);
            assert(skip_ws(c, 15) == 16);
            lemma_json_end_shift(j, c, 16, 0, 0, false, false);
            assert(array_end_at(c, 16) == Some(16 + jl));
            assert(skip_ws(c, 17 + jl) == 17 + jl);
            assert(skip_ws(c, 16 + jl) == 17 + jl);
            assert(occurs_at(c, marker_end(), 17 + jl)) by {
                assert(c.subrange(17 + jl, 20 + jl) =~= marker_end());
            }
            lemma_json_end_closes(j, 0, 0, false, false);
            assert(trim_ws(c.subrange(15, 17 + jl)) == j) by {
                let js = j + seq![' '];
                assert(c.subrange(15, 17 + jl) =~= seq![' '] + js);
                assert(is_whitespace_char(' '));
                lemma_trim_start_ws_prefix(seq![' '], js);
                assert(js[0] == '[');
                assert(trim_start_ws(js) == js);
                lemma_trim_end_ws_suffix(j, seq![' ']);
                assert(j.last() == ']' || j.last() == '}');
                assert(trim_end_ws(j) == j);
            }
            // what follows the marker
            lemma_no_marker_after(c, marker_v2(), tt, 20 + jl, 21 + jl);
            lemma_no_marker_after(c, marker_v1(), tt, 20 + jl, 21 + jl);
            assert(next_marker(c, 20 + jl) is None);
            assert(c.subrange(20 + jl, c.len() as int) =~= seq!['\n'] + text);
            assert(text_piece(seq!['\n'] + text) == text_piece(t));
            assert(segments_from(c, 20 + jl) == text_piece(t));
        },
    }
}

} // verus!
