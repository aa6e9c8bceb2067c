//! How a stored assistant message that carries tool-call markers or
//! reasoning is shown again: as text pieces (each with the reasoning split
//! off it) and tool-call groups, in order, with the stored reasoning
//! attached where the text itself had none.

use vstd::prelude::*;
use crate::reasoning::{extract_reasoning, reasoning_spec};
use crate::text::{str_chars, string_from_chars, trim_chars, trim_ws};
use crate::tool_description::decimal;
use crate::tool_markers::{
    join_with, segment_view, segments_from, segments_view, split_tool_markers, strings_view, tool_group_label,
    MarkerSegment, SegmentView,
};

verus! {

/// Fields of one entry of a v2 marker's JSON array: its `d` string, `s`
/// bool and `o` string, and its `i` value as JSON text.
#[derive(Clone, Debug)]
pub struct V2Fields {
    pub d: Option<String>,
    pub s: Option<bool>,
    pub o: Option<String>,
    pub i: Option<String>,
}

pub open spec fn opt_view(o: Option<String>) -> Option<Seq<char>> {
    match o {
        Some(s) => Some(s@),
        None => None,
    }
}

pub open spec fn v2_fields_view(f: V2Fields) -> (Option<Seq<char>>, Option<bool>, Option<Seq<char>>, Option<Seq<char>>) {
    (opt_view(f.d), f.s, opt_view(f.o), opt_view(f.i))
}

/// What `serde_json` reads from a v2 marker's JSON text, entry by entry.
pub uninterp spec fn json_v2_fields(text: Seq<char>) -> Seq<(Option<Seq<char>>, Option<bool>, Option<Seq<char>>, Option<Seq<char>>)>;

/// `serde_json::from_str::<Vec<serde_json::Value>>`: the entries of a JSON
/// array (none when the text is not one), each read through
/// `Value::index`/`as_str`/`as_bool` for its `d`, `s` and `o` fields and
/// `Value::get` plus `to_string` for its `i` field. The contract names the
/// result as a function of the text alone; what JSON parsing yields is not
/// stated.
#[verifier::external_body]
fn parse_v2_fields(text: &str) -> (r: Vec<V2Fields>)
    ensures
        r@.map_values(|f: V2Fields| v2_fields_view(f)) == json_v2_fields(text@),
{
    let entries: Vec<serde_json::Value> = serde_json::from_str(text).unwrap_or_default();
    entries.iter().map(|e| V2Fields {
        d: e["d"].as_str().map(|s| s.to_string()),
        s: e["s"].as_bool(),
        o: e["o"].as_str().map(|s| s.to_string()),
        i: e.get("i").map(|v| v.to_string()),
    }).collect()
}

/// One call of a tool-call group.
#[derive(Clone, Debug, PartialEq, Eq)]
pub struct ToolCallEntry {
    pub description: String,
    pub success: bool,
    /// The call's output, when there is any.
    pub details: Option<String>,
    pub completed: bool,
    /// The call's input as JSON text, when recorded.
    pub input_json: Option<String>,
}

/// A call as plain values.
pub struct EntryView {
    pub description: Seq<char>,
    pub success: bool,
    pub details: Option<Seq<char>>,
    pub completed: bool,
    pub input_json: Option<Seq<char>>,
}

pub open spec fn entry_view(e: ToolCallEntry) -> EntryView {
    EntryView {
        description: e.description@,
        success: e.success,
        details: opt_view(e.details),
        completed: e.completed,
        input_json: opt_view(e.input_json),
    }
}

/// A v1 description: a completed, successful call without output.
pub open spec fn v1_entry(desc: Seq<char>) -> EntryView {
    EntryView { description: desc, success: true, details: None, completed: true, input_json: None }
}

/// A v2 entry: description `?` and success when missing, output only
/// when non-empty.
pub open spec fn v2_entry(f: (Option<Seq<char>>, Option<bool>, Option<Seq<char>>, Option<Seq<char>>)) -> EntryView {
    EntryView {
        description: match f.0 {
            Some(d) => d,
            None => "?"@,
        },
        success: match f.1 {
            Some(s) => s,
            None => true,
        },
        details: match f.2 {
            Some(o) => if o.len() > 0 { Some(o) } else { None },
            None => None,
        },
        completed: true,
        input_json: f.3,
    }
}

/// The calls of a marker piece.
pub open spec fn group_calls(seg: SegmentView) -> Seq<EntryView> {
    match seg {
        SegmentView::ToolsV1(ds) => ds.map_values(|d: Seq<char>| v1_entry(d)),
        SegmentView::ToolsV2(j) => json_v2_fields(j).map_values(
            |f: (Option<Seq<char>>, Option<bool>, Option<Seq<char>>, Option<Seq<char>>)| v2_entry(f),
        ),
        SegmentView::Text(_) => Seq::empty(),
    }
}

/// Label of a group of `n` calls.
pub open spec fn group_label(n: nat) -> Seq<char> {
    decimal(n) + (if n == 1 { " tool call"@ } else { " tool calls"@ })
}

/// A piece of an expanded message.
#[derive(Clone, Debug, PartialEq, Eq)]
pub enum ExpandedPiece {
    /// Assistant text (empty when the piece only carries reasoning) with its
    /// reasoning; `original` marks the piece that keeps the stored
    /// message's id, token count and cost.
    Text { content: String, details: Option<String>, original: bool },
    /// A group of tool calls.
    ToolGroup { label: String, calls: Vec<ToolCallEntry>, details: Option<String> },
}

/// A piece as plain values.
pub enum PieceView {
    Text { content: Seq<char>, details: Option<Seq<char>>, original: bool },
    ToolGroup { label: Seq<char>, calls: Seq<EntryView>, details: Option<Seq<char>> },
}

pub open spec fn piece_view(p: ExpandedPiece) -> PieceView {
    match p {
        ExpandedPiece::Text { content, details, original } => PieceView::Text {
            content: content@,
            details: opt_view(details),
            original,
        },
        ExpandedPiece::ToolGroup { label, calls, details } => PieceView::ToolGroup {
            label: label@,
            calls: calls@.map_values(|e: ToolCallEntry| entry_view(e)),
            details: opt_view(details),
        },
    }
}

pub open spec fn pieces_view(v: Seq<ExpandedPiece>) -> Seq<PieceView> {
    v.map_values(|p: ExpandedPiece| piece_view(p))
}

/// The piece a text between markers gives: its text without reasoning,
/// with the reasoning joined by blank lines; a reasoning-only piece when
/// no text is left; nothing when neither is there. `None` where the
/// reasoning split fails.
pub open spec fn text_part(t: Seq<char>) -> Option<Option<(Seq<char>, Option<Seq<char>>)>> {
    match reasoning_spec(t) {
        None => None,
        Some((ps, rest)) => {
            let det = if ps.len() == 0 { None } else { Some(join_with(ps, "\n\n"@)) };
            if rest.len() > 0 {
                Some(Some((rest, det)))
            } else if ps.len() > 0 {
                Some(Some((Seq::empty(), det)))
            } else {
                Some(None)
            }
        },
    }
}

/// The pieces of the first `n` marker pieces, and whether no text piece
/// was made yet.
pub open spec fn expand_fold(segs: Seq<SegmentView>, n: nat) -> Option<(Seq<PieceView>, bool)>
    decreases n,
{
    if n == 0 || n > segs.len() {
        Some((Seq::empty(), true))
    } else {
        match expand_fold(segs, (n - 1) as nat) {
            None => None,
            Some((ps, first)) => match segs[n - 1] {
                SegmentView::Text(t) => match text_part(t) {
                    None => None,
                    Some(None) => Some((ps, first)),
                    Some(Some((c, d))) => Some((ps.push(PieceView::Text { content: c, details: d, original: first }), false)),
                },
                other => {
                    let calls = group_calls(other);
                    if calls.len() > 0 {
                        Some((ps.push(PieceView::ToolGroup { label: group_label(calls.len()), calls, details: None }), first))
                    } else {
                        Some((ps, first))
                    }
                },
            },
        }
    }
}

pub open spec fn has_details(p: PieceView) -> bool {
    match p {
        PieceView::Text { details, .. } => details is Some,
        PieceView::ToolGroup { details, .. } => details is Some,
    }
}

pub open spec fn with_details(p: PieceView, d: Seq<char>) -> PieceView {
    match p {
        PieceView::Text { content, original, .. } => PieceView::Text { content, details: Some(d), original },
        PieceView::ToolGroup { label, calls, .. } => PieceView::ToolGroup { label, calls, details: Some(d) },
    }
}

/// Position of the first text piece with content, from `i` on.
pub open spec fn first_content_text(ps: Seq<PieceView>, i: int) -> Option<int>
    decreases ps.len() - i,
{
    if i < 0 || i >= ps.len() {
        None
    } else if ps[i] matches PieceView::Text { content, .. } && content.len() > 0 {
        Some(i)
    } else {
        first_content_text(ps, i + 1)
    }
}

/// The stored reasoning `thinking`, when not blank and no piece carries
/// reasoning, goes to the first text piece with content, else to the
/// first piece.
pub open spec fn attach_thinking(ps: Seq<PieceView>, thinking: Option<Seq<char>>) -> Seq<PieceView> {
    match thinking {
        Some(th) => if trim_ws(th).len() > 0 && ps.len() > 0 && !(exists|i: int| 0 <= i < ps.len() && has_details(#[trigger] ps[i])) {
            match first_content_text(ps, 0) {
                Some(i) => ps.update(i, with_details(ps[i], th)),
                None => ps.update(0, with_details(ps[0], th)),
            }
        } else {
            ps
        },
        None => ps,
    }
}

/// The pieces a stored message with content `content` and stored reasoning
/// `thinking` is shown as; a message with neither text nor calls shows one
/// empty text piece. `None` where the reasoning split of a text fails.
pub open spec fn expand_spec(content: Seq<char>, thinking: Option<Seq<char>>) -> Option<Seq<PieceView>> {
    let segs = segments_from(content, 0);
    match expand_fold(segs, segs.len()) {
        None => None,
        Some((ps, _)) => {
            let base = if ps.len() == 0 {
                seq![PieceView::Text { content: Seq::empty(), details: None, original: true }]
            } else {
                ps
            };
            Some(attach_thinking(base, thinking))
        },
    }
}

pub open spec fn entries_view(v: Seq<ToolCallEntry>) -> Seq<EntryView> {
    v.map_values(|e: ToolCallEntry| entry_view(e))
}

fn clone_opt(o: &Option<String>) -> (r: Option<String>)
    ensures
        opt_view(r) == opt_view(*o),
{
    match o {
        Some(s) => Some(s.clone()),
        None => None,
    }
}

/// The calls of a marker piece (none for a text piece).
pub fn group_calls_of(seg: &MarkerSegment) -> (r: Vec<ToolCallEntry>)
    ensures
        entries_view(r@) == group_calls(segment_view(*seg)),
{
    let mut out: Vec<ToolCallEntry> = Vec::new();
    match seg {
        MarkerSegment::Text(_) => {
            assert(entries_view(out@) =~= Seq::<EntryView>::empty());
        },
        MarkerSegment::ToolsV1(ds) => {
            let mut i: usize = 0;
            while i < ds.len()
                invariant
                    i <= ds@.len(),
                    entries_view(out@) =~= strings_view(ds@).take(i as int).map_values(|d: Seq<char>| v1_entry(d)),
                decreases ds@.len() - i,
            {
                let ghost prev = out@;
                out.push(ToolCallEntry {
                    description: ds[i].clone(),
                    success: true,
                    details: None,
                    completed: true,
                    input_json: None,
                });
                assert(entries_view(out@) =~= entries_view(prev).push(v1_entry(ds@[i as int]@)));
                assert(strings_view(ds@).take(i as int + 1) =~= strings_view(ds@).take(i as int).push(ds@[i as int]@));
                assert(strings_view(ds@).take(i as int + 1).map_values(|d: Seq<char>| v1_entry(d)) =~= strings_view(
                    ds@,
                ).take(i as int).map_values(|d: Seq<char>| v1_entry(d)).push(v1_entry(ds@[i as int]@)));
                i += 1;
            }
            assert(strings_view(ds@).take(ds@.len() as int) =~= strings_view(ds@));
        },
        MarkerSegment::ToolsV2(j) => {
            let fields = parse_v2_fields(j.as_str());
            out = v2_calls(&fields);
            assert(fields@.map_values(|f: V2Fields| v2_entry(v2_fields_view(f))) =~= fields@.map_values(
                |f: V2Fields| v2_fields_view(f),
            ).map_values(
                |f: (Option<Seq<char>>, Option<bool>, Option<Seq<char>>, Option<Seq<char>>)| v2_entry(f),
            ));
        },
    }
    out
}

/// The calls of a v2 marker, from its entries' fields: description `?` and
/// success when missing, output only when non-empty, in entry order.
pub fn v2_calls(fields: &Vec<V2Fields>) -> (r: Vec<ToolCallEntry>)
    ensures
        entries_view(r@) == fields@.map_values(|f: V2Fields| v2_entry(v2_fields_view(f))),
{
    let mut out: Vec<ToolCallEntry> = Vec::new();
    let ghost fv = fields@.map_values(|f: V2Fields| v2_fields_view(f));
    let mut i: usize = 0;
    while i < fields.len()
        invariant
            i <= fields@.len(),
            fv == fields@.map_values(|f: V2Fields| v2_fields_view(f)),
            entries_view(out@) =~= fv.take(i as int).map_values(
                |f: (Option<Seq<char>>, Option<bool>, Option<Seq<char>>, Option<Seq<char>>)| v2_entry(f),
            ),
        decreases fields@.len() - i,
    {
        let f = &fields[i];
        let description = match &f.d {
            Some(d) => d.clone(),
            None => string_from_chars(&str_chars("?")),
        };
        let success = match f.s {
            Some(b) => b,
            None => true,
        };
        let details = match &f.o {
            Some(o) => if str_chars(o.as_str()).len() > 0 {
                Some(o.clone())
            } else {
                None
            },
            None => None,
        };
        let input_json = clone_opt(&f.i);
        let ghost prev = out@;
        let e = ToolCallEntry { description, success, details, completed: true, input_json };
        assert(fv[i as int] == v2_fields_view(fields@[i as int]));
        assert(entry_view(e) == v2_entry(fv[i as int]));
        out.push(e);
        assert(entries_view(out@) =~= entries_view(prev).push(v2_entry(fv[i as int])));
        assert(fv.take(i as int + 1) =~= fv.take(i as int).push(fv[i as int]));
        assert(fv.take(i as int + 1).map_values(
            |f: (Option<Seq<char>>, Option<bool>, Option<Seq<char>>, Option<Seq<char>>)| v2_entry(f),
        ) =~= fv.take(i as int).map_values(
            |f: (Option<Seq<char>>, Option<bool>, Option<Seq<char>>, Option<Seq<char>>)| v2_entry(f),
        ).push(v2_entry(fv[i as int])));
        i += 1;
    }
    assert(fv.take(fields@.len() as int) =~= fv);
    assert(fv.map_values(
        |f: (Option<Seq<char>>, Option<bool>, Option<Seq<char>>, Option<Seq<char>>)| v2_entry(f),
    ) =~= fields@.map_values(|f: V2Fields| v2_entry(v2_fields_view(f))));
    out
}


/// The piece of a text between markers (see `text_part`).
fn text_part_of(t: &str) -> (r: Option<Option<(String, Option<String>)>>)
    ensures
        match text_part(t@) {
            None => r is None,
            Some(None) => r == Some(None::<(String, Option<String>)>),
            Some(Some((c, d))) => r matches Some(Some(p)) && p.0@ == c && opt_view(p.1) == d,
        },
{
    match extract_reasoning(t) {
        None => None,
        Some((reason, rest)) => {
            let rest_chars = str_chars(rest.as_str());
            if rest_chars.len() > 0 {
                Some(Some((rest, reason)))
            } else {
                match reason {
                    Some(r) => Some(Some((String::new(), Some(r)))),
                    None => Some(None),
                }
            }
        },
    }
}

fn piece_has_details(p: &ExpandedPiece) -> (b: bool)
    ensures
        b == has_details(piece_view(*p)),
{
    match p {
        ExpandedPiece::Text { details, .. } => details.is_some(),
        ExpandedPiece::ToolGroup { details, .. } => details.is_some(),
    }
}

fn set_details(p: ExpandedPiece, d: String) -> (r: ExpandedPiece)
    ensures
        piece_view(r) == with_details(piece_view(p), d@),
{
    match p {
        ExpandedPiece::Text { content, original, .. } => ExpandedPiece::Text { content, details: Some(d), original },
        ExpandedPiece::ToolGroup { label, calls, .. } => ExpandedPiece::ToolGroup { label, calls, details: Some(d) },
    }
}

proof fn lemma_first_content_text(ps: Seq<PieceView>, i: int)
    ensures
        first_content_text(ps, i) matches Some(j) ==> 0 <= i <= j < ps.len(),
    decreases ps.len() - i,
{
    if 0 <= i < ps.len() {
        lemma_first_content_text(ps, i + 1);
    }
}

/// Position of the first text piece with content.
fn find_content_text(pieces: &Vec<ExpandedPiece>) -> (r: Option<usize>)
    ensures
        match r {
            Some(j) => j < pieces@.len() && first_content_text(pieces_view(pieces@), 0) == Some(j as int),
            None => first_content_text(pieces_view(pieces@), 0) is None,
        },
{
    let ghost pv = pieces_view(pieces@);
    proof {
        lemma_first_content_text(pv, 0);
    }
    let mut i: usize = 0;
    while i < pieces.len()
        invariant
            i <= pieces@.len(),
            pv == pieces_view(pieces@),
            first_content_text(pv, 0) == first_content_text(pv, i as int),
        decreases pieces@.len() - i,
    {
        let hit = match &pieces[i] {
            ExpandedPiece::Text { content, .. } => str_chars(content.as_str()).len() > 0,
            ExpandedPiece::ToolGroup { .. } => false,
        };
        if hit {
            return Some(i);
        }
        i += 1;
    }
    None
}

proof fn lemma_fold_none(segs: Seq<SegmentView>, m: nat, n: nat)
    requires
        0 < m <= n <= segs.len(),
        expand_fold(segs, m) is None,
    ensures
        expand_fold(segs, n) is None,
    decreases n - m,
{
    if m < n {
        lemma_fold_none(segs, m, (n - 1) as nat);
    }
}

/// Attaches the stored reasoning (see `attach_thinking`).
fn attach_thinking_exec(pieces: &mut Vec<ExpandedPiece>, thinking: Option<&str>)
    ensures
        pieces_view(final(pieces)@) == attach_thinking(
            pieces_view(old(pieces)@),
            match thinking {
                Some(t) => Some(t@),
                None => None,
            },
        ),
{
    let th = match thinking {
        Some(t) => t,
        None => {
            return;
        },
    };
    let ghost pv = pieces_view(pieces@);
    let trimmed = trim_chars(&str_chars(th));
    if trimmed.len() == 0 || pieces.len() == 0 {
        return;
    }
    let mut k: usize = 0;
    while k < pieces.len()
        invariant
            k <= pieces@.len(),
            pv == pieces_view(pieces@),
            forall|m: int| 0 <= m < k ==> !has_details(#[trigger] pv[m]),
        decreases pieces@.len() - k,
    {
        if piece_has_details(&pieces[k]) {
            assert(has_details(pv[k as int]));
            return;
        }
        k += 1;
    }
    let target = match find_content_text(pieces) {
        Some(j) => j,
        None => 0,
    };
    let p = pieces.remove(target);
    let q = set_details(p, string_from_chars(&str_chars(th)));
    pieces.insert(target, q);
    assert(pieces_view(pieces@) =~= pv.update(target as int, with_details(pv[target as int], th@)));
}

/// The pieces a stored message is shown as: its text pieces between the
/// tool markers (reasoning split off; the first of them keeps the stored
/// message's identity), a tool-call group per marker with calls, one empty
/// text piece when there is nothing else, and the stored reasoning
/// `thinking` attached as `attach_thinking` says. `None` where the
/// reasoning split of a text fails.
pub fn expand_stored_message(content: &str, thinking: Option<&str>) -> (r: Option<Vec<ExpandedPiece>>)
    ensures
        match expand_spec(
            content@,
            match thinking {
                Some(t) => Some(t@),
                None => None,
            },
        ) {
            None => r is None,
            Some(ps) => r matches Some(v) && pieces_view(v@) == ps,
        },
{
    let segs = split_tool_markers(content);
    let ghost sv = segments_view(segs@);
    let mut out: Vec<ExpandedPiece> = Vec::new();
    let mut first = true;
    let mut i: usize = 0;
    while i < segs.len()
        invariant
            i <= segs@.len(),
            sv == segments_view(segs@),
            sv == segments_from(content@, 0),
            expand_fold(sv, i as nat) == Some((pieces_view(out@), first)),
        decreases segs@.len() - i,
    {
        let ghost before = out@;
        assert(sv[i as int] == segment_view(segs@[i as int]));
        match &segs[i] {
            MarkerSegment::Text(t) => {
                match text_part_of(t.as_str()) {
                    None => {
                        proof {
                            lemma_fold_none(sv, i as nat + 1, sv.len());
                        }
                        return None;
                    },
                    Some(None) => {},
                    Some(Some((c, d))) => {
                        out.push(ExpandedPiece::Text { content: c, details: d, original: first });
                        assert(pieces_view(out@) =~= pieces_view(before).push(piece_view(out@.last())));
                        first = false;
                    },
                }
            },
            _ => {
                let calls = group_calls_of(&segs[i]);
                if calls.len() > 0 {
                    let label = tool_group_label(calls.len());
                    out.push(ExpandedPiece::ToolGroup { label, calls, details: None });
                    assert(pieces_view(out@) =~= pieces_view(before).push(piece_view(out@.last())));
                }
            },
        }
        i += 1;
    }
    if out.len() == 0 {
        out.push(ExpandedPiece::Text { content: String::new(), details: None, original: true });
        assert(pieces_view(out@) =~= seq![PieceView::Text { content: Seq::empty(), details: None, original: true }]);
    }
    attach_thinking_exec(&mut out, thinking);
    Some(out)
}

} // verus!
