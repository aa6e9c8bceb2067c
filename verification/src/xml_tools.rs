//! Fallback extraction of tool calls that a provider wrote as XML in the
//! response text instead of the structured tool-call field:
//!
//! ```text
//! <tool_call>
//! <invoke name="bash">
//! <parameter name="command">ls</parameter>
//! </invoke>
//! </tool_call>
//! ```
//!
//! `extract_xml_tool_calls` returns the calls (tool name and its parameters,
//! values trimmed), or `None` when the text holds no complete call;
//! `strip_xml_tool_calls` removes the complete blocks and trims the rest.

use vstd::prelude::*;
use crate::text::{
    chars_eq, find_chars, find_from, str_chars, string_from_chars, sub_chars, trim_chars, trim_ws,
};

verus! {

/// Opening tag of a tool-call block.
pub open spec fn tool_call_open() -> Seq<char> {
    "<tool_call>"@
}

/// Closing tag of a tool-call block.
pub open spec fn tool_call_close() -> Seq<char> {
    "</tool_call>"@
}

/// Start of the invoke element, up to the tool name.
pub open spec fn invoke_open() -> Seq<char> {
    "<invoke name=\""@
}

/// Closing tag of the invoke element.
pub open spec fn invoke_close() -> Seq<char> {
    "</invoke>"@
}

/// Start of a parameter element, up to the parameter name.
pub open spec fn param_open() -> Seq<char> {
    "<parameter name=\""@
}

/// Closing tag of a parameter element.
pub open spec fn param_close() -> Seq<char> {
    "</parameter>"@
}

/// The closing quote of an attribute value.
pub open spec fn quote() -> Seq<char> {
    "\""@
}

/// The end of an opening tag.
pub open spec fn tag_end() -> Seq<char> {
    ">"@
}

/// Parameters `(name, trimmed value)` of an invoke body, from position `pos`.
pub open spec fn parse_params(b: Seq<char>, pos: int) -> Seq<(Seq<char>, Seq<char>)>
    decreases b.len() - pos,
{
    let a = find_from(b, param_open(), pos);
    if pos < 0 || a < 0 {
        Seq::empty()
    } else {
        let ks = a + param_open().len();
        let q = find_from(b, quote(), ks);
        if q < 0 {
            Seq::empty()
        } else {
            let g = find_from(b, tag_end(), q + 1);
            if g < 0 {
                Seq::empty()
            } else {
                let ve = find_from(b, param_close(), g + 1);
                if ve < 0 {
                    Seq::empty()
                } else {
                    let next = ve + param_close().len();
                    let entry = (b.subrange(ks, q), trim_ws(b.subrange(g + 1, ve)));
                    if next <= pos || next > b.len() {
                        seq![entry]
                    } else {
                        seq![entry] + parse_params(b, next)
                    }
                }
            }
        }
    }
}

/// The call in a tool-call block body: the invoke's name and parameters, or
/// `None` when the body holds no complete invoke element.
pub open spec fn parse_invoke(b: Seq<char>) -> Option<(Seq<char>, Seq<(Seq<char>, Seq<char>)>)> {
    let a = find_from(b, invoke_open(), 0);
    if a < 0 {
        None
    } else {
        let ns = a + invoke_open().len();
        let q = find_from(b, quote(), ns);
        if q < 0 {
            None
        } else {
            let g = find_from(b, tag_end(), q + 1);
            if g < 0 {
                None
            } else {
                let ie = find_from(b, invoke_close(), g + 1);
                if ie < 0 {
                    None
                } else {
                    Some((b.subrange(ns, q), parse_params(b.subrange(g + 1, ie), 0)))
                }
            }
        }
    }
}

/// The calls of the complete tool-call blocks of `s` from position `pos`.
pub open spec fn xml_calls_from(s: Seq<char>, pos: int) -> Seq<(Seq<char>, Seq<(Seq<char>, Seq<char>)>)>
    decreases s.len() - pos,
{
    let a = find_from(s, tool_call_open(), pos);
    if pos < 0 || a < 0 {
        Seq::empty()
    } else {
        let bs = a + tool_call_open().len();
        let e = find_from(s, tool_call_close(), bs);
        if e < 0 {
            Seq::empty()
        } else {
            let next = e + tool_call_close().len();
            let rest = if next <= pos || next > s.len() {
                Seq::empty()
            } else {
                xml_calls_from(s, next)
            };
            match parse_invoke(s.subrange(bs, e)) {
                Some(call) => seq![call] + rest,
                None => rest,
            }
        }
    }
}

/// `s` from position `pos` with every complete tool-call block removed.
pub open spec fn strip_blocks_from(s: Seq<char>, pos: int) -> Seq<char>
    decreases s.len() - pos,
{
    if pos < 0 || pos > s.len() {
        Seq::empty()
    } else {
        let a = find_from(s, tool_call_open(), pos);
        if a < 0 {
            s.subrange(pos, s.len() as int)
        } else {
            let e = find_from(s, tool_call_close(), a + tool_call_open().len());
            if e < 0 {
                s.subrange(pos, s.len() as int)
            } else {
                let next = e + tool_call_close().len();
                if next <= pos || next > s.len() {
                    s.subrange(pos, a)
                } else {
                    s.subrange(pos, a) + strip_blocks_from(s, next)
                }
            }
        }
    }
}

/// Abstract value of parsed parameters.
pub open spec fn params_view(p: Seq<(String, String)>) -> Seq<(Seq<char>, Seq<char>)> {
    p.map_values(|e: (String, String)| (e.0@, e.1@))
}

/// Abstract value of parsed tool calls.
pub open spec fn calls_view(c: Seq<(String, Vec<(String, String)>)>) -> Seq<
    (Seq<char>, Seq<(Seq<char>, Seq<char>)>),
> {
    c.map_values(|e: (String, Vec<(String, String)>)| (e.0@, params_view(e.1@)))
}

/// The patterns the parser searches for.
struct Patterns {
    tc_open: Vec<char>,
    tc_close: Vec<char>,
    inv_open: Vec<char>,
    inv_close: Vec<char>,
    par_open: Vec<char>,
    par_close: Vec<char>,
    qt: Vec<char>,
    gt: Vec<char>,
}

impl Patterns {
    spec fn wf(&self) -> bool {
        &&& self.tc_open@ == tool_call_open()
        &&& self.tc_close@ == tool_call_close()
        &&& self.inv_open@ == invoke_open()
        &&& self.inv_close@ == invoke_close()
        &&& self.par_open@ == param_open()
        &&& self.par_close@ == param_close()
        &&& self.qt@ == quote()
        &&& self.gt@ == tag_end()
    }

    fn new() -> (p: Patterns)
        ensures
            p.wf(),
    {
        Patterns {
            tc_open: str_chars("<tool_call>"),
            tc_close: str_chars("</tool_call>"),
            inv_open: str_chars("<invoke name=\""),
            inv_close: str_chars("</invoke>"),
            par_open: str_chars("<parameter name=\""),
            par_close: str_chars("</parameter>"),
            qt: str_chars("\""),
            gt: str_chars(">"),
        }
    }
}

proof fn lemma_pattern_lengths()
    ensures
        tool_call_open().len() == 11,
        tool_call_close().len() == 12,
        invoke_open().len() == 14,
        invoke_close().len() == 9,
        param_open().len() == 17,
        param_close().len() == 12,
        quote().len() == 1,
        tag_end().len() == 1,
{
    reveal_strlit("<tool_call>");
    reveal_strlit("</tool_call>");
    reveal_strlit("<invoke name=\"");
    reveal_strlit("</invoke>");
    reveal_strlit("<parameter name=\"");
    reveal_strlit("</parameter>");
    reveal_strlit("\"");
    reveal_strlit(">");
}

/// The parameter starting the search at `pos`, and where the search resumes.
fn next_param(b: &[char], pos: usize, pats: &Patterns) -> (r: Option<(String, String, usize)>)
    requires
        pats.wf(),
        pos <= b@.len(),
    ensures
        r is None ==> parse_params(b@, pos as int) == Seq::<(Seq<char>, Seq<char>)>::empty(),
        r matches Some(t) ==> pos < t.2 <= b@.len() && parse_params(b@, pos as int) == seq![
            (t.0@, t.1@),
        ] + parse_params(b@, t.2 as int),
{
    proof {
        lemma_pattern_lengths();
    }
    let n = b.len();
    let a_found = find_chars(b, pats.par_open.as_slice(), pos);
    if a_found.is_none() {
        return None;
    }
    let a = a_found.unwrap();
    let ks = a + pats.par_open.len();
    let q_found = find_chars(b, pats.qt.as_slice(), ks);
    if q_found.is_none() {
        return None;
    }
    let q = q_found.unwrap();
    let g_found = find_chars(b, pats.gt.as_slice(), q + 1);
    if g_found.is_none() {
        return None;
    }
    let g = g_found.unwrap();
    let ve_found = find_chars(b, pats.par_close.as_slice(), g + 1);
    if ve_found.is_none() {
        return None;
    }
    let ve = ve_found.unwrap();
    let next = ve + pats.par_close.len();
    let key = string_from_chars(&sub_chars(b, ks, q));
    let raw = sub_chars(b, g + 1, ve);
    let val = string_from_chars(&trim_chars(&raw));
    Some((key, val, next))
}

fn parse_params_exec(b: &[char], pats: &Patterns) -> (out: Vec<(String, String)>)
    requires
        pats.wf(),
    ensures
        params_view(out@) == parse_params(b@, 0),
{
    let mut out: Vec<(String, String)> = Vec::new();
    let mut pos: usize = 0;
    assert(params_view(out@) =~= Seq::<(Seq<char>, Seq<char>)>::empty());
    loop
        invariant
            pats.wf(),
            pos <= b@.len(),
            params_view(out@) + parse_params(b@, pos as int) == parse_params(b@, 0),
        ensures
            params_view(out@) == parse_params(b@, 0),
        decreases b@.len() + 1 - pos,
    {
        let ghost old_out = out@;
        match next_param(b, pos, pats) {
            None => {
                assert(params_view(out@) + parse_params(b@, pos as int) =~= params_view(out@));
                break;
            },
            Some((key, val, next)) => {
                out.push((key, val));
                assert(params_view(out@) =~= params_view(old_out).push((key@, val@)));
                assert(params_view(out@) + parse_params(b@, next as int) =~= params_view(old_out)
                    + parse_params(b@, pos as int));
                pos = next;
            },
        }
    }
    out
}

/// The call in one tool-call block body, if it holds a complete invoke.
fn parse_invoke_exec(b: &[char], pats: &Patterns) -> (r: Option<(String, Vec<(String, String)>)>)
    requires
        pats.wf(),
    ensures
        r is None ==> parse_invoke(b@) is None,
        r matches Some(c) ==> parse_invoke(b@) == Some((c.0@, params_view(c.1@))),
{
    proof {
        lemma_pattern_lengths();
    }
    let n = b.len();
    let a_found = find_chars(b, pats.inv_open.as_slice(), 0);
    if a_found.is_none() {
        return None;
    }
    let a = a_found.unwrap();
    let ns = a + pats.inv_open.len();
    let q_found = find_chars(b, pats.qt.as_slice(), ns);
    if q_found.is_none() {
        return None;
    }
    let q = q_found.unwrap();
    let g_found = find_chars(b, pats.gt.as_slice(), q + 1);
    if g_found.is_none() {
        return None;
    }
    let g = g_found.unwrap();
    let ie_found = find_chars(b, pats.inv_close.as_slice(), g + 1);
    if ie_found.is_none() {
        return None;
    }
    let ie = ie_found.unwrap();
    let name = string_from_chars(&sub_chars(b, ns, q));
    let body = sub_chars(b, g + 1, ie);
    let params = parse_params_exec(&body, pats);
    Some((name, params))
}

/// The next complete block from `pos`: its call (if any) and where the scan resumes.
fn next_block(s: &[char], pos: usize, pats: &Patterns) -> (r: Option<(Option<(String, Vec<(String, String)>)>, usize, usize)>)
    requires
        pats.wf(),
        pos <= s@.len(),
    ensures
        r is None ==> xml_calls_from(s@, pos as int) == Seq::<(Seq<char>, Seq<(Seq<char>, Seq<char>)>)>::empty(),
        r is None ==> strip_blocks_from(s@, pos as int) == s@.subrange(pos as int, s@.len() as int),
        r matches Some(t) ==> {
            &&& pos <= t.1 < t.2 <= s@.len()
            &&& strip_blocks_from(s@, pos as int) == s@.subrange(pos as int, t.1 as int) + strip_blocks_from(s@, t.2 as int)
            &&& match t.0 {
                Some(c) => xml_calls_from(s@, pos as int) == seq![(c.0@, params_view(c.1@))] + xml_calls_from(s@, t.2 as int),
                None => xml_calls_from(s@, pos as int) == xml_calls_from(s@, t.2 as int),
            }
        },
{
    proof {
        lemma_pattern_lengths();
    }
    let n = s.len();
    let a_found = find_chars(s, pats.tc_open.as_slice(), pos);
    if a_found.is_none() {
        return None;
    }
    let a = a_found.unwrap();
    let bs = a + pats.tc_open.len();
    let e_found = find_chars(s, pats.tc_close.as_slice(), bs);
    if e_found.is_none() {
        return None;
    }
    let e = e_found.unwrap();
    let next = e + pats.tc_close.len();
    let body = sub_chars(s, bs, e);
    let call = parse_invoke_exec(&body, pats);
    Some((call, a, next))
}

/// Tool calls written as `<tool_call>` XML blocks in `text`: for each complete
/// block that holds a complete `<invoke name="...">` element, the tool name
/// and its `(parameter name, trimmed value)` pairs. `None` when there is none.
pub fn extract_xml_tool_calls(text: &str) -> (r: Option<Vec<(String, Vec<(String, String)>)>>)
    ensures
        r is None <==> xml_calls_from(text@, 0).len() == 0,
        r matches Some(v) ==> calls_view(v@) == xml_calls_from(text@, 0),
{
    let pats = Patterns::new();
    let s = str_chars(text);
    let mut out: Vec<(String, Vec<(String, String)>)> = Vec::new();
    let mut pos: usize = 0;
    assert(calls_view(out@) =~= Seq::<(Seq<char>, Seq<(Seq<char>, Seq<char>)>)>::empty());
    loop
        invariant
            pats.wf(),
            s@ == text@,
            pos <= s@.len(),
            calls_view(out@) + xml_calls_from(s@, pos as int) == xml_calls_from(s@, 0),
        ensures
            calls_view(out@) == xml_calls_from(s@, 0),
        decreases s@.len() + 1 - pos,
    {
        let ghost old_out = out@;
        match next_block(&s, pos, &pats) {
            None => {
                assert(calls_view(out@) + xml_calls_from(s@, pos as int) =~= calls_view(out@));
                break;
            },
            Some((call, _start, next)) => {
                match call {
                    Some(c) => {
                        let ghost cv = (c.0@, params_view(c.1@));
                        out.push(c);
                        assert(calls_view(out@) =~= calls_view(old_out).push(cv));
                        assert(calls_view(out@) + xml_calls_from(s@, next as int) =~= calls_view(
                            old_out,
                        ) + xml_calls_from(s@, pos as int));
                    },
                    None => {},
                }
                pos = next;
            },
        }
    }
    assert(calls_view(out@).len() == out@.len());
    if out.len() == 0 {
        None
    } else {
        Some(out)
    }
}

/// `text` with every complete `<tool_call>...</tool_call>` block removed,
/// then trimmed.
pub fn strip_xml_tool_calls(text: &str) -> (r: String)
    ensures
        r@ == trim_ws(strip_blocks_from(text@, 0)),
{
    let pats = Patterns::new();
    let s = str_chars(text);
    let mut kept: Vec<char> = Vec::new();
    let mut pos: usize = 0;
    loop
        invariant_except_break
            kept@ + strip_blocks_from(s@, pos as int) == strip_blocks_from(s@, 0),
        invariant
            pats.wf(),
            s@ == text@,
            pos <= s@.len(),
        ensures
            kept@ == strip_blocks_from(s@, 0),
        decreases s@.len() + 1 - pos,
    {
        let ghost old_kept = kept@;
        match next_block(&s, pos, &pats) {
            None => {
                let mut tail = sub_chars(&s, pos, s.len());
                kept.append(&mut tail);
                break;
            },
            Some((_call, start, next)) => {
                let mut piece = sub_chars(&s, pos, start);
                kept.append(&mut piece);
                assert(kept@ + strip_blocks_from(s@, next as int) =~= old_kept + strip_blocks_from(
                    s@,
                    pos as int,
                ));
                pos = next;
            },
        }
    }
    let trimmed = trim_chars(&kept);
    string_from_chars(&trimmed)
}

/// Value of parameter `name` in `params`; when the name repeats, the last
/// one wins (as when the pairs are collected into a map).
pub open spec fn param_lookup(params: Seq<(Seq<char>, Seq<char>)>, name: Seq<char>) -> Option<
    Seq<char>,
>
    decreases params.len(),
{
    if params.len() == 0 {
        None
    } else if params.last().0 == name {
        Some(params.last().1)
    } else {
        param_lookup(params.drop_last(), name)
    }
}

/// The value of parameter `name` of an extracted call, if it has one.
pub fn tool_param<'a>(params: &'a [(String, String)], name: &str) -> (r: Option<&'a str>)
    ensures
        match r {
            Some(v) => param_lookup(params_view(params@), name@) == Some(v@),
            None => param_lookup(params_view(params@), name@) is None,
        },
{
    let key = str_chars(name);
    let mut i: usize = params.len();
    assert(params@.take(i as int) =~= params@);
    while i > 0
        invariant
            i <= params@.len(),
            key@ == name@,
            param_lookup(params_view(params@), name@) == param_lookup(
                params_view(params@.take(i as int)),
                name@,
            ),
        decreases i,
    {
        let k = str_chars(params[i - 1].0.as_str());
        assert(params_view(params@.take(i as int)).drop_last() =~= params_view(
            params@.take(i as int - 1),
        ));
        if chars_eq(&k, &key) {
            return Some(params[i - 1].1.as_str());
        }
        i -= 1;
    }
    assert(params_view(params@.take(0)) =~= Seq::<(Seq<char>, Seq<char>)>::empty());
    None
}

/// A text with no `<tool_call>` opening holds no calls, and stripping
/// leaves it as it is (before the final trim).
pub proof fn law_text_without_blocks_unchanged(s: Seq<char>)
    requires
        find_from(s, tool_call_open(), 0) < 0,
    ensures
        xml_calls_from(s, 0) == Seq::<(Seq<char>, Seq<(Seq<char>, Seq<char>)>)>::empty(),
        strip_blocks_from(s, 0) == s,
{
    assert(s.subrange(0, s.len() as int) =~= s);
}

} // verus!
