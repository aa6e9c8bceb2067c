//! Reasoning ("thinking") that models write into the response text, split
//! off from the visible answer: `<!-- reasoning -->` comments,
//! `<antThinking>` and `<think>` tags (matched ignoring case), their
//! self-closing forms, and stray closing tags.
//!
//! The tags are looked for in the lowercased text and the positions found
//! there are used to cut the text itself, so the passes are stated over the
//! UTF-8 bytes. A cut that would fall inside a char (possible only where
//! lowercasing changes a char's byte length) is where the passes cannot go
//! on; `try_extract_reasoning` reports it as `None`.

use vstd::prelude::*;
use vstd::string::StringSliceAdditionalSpecFns;
use vstd::utf8::*;
use crate::text::{
    find_chars, find_from, lemma_find_from, lemma_find_from_absent, lemma_find_from_at, lemma_find_from_first,
    lemma_find_from_none, lemma_no_occurrence_at_other_char, occurs_at, seq_contains_sub, str_chars,
    string_from_chars, sub_chars, trim_chars, trim_ws,
};
use crate::tool_markers::{join_with, strings_view};
use crate::unicode::{str_to_lowercase, unicode_lowercase};

verus! {

broadcast use vstd::utf8::encode_utf8_decode_utf8, vstd::utf8::encode_utf8_valid_utf8;

/// `p` occurs in `s` at byte `i`.
pub open spec fn bytes_at(s: Seq<u8>, p: Seq<u8>, i: int) -> bool {
    0 <= i && i + p.len() <= s.len() && s.subrange(i, i + p.len()) == p
}

/// First position at or after `from` where `p` occurs in `s`, or `-1`.
pub open spec fn find_bytes(s: Seq<u8>, p: Seq<u8>, from: int) -> int
    decreases s.len() + 1 - from,
{
    if from < 0 || from + p.len() > s.len() {
        -1
    } else if bytes_at(s, p, from) {
        from
    } else {
        find_bytes(s, p, from + 1)
    }
}

proof fn lemma_find_bytes(s: Seq<u8>, p: Seq<u8>, from: int)
    ensures
        find_bytes(s, p, from) == -1 || (from <= find_bytes(s, p, from) && bytes_at(
            s,
            p,
            find_bytes(s, p, from),
        )),
    decreases s.len() + 1 - from,
{
    if !(from < 0 || from + p.len() > s.len()) && !bytes_at(s, p, from) {
        lemma_find_bytes(s, p, from + 1);
    }
}

/// First occurrence of `p` in `s` at or after `from`, if any.
fn find_bytes_exec(s: &[u8], p: &[u8], from: usize) -> (r: Option<usize>)
    ensures
        r matches Some(i) ==> i as int == find_bytes(s@, p@, from as int) && from <= i && i
            + p@.len() <= s@.len(),
        r is None ==> find_bytes(s@, p@, from as int) == -1,
{
    proof {
        lemma_find_bytes(s@, p@, from as int);
    }
    let n = s.len();
    let m = p.len();
    if m > n {
        return None;
    }
    let mut i: usize = from;
    while i <= n - m
        invariant
            n == s@.len(),
            m == p@.len(),
            m <= n,
            from <= i,
            find_bytes(s@, p@, from as int) == find_bytes(s@, p@, i as int),
        decreases n - i,
    {
        let mut k: usize = 0;
        while k < m && s[i + k] == p[k]
            invariant
                n == s@.len(),
                m == p@.len(),
                i + m <= n,
                k <= m,
                forall|j: int| 0 <= j < k ==> s@[i + j] == p@[j],
            decreases m - k,
        {
            k += 1;
        }
        if k == m {
            assert(s@.subrange(i as int, i + m) =~= p@);
            return Some(i);
        }
        assert(s@.subrange(i as int, i + m)[k as int] != p@[k as int]);
        i += 1;
    }
    None
}

/// The UTF-8 bytes of the lowercased text whose bytes are `r`.
pub open spec fn lower_bytes(r: Seq<u8>) -> Seq<u8> {
    encode_utf8(unicode_lowercase(decode_utf8(r)))
}

/// The non-blank trimmed text of `b` as a list of at most one part.
pub open spec fn part_of(b: Seq<u8>) -> Seq<Seq<char>> {
    if trim_ws(decode_utf8(b)).len() > 0 {
        seq![trim_ws(decode_utf8(b))]
    } else {
        Seq::empty()
    }
}

/// One pass over `<tag>...</tag>` pairs (`open` and `close` lowercase):
/// each pair found in the lowercased text is cut out of the text and its
/// trimmed content collected; an opening tag without a closing one takes
/// the rest of the text. `None` where a cut would fall inside a char.
pub open spec fn tag_pass(r: Seq<u8>, open: Seq<u8>, close: Seq<u8>) -> Option<(Seq<Seq<char>>, Seq<u8>)>
    decreases r.len(),
{
    let lower = lower_bytes(r);
    let st = find_bytes(lower, open, 0);
    if st < 0 {
        Some((Seq::empty(), r))
    } else {
        let a = st + open.len();
        if !is_char_boundary(r, st) || !is_char_boundary(r, a) {
            None
        } else {
            let ao = r.subrange(a, r.len() as int);
            let e = find_bytes(lower, close, a);
            if e < 0 {
                Some((part_of(ao), r.take(st)))
            } else {
                let end = e - a;
                if !is_char_boundary(ao, end) || !is_char_boundary(ao, end + close.len()) {
                    None
                } else {
                    let next = r.take(st) + ao.skip(end + close.len());
                    if open.len() == 0 || next.len() >= r.len() {
                        None
                    } else {
                        match tag_pass(next, open, close) {
                            None => None,
                            Some((ps, fin)) => Some((part_of(ao.take(end)) + ps, fin)),
                        }
                    }
                }
            }
        }
    }
}

proof fn lemma_boundary_le(b: Seq<u8>, i: int)
    requires
        valid_utf8(b),
        is_char_boundary(b, i),
    ensures
        0 <= i <= b.len(),
{
    reveal_with_fuel(is_char_boundary, 1);
}

/// Appends the trimmed text of `s` to `parts` unless it is blank.
fn push_part(parts: &mut Vec<String>, s: &str)
    ensures
        strings_view(final(parts)@) == strings_view(old(parts)@) + part_of(s.spec_bytes()),
{
    let t = trim_chars(&str_chars(s));
    let ghost before = old(parts)@;
    assert(decode_utf8(s.spec_bytes()) == s@);
    if t.len() > 0 {
        parts.push(string_from_chars(&t));
        assert(strings_view(parts@) =~= strings_view(before).push(t@));
    } else {
        assert(strings_view(parts@) =~= strings_view(before) + Seq::<Seq<char>>::empty());
    }
}

/// Cuts every `<tag>...</tag>` pair (found ignoring case) out of `text`,
/// collecting the trimmed contents in `parts` (see `tag_pass`); `None`
/// where a cut would fall inside a char.
fn extract_tag_case_insensitive(text: &str, open: &str, close: &str, parts: &mut Vec<String>) -> (r: Option<String>)
    requires
        open.spec_bytes().len() > 0,
    ensures
        match tag_pass(text.spec_bytes(), open.spec_bytes(), close.spec_bytes()) {
            None => r is None,
            Some((ps, fin)) => r matches Some(s) && encode_utf8(s@) == fin && strings_view(
                final(parts)@,
            ) == strings_view(old(parts)@) + ps,
        },
{
    let ob = open.as_bytes();
    let cb = close.as_bytes();
    let mut result = String::from_str(text);
    let ghost mut acc: Seq<Seq<char>> = Seq::empty();
    loop
        invariant
            ob@ == open.spec_bytes(),
            cb@ == close.spec_bytes(),
            ob@.len() > 0,
            strings_view(parts@) == strings_view(old(parts)@) + acc,
            match tag_pass(encode_utf8(result@), ob@, cb@) {
                None => tag_pass(text.spec_bytes(), ob@, cb@) is None,
                Some((ps, fin)) => tag_pass(text.spec_bytes(), ob@, cb@) == Some((acc + ps, fin)),
            },
        decreases encode_utf8(result@).len(),
    {
        let cur = result.as_str();
        let ghost r = cur.spec_bytes();
        let lower = str_to_lowercase(cur);
        let lb = lower.as_str().as_bytes();
        let llen = lb.len();
        assert(lb@ == lower_bytes(r));
        assert(llen == lb@.len());
        match find_bytes_exec(lb, ob, 0) {
            None => {
                assert(acc + Seq::<Seq<char>>::empty() =~= acc);
                return Some(result);
            },
            Some(st) => {
                let a = st + ob.len();
                if !cur.is_char_boundary(st) || !cur.is_char_boundary(a) {
                    return None;
                }
                proof {
                    lemma_boundary_le(r, a as int);
                }
                let (before, _) = cur.split_at(st);
                let (_, ao) = cur.split_at(a);
                match find_bytes_exec(lb, cb, a) {
                    None => {
                        push_part(parts, ao);
                        proof {
                            acc = acc + part_of(ao.spec_bytes());
                        }
                        let out = String::from_str(before);
                        assert(encode_utf8(out@) =~= r.take(st as int));
                        assert(acc =~= (acc.take(acc.len() - part_of(ao.spec_bytes()).len()))
                            + part_of(ao.spec_bytes()));
                        return Some(out);
                    },
                    Some(e) => {
                        let end = e - a;
                        if !ao.is_char_boundary(end) || !ao.is_char_boundary(end + cb.len()) {
                            return None;
                        }
                        proof {
                            lemma_boundary_le(ao.spec_bytes(), (end + cb.len()) as int);
                        }
                        let (inner, _) = ao.split_at(end);
                        let (_, tail) = ao.split_at(end + cb.len());
                        let ghost old_acc = acc;
                        push_part(parts, inner);
                        proof {
                            acc = acc + part_of(inner.spec_bytes());
                        }
                        let mut next = String::from_str(before);
                        next.append(tail);
                        proof {
                            crate::text::lemma_encode_utf8_concat(before@, tail@);
                            assert(encode_utf8(next@) =~= r.take(st as int) + ao.spec_bytes().skip(
                                end + cb@.len(),
                            ));
                            assert(old_acc + part_of(inner.spec_bytes()) + (match tag_pass(
                                encode_utf8(next@),
                                ob@,
                                cb@,
                            ) {
                                Some((ps, _)) => ps,
                                None => Seq::empty(),
                            }) =~= old_acc + (part_of(inner.spec_bytes()) + (match tag_pass(
                                encode_utf8(next@),
                                ob@,
                                cb@,
                            ) {
                                Some((ps, _)) => ps,
                                None => Seq::empty(),
                            })));
                        }
                        result = next;
                    },
                }
            },
        }
    }
}

/// The non-blank trimmed text of `t` as a list of at most one part.
pub open spec fn part_of_chars(t: Seq<char>) -> Seq<Seq<char>> {
    if trim_ws(t).len() > 0 {
        seq![trim_ws(t)]
    } else {
        Seq::empty()
    }
}

/// Opening of a reasoning comment.
pub open spec fn comment_open() -> Seq<char> {
    "<!-- reasoning -->"@
}

/// Closing of a reasoning comment.
pub open spec fn comment_close() -> Seq<char> {
    "<!-- /reasoning -->"@
}

/// The pass over `<!-- reasoning -->...<!-- /reasoning -->` comments: each
/// is cut out and its trimmed content collected; an opening comment without
/// a closing one takes the rest of the text.
pub open spec fn comment_pass(s: Seq<char>) -> (Seq<Seq<char>>, Seq<char>)
    decreases s.len(),
{
    let st = find_from(s, comment_open(), 0);
    if st < 0 || st + comment_open().len() > s.len() {
        (Seq::empty(), s)
    } else {
        let before = s.take(st);
        let at = s.skip(st + comment_open().len());
        let e = find_from(at, comment_close(), 0);
        if e < 0 || e + comment_close().len() > at.len() {
            (part_of_chars(at), before)
        } else {
            let next = before + at.skip(e + comment_close().len());
            if next.len() >= s.len() {
                (Seq::empty(), s)
            } else {
                let (ps, fin) = comment_pass(next);
                (part_of_chars(at.take(e)) + ps, fin)
            }
        }
    }
}

/// After the comment pass no `<!-- reasoning -->` opening is left in the
/// text: every reasoning comment, closed or not, is taken out.
pub proof fn law_comment_pass_leaves_no_opening(s: Seq<char>)
    ensures
        !seq_contains_sub(comment_pass(s).1, comment_open()),
    decreases s.len(),
{
    reveal_strlit("<!-- reasoning -->");
    reveal_strlit("<!-- /reasoning -->");
    let o = comment_open();
    let cl = comment_close();
    let st = find_from(s, o, 0);
    lemma_find_from(s, o, 0);
    if st < 0 {
        assert forall|i: int| !#[trigger] occurs_at(s, o, i) by {
            if i >= 0 {
                lemma_find_from_none(s, o, 0, i);
            }
        }
    } else {
        let before = s.take(st);
        let at = s.skip(st + o.len());
        let e = find_from(at, cl, 0);
        lemma_find_from(at, cl, 0);
        if e < 0 || e + cl.len() > at.len() {
            assert forall|i: int| !#[trigger] occurs_at(before, o, i) by {
                if occurs_at(before, o, i) {
                    assert(s.subrange(i, i + o.len()) =~= before.subrange(i, i + o.len()));
                    lemma_find_from_first(s, o, 0, i);
                }
            }
        } else {
            let next = before + at.skip(e + cl.len());
            assert(next.len() < s.len());
            law_comment_pass_leaves_no_opening(next);
        }
    }
}

/// The first reasoning comment of a text is cut out and its trimmed
/// content (unless blank) is the first part, followed by what the pass
/// yields on the text with the comment removed. Stated for texts where
/// nothing before the comment and nothing inside it holds a `<`, so that
/// the comment's markers are the first ones.
pub proof fn law_comment_pass_first_comment(a: Seq<char>, c: Seq<char>, b: Seq<char>)
    requires
        forall|k: int| 0 <= k < a.len() ==> a[k] != '<',
        forall|k: int| 0 <= k < c.len() ==> c[k] != '<',
    ensures
        comment_pass(a + comment_open() + c + comment_close() + b) == (part_of_chars(c)
            + comment_pass(a + b).0, comment_pass(a + b).1),
{
    reveal_strlit("<!-- reasoning -->");
    reveal_strlit("<!-- /reasoning -->");
    let o = comment_open();
    let cl = comment_close();
    let s = a + o + c + cl + b;
    assert(o[0] == '<' && cl[0] == '<');
    assert(s.subrange(a.len() as int, (a.len() + o.len()) as int) =~= o);
    assert forall|i: int| 0 <= i < a.len() implies !#[trigger] occurs_at(s, o, i) by {
        assert(s[i] == a[i]);
        lemma_no_occurrence_at_other_char(s, o, i);
    }
    lemma_find_from_at(s, o, 0, a.len() as int);
    let at = s.skip((a.len() + o.len()) as int);
    assert(at =~= c + cl + b);
    assert(at.subrange(c.len() as int, (c.len() + cl.len()) as int) =~= cl);
    assert forall|i: int| 0 <= i < c.len() implies !#[trigger] occurs_at(at, cl, i) by {
        assert(at[i] == c[i]);
        lemma_no_occurrence_at_other_char(at, cl, i);
    }
    lemma_find_from_at(at, cl, 0, c.len() as int);
    assert(s.take(a.len() as int) =~= a);
    assert(at.take(c.len() as int) =~= c);
    assert(at.skip((c.len() + cl.len()) as int) =~= b);
}

/// A reasoning comment that is never closed takes the rest of the text:
/// its trimmed content (unless blank) is the only part and the text before
/// it is what is left. Stated for texts where nothing before the opening
/// holds a `<`, so that it is the first one.
pub proof fn law_comment_pass_unclosed(a: Seq<char>, c: Seq<char>)
    requires
        forall|k: int| 0 <= k < a.len() ==> a[k] != '<',
        !seq_contains_sub(c, comment_close()),
    ensures
        comment_pass(a + comment_open() + c) == (part_of_chars(c), a),
{
    reveal_strlit("<!-- reasoning -->");
    let o = comment_open();
    let s = a + o + c;
    assert(o[0] == '<');
    assert(s.subrange(a.len() as int, (a.len() + o.len()) as int) =~= o);
    assert forall|i: int| 0 <= i < a.len() implies !#[trigger] occurs_at(s, o, i) by {
        assert(s[i] == a[i]);
        lemma_no_occurrence_at_other_char(s, o, i);
    }
    lemma_find_from_at(s, o, 0, a.len() as int);
    let at = s.skip((a.len() + o.len()) as int);
    assert(at =~= c);
    assert forall|i: int| 0 <= i implies !#[trigger] occurs_at(at, comment_close(), i) by {
        if occurs_at(at, comment_close(), i) {
            assert(occurs_at(c, comment_close(), i));
        }
    }
    lemma_find_from_absent(at, comment_close(), 0);
    assert(s.take(a.len() as int) =~= a);
}

/// The pass over self-closing tags (`open` is `<think` or `<antthinking`,
/// found ignoring case) up to the next `/>`: each is cut out, and content
/// inside it that is not blank and does not start with `/` is collected. A
/// tag without `/>` stops the pass. `None` where a cut would fall inside a
/// char.
pub open spec fn self_close_pass(r: Seq<u8>, open: Seq<u8>) -> Option<(Seq<Seq<char>>, Seq<u8>)>
    decreases r.len(),
{
    let st = find_bytes(lower_bytes(r), open, 0);
    if st < 0 {
        Some((Seq::empty(), r))
    } else {
        let a = st + open.len();
        if !is_char_boundary(r, st) || !is_char_boundary(r, a) {
            None
        } else {
            let after = r.subrange(a, r.len() as int);
            let e = find_bytes(after, encode_utf8("/>"@), 0);
            if e < 0 {
                Some((Seq::empty(), r))
            } else if !is_char_boundary(after, e) || !is_char_boundary(after, e + 2) {
                None
            } else {
                let inner = trim_ws(decode_utf8(after.take(e)));
                let part = if inner.len() > 0 && inner[0] != '/' {
                    seq![inner]
                } else {
                    Seq::<Seq<char>>::empty()
                };
                let next = after.skip(e + 2);
                if next.len() >= r.len() {
                    None
                } else {
                    match self_close_pass(next, open) {
                        None => None,
                        Some((ps, fin)) => Some((part + ps, r.take(st) + fin)),
                    }
                }
            }
        }
    }
}

/// The pass over stray closing tags (`close`, found ignoring case), which
/// are cut out. `None` where a cut would fall inside a char.
pub open spec fn orphan_pass(r: Seq<u8>, close: Seq<u8>) -> Option<Seq<u8>>
    decreases r.len(),
{
    let st = find_bytes(lower_bytes(r), close, 0);
    if st < 0 {
        Some(r)
    } else {
        let a = st + close.len();
        if !is_char_boundary(r, st) || !is_char_boundary(r, a) {
            None
        } else {
            let next = r.subrange(a, r.len() as int);
            if next.len() >= r.len() {
                None
            } else {
                match orphan_pass(next, close) {
                    None => None,
                    Some(fin) => Some(r.take(st) + fin),
                }
            }
        }
    }
}

/// All passes in order: reasoning comments, `<antthinking>` and `<think>`
/// pairs, self-closing `<think .../>` and `<antthinking .../>`, stray
/// `</think>` and `</antthinking>`. The collected parts and the remaining
/// text, trimmed; `None` where a cut would fall inside a char.
pub open spec fn reasoning_spec(text: Seq<char>) -> Option<(Seq<Seq<char>>, Seq<char>)> {
    let (p1, r1) = comment_pass(text);
    match tag_pass(encode_utf8(r1), encode_utf8("<antthinking>"@), encode_utf8("</antthinking>"@)) {
        None => None,
        Some((p2, b2)) => match tag_pass(b2, encode_utf8("<think>"@), encode_utf8("</think>"@)) {
            None => None,
            Some((p3, b3)) => match self_close_pass(b3, encode_utf8("<think"@)) {
                None => None,
                Some((p4, b4)) => match self_close_pass(b4, encode_utf8("<antthinking"@)) {
                    None => None,
                    Some((p5, b5)) => match orphan_pass(b5, encode_utf8("</think>"@)) {
                        None => None,
                        Some(b6) => match orphan_pass(b6, encode_utf8("</antthinking>"@)) {
                            None => None,
                            Some(b7) => Some(
                                (p1 + p2 + p3 + p4 + p5, trim_ws(decode_utf8(b7))),
                            ),
                        },
                    },
                },
            },
        },
    }
}

/// Appends the trimmed chars `t` to `parts` unless blank.
fn push_part_chars(parts: &mut Vec<String>, t: &[char])
    ensures
        strings_view(final(parts)@) == strings_view(old(parts)@) + part_of_chars(t@),
{
    let tr = trim_chars(t);
    let ghost before = old(parts)@;
    if tr.len() > 0 {
        parts.push(string_from_chars(&tr));
        assert(strings_view(parts@) =~= strings_view(before).push(tr@));
    } else {
        assert(strings_view(parts@) =~= strings_view(before) + Seq::<Seq<char>>::empty());
    }
}

/// The pass over reasoning comments (see `comment_pass`).
fn comment_pass_exec(text: &[char], parts: &mut Vec<String>) -> (r: Vec<char>)
    ensures
        r@ == comment_pass(text@).1,
        strings_view(final(parts)@) == strings_view(old(parts)@) + comment_pass(text@).0,
{
    let open = str_chars("<!-- reasoning -->");
    let close = str_chars("<!-- /reasoning -->");
    let mut cur: Vec<char> = sub_chars(text, 0, text.len());
    let ghost mut acc: Seq<Seq<char>> = Seq::empty();
    assert(cur@ =~= text@);
    proof {
        reveal_strlit("<!-- reasoning -->");
        reveal_strlit("<!-- /reasoning -->");
    }
    loop
        invariant
            open@ == comment_open(),
            close@ == comment_close(),
            comment_open().len() == 18,
            comment_close().len() == 19,
            strings_view(parts@) == strings_view(old(parts)@) + acc,
            comment_pass(text@) == (acc + comment_pass(cur@).0, comment_pass(cur@).1),
        decreases cur@.len(),
    {
        let ghost s = cur@;
        let n = cur.len();
        proof {
            lemma_find_from(s, comment_open(), 0);
        }
        let st = match find_chars(&cur, &open, 0) {
            None => {
                assert(acc + Seq::<Seq<char>>::empty() =~= acc);
                return cur;
            },
            Some(i) => i,
        };
        let before = sub_chars(&cur, 0, st);
        let at = sub_chars(&cur, st + open.len(), n);
        assert(before@ =~= s.take(st as int));
        assert(at@ =~= s.skip(st + comment_open().len()));
        proof {
            lemma_find_from(at@, comment_close(), 0);
        }
        match find_chars(&at, &close, 0) {
            None => {
                push_part_chars(parts, &at);
                proof {
                    acc = acc + part_of_chars(at@);
                    assert(acc + Seq::<Seq<char>>::empty() =~= acc);
                }
                return before;
            },
            Some(e) => {
                let inner = sub_chars(&at, 0, e);
                assert(inner@ =~= at@.take(e as int));
                let ghost old_acc = acc;
                push_part_chars(parts, &inner);
                proof {
                    acc = acc + part_of_chars(inner@);
                }
                let mut next = before;
                let mut tail = sub_chars(&at, e + close.len(), at.len());
                next.append(&mut tail);
                assert(next@ =~= s.take(st as int) + at@.skip(e + comment_close().len()));
                assert(old_acc + (part_of_chars(inner@) + comment_pass(next@).0) =~= acc
                    + comment_pass(next@).0);
                cur = next;
            },
        }
    }
}

/// The pass over self-closing tags (see `self_close_pass`).
fn self_close_pass_exec(text: &str, open: &str, parts: &mut Vec<String>) -> (r: Option<String>)
    requires
        open.spec_bytes().len() > 0,
    ensures
        match self_close_pass(text.spec_bytes(), open.spec_bytes()) {
            None => r is None,
            Some((ps, fin)) => r matches Some(s) && encode_utf8(s@) == fin && strings_view(
                final(parts)@,
            ) == strings_view(old(parts)@) + ps,
        },
{
    let ob = open.as_bytes();
    let sc = "/>";
    let scb = sc.as_bytes();
    let mut rest = String::from_str(text);
    let mut cleaned = String::new();
    let ghost mut acc: Seq<Seq<char>> = Seq::empty();
    proof {
        reveal_strlit("/>");
    }
    assert(scb@ == encode_utf8("/>"@));
    assert(scb@.len() == 2) by {
        crate::text::lemma_encode_utf8_concat(seq!['/'], seq!['>']);
        assert("/>"@ =~= seq!['/'] + seq!['>']);
        crate::text::lemma_encode_utf8_single('/');
        crate::text::lemma_encode_utf8_single('>');
    }
    loop
        invariant
            ob@ == open.spec_bytes(),
            ob@.len() > 0,
            scb@ == encode_utf8("/>"@),
            scb@.len() == 2,
            strings_view(parts@) == strings_view(old(parts)@) + acc,
            match self_close_pass(encode_utf8(rest@), ob@) {
                None => self_close_pass(text.spec_bytes(), ob@) is None,
                Some((ps, fin)) => self_close_pass(text.spec_bytes(), ob@) == Some(
                    (acc + ps, encode_utf8(cleaned@) + fin),
                ),
            },
        decreases encode_utf8(rest@).len(),
    {
        let cur = rest.as_str();
        let ghost r = cur.spec_bytes();
        let lower = str_to_lowercase(cur);
        let lb = lower.as_str().as_bytes();
        let llen = lb.len();
        assert(lb@ == lower_bytes(r));
        let st = match find_bytes_exec(lb, ob, 0) {
            None => {
                let mut out = cleaned;
                out.append(cur);
                proof {
                    crate::text::lemma_encode_utf8_concat(cleaned@, cur@);
                    assert(acc + Seq::<Seq<char>>::empty() =~= acc);
                }
                return Some(out);
            },
            Some(i) => i,
        };
        let a = st + ob.len();
        if !cur.is_char_boundary(st) || !cur.is_char_boundary(a) {
            return None;
        }
        proof {
            lemma_boundary_le(r, a as int);
        }
        let (head, _) = cur.split_at(st);
        let (_, after) = cur.split_at(a);
        let ab = after.as_bytes();
        let alen = ab.len();
        let e = match find_bytes_exec(ab, scb, 0) {
            None => {
                let mut out = cleaned;
                out.append(cur);
                proof {
                    crate::text::lemma_encode_utf8_concat(cleaned@, cur@);
                    assert(acc + Seq::<Seq<char>>::empty() =~= acc);
                }
                return Some(out);
            },
            Some(i) => i,
        };
        if !after.is_char_boundary(e) || !after.is_char_boundary(e + 2) {
            return None;
        }
        let (inner_str, _) = after.split_at(e);
        let (_, next_str) = after.split_at(e + 2);
        let inner = trim_chars(&str_chars(inner_str));
        let ghost old_acc = acc;
        assert(decode_utf8(inner_str.spec_bytes()) == inner_str@);
        if inner.len() > 0 && inner[0] != '/' {
            let ghost pb = parts@;
            let piece = string_from_chars(&inner);
            parts.push(piece);
            proof {
                assert(strings_view(parts@) =~= strings_view(pb).push(inner@));
                acc = acc + seq![inner@];
            }
        }
        let ghost part = acc.skip(old_acc.len() as int);
        let ghost old_cleaned = cleaned@;
        cleaned.append(head);
        let next = String::from_str(next_str);
        proof {
            crate::text::lemma_encode_utf8_concat(old_cleaned, head@);
            assert(acc =~= old_acc + part);
            assert(encode_utf8(next@) =~= after.spec_bytes().skip(e + 2));
            match self_close_pass(encode_utf8(next@), ob@) {
                Some((ps, fin)) => {
                    assert(old_acc + (part + ps) =~= acc + ps);
                    assert(encode_utf8(old_cleaned) + (r.take(st as int) + fin) =~= encode_utf8(
                        cleaned@,
                    ) + fin);
                },
                None => {},
            }
        }
        rest = next;
    }
}

/// The pass over stray closing tags (see `orphan_pass`).
fn orphan_pass_exec(text: &str, close: &str) -> (r: Option<String>)
    requires
        close.spec_bytes().len() > 0,
    ensures
        match orphan_pass(text.spec_bytes(), close.spec_bytes()) {
            None => r is None,
            Some(fin) => r matches Some(s) && encode_utf8(s@) == fin,
        },
{
    let cb = close.as_bytes();
    let mut rest = String::from_str(text);
    let mut cleaned = String::new();
    loop
        invariant
            cb@ == close.spec_bytes(),
            cb@.len() > 0,
            match orphan_pass(encode_utf8(rest@), cb@) {
                None => orphan_pass(text.spec_bytes(), cb@) is None,
                Some(fin) => orphan_pass(text.spec_bytes(), cb@) == Some(
                    encode_utf8(cleaned@) + fin,
                ),
            },
        decreases encode_utf8(rest@).len(),
    {
        let cur = rest.as_str();
        let ghost r = cur.spec_bytes();
        let lower = str_to_lowercase(cur);
        let lb = lower.as_str().as_bytes();
        let llen = lb.len();
        assert(lb@ == lower_bytes(r));
        let st = match find_bytes_exec(lb, cb, 0) {
            None => {
                let mut out = cleaned;
                out.append(cur);
                proof {
                    crate::text::lemma_encode_utf8_concat(cleaned@, cur@);
                }
                return Some(out);
            },
            Some(i) => i,
        };
        let a = st + cb.len();
        if !cur.is_char_boundary(st) || !cur.is_char_boundary(a) {
            return None;
        }
        proof {
            lemma_boundary_le(r, a as int);
        }
        let (head, _) = cur.split_at(st);
        let (_, tail) = cur.split_at(a);
        let ghost old_cleaned = cleaned@;
        cleaned.append(head);
        let next = String::from_str(tail);
        proof {
            crate::text::lemma_encode_utf8_concat(old_cleaned, head@);
            let t = orphan_pass(encode_utf8(next@), cb@);
            if t is Some {
                assert(encode_utf8(old_cleaned) + (r.take(st as int) + t->0) =~= encode_utf8(
                    cleaned@,
                ) + t->0);
            }
        }
        rest = next;
    }
}

/// The parts joined with a blank line between them.
fn join_parts(parts: &[String]) -> (r: String)
    ensures
        r@ == join_with(strings_view(parts@), "\n\n"@),
{
    let sep = str_chars("\n\n");
    let n = parts.len();
    let mut acc: Vec<char> = Vec::new();
    let mut i: usize = n;
    assert(strings_view(parts@).skip(n as int) =~= Seq::<Seq<char>>::empty());
    while i > 0
        invariant
            n == parts@.len(),
            i <= n,
            sep@ == "\n\n"@,
            acc@ == join_with(strings_view(parts@).skip(i as int), "\n\n"@),
        decreases i,
    {
        let ghost v = strings_view(parts@);
        let mut piece = str_chars(parts[i - 1].as_str());
        assert(v.skip(i - 1).drop_first() =~= v.skip(i as int));
        assert(v.skip(i - 1)[0] == parts@[i - 1]@);
        if i < n {
            let mut s2 = sep.clone();
            piece.append(&mut s2);
        }
        piece.append(&mut acc);
        acc = piece;
        i -= 1;
    }
    assert(strings_view(parts@).skip(0) =~= strings_view(parts@));
    string_from_chars(&acc)
}

proof fn lemma_pattern_nonempty(p: &str)
    requires
        p@.len() > 0,
    ensures
        p.spec_bytes().len() > 0,
{
    crate::text::lemma_encode_utf8_len_ge(p@);
}

/// Splits reasoning off a response text: the trimmed contents of reasoning
/// comments, `<antThinking>`/`<think>` blocks (case ignored; an unclosed one
/// takes the rest of the text) and self-closing tags with content, joined
/// with blank lines (`None` when there is none), and the remaining text
/// with all those markers and stray closing tags removed, trimmed. `None`
/// for a text where a cut would fall inside a char.
pub fn extract_reasoning(text: &str) -> (r: Option<(Option<String>, String)>)
    ensures
        match reasoning_spec(text@) {
            None => r is None,
            Some((ps, rest)) => r matches Some((reason, remaining)) && remaining@ == rest && (if ps.len()
                == 0 {
                reason is None
            } else {
                reason matches Some(j) && j@ == join_with(ps, "\n\n"@)
            }),
        },
{
    proof {
        reveal_strlit("<antthinking>");
        reveal_strlit("<think>");
        reveal_strlit("<think");
        reveal_strlit("<antthinking");
        reveal_strlit("</think>");
        reveal_strlit("</antthinking>");
        lemma_pattern_nonempty("<antthinking>");
        lemma_pattern_nonempty("<think>");
        lemma_pattern_nonempty("<think");
        lemma_pattern_nonempty("<antthinking");
        lemma_pattern_nonempty("</think>");
        lemma_pattern_nonempty("</antthinking>");
    }
    let mut parts: Vec<String> = Vec::new();
    let chars = str_chars(text);
    let r1 = comment_pass_exec(&chars, &mut parts);
    let s1 = string_from_chars(&r1);
    let s2 = match extract_tag_case_insensitive(s1.as_str(), "<antthinking>", "</antthinking>", &mut parts) {
        Some(x) => x,
        None => return None,
    };
    let s3 = match extract_tag_case_insensitive(s2.as_str(), "<think>", "</think>", &mut parts) {
        Some(x) => x,
        None => return None,
    };
    let s4 = match self_close_pass_exec(s3.as_str(), "<think", &mut parts) {
        Some(x) => x,
        None => return None,
    };
    let s5 = match self_close_pass_exec(s4.as_str(), "<antthinking", &mut parts) {
        Some(x) => x,
        None => return None,
    };
    let s6 = match orphan_pass_exec(s5.as_str(), "</think>") {
        Some(x) => x,
        None => return None,
    };
    let s7 = match orphan_pass_exec(s6.as_str(), "</antthinking>") {
        Some(x) => x,
        None => return None,
    };
    let remaining = string_from_chars(&trim_chars(&str_chars(s7.as_str())));
    assert(decode_utf8(encode_utf8(s7@)) == s7@);
    if parts.len() == 0 {
        Some((None, remaining))
    } else {
        Some((Some(join_parts(&parts)), remaining))
    }
}

} // verus!
