//! The `:shortcode` emoji picker of the chat input: typing a colon and a few
//! letters offers emojis whose GitHub shortcode contains them; accepting
//! one replaces the typed `:query` with the emoji.

use vstd::prelude::*;
use vstd::string::StringSliceAdditionalSpecFns;
use vstd::utf8::*;
use emojis::Emoji;
use crate::input_edit::{byte_len_of, char_index_at_byte, char_index_of, lemma_boundary_char_offset, prefix_byte_len};
use crate::text::{chars_contain, chars_contain_sub, encode_chars, seq_contains_sub, str_chars, string_from_chars, sub_chars};
use crate::tool_markers::strings_view;
use crate::unicode::{str_to_lowercase, unicode_lowercase};

verus! {

#[verifier::external_type_specification]
#[verifier::external_body]
pub struct ExEmoji(emojis::Emoji);

/// `emojis::iter()`: the emojis of the crate's table with the default skin
/// tone, in table order. Nothing is stated of them here: the table is the
/// crate's data.
#[verifier::external_body]
fn emoji_iter() -> (v: Vec<&'static Emoji>) {
    emojis::iter().collect()
}

/// `Emoji::as_str`: the emoji's text. Nothing is stated of it: the value is
/// opaque here.
#[verifier::external_body]
fn emoji_text(e: &Emoji) -> (s: String) {
    e.as_str().to_string()
}

/// `Emoji::shortcodes`: the emoji's GitHub shortcodes, in the crate's
/// order. Nothing is stated of them: the value is opaque here.
#[verifier::external_body]
fn emoji_shortcodes(e: &Emoji) -> (v: Vec<String>) {
    e.shortcodes().map(|s| s.to_string()).collect()
}

/// Most emojis the picker offers at once.
pub const EMOJI_MAX_RESULTS: usize = 8;

/// Position of the last `:` of `s`.
pub open spec fn last_colon(s: Seq<char>) -> Option<int>
    decreases s.len(),
{
    if s.len() == 0 {
        None
    } else if s.last() == ':' {
        Some(s.len() - 1)
    } else {
        last_colon(s.drop_last())
    }
}

/// The picker query at char position `k` of `buf`: what follows the last
/// colon before `k`, when that is non-empty and holds no space; with the
/// char position of that colon.
pub open spec fn emoji_query_spec(buf: Seq<char>, k: int) -> Option<(int, Seq<char>)> {
    let pre = buf.take(k);
    match last_colon(pre) {
        Some(j) => {
            let q = pre.skip(j + 1);
            if q.len() > 0 && !q.contains(' ') {
                Some((j, q))
            } else {
                None
            }
        },
        None => None,
    }
}

proof fn lemma_last_colon(s: Seq<char>)
    ensures
        match last_colon(s) {
            Some(j) => 0 <= j < s.len() && s[j] == ':' && !s.skip(j + 1).contains(':'),
            None => !s.contains(':'),
        },
    decreases s.len(),
{
    if s.len() > 0 {
        lemma_last_colon(s.drop_last());
        if s.last() != ':' {
            match last_colon(s.drop_last()) {
                Some(j) => {
                    assert(s.skip(j + 1) =~= s.drop_last().skip(j + 1).push(s.last()));
                },
                None => {
                    assert(s =~= s.drop_last().push(s.last()));
                },
            }
        } else {
            assert(s.skip(s.len() as int) =~= Seq::<char>::empty());
        }
    }
}

/// Char position of the last `:` among the first `k` chars.
fn find_last_colon(chars: &[char], k: usize) -> (r: Option<usize>)
    requires
        k <= chars@.len(),
    ensures
        match last_colon(chars@.take(k as int)) {
            Some(j) => r == Some(j as usize),
            None => r is None,
        },
{
    let mut i: usize = k;
    while i > 0
        invariant
            i <= k <= chars@.len(),
            last_colon(chars@.take(k as int)) == last_colon(chars@.take(i as int)),
        decreases i,
    {
        assert(chars@.take(i as int).drop_last() =~= chars@.take(i as int - 1));
        if chars[i - 1] == ':' {
            return Some(i - 1);
        }
        i -= 1;
    }
    None
}

/// The picker query before byte offset `cursor` of `buf`: the byte offset
/// of its colon and the text after it, or `None` when no query is typed.
pub fn emoji_query(buf: &str, cursor: usize) -> (r: Option<(usize, String)>)
    requires
        is_char_boundary(buf.spec_bytes(), cursor as int),
    ensures
        match emoji_query_spec(buf@, char_index_of(buf@, cursor as int)) {
            Some((j, q)) => r matches Some(p) && p.0 == byte_len_of(buf@, j) && p.1@ == q,
            None => r is None,
        },
{
    let chars = str_chars(buf);
    let ghost s = chars@;
    proof {
        lemma_boundary_char_offset(s, cursor as int);
    }
    let k = char_index_at_byte(&chars, cursor);
    proof {
        lemma_last_colon(s.take(k as int));
    }
    match find_last_colon(&chars, k) {
        Some(j) => {
            let q = sub_chars(&chars, j + 1, k);
            assert(q@ =~= s.take(k as int).skip(j + 1));
            if q.len() > 0 && !chars_contain(&q, ' ') {
                let total = encode_chars(&chars).len();
                let colon = prefix_byte_len(&chars, j, total);
                Some((colon, string_from_chars(&q)))
            } else {
                None
            }
        },
        None => None,
    }
}

/// The first of `codes` that contains `q`.
pub open spec fn first_code_hit(codes: Seq<Seq<char>>, q: Seq<char>) -> Option<Seq<char>>
    decreases codes.len(),
{
    if codes.len() == 0 {
        None
    } else if seq_contains_sub(codes[0], q) {
        Some(codes[0])
    } else {
        first_code_hit(codes.drop_first(), q)
    }
}

/// Each emoji of `table` (text, shortcodes) with a shortcode containing
/// `q`, paired with its first such shortcode, in table order.
pub open spec fn emoji_hits(table: Seq<(Seq<char>, Seq<Seq<char>>)>, q: Seq<char>) -> Seq<(Seq<char>, Seq<char>)>
    decreases table.len(),
{
    if table.len() == 0 {
        Seq::empty()
    } else {
        let prev = emoji_hits(table.drop_last(), q);
        match first_code_hit(table.last().1, q) {
            Some(c) => prev.push((table.last().0, c)),
            None => prev,
        }
    }
}

/// The first `EMOJI_MAX_RESULTS` of `s`.
pub open spec fn limited<T>(s: Seq<T>) -> Seq<T> {
    if s.len() > EMOJI_MAX_RESULTS { s.take(EMOJI_MAX_RESULTS as int) } else { s }
}

pub open spec fn table_view(t: Seq<(String, Vec<String>)>) -> Seq<(Seq<char>, Seq<Seq<char>>)> {
    t.map_values(|e: (String, Vec<String>)| (e.0@, strings_view(e.1@)))
}

pub open spec fn pairs_view(p: Seq<(String, String)>) -> Seq<(Seq<char>, Seq<char>)> {
    p.map_values(|e: (String, String)| (e.0@, e.1@))
}

/// Position of the first of `codes` that contains `q`.
fn first_hit(codes: &Vec<String>, q: &[char]) -> (r: Option<usize>)
    ensures
        match first_code_hit(strings_view(codes@), q@) {
            Some(c) => r matches Some(i) && i < codes@.len() && codes@[i as int]@ == c,
            None => r is None,
        },
{
    let ghost cv = strings_view(codes@);
    let mut i: usize = 0;
    assert(cv.skip(0) =~= cv);
    while i < codes.len()
        invariant
            i <= codes@.len(),
            cv == strings_view(codes@),
            first_code_hit(cv.skip(i as int), q@) == first_code_hit(cv, q@),
        decreases codes@.len() - i,
    {
        let c = str_chars(codes[i].as_str());
        assert(cv.skip(i as int)[0] == codes@[i as int]@);
        assert(cv.skip(i as int).drop_first() =~= cv.skip(i as int + 1));
        if chars_contain_sub(&c, q) {
            return Some(i);
        }
        i += 1;
    }
    None
}

proof fn lemma_limited_push<T>(s: Seq<T>, x: T)
    requires
        s.len() >= EMOJI_MAX_RESULTS,
    ensures
        limited(s.push(x)) == limited(s),
{
    assert(s.push(x).take(EMOJI_MAX_RESULTS as int) =~= s.take(EMOJI_MAX_RESULTS as int));
}

/// The emojis offered for `query_lower`: of `table` (each emoji's text and
/// shortcodes), those with a shortcode containing the query, each with the
/// first such shortcode, in table order, at most `EMOJI_MAX_RESULTS`.
pub fn search_emojis(table: &Vec<(String, Vec<String>)>, query_lower: &str) -> (r: Vec<(String, String)>)
    ensures
        pairs_view(r@) == limited(emoji_hits(table_view(table@), query_lower@)),
{
    let q = str_chars(query_lower);
    let ghost tv = table_view(table@);
    let mut out: Vec<(String, String)> = Vec::new();
    let mut i: usize = 0;
    assert(tv.take(0) =~= Seq::<(Seq<char>, Seq<Seq<char>>)>::empty());
    while i < table.len()
        invariant
            i <= table@.len(),
            tv == table_view(table@),
            q@ == query_lower@,
            pairs_view(out@) == limited(emoji_hits(tv.take(i as int), q@)),
            out@.len() <= EMOJI_MAX_RESULTS,
        decreases table@.len() - i,
    {
        let ghost prev = emoji_hits(tv.take(i as int), q@);
        assert(tv.take(i as int + 1).drop_last() =~= tv.take(i as int));
        assert(tv.take(i as int + 1).last() == tv[i as int]);
        assert(tv[i as int] == (table@[i as int].0@, strings_view(table@[i as int].1@)));
        match first_hit(&table[i].1, &q) {
            Some(k) => {
                let ghost hit = (table@[i as int].0@, table@[i as int].1@[k as int]@);
                if out.len() < EMOJI_MAX_RESULTS {
                    assert(prev.len() < EMOJI_MAX_RESULTS) by {
                        if prev.len() >= EMOJI_MAX_RESULTS {
                            assert(limited(prev).len() == EMOJI_MAX_RESULTS);
                        }
                    }
                    let text = table[i].0.clone();
                    let code = table[i].1[k].clone();
                    out.push((text, code));
                    assert(pairs_view(out@) =~= pairs_view(out@.drop_last()).push(hit));
                    assert(limited(prev.push(hit)) =~= prev.push(hit));
                } else {
                    assert(prev.len() >= EMOJI_MAX_RESULTS) by {
                        if prev.len() < EMOJI_MAX_RESULTS {
                            assert(limited(prev) == prev);
                        }
                    }
                    proof {
                        lemma_limited_push(prev, hit);
                    }
                }
            },
            None => {},
        }
        i += 1;
    }
    assert(tv.take(table@.len() as int) =~= tv);
    out
}

/// The emojis `all` as plain values, one entry per emoji and in their
/// order: each emoji's text and shortcodes.
fn emoji_table(all: &Vec<&'static Emoji>) -> (t: Vec<(String, Vec<String>)>)
    ensures
        t@.len() == all@.len(),
{
    let mut t: Vec<(String, Vec<String>)> = Vec::new();
    let mut i: usize = 0;
    while i < all.len()
        invariant
            i <= all@.len(),
            t@.len() == i,
        decreases all@.len() - i,
    {
        let e = all[i];
        t.push((emoji_text(e), emoji_shortcodes(e)));
        i += 1;
    }
    t
}

/// `buf` with the chars between byte offsets `colon` and `cursor` replaced
/// by `emoji`, and the cursor just after the emoji.
pub fn replace_query(buf: &str, colon: usize, cursor: usize, emoji: &str) -> (r: (String, usize))
    requires
        colon <= cursor,
        is_char_boundary(buf.spec_bytes(), colon as int),
        is_char_boundary(buf.spec_bytes(), cursor as int),
        colon + encode_utf8(emoji@).len() <= usize::MAX,
    ensures
        ({
            let kc = char_index_of(buf@, colon as int);
            let k = char_index_of(buf@, cursor as int);
            &&& r.0@ == buf@.take(kc) + emoji@ + buf@.skip(k)
            &&& r.1 == colon + encode_utf8(emoji@).len()
        }),
{
    let chars = str_chars(buf);
    let ghost s = chars@;
    proof {
        lemma_boundary_char_offset(s, colon as int);
        lemma_boundary_char_offset(s, cursor as int);
    }
    let kc = char_index_at_byte(&chars, colon);
    let k = char_index_at_byte(&chars, cursor);
    proof {
        if k < kc {
            crate::input_edit::lemma_byte_len_strict(s, k as int, kc as int);
        }
    }
    let e = str_chars(emoji);
    let mut out = sub_chars(&chars, 0, kc);
    let mut mid = sub_chars(&e, 0, e.len());
    out.append(&mut mid);
    let mut rest = sub_chars(&chars, k, chars.len());
    out.append(&mut rest);
    assert(e@.subrange(0, e@.len() as int) =~= e@);
    assert(out@ =~= s.take(kc as int) + e@ + s.skip(k as int));
    let n = encode_chars(&e).len();
    (string_from_chars(&out), colon + n)
}

/// State of the emoji picker: whether it shows, what it offers, the
/// highlighted row, and the byte offset of the query's colon.
#[derive(Clone, Debug)]
pub struct EmojiPicker {
    pub active: bool,
    pub filtered: Vec<(String, String)>,
    pub selected_index: usize,
    pub colon_offset: usize,
}

impl EmojiPicker {
    /// Hidden, offering nothing.
    pub fn new() -> (p: Self)
        ensures
            !p.active,
            p.filtered@.len() == 0,
            p.selected_index == 0,
            p.colon_offset == 0,
    {
        EmojiPicker { active: false, filtered: Vec::new(), selected_index: 0, colon_offset: 0 }
    }

    /// Hides the picker and forgets what it offered.
    pub fn dismiss(&mut self)
        ensures
            !final(self).active,
            final(self).filtered@.len() == 0,
            final(self).selected_index == 0,
            final(self).colon_offset == old(self).colon_offset,
    {
        self.active = false;
        self.filtered = Vec::new();
        self.selected_index = 0;
    }

    /// Shows the offers `hits` for the query whose colon is at byte offset
    /// `colon`, keeping the highlight when it is still in range; with
    /// nothing to offer the picker is dismissed.
    pub fn show_results(&mut self, colon: usize, hits: Vec<(String, String)>)
        ensures
            hits@.len() > 0 ==> final(self).active && final(self).filtered@ == hits@
                && final(self).colon_offset == colon
                && final(self).selected_index == if old(self).selected_index >= hits@.len() {
                    0
                } else {
                    old(self).selected_index
                },
            hits@.len() == 0 ==> !final(self).active && final(self).filtered@.len() == 0
                && final(self).selected_index == 0 && final(self).colon_offset == old(self).colon_offset,
    {
        if hits.len() > 0 {
            let n = hits.len();
            self.filtered = hits;
            self.active = true;
            self.colon_offset = colon;
            if self.selected_index >= n {
                self.selected_index = 0;
            }
        } else {
            self.dismiss();
        }
    }

    /// Recomputes the picker for the input `buf` with the cursor at byte
    /// offset `cursor`: without a query it is dismissed; with one, the
    /// emoji table of the `emojis` crate is searched for the lower-cased
    /// query and the hits shown (or the picker dismissed when none).
    pub fn update(&mut self, buf: &str, cursor: usize)
        requires
            is_char_boundary(buf.spec_bytes(), cursor as int),
        ensures
            match emoji_query_spec(buf@, char_index_of(buf@, cursor as int)) {
                None => !final(self).active && final(self).filtered@.len() == 0 && final(self).selected_index == 0,
                Some((j, q)) => exists|t: Seq<(Seq<char>, Seq<Seq<char>>)>| {
                    let hits = limited(#[trigger] emoji_hits(t, unicode_lowercase(q)));
                    &&& pairs_view(final(self).filtered@) == hits
                    &&& final(self).active == (hits.len() > 0)
                    &&& hits.len() > 0 ==> final(self).colon_offset == byte_len_of(buf@, j)
                },
            },
    {
        match emoji_query(buf, cursor) {
            None => self.dismiss(),
            Some((colon, q)) => {
                let ql = str_to_lowercase(q.as_str());
                let all = emoji_iter();
                let table = emoji_table(&all);
                let hits = search_emojis(&table, ql.as_str());
                let ghost t = table_view(table@);
                self.show_results(colon, hits);
                assert(pairs_view(self.filtered@) == limited(emoji_hits(t, unicode_lowercase(q@))) && self.active == (limited(emoji_hits(t, unicode_lowercase(q@))).len() > 0));
            },
        }
    }

    /// Accepts the highlighted emoji: the typed `:query` (from the colon to
    /// the cursor) is replaced by it, the cursor goes after it and the
    /// picker is dismissed. Returns the new buffer and cursor; with no
    /// highlighted offer nothing changes and `None` is returned.
    pub fn accept(&mut self, buf: &str, cursor: usize) -> (r: Option<(String, usize)>)
        requires
            old(self).colon_offset <= cursor,
            is_char_boundary(buf.spec_bytes(), old(self).colon_offset as int),
            is_char_boundary(buf.spec_bytes(), cursor as int),
            old(self).selected_index < old(self).filtered@.len() ==> old(self).colon_offset + encode_utf8(
                old(self).filtered@[old(self).selected_index as int].0@,
            ).len() <= usize::MAX,
        ensures
            old(self).selected_index < old(self).filtered@.len() ==> {
                let emoji = old(self).filtered@[old(self).selected_index as int].0@;
                let kc = char_index_of(buf@, old(self).colon_offset as int);
                let k = char_index_of(buf@, cursor as int);
                &&& r matches Some(p) && p.0@ == buf@.take(kc) + emoji + buf@.skip(k)
                    && p.1 == old(self).colon_offset + encode_utf8(emoji).len()
                &&& !final(self).active && final(self).filtered@.len() == 0 && final(self).selected_index == 0
            },
            old(self).selected_index >= old(self).filtered@.len() ==> r is None && *final(self) == *old(self),
    {
        if self.selected_index < self.filtered.len() {
            let r = replace_query(buf, self.colon_offset, cursor, self.filtered[self.selected_index].0.as_str());
            self.dismiss();
            Some(r)
        } else {
            None
        }
    }
}

proof fn lemma_first_code_hit(codes: Seq<Seq<char>>, q: Seq<char>)
    ensures
        first_code_hit(codes, q) matches Some(c) ==> seq_contains_sub(c, q) && codes.contains(c),
    decreases codes.len(),
{
    if codes.len() > 0 {
        if seq_contains_sub(codes[0], q) {
            assert(codes[0] == codes[0]);
            assert(codes.contains(codes[0]));
        } else {
            lemma_first_code_hit(codes.drop_first(), q);
            if let Some(c) = first_code_hit(codes.drop_first(), q) {
                let j = choose|j: int| 0 <= j < codes.drop_first().len() && codes.drop_first()[j] == c;
                assert(codes[j + 1] == c);
            }
        }
    }
}

proof fn lemma_emoji_hits_match(table: Seq<(Seq<char>, Seq<Seq<char>>)>, q: Seq<char>)
    ensures
        forall|k: int| 0 <= k < emoji_hits(table, q).len() ==> seq_contains_sub(#[trigger] emoji_hits(table, q)[k].1, q),
    decreases table.len(),
{
    if table.len() > 0 {
        lemma_emoji_hits_match(table.drop_last(), q);
        lemma_first_code_hit(table.last().1, q);
        let prev = emoji_hits(table.drop_last(), q);
        let h = emoji_hits(table, q);
        assert forall|k: int| 0 <= k < h.len() implies seq_contains_sub(#[trigger] h[k].1, q) by {
            if k < prev.len() {
                assert(h[k] == prev[k]);
            }
        }
    }
}

/// Every emoji the picker offers has a shortcode containing the query
/// (the one shown with it), and it offers at most `EMOJI_MAX_RESULTS`.
pub proof fn law_offers_match_query(table: Seq<(Seq<char>, Seq<Seq<char>>)>, q: Seq<char>)
    ensures
        limited(emoji_hits(table, q)).len() <= EMOJI_MAX_RESULTS,
        forall|k: int|
            0 <= k < limited(emoji_hits(table, q)).len() ==> seq_contains_sub(
                #[trigger] limited(emoji_hits(table, q))[k].1,
                q,
            ),
{
    lemma_emoji_hits_match(table, q);
    let h = emoji_hits(table, q);
    assert forall|k: int| 0 <= k < limited(h).len() implies seq_contains_sub(#[trigger] limited(h)[k].1, q) by {
        assert(limited(h)[k] == h[k]);
    }
}

} // verus!
