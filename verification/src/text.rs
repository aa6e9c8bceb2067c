//! Character and UTF-8 helpers shared by the text-processing modules.

use vstd::prelude::*;
use vstd::utf8::*;
use crate::unicode::{char_is_whitespace, is_whitespace_char};

verus! {

/// Length in bytes of the UTF-8 encoding of one `char`.
pub open spec fn char_utf8_len_spec(c: char) -> nat {
    encode_scalar(c as u32).len()
}

/// `encode_utf8` distributes over concatenation.
pub proof fn lemma_encode_utf8_concat(a: Seq<char>, b: Seq<char>)
    ensures
        encode_utf8(a + b) == encode_utf8(a) + encode_utf8(b),
    decreases a.len(),
{
    if a.len() == 0 {
        assert(a + b =~= b);
        assert(encode_utf8(a) =~= Seq::<u8>::empty());
        assert(encode_utf8(a) + encode_utf8(b) =~= encode_utf8(b));
    } else {
        assert((a + b).drop_first() =~= a.drop_first() + b);
        lemma_encode_utf8_concat(a.drop_first(), b);
        assert((a + b)[0] == a[0]);
        assert(encode_utf8(a + b) =~= encode_scalar(a[0] as u32) + (encode_utf8(a.drop_first())
            + encode_utf8(b)));
    }
}

/// Encoding a one-element sequence is encoding its scalar.
pub proof fn lemma_encode_utf8_single(c: char)
    ensures
        encode_utf8(seq![c]) == encode_scalar(c as u32),
{
    assert(seq![c].drop_first() =~= Seq::<char>::empty());
    assert(encode_utf8(seq![c]) =~= encode_scalar(c as u32) + encode_utf8(Seq::<char>::empty()));
}

/// Encoding `s.take(i + 1)` extends the encoding of `s.take(i)` by one char.
pub proof fn lemma_encode_utf8_take_push(s: Seq<char>, i: int)
    requires
        0 <= i < s.len(),
    ensures
        encode_utf8(s.take(i + 1)) == encode_utf8(s.take(i)) + encode_scalar(s[i] as u32),
{
    assert(s.take(i + 1) =~= s.take(i) + seq![s[i]]);
    lemma_encode_utf8_concat(s.take(i), seq![s[i]]);
    lemma_encode_utf8_single(s[i]);
}

/// Number of bytes `c` takes in UTF-8.
pub fn char_utf8_len(c: char) -> (n: usize)
    ensures
        n == char_utf8_len_spec(c),
        1 <= n <= 4,
{
    let v = c as u32;
    proof {
        char_is_scalar(c);
    }
    if v <= 0x7F {
        1
    } else if v <= 0x7FF {
        2
    } else if v <= 0xFFFF {
        3
    } else {
        4
    }
}

/// The UTF-8 bytes of one `char`.
pub fn encode_char(c: char) -> (out: Vec<u8>)
    ensures
        out@ == encode_scalar(c as u32),
{
    let v = c as u32;
    proof {
        char_is_scalar(c);
    }
    let mut out: Vec<u8> = Vec::new();
    if v <= 0x7F {
        out.push((v & 0x7F) as u8);
    } else if v <= 0x7FF {
        out.push(0xC0 | ((v >> 6) & 0x1F) as u8);
        out.push(0x80 | (v & 0x3F) as u8);
    } else if v <= 0xFFFF {
        out.push(0xE0 | ((v >> 12) & 0x0F) as u8);
        out.push(0x80 | ((v >> 6) & 0x3F) as u8);
        out.push(0x80 | (v & 0x3F) as u8);
    } else {
        out.push(0xF0 | ((v >> 18) & 0x7) as u8);
        out.push(0x80 | ((v >> 12) & 0x3F) as u8);
        out.push(0x80 | ((v >> 6) & 0x3F) as u8);
        out.push(0x80 | (v & 0x3F) as u8);
    }
    assert(out@ =~= encode_scalar(v));
    out
}

/// The characters of a string slice, in order.
pub fn str_chars(s: &str) -> (out: Vec<char>)
    ensures
        out@ == s@,
{
    let n = s.unicode_len();
    let mut out: Vec<char> = Vec::new();
    let mut i: usize = 0;
    while i < n
        invariant
            n == s@.len(),
            i <= n,
            out@ == s@.take(i as int),
        decreases n - i,
    {
        let c = s.get_char(i);
        out.push(c);
        assert(s@.take(i as int + 1) =~= s@.take(i as int).push(c));
        i += 1;
    }
    assert(s@.take(n as int) =~= s@);
    out
}

/// Appends one char to a `String` (`String::push`).
#[verifier::external_body]
pub(crate) fn string_push(s: &mut String, c: char)
    ensures
        final(s)@ == old(s)@.push(c),
{
    s.push(c);
}

/// A `String` holding exactly the given characters.
pub fn string_from_chars(v: &[char]) -> (out: String)
    ensures
        out@ == v@,
{
    let mut out = String::new();
    let mut i: usize = 0;
    while i < v.len()
        invariant
            i <= v@.len(),
            out@ == v@.take(i as int),
        decreases v@.len() - i,
    {
        string_push(&mut out, v[i]);
        assert(v@.take(i as int + 1) =~= v@.take(i as int).push(v@[i as int]));
        i += 1;
    }
    assert(v@.take(v@.len() as int) =~= v@);
    out
}

/// `encode_utf8` never shortens: each char takes at least one byte.
pub proof fn lemma_encode_utf8_len_ge(s: Seq<char>)
    ensures
        encode_utf8(s).len() >= s.len(),
    decreases s.len(),
{
    if s.len() > 0 {
        lemma_encode_utf8_len_ge(s.drop_first());
    }
}

/// The UTF-8 bytes of a sequence of chars.
pub fn encode_chars(v: &[char]) -> (out: Vec<u8>)
    ensures
        out@ == encode_utf8(v@),
{
    let mut out: Vec<u8> = Vec::new();
    let mut i: usize = 0;
    while i < v.len()
        invariant
            i <= v@.len(),
            out@ == encode_utf8(v@.take(i as int)),
        decreases v@.len() - i,
    {
        let mut b = encode_char(v[i]);
        proof {
            lemma_encode_utf8_take_push(v@, i as int);
        }
        out.append(&mut b);
        i += 1;
    }
    assert(v@.take(v@.len() as int) =~= v@);
    out
}

/// Whether `s` begins with `p`.
pub open spec fn seq_starts_with(s: Seq<char>, p: Seq<char>) -> bool {
    p.len() <= s.len() && s.take(p.len() as int) == p
}

/// Whether `v` begins with `p`, char by char.
pub fn chars_start_with(v: &[char], p: &[char]) -> (b: bool)
    ensures
        b == seq_starts_with(v@, p@),
{
    if p.len() > v.len() {
        return false;
    }
    let mut i: usize = 0;
    while i < p.len()
        invariant
            p@.len() <= v@.len(),
            i <= p@.len(),
            forall|k: int| 0 <= k < i ==> v@[k] == p@[k],
        decreases p@.len() - i,
    {
        if v[i] != p[i] {
            assert(v@.take(p@.len() as int)[i as int] != p@[i as int]);
            return false;
        }
        i += 1;
    }
    assert(v@.take(p@.len() as int) =~= p@);
    true
}

/// Whether two char sequences are equal.
pub fn chars_eq(a: &[char], b: &[char]) -> (r: bool)
    ensures
        r == (a@ == b@),
{
    if a.len() != b.len() {
        return false;
    }
    let r = chars_start_with(a, b);
    assert(a@.take(b@.len() as int) =~= a@);
    r
}

/// Whether `c` occurs in `v`.
pub fn chars_contain(v: &[char], c: char) -> (b: bool)
    ensures
        b == v@.contains(c),
{
    let mut i: usize = 0;
    while i < v.len()
        invariant
            i <= v@.len(),
            forall|k: int| 0 <= k < i ==> v@[k] != c,
        decreases v@.len() - i,
    {
        if v[i] == c {
            assert(v@[i as int] == c);
            return true;
        }
        i += 1;
    }
    false
}

/// `s` with its leading whitespace removed (`str::trim_start`).
pub open spec fn trim_start_ws(s: Seq<char>) -> Seq<char>
    decreases s.len(),
{
    if s.len() > 0 && is_whitespace_char(s[0]) {
        trim_start_ws(s.drop_first())
    } else {
        s
    }
}

/// `s` with its trailing whitespace removed (`str::trim_end`).
pub open spec fn trim_end_ws(s: Seq<char>) -> Seq<char>
    decreases s.len(),
{
    if s.len() > 0 && is_whitespace_char(s.last()) {
        trim_end_ws(s.drop_last())
    } else {
        s
    }
}

/// `s` with leading and trailing whitespace removed (`str::trim`).
pub open spec fn trim_ws(s: Seq<char>) -> Seq<char> {
    trim_end_ws(trim_start_ws(s))
}

/// Number of leading whitespace chars of `s.skip(i)` is `trim_start` shift.
proof fn lemma_trim_start_skip(s: Seq<char>, i: int)
    requires
        0 <= i < s.len(),
        is_whitespace_char(s[i]),
    ensures
        trim_start_ws(s.skip(i)) == trim_start_ws(s.skip(i + 1)),
{
    assert(s.skip(i).drop_first() =~= s.skip(i + 1));
}

/// Removes leading whitespace.
pub fn trim_start_chars(v: &[char]) -> (out: Vec<char>)
    ensures
        out@ == trim_start_ws(v@),
{
    let mut i: usize = 0;
    assert(v@.skip(0) =~= v@);
    while i < v.len() && char_is_whitespace(v[i])
        invariant
            i <= v@.len(),
            trim_start_ws(v@.skip(i as int)) == trim_start_ws(v@),
        decreases v@.len() - i,
    {
        proof {
            lemma_trim_start_skip(v@, i as int);
        }
        i += 1;
    }
    let mut out: Vec<char> = Vec::new();
    let mut j: usize = i;
    while j < v.len()
        invariant
            i <= j <= v@.len(),
            out@ == v@.subrange(i as int, j as int),
        decreases v@.len() - j,
    {
        out.push(v[j]);
        assert(v@.subrange(i as int, j as int + 1) =~= v@.subrange(i as int, j as int).push(
            v@[j as int],
        ));
        j += 1;
    }
    assert(out@ =~= v@.skip(i as int));
    out
}

/// Removes trailing whitespace.
pub fn trim_end_chars(v: &[char]) -> (out: Vec<char>)
    ensures
        out@ == trim_end_ws(v@),
{
    let mut n: usize = v.len();
    assert(v@.take(v@.len() as int) =~= v@);
    while n > 0 && char_is_whitespace(v[n - 1])
        invariant
            n <= v@.len(),
            trim_end_ws(v@.take(n as int)) == trim_end_ws(v@),
        decreases n,
    {
        assert(v@.take(n as int).drop_last() =~= v@.take(n as int - 1));
        n -= 1;
    }
    let mut out: Vec<char> = Vec::new();
    let mut j: usize = 0;
    while j < n
        invariant
            j <= n <= v@.len(),
            out@ == v@.take(j as int),
        decreases n - j,
    {
        out.push(v[j]);
        assert(v@.take(j as int + 1) =~= v@.take(j as int).push(v@[j as int]));
        j += 1;
    }
    out
}

/// Removes leading and trailing whitespace.
pub fn trim_chars(v: &[char]) -> (out: Vec<char>)
    ensures
        out@ == trim_ws(v@),
{
    let a = trim_start_chars(v);
    trim_end_chars(&a)
}

/// Lexicographic order of char sequences by code point (the order of `str`).
pub open spec fn lex_lt(a: Seq<char>, b: Seq<char>) -> bool
    decreases a.len(),
{
    if b.len() == 0 {
        false
    } else if a.len() == 0 {
        true
    } else if (a[0] as u32) < (b[0] as u32) {
        true
    } else if a[0] == b[0] {
        lex_lt(a.drop_first(), b.drop_first())
    } else {
        false
    }
}

/// No sequence precedes itself.
pub proof fn lemma_lex_irreflexive(a: Seq<char>)
    ensures
        !lex_lt(a, a),
    decreases a.len(),
{
    if a.len() > 0 {
        lemma_lex_irreflexive(a.drop_first());
    }
}

/// The order is transitive.
pub proof fn lemma_lex_transitive(a: Seq<char>, b: Seq<char>, c: Seq<char>)
    requires
        lex_lt(a, b),
        lex_lt(b, c),
    ensures
        lex_lt(a, c),
    decreases a.len(),
{
    if a.len() > 0 && b.len() > 0 && c.len() > 0 && a[0] == b[0] && b[0] == c[0] {
        lemma_lex_transitive(a.drop_first(), b.drop_first(), c.drop_first());
    }
}

/// Two different sequences are ordered one way or the other.
pub proof fn lemma_lex_total(a: Seq<char>, b: Seq<char>)
    requires
        a != b,
    ensures
        lex_lt(a, b) || lex_lt(b, a),
    decreases a.len(),
{
    if a.len() > 0 && b.len() > 0 && a[0] == b[0] {
        if a.drop_first() == b.drop_first() {
            assert(a =~= seq![a[0]] + a.drop_first());
            assert(b =~= seq![b[0]] + b.drop_first());
        }
        lemma_lex_total(a.drop_first(), b.drop_first());
    } else if a.len() == 0 && b.len() == 0 {
        assert(a =~= b);
    } else if a.len() > 0 && b.len() > 0 {
        char_u32_cast(a[0], a[0] as u32);
        char_u32_cast(b[0], b[0] as u32);
    }
}

/// Whether `a` precedes `b` lexicographically.
pub fn chars_lex_lt(a: &[char], b: &[char]) -> (r: bool)
    ensures
        r == lex_lt(a@, b@),
{
    let mut i: usize = 0;
    assert(a@.skip(0) =~= a@);
    assert(b@.skip(0) =~= b@);
    while i < a.len() && i < b.len()
        invariant
            i <= a@.len(),
            i <= b@.len(),
            lex_lt(a@, b@) == lex_lt(a@.skip(i as int), b@.skip(i as int)),
        decreases a@.len() - i,
    {
        let x = a[i] as u32;
        let y = b[i] as u32;
        if x < y {
            return true;
        }
        if a[i] != b[i] {
            return false;
        }
        assert(a@.skip(i as int).drop_first() =~= a@.skip(i as int + 1));
        assert(b@.skip(i as int).drop_first() =~= b@.skip(i as int + 1));
        i += 1;
    }
    i == a.len() && i < b.len()
}

/// The chars `v[from..to]`.
pub fn sub_chars(v: &[char], from: usize, to: usize) -> (out: Vec<char>)
    requires
        from <= to <= v@.len(),
    ensures
        out@ == v@.subrange(from as int, to as int),
{
    let mut out: Vec<char> = Vec::new();
    let mut j: usize = from;
    while j < to
        invariant
            from <= j <= to <= v@.len(),
            out@ == v@.subrange(from as int, j as int),
        decreases to - j,
    {
        out.push(v[j]);
        assert(v@.subrange(from as int, j as int + 1) =~= v@.subrange(from as int, j as int).push(
            v@[j as int],
        ));
        j += 1;
    }
    out
}

/// `p` occurs in `s` at position `i`.
pub open spec fn occurs_at(s: Seq<char>, p: Seq<char>, i: int) -> bool {
    0 <= i && i + p.len() <= s.len() && s.subrange(i, i + p.len()) == p
}

/// First position at or after `from` where `p` occurs in `s`, or `-1`.
pub open spec fn find_from(s: Seq<char>, p: Seq<char>, from: int) -> int
    decreases s.len() + 1 - from,
{
    if from < 0 || from + p.len() > s.len() {
        -1
    } else if occurs_at(s, p, from) {
        from
    } else {
        find_from(s, p, from + 1)
    }
}

/// A found position is an occurrence at or after `from`.
pub proof fn lemma_find_from(s: Seq<char>, p: Seq<char>, from: int)
    ensures
        find_from(s, p, from) == -1 || (from <= find_from(s, p, from) && occurs_at(
            s,
            p,
            find_from(s, p, from),
        )),
    decreases s.len() + 1 - from,
{
    if !(from < 0 || from + p.len() > s.len()) && !occurs_at(s, p, from) {
        lemma_find_from(s, p, from + 1);
    }
}

/// First occurrence of `p` in `s` at or after `from`, if any.
pub fn find_chars(s: &[char], p: &[char], from: usize) -> (r: Option<usize>)
    ensures
        r matches Some(i) ==> i as int == find_from(s@, p@, from as int),
        r is None ==> find_from(s@, p@, from as int) == -1,
        r matches Some(i) ==> from <= i && i + p@.len() <= s@.len(),
{
    proof {
        lemma_find_from(s@, p@, from as int);
    }
    let n = s.len();
    let m = p.len();
    if m > n {
        return None;
    }
    let mut i: usize = from;
    while i <= n - m
        invariant
            n == s@.len(),
            m == p@.len(),
            m <= n,
            from <= i,
            find_from(s@, p@, from as int) == find_from(s@, p@, i as int),
        decreases n - i,
    {
        let mut k: usize = 0;
        while k < m && s[i + k] == p[k]
            invariant
                n == s@.len(),
                m == p@.len(),
                i + m <= n,
                k <= m,
                forall|j: int| 0 <= j < k ==> s@[i + j] == p@[j],
            decreases m - k,
        {
            k += 1;
        }
        if k == m {
            assert(s@.subrange(i as int, i + m) =~= p@);
            return Some(i);
        }
        assert(s@.subrange(i as int, i + m)[k as int] != p@[k as int]);
        i += 1;
    }
    None
}


/// No occurrence at or after `from` when the search finds none.
pub proof fn lemma_find_from_none(s: Seq<char>, p: Seq<char>, from: int, i: int)
    requires
        from >= 0,
        find_from(s, p, from) == -1,
        from <= i,
    ensures
        !occurs_at(s, p, i),
    decreases s.len() + 1 - from,
{
    if from + p.len() > s.len() {
    } else if i > from {
        lemma_find_from_none(s, p, from + 1, i);
    }
}

/// No occurrence lies between `from` and the one the search finds.
pub proof fn lemma_find_from_first(s: Seq<char>, p: Seq<char>, from: int, i: int)
    requires
        0 <= from <= i,
        i < find_from(s, p, from),
    ensures
        !occurs_at(s, p, i),
    decreases s.len() + 1 - from,
{
    if from + p.len() > s.len() {
    } else if occurs_at(s, p, from) {
    } else if i > from {
        lemma_find_from_first(s, p, from + 1, i);
    }
}

/// The search from `from` finds `k` when `p` occurs at `k` and nowhere
/// between `from` and `k`.
pub proof fn lemma_find_from_at(s: Seq<char>, p: Seq<char>, from: int, k: int)
    requires
        0 <= from <= k,
        occurs_at(s, p, k),
        forall|i: int| from <= i < k ==> !#[trigger] occurs_at(s, p, i),
    ensures
        find_from(s, p, from) == k,
    decreases k - from,
{
    if from < k {
        assert(!occurs_at(s, p, from));
        lemma_find_from_at(s, p, from + 1, k);
    }
}

/// A char that differs from the first char of `p` starts no occurrence.
pub proof fn lemma_no_occurrence_at_other_char(s: Seq<char>, p: Seq<char>, i: int)
    requires
        p.len() > 0,
        0 <= i < s.len(),
        s[i] != p[0],
    ensures
        !occurs_at(s, p, i),
{
    if occurs_at(s, p, i) {
        assert(s.subrange(i, i + p.len())[0] == s[i]);
    }
}

/// The search finds nothing when `p` occurs nowhere at or after `from`.
pub proof fn lemma_find_from_absent(s: Seq<char>, p: Seq<char>, from: int)
    requires
        forall|i: int| from <= i ==> !#[trigger] occurs_at(s, p, i),
    ensures
        find_from(s, p, from) == -1,
    decreases s.len() + 1 - from,
{
    if !(from < 0 || from + p.len() > s.len()) {
        assert(!occurs_at(s, p, from));
        lemma_find_from_absent(s, p, from + 1);
    }
}

/// Whitespace in front of `x` is all that trimming the start removes of it.
pub proof fn lemma_trim_start_ws_prefix(w: Seq<char>, x: Seq<char>)
    requires
        forall|k: int| 0 <= k < w.len() ==> is_whitespace_char(#[trigger] w[k]),
    ensures
        trim_start_ws(w + x) == trim_start_ws(x),
    decreases w.len(),
{
    if w.len() > 0 {
        assert((w + x)[0] == w[0]);
        assert((w + x).drop_first() =~= w.drop_first() + x);
        lemma_trim_start_ws_prefix(w.drop_first(), x);
    } else {
        assert(w + x =~= x);
    }
}

/// Whitespace after `x` is all that trimming the end removes of it.
pub proof fn lemma_trim_end_ws_suffix(x: Seq<char>, w: Seq<char>)
    requires
        forall|k: int| 0 <= k < w.len() ==> is_whitespace_char(#[trigger] w[k]),
    ensures
        trim_end_ws(x + w) == trim_end_ws(x),
    decreases w.len(),
{
    if w.len() > 0 {
        assert((x + w).last() == w.last());
        assert((x + w).drop_last() =~= x + w.drop_last());
        lemma_trim_end_ws_suffix(x, w.drop_last());
    } else {
        assert(x + w =~= x);
    }
}

/// Trimming the start of `t + w` leaves `w` whole when `t` holds a char
/// that is not whitespace.
pub proof fn lemma_trim_start_ws_append(t: Seq<char>, w: Seq<char>)
    requires
        trim_start_ws(t).len() > 0,
    ensures
        trim_start_ws(t + w) == trim_start_ws(t) + w,
    decreases t.len(),
{
    assert(t.len() > 0);
    assert((t + w)[0] == t[0]);
    if is_whitespace_char(t[0]) {
        assert((t + w).drop_first() =~= t.drop_first() + w);
        lemma_trim_start_ws_append(t.drop_first(), w);
    }
}

/// `n` occurs somewhere in `h` (`str::contains` with a string pattern).
pub open spec fn seq_contains_sub(h: Seq<char>, n: Seq<char>) -> bool {
    exists|i: int| #[trigger] occurs_at(h, n, i)
}

/// Whether `n` occurs in `h`.
pub fn chars_contain_sub(h: &[char], n: &[char]) -> (b: bool)
    ensures
        b == seq_contains_sub(h@, n@),
{
    match find_chars(h, n, 0) {
        Some(i) => {
            proof {
                lemma_find_from(h@, n@, 0);
            }
            assert(occurs_at(h@, n@, i as int));
            true
        },
        None => {
            assert forall|i: int| !#[trigger] occurs_at(h@, n@, i) by {
                if i >= 0 {
                    lemma_find_from_none(h@, n@, 0, i);
                }
            }
            false
        },
    }
}

/// Appends the chars of `src` to `out`.
pub fn push_chars(out: &mut Vec<char>, src: &[char])
    ensures
        final(out)@ == old(out)@ + src@,
{
    let mut j: usize = 0;
    let ghost start = out@;
    while j < src.len()
        invariant
            j <= src@.len(),
            out@ == start + src@.take(j as int),
        decreases src@.len() - j,
    {
        out.push(src[j]);
        assert(src@.take(j as int + 1) =~= src@.take(j as int).push(src@[j as int]));
        j += 1;
    }
    assert(src@.take(src@.len() as int) =~= src@);
}

} // verus!
