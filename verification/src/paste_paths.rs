//! File paths in pasted or typed input: image paths and image URLs become
//! attachments, readable text files are inlined, other words stay.
//!
//! What the file system says about a path (whether it exists, and a text
//! file's content) comes in as `PathProbe`s keyed by the path; the caller
//! asks the file system for the paths that `paths_to_probe` lists.

use vstd::prelude::*;
use vstd::string::StringSliceAdditionalSpecFns;
use vstd::utf8::*;
use crate::image_markers::path_file_name;
use crate::text::{
    chars_eq, chars_start_with, seq_starts_with, str_chars, string_from_chars, sub_chars,
    trim_chars, trim_ws,
};
use crate::tool_markers::{join_with, lemma_join_push, skip_ws};
use crate::unicode::{char_is_whitespace, str_to_lowercase, unicode_lowercase, is_whitespace_char};

verus! {

/// A file attached to the input.
#[derive(Clone, Debug, PartialEq, Eq)]
pub struct ImageAttachment {
    /// Display name (the file name).
    pub name: String,
    /// Path or URL of the file.
    pub path: String,
    /// The attachment is a video rather than an image.
    pub is_video: bool,
}

/// What the file system says about a path.
#[derive(Clone, Debug)]
pub struct PathProbe {
    pub path: String,
    /// The path exists.
    pub exists: bool,
    /// The file's text, when it could be read as text.
    pub content: Option<String>,
}

/// Image file extensions.
pub open spec fn image_exts() -> Seq<Seq<char>> {
    seq![".png"@, ".jpg"@, ".jpeg"@, ".gif"@, ".webp"@, ".bmp"@, ".svg"@]
}

/// Text file extensions, whose files are inlined.
pub open spec fn text_exts() -> Seq<Seq<char>> {
    seq![
        ".txt"@, ".md"@, ".rst"@, ".log"@, ".json"@, ".yaml"@, ".yml"@, ".toml"@, ".xml"@, ".csv"@,
        ".tsv"@, ".js"@, ".mjs"@, ".ts"@, ".py"@, ".rb"@, ".sh"@, ".rs"@, ".go"@, ".java"@, ".c"@,
        ".cpp"@, ".h"@, ".html"@, ".htm"@, ".css"@, ".sql"@,
    ]
}

/// `s` ends with `e`.
pub open spec fn ends_with(s: Seq<char>, e: Seq<char>) -> bool {
    e.len() <= s.len() && s.skip(s.len() - e.len()) == e
}

/// The lowercased `s` ends with one of `exts`.
pub open spec fn has_ext(s: Seq<char>, exts: Seq<Seq<char>>) -> bool {
    exists|i: int| 0 <= i < exts.len() && ends_with(unicode_lowercase(s), #[trigger] exts[i])
}

/// `s` is an http(s) URL.
pub open spec fn is_url(s: Seq<char>) -> bool {
    seq_starts_with(s, "http://"@) || seq_starts_with(s, "https://"@)
}

/// The probe given for `path` (the first one), if any.
pub open spec fn probe_for(probes: Seq<PathProbe>, path: Seq<char>) -> Option<PathProbe>
    decreases probes.len(),
{
    if probes.len() == 0 {
        None
    } else if probes[0].path@ == path {
        Some(probes[0])
    } else {
        probe_for(probes.drop_first(), path)
    }
}

/// The path exists according to the probes (an unprobed path does not).
pub open spec fn exists_in(probes: Seq<PathProbe>, path: Seq<char>) -> bool {
    probe_for(probes, path) matches Some(p) && p.exists
}

/// The text read from an existing file at `path`, if any.
pub open spec fn content_in(probes: Seq<PathProbe>, path: Seq<char>) -> Option<Seq<char>> {
    match probe_for(probes, path) {
        Some(p) => if p.exists {
            match p.content {
                Some(c) => Some(c@),
                None => None,
            }
        } else {
            None
        },
        None => None,
    }
}

/// The name shown for a local file: its file name, else the path.
pub open spec fn local_name(path: Seq<char>) -> Seq<char> {
    match path_file_name(path) {
        Some(n) => n,
        None => path,
    }
}

/// The part of a URL after its last `/`.
pub open spec fn url_name(url: Seq<char>) -> Seq<char>
    decreases url.len(),
{
    if url.len() == 0 {
        url
    } else if url.last() == '/' {
        Seq::empty()
    } else {
        url_name(url.drop_last()).push(url.last())
    }
}

/// Most bytes of a text file inlined before it is cut.
pub const INLINE_LIMIT: usize = 8000;

/// The inlined block of a text file: its name and content in a fenced
/// block; content over the limit (in bytes) is cut to its first 8000 chars
/// and marked.
pub open spec fn file_block(name: Seq<char>, content: Seq<char>) -> Seq<char> {
    let shown = if encode_utf8(content).len() > INLINE_LIMIT {
        content.take(
            if content.len() < INLINE_LIMIT {
                content.len() as int
            } else {
                INLINE_LIMIT as int
            },
        ) + "…[truncated]"@
    } else {
        content
    };
    "[File: "@ + name + "]\n```\n"@ + shown + "\n```"@
}

/// The words of `s` from `i` on, as `str::split_whitespace` yields them.
pub open spec fn words_from(s: Seq<char>, i: int) -> Seq<Seq<char>>
    decreases s.len() - i,
{
    let j = skip_ws(s, i);
    if i < 0 || j < i || j >= s.len() {
        Seq::empty()
    } else {
        let k = word_end(s, j);
        if k <= j || k > s.len() {
            Seq::empty()
        } else {
            seq![s.subrange(j, k)] + words_from(s, k)
        }
    }
}

/// First index at or after `i` holding whitespace, or the length.
pub open spec fn word_end(s: Seq<char>, i: int) -> int
    decreases s.len() - i,
{
    if i < 0 || i >= s.len() || is_whitespace_char(s[i]) {
        i
    } else {
        word_end(s, i + 1)
    }
}

/// What became of one word of mixed input.
pub enum WordFate {
    /// Attached: name and path.
    Attached(Seq<char>, Seq<char>),
    /// Inlined as this block.
    Inlined(Seq<char>),
    /// Kept in the text.
    Kept(Seq<char>),
}

/// The fate of word `w`: an image that exists or an image URL is attached;
/// a readable text file is inlined; anything else is kept.
pub open spec fn word_fate(w: Seq<char>, probes: Seq<PathProbe>) -> WordFate {
    if has_ext(w, image_exts()) && exists_in(probes, w) {
        WordFate::Attached(local_name(w), w)
    } else if has_ext(w, image_exts()) && is_url(w) {
        WordFate::Attached(url_name(w), w)
    } else if has_ext(w, text_exts()) && content_in(probes, w) is Some {
        WordFate::Inlined(file_block(local_name(w), content_in(probes, w)->0))
    } else {
        WordFate::Kept(w)
    }
}

/// Kept words, inlined blocks and attachments (name, path) of the words.
pub open spec fn mixed_parts(ws: Seq<Seq<char>>, probes: Seq<PathProbe>) -> (Seq<Seq<char>>, Seq<Seq<char>>, Seq<(Seq<char>, Seq<char>)>)
    decreases ws.len(),
{
    if ws.len() == 0 {
        (Seq::empty(), Seq::empty(), Seq::empty())
    } else {
        let (k, b, a) = mixed_parts(ws.drop_last(), probes);
        match word_fate(ws.last(), probes) {
            WordFate::Attached(n, p) => (k, b, a.push((n, p))),
            WordFate::Inlined(blk) => (k, b.push(blk), a),
            WordFate::Kept(w) => (k.push(w), b, a),
        }
    }
}

/// Words joined with single spaces.
pub open spec fn join_spaces(ws: Seq<Seq<char>>) -> Seq<char>
    decreases ws.len(),
{
    if ws.len() == 0 {
        Seq::empty()
    } else if ws.len() == 1 {
        ws[0]
    } else {
        join_spaces(ws.drop_last()) + " "@ + ws.last()
    }
}

/// The text followed by the blocks, each after a blank line (none before
/// the first when the text is empty).
pub open spec fn append_blocks(text: Seq<char>, blocks: Seq<Seq<char>>) -> Seq<char>
    decreases blocks.len(),
{
    if blocks.len() == 0 {
        text
    } else {
        let t = append_blocks(text, blocks.drop_last());
        if t.len() > 0 {
            t + "\n\n"@ + blocks.last()
        } else {
            t + blocks.last()
        }
    }
}

/// The text left and the attachments (name, path) for input `text`.
pub open spec fn extract_spec(text: Seq<char>, probes: Seq<PathProbe>) -> (Seq<char>, Seq<(Seq<char>, Seq<char>)>) {
    let t = trim_ws(text);
    if has_ext(t, image_exts()) && exists_in(probes, t) {
        (Seq::empty(), seq![(local_name(t), t)])
    } else if has_ext(t, image_exts()) && is_url(t) {
        (Seq::empty(), seq![(url_name(t), t)])
    } else if has_ext(t, text_exts()) && content_in(probes, t) is Some {
        (file_block(local_name(t), content_in(probes, t)->0), Seq::empty())
    } else {
        let (kept, blocks, atts) = mixed_parts(words_from(text, 0), probes);
        (append_blocks(join_spaces(kept), blocks), atts)
    }
}

/// Separator between the text and the inlined blocks.
pub open spec fn block_sep() -> Seq<char> {
    "\n\n"@
}

/// The text followed by all the blocks, a blank line between any two of
/// them and between the text and the first block (none before the first
/// block when the text is empty).
pub proof fn law_append_blocks_layout(text: Seq<char>, blocks: Seq<Seq<char>>)
    requires
        forall|k: int| 0 <= k < blocks.len() ==> #[trigger] blocks[k].len() > 0,
    ensures
        append_blocks(text, blocks) == (if blocks.len() == 0 {
            text
        } else if text.len() == 0 {
            join_with(blocks, block_sep())
        } else {
            text + block_sep() + join_with(blocks, block_sep())
        }),
    decreases blocks.len(),
{
    reveal_strlit("\n\n");
    if blocks.len() > 0 {
        let init = blocks.drop_last();
        let x = blocks.last();
        assert(blocks =~= init.push(x));
        assert(blocks[blocks.len() - 1].len() > 0);
        assert forall|k: int| 0 <= k < init.len() implies #[trigger] init[k].len() > 0 by {
            assert(init[k] == blocks[k]);
        }
        law_append_blocks_layout(text, init);
        lemma_join_push(init, x, block_sep());
        if init.len() > 0 {
            assert(init[0].len() > 0);
            lemma_join_first(init, block_sep());
        }
    }
}

proof fn lemma_join_first(pieces: Seq<Seq<char>>, sep: Seq<char>)
    requires
        pieces.len() > 0,
    ensures
        join_with(pieces, sep).len() >= pieces[0].len(),
{
    if pieces.len() > 1 {
        assert(join_with(pieces, sep) == pieces[0] + sep + join_with(pieces.drop_first(), sep));
    }
}

/// The word is kept in the text.
pub open spec fn is_kept(w: Seq<char>, probes: Seq<PathProbe>) -> bool {
    word_fate(w, probes) is Kept
}

/// The word is a readable text file, inlined.
pub open spec fn is_inlined(w: Seq<char>, probes: Seq<PathProbe>) -> bool {
    word_fate(w, probes) is Inlined
}

/// The word is an image, attached.
pub open spec fn is_attached(w: Seq<char>, probes: Seq<PathProbe>) -> bool {
    word_fate(w, probes) is Attached
}

/// The block inlined for a readable text file: its name and content.
pub open spec fn inlined_block(w: Seq<char>, probes: Seq<PathProbe>) -> Seq<char> {
    file_block(local_name(w), content_in(probes, w)->0)
}

/// The attachment (name, path) for an image word.
pub open spec fn attachment_of(w: Seq<char>, probes: Seq<PathProbe>) -> (Seq<char>, Seq<char>) {
    if exists_in(probes, w) {
        (local_name(w), w)
    } else {
        (url_name(w), w)
    }
}

/// Splitting the words of mixed input: the kept words are the words that
/// are neither images nor readable text files, in order; every readable
/// text file gives its block, in order; every image gives its attachment,
/// in order.
pub proof fn law_mixed_parts_in_order(ws: Seq<Seq<char>>, probes: Seq<PathProbe>)
    ensures
        mixed_parts(ws, probes).0 == ws.filter(|w: Seq<char>| is_kept(w, probes)),
        mixed_parts(ws, probes).1 == ws.filter(|w: Seq<char>| is_inlined(w, probes)).map_values(
            |w: Seq<char>| inlined_block(w, probes),
        ),
        mixed_parts(ws, probes).2 == ws.filter(|w: Seq<char>| is_attached(w, probes)).map_values(
            |w: Seq<char>| attachment_of(w, probes),
        ),
    decreases ws.len(),
{
    let pk = |w: Seq<char>| is_kept(w, probes);
    let pi = |w: Seq<char>| is_inlined(w, probes);
    let pa = |w: Seq<char>| is_attached(w, probes);
    let fb = |w: Seq<char>| inlined_block(w, probes);
    let fa = |w: Seq<char>| attachment_of(w, probes);
    if ws.len() == 0 {
        reveal(Seq::filter);
        assert(ws.filter(pi).map_values(fb) =~= Seq::<Seq<char>>::empty());
        assert(ws.filter(pa).map_values(fa) =~= Seq::<(Seq<char>, Seq<char>)>::empty());
    } else {
        let init = ws.drop_last();
        let x = ws.last();
        assert(ws =~= init.push(x));
        law_mixed_parts_in_order(init, probes);
        init.lemma_filter_push(x, pk);
        init.lemma_filter_push(x, pi);
        init.lemma_filter_push(x, pa);
        if pi(x) {
            assert(init.filter(pi).push(x).map_values(fb) =~= init.filter(pi).map_values(fb).push(
                fb(x),
            ));
        }
        if pa(x) {
            assert(init.filter(pa).push(x).map_values(fa) =~= init.filter(pa).map_values(fa).push(
                fa(x),
            ));
        }
    }
}

/// Mixed input (not a lone image or text-file path): the text left is the
/// kept words joined with spaces, followed by the block of every readable
/// text file among the words, in order, each after a blank line; the
/// attachments are those of the images among the words, in order.
pub proof fn law_mixed_input_layout(text: Seq<char>, probes: Seq<PathProbe>)
    requires
        !(has_ext(trim_ws(text), image_exts()) && exists_in(probes, trim_ws(text))),
        !(has_ext(trim_ws(text), image_exts()) && is_url(trim_ws(text))),
        !(has_ext(trim_ws(text), text_exts()) && content_in(probes, trim_ws(text)) is Some),
    ensures
        ({
            let ws = words_from(text, 0);
            let kept = join_spaces(ws.filter(|w: Seq<char>| is_kept(w, probes)));
            let blocks = ws.filter(|w: Seq<char>| is_inlined(w, probes)).map_values(
                |w: Seq<char>| inlined_block(w, probes),
            );
            &&& extract_spec(text, probes).0 == (if blocks.len() == 0 {
                kept
            } else if kept.len() == 0 {
                join_with(blocks, block_sep())
            } else {
                kept + block_sep() + join_with(blocks, block_sep())
            })
            &&& extract_spec(text, probes).1 == ws.filter(|w: Seq<char>| is_attached(w, probes)).map_values(
                |w: Seq<char>| attachment_of(w, probes),
            )
        }),
{
    reveal_strlit("[File: ");
    let ws = words_from(text, 0);
    law_mixed_parts_in_order(ws, probes);
    let blocks = ws.filter(|w: Seq<char>| is_inlined(w, probes)).map_values(
        |w: Seq<char>| inlined_block(w, probes),
    );
    assert forall|k: int| 0 <= k < blocks.len() implies #[trigger] blocks[k].len() > 0 by {
        let f = ws.filter(|w: Seq<char>| is_inlined(w, probes));
        let w = f[k];
        assert(blocks[k] == inlined_block(w, probes));
        assert("[File: "@.len() == 7);
    }
    law_append_blocks_layout(join_spaces(ws.filter(|w: Seq<char>| is_kept(w, probes))), blocks);
}

/// The texts of a list of char vectors.
pub open spec fn char_lists_view(v: Seq<Vec<char>>) -> Seq<Seq<char>> {
    v.map_values(|x: Vec<char>| x@)
}

fn push_ext(v: &mut Vec<Vec<char>>, e: &str)
    ensures
        char_lists_view(final(v)@) == char_lists_view(old(v)@).push(e@),
{
    let ghost before = v@;
    v.push(str_chars(e));
    assert(char_lists_view(v@) =~= char_lists_view(before).push(e@));
}

/// The image extensions as char vectors.
fn image_ext_list() -> (r: Vec<Vec<char>>)
    ensures
        char_lists_view(r@) == image_exts(),
{
    let mut v: Vec<Vec<char>> = Vec::new();
    push_ext(&mut v, ".png");
    push_ext(&mut v, ".jpg");
    push_ext(&mut v, ".jpeg");
    push_ext(&mut v, ".gif");
    push_ext(&mut v, ".webp");
    push_ext(&mut v, ".bmp");
    push_ext(&mut v, ".svg");
    assert(char_lists_view(v@) =~= image_exts());
    v
}

/// The text extensions as char vectors.
fn text_ext_list() -> (r: Vec<Vec<char>>)
    ensures
        char_lists_view(r@) == text_exts(),
{
    let mut v: Vec<Vec<char>> = Vec::new();
    push_ext(&mut v, ".txt");
    push_ext(&mut v, ".md");
    push_ext(&mut v, ".rst");
    push_ext(&mut v, ".log");
    push_ext(&mut v, ".json");
    push_ext(&mut v, ".yaml");
    push_ext(&mut v, ".yml");
    push_ext(&mut v, ".toml");
    push_ext(&mut v, ".xml");
    push_ext(&mut v, ".csv");
    push_ext(&mut v, ".tsv");
    push_ext(&mut v, ".js");
    push_ext(&mut v, ".mjs");
    push_ext(&mut v, ".ts");
    push_ext(&mut v, ".py");
    push_ext(&mut v, ".rb");
    push_ext(&mut v, ".sh");
    push_ext(&mut v, ".rs");
    push_ext(&mut v, ".go");
    push_ext(&mut v, ".java");
    push_ext(&mut v, ".c");
    push_ext(&mut v, ".cpp");
    push_ext(&mut v, ".h");
    push_ext(&mut v, ".html");
    push_ext(&mut v, ".htm");
    push_ext(&mut v, ".css");
    push_ext(&mut v, ".sql");
    assert(char_lists_view(v@) =~= text_exts());
    v
}

/// Whether `s` ends with `e`.
fn ends_with_exec(s: &[char], e: &[char]) -> (b: bool)
    ensures
        b == ends_with(s@, e@),
{
    if e.len() > s.len() {
        return false;
    }
    let tail = sub_chars(s, s.len() - e.len(), s.len());
    assert(tail@ =~= s@.skip(s@.len() - e@.len()));
    chars_eq(&tail, e)
}

/// Whether the lowercased `s` ends with one of `exts`.
fn has_ext_exec(s: &str, exts: &Vec<Vec<char>>) -> (b: bool)
    ensures
        b == has_ext(s@, char_lists_view(exts@)),
{
    let lower = str_chars(str_to_lowercase(s).as_str());
    let mut i: usize = 0;
    while i < exts.len()
        invariant
            lower@ == unicode_lowercase(s@),
            i <= exts@.len(),
            forall|j: int| 0 <= j < i ==> !ends_with(unicode_lowercase(s@), #[trigger] char_lists_view(exts@)[j]),
        decreases exts@.len() - i,
    {
        if ends_with_exec(&lower, &exts[i]) {
            assert(ends_with(unicode_lowercase(s@), char_lists_view(exts@)[i as int]));
            return true;
        }
        i += 1;
    }
    false
}

/// Whether `s` is an http(s) URL.
fn is_url_exec(s: &[char]) -> (b: bool)
    ensures
        b == is_url(s@),
{
    chars_start_with(s, &str_chars("http://")) || chars_start_with(s, &str_chars("https://"))
}

/// Index of the probe for `path`, if any.
fn find_probe(probes: &[PathProbe], path: &[char]) -> (r: Option<usize>)
    ensures
        match r {
            Some(i) => i < probes@.len() && probe_for(probes@, path@) == Some(probes@[i as int]),
            None => probe_for(probes@, path@) is None,
        },
{
    let mut i: usize = 0;
    assert(probes@.skip(0) =~= probes@);
    while i < probes.len()
        invariant
            i <= probes@.len(),
            probe_for(probes@, path@) == probe_for(probes@.skip(i as int), path@),
        decreases probes@.len() - i,
    {
        let p = str_chars(probes[i].path.as_str());
        assert(probes@.skip(i as int)[0] == probes@[i as int]);
        assert(probes@.skip(i as int).drop_first() =~= probes@.skip(i + 1));
        if chars_eq(&p, path) {
            return Some(i);
        }
        i += 1;
    }
    assert(probes@.skip(i as int) =~= Seq::<PathProbe>::empty());
    None
}

/// The part of a URL after its last `/`.
fn url_name_exec(u: &[char]) -> (r: Vec<char>)
    ensures
        r@ == url_name(u@),
{
    let mut j: usize = u.len();
    assert(u@.take(j as int) =~= u@);
    assert(u@.skip(j as int) =~= Seq::<char>::empty());
    while j > 0 && u[j - 1] != '/'
        invariant
            j <= u@.len(),
            url_name(u@) == url_name(u@.take(j as int)) + u@.skip(j as int),
        decreases j,
    {
        assert(u@.take(j as int).drop_last() =~= u@.take(j - 1));
        assert(u@.skip(j - 1) =~= seq![u@[j - 1]] + u@.skip(j as int));
        assert(url_name(u@.take(j as int)) == url_name(u@.take(j - 1)).push(u@[j - 1]));
        assert(url_name(u@.take(j - 1)).push(u@[j - 1]) + u@.skip(j as int) =~= url_name(u@.take(j - 1)) + u@.skip(j - 1));
        j -= 1;
    }
    assert(url_name(u@.take(j as int)) =~= Seq::<char>::empty());
    let r = sub_chars(u, j, u.len());
    assert(r@ =~= u@.skip(j as int));
    r
}

/// The shown name of a local file.
fn local_name_exec(path: &str) -> (r: Vec<char>)
    ensures
        r@ == local_name(path@),
{
    match crate::image_markers::file_name_of(path) {
        Some(n) => str_chars(n.as_str()),
        None => str_chars(path),
    }
}

/// The inlined block of a text file.
fn file_block_exec(name: &[char], content: &str) -> (r: Vec<char>)
    ensures
        r@ == file_block(name@, content@),
{
    let cc = str_chars(content);
    let nbytes = content.as_bytes().len();
    let mut out = str_chars("[File: ");
    let mut n = sub_chars(name, 0, name.len());
    out.append(&mut n);
    let mut mid = str_chars("]\n```\n");
    out.append(&mut mid);
    if nbytes > INLINE_LIMIT {
        let k = if cc.len() < INLINE_LIMIT {
            cc.len()
        } else {
            INLINE_LIMIT
        };
        let mut head = sub_chars(&cc, 0, k);
        assert(head@ =~= content@.take(k as int));
        out.append(&mut head);
        let mut mark = str_chars("…[truncated]");
        out.append(&mut mark);
    } else {
        let mut all = cc;
        out.append(&mut all);
    }
    let mut close = str_chars("\n```");
    out.append(&mut close);
    assert(name@.subrange(0, name@.len() as int) =~= name@);
    assert(out@ =~= file_block(name@, content@));
    out
}

/// The words of `s`, as `str::split_whitespace` yields them.
fn words_exec(s: &[char]) -> (r: Vec<Vec<char>>)
    ensures
        char_lists_view(r@) == words_from(s@, 0),
{
    let n = s.len();
    let mut out: Vec<Vec<char>> = Vec::new();
    let mut pos: usize = 0;
    loop
        invariant
            n == s@.len(),
            pos <= n,
            char_lists_view(out@) + words_from(s@, pos as int) == words_from(s@, 0),
        decreases n - pos,
    {
        let mut j = pos;
        while j < n && char_is_whitespace(s[j])
            invariant
                pos <= j <= n,
                n == s@.len(),
                skip_ws(s@, j as int) == skip_ws(s@, pos as int),
            decreases n - j,
        {
            j += 1;
        }
        if j >= n {
            assert(char_lists_view(out@) + Seq::<Seq<char>>::empty() =~= char_lists_view(out@));
            return out;
        }
        let mut k = j;
        while k < n && !char_is_whitespace(s[k])
            invariant
                j <= k <= n,
                n == s@.len(),
                word_end(s@, k as int) == word_end(s@, j as int),
            decreases n - k,
        {
            k += 1;
        }
        let ghost before = out@;
        let w = sub_chars(s, j, k);
        out.push(w);
        assert(char_lists_view(out@) =~= char_lists_view(before).push(s@.subrange(j as int, k as int)));
        assert(char_lists_view(out@) + words_from(s@, k as int) =~= char_lists_view(before) + words_from(s@, pos as int));
        pos = k;
    }
}

/// The (name, path) pairs of attachments.
pub open spec fn atts_view(v: Seq<ImageAttachment>) -> Seq<(Seq<char>, Seq<char>)> {
    v.map_values(|a: ImageAttachment| (a.name@, a.path@))
}

/// Words joined with single spaces.
fn join_spaces_exec(ws: &Vec<Vec<char>>) -> (r: Vec<char>)
    ensures
        r@ == join_spaces(char_lists_view(ws@)),
{
    let mut out: Vec<char> = Vec::new();
    let mut i: usize = 0;
    while i < ws.len()
        invariant
            i <= ws@.len(),
            out@ == join_spaces(char_lists_view(ws@).take(i as int)),
        decreases ws@.len() - i,
    {
        let ghost v = char_lists_view(ws@);
        assert(v.take(i + 1).drop_last() =~= v.take(i as int));
        if i > 0 {
            let mut sp = str_chars(" ");
            out.append(&mut sp);
        } else {
            assert(v.take(1) =~= seq![v[0]]);
        }
        let mut w = sub_chars(&ws[i], 0, ws[i].len());
        assert(w@ =~= v[i as int]);
        out.append(&mut w);
        i += 1;
    }
    assert(char_lists_view(ws@).take(ws@.len() as int) =~= char_lists_view(ws@));
    out
}

/// The text followed by the blocks (see `append_blocks`).
fn append_blocks_exec(text: Vec<char>, blocks: &Vec<Vec<char>>) -> (r: Vec<char>)
    ensures
        r@ == append_blocks(text@, char_lists_view(blocks@)),
{
    let mut out = text;
    let ghost t0 = out@;
    let mut i: usize = 0;
    assert(char_lists_view(blocks@).take(0) =~= Seq::<Seq<char>>::empty());
    while i < blocks.len()
        invariant
            i <= blocks@.len(),
            out@ == append_blocks(t0, char_lists_view(blocks@).take(i as int)),
        decreases blocks@.len() - i,
    {
        let ghost v = char_lists_view(blocks@);
        assert(v.take(i + 1).drop_last() =~= v.take(i as int));
        if out.len() > 0 {
            let mut sep = str_chars("\n\n");
            out.append(&mut sep);
        }
        let mut b = sub_chars(&blocks[i], 0, blocks[i].len());
        assert(b@ =~= v[i as int]);
        out.append(&mut b);
        i += 1;
    }
    assert(char_lists_view(blocks@).take(blocks@.len() as int) =~= char_lists_view(blocks@));
    out
}

/// The shown name, the path and the block of a word or whole text, as
/// the fate rules decide them.
fn fate_exec(w: &str, probes: &[PathProbe], img: &Vec<Vec<char>>, txt: &Vec<Vec<char>>) -> (r: (u8, Vec<char>))
    requires
        char_lists_view(img@) == image_exts(),
        char_lists_view(txt@) == text_exts(),
    ensures
        match word_fate(w@, probes@) {
            WordFate::Attached(n, _) => r.0 == 0 && r.1@ == n,
            WordFate::Inlined(b) => r.0 == 1 && r.1@ == b,
            WordFate::Kept(_) => r.0 == 2,
        },
{
    let wc = str_chars(w);
    let is_img = has_ext_exec(w, img);
    let probe = find_probe(probes, &wc);
    let exists = match probe {
        Some(i) => probes[i].exists,
        None => false,
    };
    if is_img && exists {
        return (0, local_name_exec(w));
    }
    if is_img && is_url_exec(&wc) {
        return (0, url_name_exec(&wc));
    }
    if has_ext_exec(w, txt) {
        match probe {
            Some(i) => {
                if probes[i].exists {
                    match &probes[i].content {
                        Some(c) => {
                            let name = local_name_exec(w);
                            return (1, file_block_exec(&name, c.as_str()));
                        },
                        None => {},
                    }
                }
            },
            None => {},
        }
    }
    (2, Vec::new())
}

/// Finds file paths in pasted or typed input (see `extract_spec`): a whole
/// input that is an existing image path or an image URL becomes one
/// attachment and no text; a whole input that is a readable text file
/// becomes its inlined block; otherwise each word that is an existing image
/// path or an image URL becomes an attachment, each readable text file is
/// inlined after the text, and the other words stay, joined by single
/// spaces. Existence and content come from `probes`.
pub fn extract_image_paths(text: &str, probes: &[PathProbe]) -> (r: (String, Vec<ImageAttachment>))
    ensures
        r.0@ == extract_spec(text@, probes@).0,
        atts_view(r.1@) == extract_spec(text@, probes@).1,
        forall|i: int| 0 <= i < r.1@.len() ==> !(#[trigger] r.1@[i]).is_video,
{
    let img = image_ext_list();
    let txt = text_ext_list();
    let chars = str_chars(text);
    let tc = trim_chars(&chars);
    let t = string_from_chars(&tc);
    let (fate, payload) = fate_exec(t.as_str(), probes, &img, &txt);
    if fate == 0 {
        let mut atts: Vec<ImageAttachment> = Vec::new();
        atts.push(ImageAttachment { name: string_from_chars(&payload), path: t, is_video: false });
        assert(atts_view(atts@) =~= extract_spec(text@, probes@).1);
        return (String::new(), atts);
    }
    if fate == 1 {
        let atts: Vec<ImageAttachment> = Vec::new();
        assert(atts_view(atts@) =~= Seq::<(Seq<char>, Seq<char>)>::empty());
        return (string_from_chars(&payload), atts);
    }
    let words = words_exec(&chars);
    let mut kept: Vec<Vec<char>> = Vec::new();
    let mut blocks: Vec<Vec<char>> = Vec::new();
    let mut atts: Vec<ImageAttachment> = Vec::new();
    let mut i: usize = 0;
    assert(char_lists_view(words@).take(0) =~= Seq::<Seq<char>>::empty());
    while i < words.len()
        invariant
            i <= words@.len(),
            char_lists_view(img@) == image_exts(),
            char_lists_view(txt@) == text_exts(),
            (char_lists_view(kept@), char_lists_view(blocks@), atts_view(atts@)) == mixed_parts(
                char_lists_view(words@).take(i as int),
                probes@,
            ),
            forall|j: int| 0 <= j < atts@.len() ==> !(#[trigger] atts@[j]).is_video,
        decreases words@.len() - i,
    {
        let ghost v = char_lists_view(words@);
        assert(v.take(i + 1).drop_last() =~= v.take(i as int));
        assert(v.take(i + 1).last() == words@[i as int]@);
        let w = string_from_chars(&words[i]);
        let (f, pl) = fate_exec(w.as_str(), probes, &img, &txt);
        let ghost k0 = kept@;
        let ghost b0 = blocks@;
        let ghost a0 = atts@;
        if f == 0 {
            atts.push(ImageAttachment { name: string_from_chars(&pl), path: w, is_video: false });
            assert(atts_view(atts@) =~= atts_view(a0).push((pl@, words@[i as int]@)));
        } else if f == 1 {
            blocks.push(pl);
            assert(char_lists_view(blocks@) =~= char_lists_view(b0).push(pl@));
        } else {
            let wc = sub_chars(&words[i], 0, words[i].len());
            assert(wc@ =~= words@[i as int]@);
            kept.push(wc);
            assert(char_lists_view(kept@) =~= char_lists_view(k0).push(words@[i as int]@));
        }
        i += 1;
    }
    assert(char_lists_view(words@).take(words@.len() as int) =~= char_lists_view(words@));
    let joined = join_spaces_exec(&kept);
    let out = append_blocks_exec(joined, &blocks);
    (string_from_chars(&out), atts)
}

/// The words with an image or text extension.
pub open spec fn ext_words(ws: Seq<Seq<char>>) -> Seq<Seq<char>>
    decreases ws.len(),
{
    if ws.len() == 0 {
        Seq::empty()
    } else if has_ext(ws.last(), image_exts()) || has_ext(ws.last(), text_exts()) {
        ext_words(ws.drop_last()).push(ws.last())
    } else {
        ext_words(ws.drop_last())
    }
}

/// The paths whose probes `extract_image_paths` may consult for `text`:
/// the trimmed input and the words, where they have an image or text
/// extension.
pub open spec fn probe_paths(text: Seq<char>) -> Seq<Seq<char>> {
    let t = trim_ws(text);
    (if has_ext(t, image_exts()) || has_ext(t, text_exts()) {
        seq![t]
    } else {
        Seq::empty()
    }) + ext_words(words_from(text, 0))
}

/// The paths to ask the file system about before `extract_image_paths`.
pub fn paths_to_probe(text: &str) -> (r: Vec<String>)
    ensures
        crate::tool_markers::strings_view(r@) == probe_paths(text@),
{
    let img = image_ext_list();
    let txt = text_ext_list();
    let chars = str_chars(text);
    let t = string_from_chars(&trim_chars(&chars));
    let mut out: Vec<String> = Vec::new();
    if has_ext_exec(t.as_str(), &img) || has_ext_exec(t.as_str(), &txt) {
        out.push(t);
    }
    let ghost head = crate::tool_markers::strings_view(out@);
    let words = words_exec(&chars);
    let mut i: usize = 0;
    assert(char_lists_view(words@).take(0) =~= Seq::<Seq<char>>::empty());
    assert(head + ext_words(Seq::<Seq<char>>::empty()) =~= head);
    while i < words.len()
        invariant
            i <= words@.len(),
            char_lists_view(img@) == image_exts(),
            char_lists_view(txt@) == text_exts(),
            crate::tool_markers::strings_view(out@) == head + ext_words(char_lists_view(words@).take(i as int)),
        decreases words@.len() - i,
    {
        let ghost v = char_lists_view(words@);
        assert(v.take(i + 1).drop_last() =~= v.take(i as int));
        assert(v.take(i + 1).last() == words@[i as int]@);
        let w = string_from_chars(&words[i]);
        if has_ext_exec(w.as_str(), &img) || has_ext_exec(w.as_str(), &txt) {
            let ghost before = out@;
            out.push(w);
            assert(crate::tool_markers::strings_view(out@) =~= crate::tool_markers::strings_view(before).push(words@[i as int]@));
        }
        i += 1;
    }
    assert(char_lists_view(words@).take(words@.len() as int) =~= char_lists_view(words@));
    out
}

/// Whether the path names a text file (by its extension, ignoring case),
/// whose content is inlined rather than attached.
pub fn has_text_extension(path: &str) -> (b: bool)
    ensures
        b == has_ext(path@, text_exts()),
{
    let txt = text_ext_list();
    has_ext_exec(path, &txt)
}

} // verus!
