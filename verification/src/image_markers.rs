//! Attachment markers in message text: a sent message carries each attached
//! image as `<<IMG:/path/to/file.png>>`; the chat shows it as
//! `[IMG: file.png]`.

use vstd::prelude::*;
use crate::text::{find_chars, find_from, lemma_find_from, str_chars, string_from_chars, sub_chars, trim_chars, trim_ws};

verus! {

/// What `std::path::Path::file_name` gives for a path (as text).
pub uninterp spec fn path_file_name(path: Seq<char>) -> Option<Seq<char>>;

/// `std::path::Path::file_name` on a path given as text: the final
/// component of the path, `None` when there is none (the root, or a path
/// ending in `..`). The contract names the result and states that the final
/// component, part of the path, is no longer than the path.
#[verifier::external_body]
pub(crate) fn file_name_of(path: &str) -> (r: Option<String>)
    ensures
        match r {
            Some(n) => path_file_name(path@) == Some(n@) && n@.len() <= path@.len(),
            None => path_file_name(path@) is None,
        },
{
    std::path::Path::new(path).file_name().map(|n| n.to_string_lossy().to_string())
}

/// Opening of an image marker.
pub open spec fn img_open() -> Seq<char> {
    "<<IMG:"@
}

/// Closing of an image marker.
pub open spec fn img_close() -> Seq<char> {
    ">>"@
}

/// The label shown for an image path: its file name, else the path.
pub open spec fn image_label(path: Seq<char>) -> Seq<char> {
    match path_file_name(path) {
        Some(n) => n,
        None => path,
    }
}

/// Where the first complete image marker of `s` starts and where its
/// closing `>>` starts, if `s` has one.
pub open spec fn first_marker_span(s: Seq<char>) -> Option<(int, int)> {
    let st = find_from(s, img_open(), 0);
    if st < 0 {
        None
    } else {
        let e = find_from(s, img_close(), st);
        if e < st + img_open().len() {
            None
        } else {
            Some((st, e))
        }
    }
}

/// The path inside the first complete image marker of `s`, if it has one.
pub open spec fn first_marker_path(s: Seq<char>) -> Option<Seq<char>> {
    match first_marker_span(s) {
        Some((st, e)) => Some(s.subrange(st + img_open().len(), e)),
        None => None,
    }
}

/// `s` with its first complete image marker replaced by `[IMG: name]`,
/// where the name is `file_name` when there is one and else the marker's
/// path; `None` when `s` has no complete marker.
pub open spec fn label_first_marker(s: Seq<char>, file_name: Option<Seq<char>>) -> Option<Seq<char>> {
    match first_marker_span(s) {
        Some((st, e)) => {
            let label = match file_name {
                Some(n) => n,
                None => s.subrange(st + img_open().len(), e),
            };
            Some(s.take(st) + "[IMG: "@ + label + "]"@ + s.skip(e + img_close().len()))
        },
        None => None,
    }
}

/// `s` with its first complete image marker replaced by its label, if it
/// has one.
pub open spec fn replace_first_marker(s: Seq<char>) -> Option<Seq<char>> {
    match first_marker_path(s) {
        Some(p) => label_first_marker(s, path_file_name(p)),
        None => None,
    }
}

/// Every complete image marker replaced by its label, first one first, until
/// none is left.
pub open spec fn humanize_spec(s: Seq<char>) -> Seq<char>
    decreases s.len(),
{
    match replace_first_marker(s) {
        Some(next) => if next.len() < s.len() {
            humanize_spec(next)
        } else {
            s
        },
        None => s,
    }
}

/// The path inside the first complete `<<IMG:path>>` marker of `text`, if
/// it has one.
pub fn image_marker_path(text: &str) -> (r: Option<String>)
    ensures
        match first_marker_path(text@) {
            Some(p) => r matches Some(q) && q@ == p,
            None => r is None,
        },
{
    let cs = str_chars(text);
    match first_marker_at(&cs) {
        Some((st, e)) => {
            proof {
                reveal_strlit("<<IMG:");
            }
            let p = sub_chars(&cs, st + 6, e);
            assert(p@ =~= cs@.subrange(st + 6, e as int));
            Some(string_from_chars(&p))
        },
        None => None,
    }
}

/// Start of the first complete image marker of `s` and of its closing `>>`.
fn first_marker_at(s: &Vec<char>) -> (r: Option<(usize, usize)>)
    ensures
        match first_marker_span(s@) {
            Some((st, e)) => r matches Some(p) && p.0 == st && p.1 == e && st + 6 <= e && e + 2
                <= s@.len(),
            None => r is None,
        },
{
    let open = str_chars("<<IMG:");
    let close = str_chars(">>");
    proof {
        reveal_strlit("<<IMG:");
        reveal_strlit(">>");
        lemma_find_from(s@, img_open(), 0);
    }
    assert(open@ == img_open() && open@.len() == 6);
    assert(close@ == img_close() && close@.len() == 2);
    let st = match find_chars(s, &open, 0) {
        Some(st) => st,
        None => return None,
    };
    let n = s.len();
    assert(st + 6 <= n);
    proof {
        lemma_find_from(s@, img_close(), st as int);
    }
    let e = match find_chars(s, &close, st) {
        Some(e) => e,
        None => return None,
    };
    assert(e + 2 <= n);
    assert(s@.subrange(st as int, st + 6) == img_open());
    if e < st + 6 {
        proof {
            assert(s@.subrange(e as int, e + 2) == img_close());
            assert(s@.subrange(e as int, e + 2)[0] == s@[e as int]);
            assert(img_close()[0] == '>');
            assert(s@.subrange(st as int, st + 6)[e - st] == s@[e as int]);
            assert(img_open()[e - st] != '>');
        }
        return None;
    }
    Some((st, e))
}

/// `text` with its first complete `<<IMG:path>>` marker shown as
/// `[IMG: name]`, the name being `file_name` (what the marker's path has as
/// file name) when there is one and else the path; `None` when `text` has
/// no complete marker.
pub fn label_first_image_marker(text: &str, file_name: Option<&str>) -> (r: Option<String>)
    ensures
        match label_first_marker(
            text@,
            match file_name {
                Some(n) => Some(n@),
                None => None,
            },
        ) {
            Some(t) => r matches Some(u) && u@ == t,
            None => r is None,
        },
{
    proof {
        reveal_strlit("[IMG: ");
        reveal_strlit("]");
        reveal_strlit("<<IMG:");
        reveal_strlit(">>");
    }
    let cur = str_chars(text);
    let (st, e) = match first_marker_at(&cur) {
        Some(p) => p,
        None => return None,
    };
    let len = cur.len();
    let name = match file_name {
        Some(n) => str_chars(n),
        None => sub_chars(&cur, st + 6, e),
    };
    let mut next = sub_chars(&cur, 0, st);
    let mut a = str_chars("[IMG: ");
    let mut b = name;
    let mut c = str_chars("]");
    let mut d = sub_chars(&cur, e + 2, len);
    next.append(&mut a);
    next.append(&mut b);
    next.append(&mut c);
    next.append(&mut d);
    assert(next@ =~= label_first_marker(
        text@,
        match file_name {
            Some(n) => Some(n@),
            None => None,
        },
    )->0);
    Some(string_from_chars(&next))
}

/// The text of a message with every `<<IMG:path>>` marker shown as
/// `[IMG: file name]`, then trimmed.
pub fn humanize_image_markers(text: &str) -> (r: String)
    ensures
        r@ == trim_ws(humanize_spec(text@)),
{
    proof {
        reveal_strlit("[IMG: ");
        reveal_strlit("]");
        reveal_strlit("<<IMG:");
        reveal_strlit(">>");
    }
    let mut cur = String::from_str(text);
    loop
        invariant
            humanize_spec(cur@) == humanize_spec(text@),
        ensures
            cur@ == humanize_spec(text@),
        decreases cur@.len(),
    {
        let path = match image_marker_path(cur.as_str()) {
            Some(p) => p,
            None => {
                assert(humanize_spec(cur@) == cur@);
                break;
            },
        };
        let name = file_name_of(path.as_str());
        let next = match &name {
            Some(n) => label_first_image_marker(cur.as_str(), Some(n.as_str())),
            None => label_first_image_marker(cur.as_str(), None),
        };
        let next = match next {
            Some(t) => t,
            None => {
                assert(false);
                break;
            },
        };
        proof {
            reveal_strlit("[IMG: ");
            reveal_strlit("]");
            reveal_strlit("<<IMG:");
            reveal_strlit(">>");
            let s = cur@;
            let (st, e) = first_marker_span(s)->0;
            lemma_find_from(s, img_open(), 0);
            lemma_find_from(s, img_close(), st);
            assert(path@ == s.subrange(st + 6, e));
            let fv = match name {
                Some(n) => Some(n@),
                None => None,
            };
            assert(fv == path_file_name(path@));
            let lab = match fv {
                Some(n) => n,
                None => path@,
            };
            assert(path@.len() == e - st - 6);
            assert(name matches Some(n) ==> n@.len() <= path@.len());
            assert(lab.len() <= e - st - 6);
            assert(replace_first_marker(s) == Some(next@));
            assert(next@.len() < s.len());
        }
        cur = next;
    }
    let trimmed = trim_chars(&str_chars(cur.as_str()));
    string_from_chars(&trimmed)
}

} // verus!
