//! Order of the entries listed by the file and directory pickers:
//! directories first, then by file name (an entry without a file name, such
//! as the `..` entry, before named ones), names compared by code point. The
//! sort is stable: entries that compare equal keep their listing order.

use vstd::prelude::*;
use crate::text::{chars_lex_lt, lemma_lex_irreflexive, lemma_lex_transitive, lex_lt, str_chars};

verus! {

/// A listed path as the ordering sees it.
#[derive(Clone, Debug)]
pub struct ListedPath {
    pub is_dir: bool,
    /// The file name; `None` for a path ending in `..` (or a root).
    pub name: Option<String>,
}

/// The sort key of a listed path.
pub open spec fn listed_key(p: ListedPath) -> (bool, Option<Seq<char>>) {
    (
        p.is_dir,
        match p.name {
            Some(n) => Some(n@),
            None => None,
        },
    )
}

pub open spec fn keys_of(paths: Seq<ListedPath>) -> Seq<(bool, Option<Seq<char>>)> {
    paths.map_values(|p: ListedPath| listed_key(p))
}

/// Name order: no name before any name, names by code point.
pub open spec fn name_lt(a: Option<Seq<char>>, b: Option<Seq<char>>) -> bool {
    match (a, b) {
        (None, Some(_)) => true,
        (Some(x), Some(y)) => lex_lt(x, y),
        _ => false,
    }
}

/// Entry order: directories first, then by name.
pub open spec fn key_lt(a: (bool, Option<Seq<char>>), b: (bool, Option<Seq<char>>)) -> bool {
    (a.0 && !b.0) || (a.0 == b.0 && name_lt(a.1, b.1))
}

proof fn lemma_key_irreflexive(a: (bool, Option<Seq<char>>))
    ensures
        !key_lt(a, a),
{
    if let Some(x) = a.1 {
        lemma_lex_irreflexive(x);
    }
}

proof fn lemma_key_transitive(a: (bool, Option<Seq<char>>), b: (bool, Option<Seq<char>>), c: (bool, Option<Seq<char>>))
    requires
        key_lt(a, b),
        key_lt(b, c),
    ensures
        key_lt(a, c),
{
    if a.0 == b.0 && b.0 == c.0 {
        match (a.1, b.1, c.1) {
            (Some(x), Some(y), Some(z)) => lemma_lex_transitive(x, y, z),
            _ => {},
        }
    }
}

/// `r` lists every position below `n` once.
pub open spec fn is_permutation(r: Seq<usize>, n: int) -> bool {
    &&& r.len() == n
    &&& forall|a: int| 0 <= a < r.len() ==> r[a] < n
    &&& forall|a: int, b: int| 0 <= a < b < r.len() ==> r[a] != r[b]
    &&& forall|j: usize| j < n ==> #[trigger] r.contains(j)
}

/// `r` puts the keys in order, and equal keys in their original order.
pub open spec fn sorted_stably(keys: Seq<(bool, Option<Seq<char>>)>, r: Seq<usize>) -> bool {
    &&& forall|a: int, b: int| 0 <= a < b < r.len() ==> !key_lt(keys[r[b] as int], keys[r[a] as int])
    &&& forall|a: int, b: int| 0 <= a < b < r.len() && keys[r[a] as int] == keys[r[b] as int] ==> r[a] < r[b]
}

proof fn lemma_insert(keys: Seq<(bool, Option<Seq<char>>)>, out: Seq<usize>, i: usize, p: int)
    requires
        0 <= i < keys.len(),
        0 <= p <= out.len(),
        out.len() == i,
        forall|a: int| 0 <= a < out.len() ==> out[a] < i,
        forall|a: int, b: int| 0 <= a < b < out.len() ==> out[a] != out[b],
        forall|j: usize| j < i ==> #[trigger] out.contains(j),
        sorted_stably(keys, out),
        forall|q: int| 0 <= q < p ==> !key_lt(keys[i as int], keys[out[q] as int]),
        p < out.len() ==> key_lt(keys[i as int], keys[out[p] as int]),
    ensures
        is_permutation(out.insert(p, i as usize), i + 1),
        sorted_stably(keys, out.insert(p, i as usize)),
{
    let o2 = out.insert(p, i as usize);
    assert(o2.len() == out.len() + 1);
    assert(o2[p] == i as usize);
    assert forall|x: int| 0 <= x < p implies #[trigger] o2[x] == out[x] by {}
    assert forall|x: int| p < x < o2.len() implies #[trigger] o2[x] == out[x - 1] by {}
    assert forall|a: int, b: int| 0 <= a < b < o2.len() implies o2[a] != o2[b] by {
        if a < p && b < p {
            assert(o2[a] == out[a] && o2[b] == out[b]);
            assert(out[a] != out[b]);
        } else if a < p && b == p {
            assert(o2[a] == out[a]);
            assert(out[a] < i);
        } else if a < p {
            assert(o2[a] == out[a]);
            assert(o2[b] == out[b - 1]);
            assert(out[a] != out[b - 1]);
        } else if a == p {
            assert(o2[b] == out[b - 1]);
            assert(out[b - 1] < i);
        } else {
            assert(o2[a] == out[a - 1] && o2[b] == out[b - 1]);
            assert(out[a - 1] != out[b - 1]);
        }
    }
    assert forall|j: usize| j < i + 1 implies #[trigger] o2.contains(j) by {
        if j == i {
            assert(o2[p] == i as usize);
        } else {
            assert(out.contains(j));
            let q = choose|q: int| 0 <= q < out.len() && out[q] == j;
            if q < p {
                assert(o2[q] == j);
            } else {
                assert(o2[q + 1] == j);
            }
        }
    }
    assert forall|a: int, b: int| 0 <= a < b < o2.len() implies !key_lt(keys[o2[b] as int], keys[o2[a] as int]) by {
        if a < p && b < p {
            assert(o2[a] == out[a] && o2[b] == out[b]);
            assert(!key_lt(keys[out[b] as int], keys[out[a] as int]));
        } else if a < p && b == p {
            assert(o2[a] == out[a]);
            assert(!key_lt(keys[i as int], keys[out[a] as int]));
        } else if a < p {
            assert(o2[a] == out[a]);
            assert(o2[b] == out[b - 1]);
            assert(!key_lt(keys[out[b - 1] as int], keys[out[a] as int]));
        } else if a == p {
            let ob = out[b - 1];
            assert(o2[b] == ob);
            if key_lt(keys[ob as int], keys[i as int]) {
                lemma_key_transitive(keys[ob as int], keys[i as int], keys[out[p] as int]);
                if b - 1 == p {
                    lemma_key_irreflexive(keys[ob as int]);
                }
            }
        } else {
            assert(o2[a] == out[a - 1] && o2[b] == out[b - 1]);
            assert(!key_lt(keys[out[b - 1] as int], keys[out[a - 1] as int]));
        }
    }
    assert forall|a: int, b: int|
        0 <= a < b < o2.len() && keys[o2[a] as int] == keys[o2[b] as int] implies o2[a] < o2[b] by {
        if a < p && b < p {
            assert(o2[a] == out[a] && o2[b] == out[b]);
            assert(!key_lt(keys[out[b] as int], keys[out[a] as int]));
        } else if a < p && b == p {
            assert(o2[a] == out[a]);
            assert(!key_lt(keys[i as int], keys[out[a] as int]));
        } else if a < p {
            assert(o2[a] == out[a]);
            assert(o2[b] == out[b - 1]);
            assert(!key_lt(keys[out[b - 1] as int], keys[out[a] as int]));
        } else if a == p {
            let ob = out[b - 1];
            assert(o2[b] == ob);
            if b - 1 == p {
                lemma_key_irreflexive(keys[i as int]);
            } else {
                assert(!key_lt(keys[out[b - 1] as int], keys[out[p] as int]));
            }
        } else {
            assert(o2[a] == out[a - 1] && o2[b] == out[b - 1]);
        }
    }
}

fn key_lt_exec(a: &ListedPath, b: &ListedPath) -> (r: bool)
    ensures
        r == key_lt(listed_key(*a), listed_key(*b)),
{
    let names = match (&a.name, &b.name) {
        (None, Some(_)) => true,
        (Some(x), Some(y)) => chars_lex_lt(&str_chars(x.as_str()), &str_chars(y.as_str())),
        _ => false,
    };
    (a.is_dir && !b.is_dir) || (a.is_dir == b.is_dir && names)
}

/// The listing order of `paths`: their positions sorted directories first,
/// then by name, equal entries in listing order.
pub fn listing_order(paths: &[ListedPath]) -> (r: Vec<usize>)
    ensures
        is_permutation(r@, paths@.len() as int),
        sorted_stably(keys_of(paths@), r@),
{
    let ghost keys = keys_of(paths@);
    let mut out: Vec<usize> = Vec::new();
    let mut i: usize = 0;
    while i < paths.len()
        invariant
            i <= paths@.len(),
            keys == keys_of(paths@),
            out@.len() == i,
            forall|a: int| 0 <= a < out@.len() ==> out@[a] < i,
            forall|a: int, b: int| 0 <= a < b < out@.len() ==> out@[a] != out@[b],
            forall|j: usize| j < i ==> #[trigger] out@.contains(j),
            sorted_stably(keys, out@),
        decreases paths@.len() - i,
    {
        let mut p: usize = 0;
        while p < out.len() && !key_lt_exec(&paths[i], &paths[out[p]])
            invariant
                p <= out@.len(),
                i < paths@.len(),
                keys == keys_of(paths@),
                forall|a: int| 0 <= a < out@.len() ==> out@[a] < i,
                forall|q: int| 0 <= q < p ==> !key_lt(keys[i as int], keys[out@[q] as int]),
            decreases out@.len() - p,
        {
            p += 1;
        }
        proof {
            lemma_insert(keys, out@, i, p as int);
        }
        out.insert(p, i);
        i += 1;
    }
    out
}

} // verus!
