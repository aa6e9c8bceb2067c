//! The `@` file picker and the directory picker: filtering the listed
//! entries by the search text, choosing between the flat listing and the
//! recursive walk, and moving the highlight inside a twenty-row window.

use vstd::prelude::*;
use crate::text::{chars_contain_sub, seq_contains_sub, str_chars};
use crate::unicode::{str_to_lowercase, unicode_lowercase};

verus! {

/// One listed entry as the filter sees it.
#[derive(Clone, Debug)]
pub struct PickerEntry {
    /// The `..` entry that leads to the parent directory.
    pub is_parent: bool,
    /// Text matched by the search: the file name in the flat listing, the
    /// path relative to the working directory in the recursive walk.
    pub label: String,
}

/// Entry `e` is offered for the search text `q` (non-empty): it is not the
/// parent entry and its lowercased label contains the lowercased search.
pub open spec fn entry_matches(e: PickerEntry, q: Seq<char>) -> bool {
    !e.is_parent && seq_contains_sub(unicode_lowercase(e.label@), unicode_lowercase(q))
}

/// Indices of the entries offered for search `q`, from index `i` on, in
/// listing order; every entry when the search is empty.
pub open spec fn filter_from(entries: Seq<PickerEntry>, q: Seq<char>, i: int) -> Seq<usize>
    decreases entries.len() - i,
{
    if i < 0 || i >= entries.len() {
        Seq::empty()
    } else {
        let rest = filter_from(entries, q, i + 1);
        if q.len() == 0 || entry_matches(entries[i], q) {
            seq![i as usize] + rest
        } else {
            rest
        }
    }
}

/// The entries shown for the search text (their indices, in listing
/// order): all of them for an empty search, else those whose label holds
/// the search ignoring case, without the `..` entry. The highlight and
/// scroll go back to the top.
pub fn apply_file_picker_filter(entries: &[PickerEntry], search: &str) -> (r: Vec<usize>)
    requires
        entries@.len() <= usize::MAX,
    ensures
        r@ == filter_from(entries@, search@, 0),
{
    let q = str_chars(search);
    let q_lower = str_chars(str_to_lowercase(search).as_str());
    let n = entries.len();
    let mut out: Vec<usize> = Vec::new();
    let mut i: usize = n;
    while i > 0
        invariant
            n == entries@.len(),
            i <= n,
            q@ == search@,
            q_lower@ == unicode_lowercase(search@),
            out@ == filter_from(entries@, search@, i as int),
        decreases i,
    {
        let j = i - 1;
        let keep = if q.len() == 0 {
            true
        } else if entries[j].is_parent {
            false
        } else {
            let l = str_chars(str_to_lowercase(entries[j].label.as_str()).as_str());
            chars_contain_sub(&l, &q_lower)
        };
        if keep {
            let mut v: Vec<usize> = Vec::new();
            v.push(j);
            v.append(&mut out);
            out = v;
        }
        i = j;
    }
    out
}

/// The search that makes the picker walk the tree recursively: two chars
/// or more.
pub open spec fn wants_recursive(search: Seq<char>) -> bool {
    search.len() >= 2
}

/// Which listing to load after the search changed: `Some(true)` for the
/// recursive walk, `Some(false)` for the flat listing, `None` when the
/// current one stays.
pub fn file_picker_source_change(search: &str, recursive: bool) -> (r: Option<bool>)
    ensures
        wants_recursive(search@) && !recursive ==> r == Some(true),
        !wants_recursive(search@) && recursive ==> r == Some(false),
        wants_recursive(search@) == recursive ==> r is None,
{
    let wants = search.unicode_len() >= 2;
    if wants && !recursive {
        Some(true)
    } else if !wants && recursive {
        Some(false)
    } else {
        None
    }
}

/// Rows of the picker visible at once.
pub const PICKER_VISIBLE_ITEMS: usize = 20;

/// Highlighted row of the picker and the first row shown.
#[derive(Clone, Copy, Debug, PartialEq, Eq, Structural)]
pub struct PickerCursor {
    pub selected: usize,
    pub scroll_offset: usize,
}

/// The highlighted row lies in the visible window.
pub open spec fn cursor_visible(c: PickerCursor) -> bool {
    c.scroll_offset <= c.selected < c.scroll_offset + PICKER_VISIBLE_ITEMS
}

impl PickerCursor {
    /// Top row highlighted and shown.
    pub fn new() -> (c: PickerCursor)
        ensures
            c.selected == 0,
            c.scroll_offset == 0,
            cursor_visible(c),
    {
        PickerCursor { selected: 0, scroll_offset: 0 }
    }

    /// Up: one row up, stopping at the top; the window follows.
    pub fn up(&mut self)
        ensures
            final(self).selected == if old(self).selected > 0 {
                old(self).selected - 1
            } else {
                0
            },
            final(self).scroll_offset == if final(self).selected < old(self).scroll_offset {
                final(self).selected
            } else {
                old(self).scroll_offset
            },
    {
        self.selected = self.selected.saturating_sub(1);
        if self.selected < self.scroll_offset {
            self.scroll_offset = self.selected;
        }
    }

    /// Down among `count` rows: one row down, stopping at the last; the
    /// window follows.
    pub fn down(&mut self, count: usize)
        requires
            old(self).scroll_offset <= usize::MAX - PICKER_VISIBLE_ITEMS,
        ensures
            old(self).selected + 1 < count ==> ({
                &&& final(self).selected == old(self).selected + 1
                &&& final(self).scroll_offset == if final(self).selected >= old(self).scroll_offset
                    + PICKER_VISIBLE_ITEMS {
                    final(self).selected - PICKER_VISIBLE_ITEMS + 1
                } else {
                    old(self).scroll_offset as int
                }
            }),
            old(self).selected + 1 >= count ==> *final(self) == *old(self),
    {
        if count > 0 && self.selected < count - 1 {
            self.selected = self.selected + 1;
            if self.selected >= self.scroll_offset + PICKER_VISIBLE_ITEMS {
                self.scroll_offset = self.selected - PICKER_VISIBLE_ITEMS + 1;
            }
        }
    }
}

/// Moving the highlight keeps it inside the visible window.
pub proof fn law_picker_window(c: PickerCursor, count: usize)
    requires
        cursor_visible(c),
    ensures
        ({
            let s = if c.selected > 0 {
                (c.selected - 1) as usize
            } else {
                0usize
            };
            let u = PickerCursor {
                selected: s,
                scroll_offset: if s < c.scroll_offset {
                    s
                } else {
                    c.scroll_offset
                },
            };
            cursor_visible(u)
        }),
        c.selected + 1 < count ==> ({
            let s = (c.selected + 1) as usize;
            let d = PickerCursor {
                selected: s,
                scroll_offset: if s >= c.scroll_offset + PICKER_VISIBLE_ITEMS {
                    (s - PICKER_VISIBLE_ITEMS + 1) as usize
                } else {
                    c.scroll_offset
                },
            };
            cursor_visible(d)
        }),
{
}

/// The file chosen with Enter: the entry the highlighted row of the shown
/// list stands for, if there is one.
pub fn chosen_entry(filtered: &[usize], entry_count: usize, selected: usize) -> (r: Option<usize>)
    ensures
        selected < filtered@.len() && filtered@[selected as int] < entry_count ==> r == Some(
            filtered@[selected as int],
        ),
        !(selected < filtered@.len() && filtered@[selected as int] < entry_count) ==> r is None,
{
    if selected < filtered.len() && filtered[selected] < entry_count {
        Some(filtered[selected])
    } else {
        None
    }
}

} // verus!
