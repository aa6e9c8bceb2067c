//! The prompt-history file: one submitted input per line. Reading keeps the
//! non-empty lines; saving appends the new entry, or rewrites the file with
//! the newest entries once the history outgrows the cap.

use vstd::prelude::*;
use crate::text::{str_chars, string_from_chars};
use crate::tool_markers::strings_view;

verus! {

/// Entries kept in the file once the history outgrows it.
pub const MAX_HISTORY_ENTRIES: usize = 500;

/// One char of the reading scan: a newline ends the current line (dropping
/// the `\r` of a `\r\n` ending, and keeping the line only when non-empty);
/// any other char extends it.
pub open spec fn scan_step(state: (Seq<Seq<char>>, Seq<char>), c: char) -> (Seq<Seq<char>>, Seq<char>) {
    let (done, cur) = state;
    if c == '\n' {
        let line = if cur.len() > 0 && cur.last() == '\r' { cur.drop_last() } else { cur };
        (if line.len() > 0 { done.push(line) } else { done }, Seq::empty())
    } else {
        (done, cur.push(c))
    }
}

/// The lines finished so far, and the unfinished last line, after reading
/// `s` from its start.
pub open spec fn scan(s: Seq<char>) -> (Seq<Seq<char>>, Seq<char>)
    decreases s.len(),
{
    if s.len() == 0 {
        (Seq::empty(), Seq::empty())
    } else {
        scan_step(scan(s.drop_last()), s.last())
    }
}

/// The entries of a history file: its non-empty lines in order (`str::lines`
/// without the empty ones; a last line without a newline keeps a final `\r`).
pub open spec fn history_entries(s: Seq<char>) -> Seq<Seq<char>> {
    let (done, cur) = scan(s);
    if cur.len() > 0 { done.push(cur) } else { done }
}

/// The entries written one per line, each followed by a newline.
pub open spec fn terminated(entries: Seq<Seq<char>>) -> Seq<char>
    decreases entries.len(),
{
    if entries.len() == 0 {
        Seq::empty()
    } else {
        terminated(entries.drop_last()) + entries.last() + seq!['\n']
    }
}

/// An entry that is stored and read back as itself: non-empty, on one line,
/// and not ending in a carriage return.
pub open spec fn storable(e: Seq<char>) -> bool {
    &&& e.len() > 0
    &&& forall|i: int| 0 <= i < e.len() ==> e[i] != '\n'
    &&& e.last() != '\r'
}

/// The entries of history file `content`.
pub fn parse_history_file(content: &str) -> (r: Vec<String>)
    ensures
        strings_view(r@) == history_entries(content@),
{
    let s = str_chars(content);
    let mut out: Vec<String> = Vec::new();
    let mut cur: Vec<char> = Vec::new();
    let mut i: usize = 0;
    assert(s@.take(0) =~= Seq::<char>::empty());
    while i < s.len()
        invariant
            i <= s@.len(),
            scan(s@.take(i as int)) == (strings_view(out@), cur@),
        decreases s@.len() - i,
    {
        assert(s@.take(i as int + 1).drop_last() =~= s@.take(i as int));
        let c = s[i];
        if c == '\n' {
            let n = cur.len();
            if n > 0 && cur[n - 1] == '\r' {
                cur.pop();
            }
            if cur.len() > 0 {
                let line = string_from_chars(&cur);
                out.push(line);
                assert(strings_view(out@) =~= strings_view(out@.drop_last()).push(cur@));
            }
            cur = Vec::new();
        } else {
            cur.push(c);
        }
        i += 1;
    }
    assert(s@.take(s@.len() as int) =~= s@);
    if cur.len() > 0 {
        let line = string_from_chars(&cur);
        out.push(line);
        assert(strings_view(out@) =~= strings_view(out@.drop_last()).push(cur@));
    }
    out
}

/// What saving an entry does to the history file.
#[derive(Clone, Debug, PartialEq, Eq)]
pub enum HistoryWrite {
    /// Replace the file with this text.
    Rewrite(String),
    /// Append this text to the file.
    Append(String),
}

/// A write as (whether it replaces the file, its text).
pub open spec fn write_view(w: HistoryWrite) -> (bool, Seq<char>) {
    match w {
        HistoryWrite::Rewrite(t) => (true, t@),
        HistoryWrite::Append(t) => (false, t@),
    }
}

/// The write that saves `entry` after `history` (which ends with it).
pub open spec fn write_spec(history: Seq<Seq<char>>, entry: Seq<char>) -> (bool, Seq<char>) {
    if history.len() > MAX_HISTORY_ENTRIES {
        (true, terminated(history.skip(history.len() - MAX_HISTORY_ENTRIES)))
    } else {
        (false, entry + seq!['\n'])
    }
}

/// The write that saves `entry`, given the history with it already added
/// last: past the cap the file is rewritten with the newest
/// `MAX_HISTORY_ENTRIES` entries, else the entry is appended as a line.
pub fn history_file_write(history: &[String], entry: &str) -> (w: HistoryWrite)
    ensures
        write_view(w) == write_spec(strings_view(history@), entry@),
{
    if history.len() > MAX_HISTORY_ENTRIES {
        let start = history.len() - MAX_HISTORY_ENTRIES;
        let ghost hv = strings_view(history@);
        let mut out: Vec<char> = Vec::new();
        let mut k: usize = start;
        assert(hv.subrange(start as int, start as int) =~= Seq::<Seq<char>>::empty());
        while k < history.len()
            invariant
                start <= k <= history@.len(),
                hv == strings_view(history@),
                out@ == terminated(hv.subrange(start as int, k as int)),
            decreases history@.len() - k,
        {
            let line = str_chars(history[k].as_str());
            let mut j: usize = 0;
            let ghost before = out@;
            while j < line.len()
                invariant
                    j <= line@.len(),
                    out@ == before + line@.take(j as int),
                decreases line@.len() - j,
            {
                out.push(line[j]);
                assert(line@.take(j as int + 1) =~= line@.take(j as int).push(line@[j as int]));
                j += 1;
            }
            out.push('\n');
            assert(line@.take(line@.len() as int) =~= line@);
            assert(hv.subrange(start as int, k as int + 1).drop_last() =~= hv.subrange(start as int, k as int));
            assert(hv[k as int] == history@[k as int]@);
            k += 1;
        }
        assert(hv.subrange(start as int, history@.len() as int) =~= hv.skip(start as int));
        HistoryWrite::Rewrite(string_from_chars(&out))
    } else {
        let mut out = str_chars(entry);
        out.push('\n');
        HistoryWrite::Append(string_from_chars(&out))
    }
}

proof fn lemma_scan_concat(a: Seq<char>, b: Seq<char>)
    requires
        scan(a).1.len() == 0,
    ensures
        scan(a + b) == (scan(a).0 + scan(b).0, scan(b).1),
    decreases b.len(),
{
    if b.len() == 0 {
        assert(a + b =~= a);
        assert(scan(a).0 + scan(b).0 =~= scan(a).0);
        assert(scan(a).1 =~= Seq::<char>::empty());
    } else {
        lemma_scan_concat(a, b.drop_last());
        assert((a + b).drop_last() =~= a + b.drop_last());
        assert((a + b).last() == b.last());
        let (d, c) = scan(b.drop_last());
        let line = if c.len() > 0 && c.last() == '\r' { c.drop_last() } else { c };
        assert((scan(a).0 + d).push(line) =~= scan(a).0 + d.push(line));
    }
}

proof fn lemma_scan_one_line(e: Seq<char>)
    requires
        forall|i: int| 0 <= i < e.len() ==> e[i] != '\n',
    ensures
        scan(e) == (Seq::<Seq<char>>::empty(), e),
    decreases e.len(),
{
    if e.len() == 0 {
        assert(e =~= Seq::<char>::empty());
    } else {
        lemma_scan_one_line(e.drop_last());
        assert(e.drop_last().push(e.last()) =~= e);
    }
}

proof fn lemma_scan_entry_line(e: Seq<char>)
    requires
        storable(e),
    ensures
        scan(e + seq!['\n']) == (seq![e], Seq::<char>::empty()),
{
    lemma_scan_one_line(e);
    assert((e + seq!['\n']).drop_last() =~= e);
    assert(Seq::<Seq<char>>::empty().push(e) =~= seq![e]);
}

proof fn lemma_scan_terminated(entries: Seq<Seq<char>>)
    requires
        forall|i: int| 0 <= i < entries.len() ==> storable(#[trigger] entries[i]),
    ensures
        scan(terminated(entries)) == (entries, Seq::<char>::empty()),
    decreases entries.len(),
{
    if entries.len() == 0 {
        assert(entries =~= Seq::<Seq<char>>::empty());
    } else {
        let init = entries.drop_last();
        let e = entries.last();
        assert(storable(entries[entries.len() - 1]));
        lemma_scan_terminated(init);
        lemma_scan_entry_line(e);
        assert(terminated(entries) =~= terminated(init) + (e + seq!['\n']));
        lemma_scan_concat(terminated(init), e + seq!['\n']);
        assert(init + seq![e] =~= entries);
    }
}

/// Entries written one per line read back as the same entries, provided
/// each is storable.
pub proof fn law_history_round_trip(entries: Seq<Seq<char>>)
    requires
        forall|i: int| 0 <= i < entries.len() ==> storable(#[trigger] entries[i]),
    ensures
        history_entries(terminated(entries)) == entries,
{
    lemma_scan_terminated(entries);
}

/// Appending a storable entry as a line to a file whose last line is
/// complete adds exactly that entry at the end of what the file reads as.
pub proof fn law_append_adds_entry(content: Seq<char>, e: Seq<char>)
    requires
        content.len() == 0 || content.last() == '\n',
        storable(e),
    ensures
        history_entries(content + (e + seq!['\n'])) == history_entries(content).push(e),
{
    if content.len() > 0 {
        assert(scan(content).1.len() == 0);
    } else {
        assert(scan(content).1.len() == 0);
    }
    lemma_scan_entry_line(e);
    lemma_scan_concat(content, e + seq!['\n']);
    assert(scan(content).0 + seq![e] =~= scan(content).0.push(e));
}

/// Past the cap, a save leaves a file that reads as the newest
/// `MAX_HISTORY_ENTRIES` entries, provided they are storable.
pub proof fn law_rewrite_keeps_newest(history: Seq<Seq<char>>, entry: Seq<char>)
    requires
        history.len() > MAX_HISTORY_ENTRIES,
        forall|i: int| 0 <= i < history.len() ==> storable(#[trigger] history[i]),
    ensures
        write_spec(history, entry).0,
        history_entries(write_spec(history, entry).1) == history.skip(history.len() - MAX_HISTORY_ENTRIES),
{
    let kept = history.skip(history.len() - MAX_HISTORY_ENTRIES);
    assert forall|i: int| 0 <= i < kept.len() implies storable(#[trigger] kept[i]) by {
        assert(kept[i] == history[i + history.len() - MAX_HISTORY_ENTRIES]);
    }
    law_history_round_trip(kept);
}

} // verus!
