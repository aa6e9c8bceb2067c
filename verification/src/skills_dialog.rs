//! The `/skills` dialog: a filterable list of loaded skills. Printable keys
//! that are not navigation keys extend the filter, Backspace trims it,
//! Tab/Down/`j` and BackTab/Up/`k` cycle the filtered list, Enter runs the
//! highlighted skill and Esc closes.

use vstd::prelude::*;
use crate::catalog::Skill;
use crate::keys::{KeyCode, KeyEvent};
use crate::selection::{wrap_step, wrapped_move};
use crate::text::{chars_contain_sub, seq_contains_sub, str_chars, string_push};
use crate::unicode::{str_to_lowercase, unicode_lowercase};

verus! {

/// Runtime state of the `/skills` dialog.
#[derive(Clone, Debug)]
pub struct SkillsDialogState {
    /// Live filter string, matched against name and description.
    pub filter: String,
    /// Index into the filtered list.
    pub selected_index: usize,
    /// Vertical scroll offset of the card list.
    pub scroll_offset: u16,
}

impl SkillsDialogState {
    /// A clean dialog: empty filter, top row, no scroll.
    pub fn new() -> (s: SkillsDialogState)
        ensures
            s.filter@.len() == 0,
            s.selected_index == 0,
            s.scroll_offset == 0,
    {
        SkillsDialogState { filter: String::new(), selected_index: 0, scroll_offset: 0 }
    }

    /// Reset to a clean slate.
    pub fn reset(&mut self)
        ensures
            final(self).filter@.len() == 0,
            final(self).selected_index == 0,
            final(self).scroll_offset == 0,
    {
        self.filter = String::new();
        self.selected_index = 0;
        self.scroll_offset = 0;
    }
}

/// A skill matches a non-empty query when the lower-cased query occurs in
/// its lower-cased name or description; an empty query matches everything.
pub open spec fn skill_matches(s: Skill, query: Seq<char>) -> bool {
    query.len() == 0 || seq_contains_sub(unicode_lowercase(s.name@), unicode_lowercase(query))
        || seq_contains_sub(unicode_lowercase(s.description@), unicode_lowercase(query))
}

/// The skills a list of references points at.
pub open spec fn deref_skills(r: Seq<&Skill>) -> Seq<Skill> {
    r.map_values(|s: &Skill| *s)
}

/// The skills offered for `query`, in load order.
pub open spec fn matching_spec(skills: Seq<Skill>, query: Seq<char>) -> Seq<Skill> {
    skills.filter(|s: Skill| skill_matches(s, query))
}

fn skill_matches_exec(s: &Skill, q_lower: &[char], query: &str) -> (b: bool)
    requires
        q_lower@ == unicode_lowercase(query@),
        query@.len() > 0,
    ensures
        b == skill_matches(*s, query@),
{
    let n = str_chars(str_to_lowercase(s.name.as_str()).as_str());
    if chars_contain_sub(&n, q_lower) {
        return true;
    }
    let d = str_chars(str_to_lowercase(s.description.as_str()).as_str());
    chars_contain_sub(&d, q_lower)
}

/// Filter `skills` by `query` (case-insensitive substring of name or
/// description); an empty query passes everything through.
pub fn matching<'a>(skills: &'a [Skill], query: &str) -> (r: Vec<&'a Skill>)
    ensures
        deref_skills(r@) == matching_spec(skills@, query@),
{
    let ghost pred = |s: Skill| skill_matches(s, query@);
    let mut r: Vec<&'a Skill> = Vec::new();
    let q_lower: Vec<char> = if query.is_empty() {
        Vec::new()
    } else {
        str_chars(str_to_lowercase(query).as_str())
    };
    let mut i: usize = 0;
    assert(skills@.take(0) =~= Seq::<Skill>::empty());
    while i < skills.len()
        invariant
            i <= skills@.len(),
            pred == (|s: Skill| skill_matches(s, query@)),
            query@.len() > 0 ==> q_lower@ == unicode_lowercase(query@),
            deref_skills(r@) == skills@.take(i as int).filter(pred),
        decreases skills@.len() - i,
    {
        reveal_with_fuel(Seq::<_>::filter, 1);
        let keep = if query.is_empty() {
            true
        } else {
            skill_matches_exec(&skills[i], &q_lower, query)
        };
        assert(skills@.take(i as int + 1).drop_last() =~= skills@.take(i as int));
        assert(keep == skill_matches(skills@[i as int], query@));
        assert(keep == pred(skills@[i as int]));
        assert(skills@.take(i as int + 1).last() == skills@[i as int]);
        let ghost old_r = r@;
        if keep {
            r.push(&skills[i]);
            assert(deref_skills(r@) =~= deref_skills(old_r).push(skills@[i as int]));
        }
        i += 1;
    }
    assert(skills@.take(skills@.len() as int) =~= skills@);
    r
}

/// Effect of a keystroke that the caller applies.
#[derive(Clone, Debug, PartialEq, Eq)]
pub enum KeyOutcome {
    /// Key consumed; nothing else to do.
    Consumed,
    /// Leave the dialog.
    Close,
    /// Send this skill body as a prompt, then close.
    Execute(String),
    /// Key not recognised.
    NotConsumed,
}

/// Move the highlighted row by `delta` within the filtered list, wrapping.
pub fn move_selection(state: &mut SkillsDialogState, skills: &[Skill], delta: i32)
    requires
        delta == 1 || delta == -1,
        skills@.len() <= i32::MAX,
    ensures
        final(state).filter@ == old(state).filter@,
        final(state).scroll_offset == old(state).scroll_offset,
        matching_spec(skills@, old(state).filter@).len() == 0 ==> final(state).selected_index == 0,
        matching_spec(skills@, old(state).filter@).len() > 0 ==> final(state).selected_index as int
            == wrap_step(
            old(state).selected_index as int,
            delta as int,
            matching_spec(skills@, old(state).filter@).len() as int,
        ),
{
    let visible = matching(skills, state.filter.as_str());
    proof {
        skills@.lemma_filter_len(|s: Skill| skill_matches(s, state.filter@));
    }
    state.selected_index = wrapped_move(state.selected_index, delta, visible.len());
}

/// Row movement a key asks for: `1` down (Tab, Down, `j` without Ctrl),
/// `-1` up (Shift-Tab, Up, `k` without Ctrl), `0` none.
pub open spec fn skills_key_delta(key: KeyEvent) -> int {
    match key.code {
        KeyCode::Tab | KeyCode::Down => 1,
        KeyCode::BackTab | KeyCode::Up => -1,
        KeyCode::Char(c) => if key.modifiers.control {
            0
        } else if c == 'j' {
            1
        } else if c == 'k' {
            -1
        } else {
            0
        },
        _ => 0,
    }
}

/// Filter after a key: Backspace drops the last char, a printable char
/// without Ctrl that is not a navigation key is appended, anything else
/// leaves it.
pub open spec fn skills_next_filter(key: KeyEvent, filter: Seq<char>) -> Seq<char> {
    if skills_key_delta(key) != 0 {
        filter
    } else {
        match key.code {
            KeyCode::Backspace => if filter.len() > 0 {
                filter.drop_last()
            } else {
                filter
            },
            KeyCode::Char(c) => if key.modifiers.control {
                filter
            } else {
                filter.push(c)
            },
            _ => filter,
        }
    }
}

/// Highlighted row after `key`.
pub open spec fn skills_next_index(
    key: KeyEvent,
    sel: usize,
    filter: Seq<char>,
    skills: Seq<Skill>,
) -> int {
    let d = skills_key_delta(key);
    let n = matching_spec(skills, filter).len() as int;
    if d != 0 {
        if n == 0 {
            0
        } else {
            wrap_step(sel as int, d, n)
        }
    } else {
        match key.code {
            KeyCode::Backspace => 0,
            KeyCode::Char(_) => if key.modifiers.control {
                sel as int
            } else {
                0
            },
            _ => sel as int,
        }
    }
}

/// Effect of `key` on the dialog.
pub open spec fn skills_outcome_ok(
    out: KeyOutcome,
    key: KeyEvent,
    sel: usize,
    filter: Seq<char>,
    skills: Seq<Skill>,
) -> bool {
    let visible = matching_spec(skills, filter);
    match key.code {
        KeyCode::Esc => out == KeyOutcome::Close,
        KeyCode::Enter => if sel < visible.len() {
            out matches KeyOutcome::Execute(body) && body@ == visible[sel as int].body@
        } else {
            out == KeyOutcome::Consumed
        },
        KeyCode::Char(_) => if key.modifiers.control {
            out == KeyOutcome::NotConsumed
        } else {
            out == KeyOutcome::Consumed
        },
        KeyCode::Tab | KeyCode::Down | KeyCode::BackTab | KeyCode::Up | KeyCode::Backspace => out
            == KeyOutcome::Consumed,
        _ => out == KeyOutcome::NotConsumed,
    }
}

/// Removes the last char of a `String` (`String::pop`), if there is one.
#[verifier::external_body]
pub(crate) fn string_pop(s: &mut String)
    ensures
        old(s)@.len() > 0 ==> final(s)@ == old(s)@.drop_last(),
        old(s)@.len() == 0 ==> final(s)@ == old(s)@,
{
    s.pop();
}

/// Decide what a keystroke does. Mutates the filter and selection; returns
/// the effect.
pub fn decide(state: &mut SkillsDialogState, skills: &[Skill], key: KeyEvent) -> (out: KeyOutcome)
    requires
        skills@.len() <= i32::MAX,
    ensures
        skills_outcome_ok(out, key, old(state).selected_index, old(state).filter@, skills@),
        final(state).filter@ == skills_next_filter(key, old(state).filter@),
        final(state).selected_index == skills_next_index(
            key,
            old(state).selected_index,
            old(state).filter@,
            skills@,
        ),
        final(state).scroll_offset == old(state).scroll_offset,
{
    let delta: i32 = match key.code {
        KeyCode::Tab | KeyCode::Down => 1,
        KeyCode::BackTab | KeyCode::Up => -1,
        KeyCode::Char(c) => if key.modifiers.control {
            0
        } else if c == 'j' {
            1
        } else if c == 'k' {
            -1
        } else {
            0
        },
        _ => 0,
    };
    if delta != 0 {
        move_selection(state, skills, delta);
        return KeyOutcome::Consumed;
    }
    let is_esc = match key.code {
        KeyCode::Esc => true,
        _ => false,
    };
    if is_esc {
        return KeyOutcome::Close;
    }
    let is_enter = match key.code {
        KeyCode::Enter => true,
        _ => false,
    };
    if is_enter {
        let visible = matching(skills, state.filter.as_str());
        if state.selected_index < visible.len() {
            let body = visible[state.selected_index].body.clone();
            return KeyOutcome::Execute(body);
        }
        return KeyOutcome::Consumed;
    }
    let is_backspace = match key.code {
        KeyCode::Backspace => true,
        _ => false,
    };
    if is_backspace {
        string_pop(&mut state.filter);
        state.selected_index = 0;
        return KeyOutcome::Consumed;
    }
    let typed: Option<char> = match key.code {
        KeyCode::Char(c) => Some(c),
        _ => None,
    };
    match typed {
        Some(c) => {
            if key.modifiers.control {
                return KeyOutcome::NotConsumed;
            }
            string_push(&mut state.filter, c);
            state.selected_index = 0;
            KeyOutcome::Consumed
        },
        None => KeyOutcome::NotConsumed,
    }
}

} // verus!
