//! Key decisions of the model selector dialog: while a model refresh runs
//! only Esc (stopping it) is taken; the unified model picker filters,
//! moves, refreshes and chooses; the provider form cycles its fields with
//! Tab. Keys reach the selector as intents, classified by the caller.

use vstd::prelude::*;
use crate::skills_dialog::string_pop;
use crate::text::string_push;

verus! {

/// A key, as the selector reads it.
#[derive(Clone, Copy, Debug, PartialEq, Eq, Structural)]
pub enum SelectorKey {
    Cancel,
    Tab,
    /// Ctrl+R.
    Refresh,
    Enter,
    Up,
    Down,
    Backspace,
    Char(char),
    Other,
}

/// The selector's own state.
#[derive(Clone, Debug)]
pub struct SelectorState {
    /// A model list refresh is running.
    pub is_refreshing: bool,
    /// The provider form is shown (else the unified model picker).
    pub showing_providers: bool,
    /// Focused field of the provider form.
    pub focused_field: usize,
    /// Filter typed in the model picker.
    pub model_filter: String,
    /// Highlighted model row.
    pub selected_model: usize,
}

/// What the provider form's Tab cycle depends on.
#[derive(Clone, Copy, Debug)]
pub struct FormKind {
    pub is_custom: bool,
    pub is_zhipu: bool,
    pub is_oauth: bool,
    pub is_codex: bool,
    pub has_existing_key: bool,
}

/// The work the caller does after a key.
#[derive(Clone, Copy, Debug, PartialEq, Eq, Structural)]
pub enum SelectorAction {
    /// Nothing more to do.
    Done,
    /// Close the dialog and go back to the chat.
    Close,
    /// The refresh was stopped.
    RefreshStopped,
    /// Refresh the selected provider's model list.
    RefreshModels,
    /// Save the highlighted model as the choice.
    ChooseHighlighted,
    /// Show "No models match the current search".
    NoMatch,
    /// The filter lost its last char: clamp the highlight to the new
    /// number of matching models (see `clamp_after_filter_edit`).
    FilterShortened,
    /// A key of the provider form other than Tab and Esc, handled with
    /// the provider data.
    FormKey,
}

/// Number of fields the provider form's Tab cycles through.
pub open spec fn form_field_count(k: FormKind) -> usize {
    if k.is_custom {
        5
    } else if k.is_zhipu {
        4
    } else if k.is_oauth && k.is_codex && !k.has_existing_key {
        3
    } else if k.is_oauth {
        2
    } else {
        3
    }
}

/// The selector after `key`, with `model_count` models matching the
/// filter and `has_highlight` telling whether a model is highlighted.
pub open spec fn selector_next(s: SelectorState, key: SelectorKey, model_count: usize, kind: FormKind) -> (bool, bool, usize, Seq<char>, int) {
    let same = (s.is_refreshing, s.showing_providers, s.focused_field, s.model_filter@, s.selected_model as int);
    if s.is_refreshing {
        if key == SelectorKey::Cancel {
            (false, s.showing_providers, s.focused_field, s.model_filter@, s.selected_model as int)
        } else {
            same
        }
    } else if !s.showing_providers {
        match key {
            SelectorKey::Tab => (false, false, 2, s.model_filter@, s.selected_model as int),
            SelectorKey::Char(c) => (false, false, s.focused_field, s.model_filter@.push(c), 0),
            SelectorKey::Backspace => (false, false, s.focused_field, if s.model_filter@.len() > 0 {
                s.model_filter@.drop_last()
            } else {
                s.model_filter@
            }, s.selected_model as int),
            SelectorKey::Up => (false, false, s.focused_field, s.model_filter@, if s.selected_model > 0 {
                s.selected_model - 1
            } else {
                0
            }),
            SelectorKey::Down => (false, false, s.focused_field, s.model_filter@, if model_count > 0 {
                if s.selected_model < model_count - 1 {
                    s.selected_model + 1
                } else {
                    model_count - 1
                }
            } else {
                s.selected_model as int
            }),
            _ => same,
        }
    } else {
        match key {
            SelectorKey::Tab => {
                let f = ((s.focused_field + 1) % (form_field_count(kind) as int)) as usize;
                (false, f == 0, f, s.model_filter@, s.selected_model as int)
            },
            _ => same,
        }
    }
}

/// The work a key asks for (see `SelectorAction`).
pub open spec fn selector_action(s: SelectorState, key: SelectorKey, has_highlight: bool) -> SelectorAction {
    if s.is_refreshing {
        if key == SelectorKey::Cancel {
            SelectorAction::RefreshStopped
        } else {
            SelectorAction::Done
        }
    } else if !s.showing_providers {
        match key {
            SelectorKey::Cancel => SelectorAction::Close,
            SelectorKey::Refresh => SelectorAction::RefreshModels,
            SelectorKey::Enter => if has_highlight {
                SelectorAction::ChooseHighlighted
            } else {
                SelectorAction::NoMatch
            },
            SelectorKey::Backspace => SelectorAction::FilterShortened,
            _ => SelectorAction::Done,
        }
    } else {
        match key {
            SelectorKey::Refresh => SelectorAction::RefreshModels,
            SelectorKey::Tab => SelectorAction::Done,
            _ => SelectorAction::FormKey,
        }
    }
}

/// Decides what `key` does to the selector: updates its state and returns
/// the work left to the caller. `model_count` is the number of models
/// matching the filter, `has_highlight` whether one of them is
/// highlighted, `kind` what the provider form's Tab cycle depends on. In
/// the provider form, Esc is left to the caller (it may step back from a
/// fetched model list instead of closing).
pub fn model_selector_decide(
    state: &mut SelectorState,
    key: SelectorKey,
    model_count: usize,
    has_highlight: bool,
    kind: FormKind,
) -> (out: SelectorAction)
    ensures
        out == selector_action(*old(state), key, has_highlight),
        (final(state).is_refreshing, final(state).showing_providers, final(state).focused_field,
            final(state).model_filter@, final(state).selected_model as int) == selector_next(
            *old(state),
            key,
            model_count,
            kind,
        ),
{
    if state.is_refreshing {
        if key == SelectorKey::Cancel {
            state.is_refreshing = false;
            return SelectorAction::RefreshStopped;
        }
        return SelectorAction::Done;
    }
    if !state.showing_providers {
        match key {
            SelectorKey::Cancel => SelectorAction::Close,
            SelectorKey::Tab => {
                state.focused_field = 2;
                SelectorAction::Done
            },
            SelectorKey::Refresh => SelectorAction::RefreshModels,
            SelectorKey::Enter => if has_highlight {
                SelectorAction::ChooseHighlighted
            } else {
                SelectorAction::NoMatch
            },
            SelectorKey::Char(c) => {
                string_push(&mut state.model_filter, c);
                state.selected_model = 0;
                SelectorAction::Done
            },
            SelectorKey::Backspace => {
                string_pop(&mut state.model_filter);
                SelectorAction::FilterShortened
            },
            SelectorKey::Up => {
                if state.selected_model > 0 {
                    state.selected_model = state.selected_model - 1;
                }
                SelectorAction::Done
            },
            SelectorKey::Down => {
                if model_count > 0 {
                    if state.selected_model < model_count - 1 {
                        state.selected_model = state.selected_model + 1;
                    } else {
                        state.selected_model = model_count - 1;
                    }
                }
                SelectorAction::Done
            },
            SelectorKey::Other => SelectorAction::Done,
        }
    } else {
        match key {
            SelectorKey::Refresh => SelectorAction::RefreshModels,
            SelectorKey::Tab => {
                let n: usize = if kind.is_custom {
                    5
                } else if kind.is_zhipu {
                    4
                } else if kind.is_oauth && kind.is_codex && !kind.has_existing_key {
                    3
                } else if kind.is_oauth {
                    2
                } else {
                    3
                };
                let f: usize = (state.focused_field % n + 1) % n;
                proof {
                    let ff = state.focused_field as int;
                    let nn = n as int;
                    assert(((ff % nn) + 1) % nn == (ff + 1) % nn) by (nonlinear_arith)
                        requires
                            nn > 0,
                            ff >= 0,
                    {
                        vstd::arithmetic::div_mod::lemma_add_mod_noop(ff, 1, nn);
                        vstd::arithmetic::div_mod::lemma_mod_twice(1, nn);
                    }
                }
                state.focused_field = f;
                state.showing_providers = f == 0;
                SelectorAction::Done
            },
            _ => SelectorAction::FormKey,
        }
    }
}

/// The highlighted model row after the filter changed: kept when it is
/// still among the `count` matching models, else the last of them (the
/// first when there is none).
pub fn clamp_after_filter_edit(selected: usize, count: usize) -> (r: usize)
    ensures
        r as int == (if count == 0 {
            0
        } else if selected >= count {
            count - 1
        } else {
            selected as int
        }),
{
    if count == 0 {
        0
    } else if selected >= count {
        count - 1
    } else {
        selected
    }
}

} // verus!
