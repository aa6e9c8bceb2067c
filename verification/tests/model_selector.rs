//! Key decisions of the model selector.

use stemcell_tui::model_selector::{
    clamp_after_filter_edit, model_selector_decide, FormKind, SelectorAction, SelectorKey, SelectorState,
};

fn picker() -> SelectorState {
    SelectorState {
        is_refreshing: false,
        showing_providers: false,
        focused_field: 0,
        model_filter: String::new(),
        selected_model: 0,
    }
}

fn plain_form() -> FormKind {
    FormKind { is_custom: false, is_zhipu: false, is_oauth: false, is_codex: false, has_existing_key: false }
}

#[test]
fn refresh_blocks_every_key_but_esc() {
    let mut s = picker();
    s.is_refreshing = true;
    assert_eq!(model_selector_decide(&mut s, SelectorKey::Char('a'), 3, true, plain_form()), SelectorAction::Done);
    assert_eq!(s.model_filter, "");
    assert_eq!(model_selector_decide(&mut s, SelectorKey::Cancel, 3, true, plain_form()), SelectorAction::RefreshStopped);
    assert!(!s.is_refreshing);
}

#[test]
fn unified_picker_filters_moves_and_chooses() {
    let mut s = picker();
    assert_eq!(model_selector_decide(&mut s, SelectorKey::Down, 3, true, plain_form()), SelectorAction::Done);
    assert_eq!(model_selector_decide(&mut s, SelectorKey::Down, 3, true, plain_form()), SelectorAction::Done);
    assert_eq!(model_selector_decide(&mut s, SelectorKey::Down, 3, true, plain_form()), SelectorAction::Done);
    assert_eq!(s.selected_model, 2);
    assert_eq!(model_selector_decide(&mut s, SelectorKey::Up, 3, true, plain_form()), SelectorAction::Done);
    assert_eq!(s.selected_model, 1);
    assert_eq!(model_selector_decide(&mut s, SelectorKey::Char('g'), 3, true, plain_form()), SelectorAction::Done);
    assert_eq!(s.model_filter, "g");
    assert_eq!(s.selected_model, 0);
    assert_eq!(model_selector_decide(&mut s, SelectorKey::Backspace, 3, true, plain_form()), SelectorAction::FilterShortened);
    assert_eq!(s.model_filter, "");
    assert_eq!(model_selector_decide(&mut s, SelectorKey::Enter, 0, false, plain_form()), SelectorAction::NoMatch);
    assert_eq!(model_selector_decide(&mut s, SelectorKey::Enter, 3, true, plain_form()), SelectorAction::ChooseHighlighted);
    assert_eq!(model_selector_decide(&mut s, SelectorKey::Refresh, 3, true, plain_form()), SelectorAction::RefreshModels);
    assert_eq!(model_selector_decide(&mut s, SelectorKey::Tab, 3, true, plain_form()), SelectorAction::Done);
    assert_eq!(s.focused_field, 2);
    assert_eq!(model_selector_decide(&mut s, SelectorKey::Cancel, 3, true, plain_form()), SelectorAction::Close);
    assert_eq!(clamp_after_filter_edit(5, 3), 2);
    assert_eq!(clamp_after_filter_edit(5, 0), 0);
    assert_eq!(clamp_after_filter_edit(1, 3), 1);
}

#[test]
fn provider_form_tab_cycles_its_fields() {
    let mut s = picker();
    s.showing_providers = true;
    let zhipu = FormKind { is_custom: false, is_zhipu: true, is_oauth: false, is_codex: false, has_existing_key: false };
    s.focused_field = 3;
    assert_eq!(model_selector_decide(&mut s, SelectorKey::Tab, 0, false, zhipu), SelectorAction::Done);
    assert_eq!(s.focused_field, 0);
    assert!(s.showing_providers);
    assert_eq!(model_selector_decide(&mut s, SelectorKey::Tab, 0, false, zhipu), SelectorAction::Done);
    assert_eq!(s.focused_field, 1);
    assert!(!s.showing_providers);
    s.showing_providers = true;
    s.focused_field = 0;
    let oauth = FormKind { is_custom: false, is_zhipu: false, is_oauth: true, is_codex: false, has_existing_key: true };
    model_selector_decide(&mut s, SelectorKey::Tab, 0, false, oauth);
    assert_eq!(s.focused_field, 1);
    assert!(!s.showing_providers);
    s.showing_providers = true;
    assert_eq!(model_selector_decide(&mut s, SelectorKey::Char('x'), 0, false, oauth), SelectorAction::FormKey);
}
