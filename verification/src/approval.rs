//! Tool-approval prompts in the chat: the inline Yes / Always / No prompt shown
//! for a tool call, and the `/approve` policy menu. Keys reach these as
//! intents (the chat's key bindings classify the raw key first).

use vstd::prelude::*;
use crate::text::{chars_eq, str_chars};

verus! {

/// Approval option selected by the user.
#[derive(Clone, Copy, Debug, PartialEq, Eq, Structural)]
pub enum ApprovalOption {
    AllowOnce,
    AllowForSession,
    AllowAlways,
}

/// State of an inline approval request.
#[derive(Clone, Debug, PartialEq, Eq)]
pub enum ApprovalState {
    Pending,
    Approved(ApprovalOption),
    Denied(String),
}

impl ApprovalState {
    /// Whether the request still waits for the user.
    pub fn is_pending(&self) -> (b: bool)
        ensures
            b == (*self is Pending),
    {
        match self {
            ApprovalState::Pending => true,
            _ => false,
        }
    }
}

/// State of the `/approve` policy menu.
#[derive(Clone, Copy, Debug, PartialEq, Eq, Structural)]
pub enum ApproveMenuState {
    Pending,
    Selected(usize),
}

/// The `/approve` inline menu: three policies, 0 to 2.
#[derive(Clone, Copy, Debug, PartialEq, Eq, Structural)]
pub struct ApproveMenu {
    /// Highlighted policy, 0 to 2.
    pub selected_option: usize,
    pub state: ApproveMenuState,
}

/// Index of the last option of both prompts.
pub const LAST_OPTION: usize = 2;

/// The index one row up, stopping at the top.
pub open spec fn option_up(i: int) -> int {
    if i > 0 {
        i - 1
    } else {
        0
    }
}

/// The index one row down, stopping at the last option.
pub open spec fn option_down(i: int) -> int {
    if i + 1 < LAST_OPTION {
        i + 1
    } else {
        LAST_OPTION as int
    }
}

fn step_up(i: usize) -> (r: usize)
    ensures
        r == option_up(i as int),
{
    i.saturating_sub(1)
}

fn step_down(i: usize) -> (r: usize)
    ensures
        r == option_down(i as int),
{
    if i < LAST_OPTION - 1 {
        i + 1
    } else {
        LAST_OPTION
    }
}

/// What a key means to an approval prompt or the policy menu.
#[derive(Clone, Copy, Debug, PartialEq, Eq, Structural)]
pub enum PromptKey {
    /// Up, or Left on the inline prompt.
    Previous,
    /// Down, or Right on the inline prompt.
    Next,
    /// Enter or submit.
    Confirm,
    /// The deny shortcut (`D`).
    Deny,
    /// Esc.
    Cancel,
    /// The details toggle (`V`).
    ToggleDetails,
    /// Anything else.
    Other,
}

/// Approval policy as the two session flags: auto-approve for this session,
/// auto-approve always.
#[derive(Clone, Copy, Debug, PartialEq, Eq, Structural)]
pub struct ApprovalPolicy {
    pub auto_session: bool,
    pub auto_always: bool,
}

/// The policy chosen by menu row `selected`: 0 asks every time, 1 allows all
/// for this session, anything else runs tools without approval.
pub open spec fn policy_spec(selected: usize) -> ApprovalPolicy {
    if selected == 0 {
        ApprovalPolicy { auto_session: false, auto_always: false }
    } else if selected == 1 {
        ApprovalPolicy { auto_session: true, auto_always: false }
    } else {
        ApprovalPolicy { auto_session: false, auto_always: true }
    }
}

/// The policy chosen by menu row `selected`.
pub fn policy_for_selection(selected: usize) -> (p: ApprovalPolicy)
    ensures
        p == policy_spec(selected),
{
    if selected == 0 {
        ApprovalPolicy { auto_session: false, auto_always: false }
    } else if selected == 1 {
        ApprovalPolicy { auto_session: true, auto_always: false }
    } else {
        ApprovalPolicy { auto_session: false, auto_always: true }
    }
}

/// Label shown once the policy of menu row `selected` is applied.
pub fn policy_label(selected: usize) -> (s: &'static str)
    ensures
        selected == 0 ==> s@ == "Approve-only (always ask)"@,
        selected == 1 ==> s@ == "Allow all for this session"@,
        selected >= 2 ==> s@ == "Yolo mode (execute without approval)"@,
{
    if selected == 0 {
        "Approve-only (always ask)"
    } else if selected == 1 {
        "Allow all for this session"
    } else {
        "Yolo mode (execute without approval)"
    }
}

/// Value stored under `agent.approval_policy` in the configuration for menu
/// row `selected`.
pub fn policy_config_value(selected: usize) -> (s: &'static str)
    ensures
        selected == 0 ==> s@ == "ask"@,
        selected == 1 ==> s@ == "auto-session"@,
        selected >= 2 ==> s@ == "auto-always"@,
{
    if selected == 0 {
        "ask"
    } else if selected == 1 {
        "auto-session"
    } else {
        "auto-always"
    }
}

/// Row stored in a menu dismissed without a choice.
pub const MENU_CANCELLED: usize = 99;

/// Effect of a key on the `/approve` menu that the caller applies.
#[derive(Clone, Copy, Debug, PartialEq, Eq, Structural)]
pub enum MenuOutcome {
    /// Highlight moved (or the menu was no longer pending); nothing else.
    Consumed,
    /// Apply, persist and announce the policy of this row.
    Apply(usize),
    /// Menu dismissed; the policy stays.
    Cancelled,
}

/// Menu after a key, from menu `m`.
pub open spec fn menu_next(m: ApproveMenu, key: PromptKey) -> ApproveMenu {
    if m.state !is Pending {
        m
    } else {
        match key {
            PromptKey::Previous => ApproveMenu { selected_option: option_up(m.selected_option as int) as usize, ..m },
            PromptKey::Next => ApproveMenu { selected_option: option_down(m.selected_option as int) as usize, ..m },
            PromptKey::Confirm => ApproveMenu { state: ApproveMenuState::Selected(m.selected_option), ..m },
            PromptKey::Cancel => ApproveMenu { state: ApproveMenuState::Selected(MENU_CANCELLED), ..m },
            _ => m,
        }
    }
}

/// Effect of a key on menu `m`. Confirming applies the highlighted row even
/// when the menu was already resolved (row 0 is used when it is not
/// pending).
pub open spec fn menu_outcome(m: ApproveMenu, key: PromptKey) -> MenuOutcome {
    match key {
        PromptKey::Confirm => MenuOutcome::Apply(
            if m.state is Pending {
                m.selected_option
            } else {
                0
            },
        ),
        PromptKey::Cancel => MenuOutcome::Cancelled,
        _ => MenuOutcome::Consumed,
    }
}

impl ApproveMenu {
    /// A freshly opened menu: first row highlighted, waiting for a choice.
    pub fn new() -> (m: ApproveMenu)
        ensures
            m.selected_option == 0,
            m.state == ApproveMenuState::Pending,
    {
        ApproveMenu { selected_option: 0, state: ApproveMenuState::Pending }
    }

    /// Whether the menu still waits for a choice.
    pub fn is_pending(&self) -> (b: bool)
        ensures
            b == (self.state is Pending),
    {
        match self.state {
            ApproveMenuState::Pending => true,
            ApproveMenuState::Selected(_) => false,
        }
    }

    /// Handle a key while the menu is shown: move the highlight, resolve the
    /// menu with the highlighted row, or dismiss it. A menu that is no
    /// longer pending is not changed.
    pub fn handle_key(&mut self, key: PromptKey) -> (out: MenuOutcome)
        ensures
            *final(self) == menu_next(*old(self), key),
            out == menu_outcome(*old(self), key),
    {
        let pending = self.is_pending();
        let sel = self.selected_option;
        if pending {
            match key {
                PromptKey::Previous => {
                    self.selected_option = step_up(sel);
                },
                PromptKey::Next => {
                    self.selected_option = step_down(sel);
                },
                PromptKey::Confirm => {
                    self.state = ApproveMenuState::Selected(sel);
                },
                PromptKey::Cancel => {
                    self.state = ApproveMenuState::Selected(MENU_CANCELLED);
                },
                _ => {},
            }
        }
        match key {
            PromptKey::Confirm => MenuOutcome::Apply(
                if pending {
                    sel
                } else {
                    0
                },
            ),
            PromptKey::Cancel => MenuOutcome::Cancelled,
            _ => MenuOutcome::Consumed,
        }
    }
}

/// The inline prompt of a pending tool call: highlighted option (0 Yes,
/// 1 Always, 2 No) and whether the details are expanded.
#[derive(Clone, Copy, Debug, PartialEq, Eq, Structural)]
pub struct ApprovalPrompt {
    pub selected_option: usize,
    pub show_details: bool,
}

/// Effect of a key on the inline approval prompt that the caller applies.
#[derive(Clone, Copy, Debug, PartialEq, Eq, Structural)]
pub enum PromptOutcome {
    /// Prompt state changed (or key ignored); the request stays pending.
    Consumed,
    /// Approve the request with this option; `AllowAlways` also switches on
    /// auto-approve for the session.
    Approve(ApprovalOption),
    /// Deny the request.
    Deny,
}

/// Prompt after a key.
pub open spec fn prompt_next(p: ApprovalPrompt, key: PromptKey) -> ApprovalPrompt {
    match key {
        PromptKey::Previous => ApprovalPrompt { selected_option: option_up(p.selected_option as int) as usize, ..p },
        PromptKey::Next => ApprovalPrompt { selected_option: option_down(p.selected_option as int) as usize, ..p },
        PromptKey::ToggleDetails => ApprovalPrompt { show_details: !p.show_details, ..p },
        _ => p,
    }
}

/// Effect of a key on prompt `p`: confirming option 2 denies, option 1
/// approves always, any other approves once; the deny shortcut and Esc deny.
pub open spec fn prompt_outcome(p: ApprovalPrompt, key: PromptKey) -> PromptOutcome {
    match key {
        PromptKey::Confirm => if p.selected_option == 2 {
            PromptOutcome::Deny
        } else if p.selected_option == 1 {
            PromptOutcome::Approve(ApprovalOption::AllowAlways)
        } else {
            PromptOutcome::Approve(ApprovalOption::AllowOnce)
        },
        PromptKey::Deny | PromptKey::Cancel => PromptOutcome::Deny,
        _ => PromptOutcome::Consumed,
    }
}

impl ApprovalPrompt {
    /// A new prompt: "Yes" highlighted, details collapsed.
    pub fn new() -> (p: ApprovalPrompt)
        ensures
            p.selected_option == 0,
            !p.show_details,
    {
        ApprovalPrompt { selected_option: 0, show_details: false }
    }

    /// Handle a key while the prompt is pending.
    pub fn handle_key(&mut self, key: PromptKey) -> (out: PromptOutcome)
        ensures
            *final(self) == prompt_next(*old(self), key),
            out == prompt_outcome(*old(self), key),
    {
        let sel = self.selected_option;
        match key {
            PromptKey::Previous => {
                self.selected_option = step_up(sel);
            },
            PromptKey::Next => {
                self.selected_option = step_down(sel);
            },
            PromptKey::ToggleDetails => {
                self.show_details = !self.show_details;
            },
            _ => {},
        }
        match key {
            PromptKey::Confirm => if sel == 2 {
                PromptOutcome::Deny
            } else if sel == 1 {
                PromptOutcome::Approve(ApprovalOption::AllowAlways)
            } else {
                PromptOutcome::Approve(ApprovalOption::AllowOnce)
            },
            PromptKey::Deny | PromptKey::Cancel => PromptOutcome::Deny,
            _ => PromptOutcome::Consumed,
        }
    }
}

/// Keys keep the highlight of the policy menu on one of its three rows.
pub proof fn law_menu_selection_in_range(m: ApproveMenu, key: PromptKey)
    requires
        m.selected_option <= LAST_OPTION,
    ensures
        menu_next(m, key).selected_option <= LAST_OPTION,
{
}

/// A resolved policy menu is final: no key changes it any more.
pub proof fn law_resolved_menu_is_final(m: ApproveMenu, key: PromptKey)
    requires
        m.state !is Pending,
    ensures
        menu_next(m, key) == m,
{
}

/// Confirming a pending menu records the highlighted row and applies the
/// policy of that same row.
pub proof fn law_menu_confirm_applies_highlight(m: ApproveMenu)
    requires
        m.state is Pending,
    ensures
        menu_next(m, PromptKey::Confirm).state == ApproveMenuState::Selected(m.selected_option),
        menu_outcome(m, PromptKey::Confirm) == MenuOutcome::Apply(m.selected_option),
{
}

/// Keys keep the highlight of the inline prompt on Yes, Always or No.
pub proof fn law_prompt_selection_in_range(p: ApprovalPrompt, key: PromptKey)
    requires
        p.selected_option <= LAST_OPTION,
    ensures
        prompt_next(p, key).selected_option <= LAST_OPTION,
{
}

/// Toggling the details twice restores the prompt.
pub proof fn law_details_toggle_involution(p: ApprovalPrompt)
    ensures
        prompt_next(prompt_next(p, PromptKey::ToggleDetails), PromptKey::ToggleDetails) == p,
{
}

/// The deny shortcut and Esc deny whatever option is highlighted; moving the
/// highlight never resolves the request.
pub proof fn law_prompt_deny_and_move(p: ApprovalPrompt)
    ensures
        prompt_outcome(p, PromptKey::Deny) == PromptOutcome::Deny,
        prompt_outcome(p, PromptKey::Cancel) == PromptOutcome::Deny,
        prompt_outcome(p, PromptKey::Previous) == PromptOutcome::Consumed,
        prompt_outcome(p, PromptKey::Next) == PromptOutcome::Consumed,
{
}

/// Where a new tool-approval request goes.
#[derive(Clone, Copy, Debug, PartialEq, Eq, Structural)]
pub enum ApprovalRoute {
    /// The policy approves every call: approve at once.
    AutoApprove,
    /// The request comes from a session not in focus, where nobody can
    /// answer: approve at once, saying so.
    AutoApproveBackground,
    /// Ask in the chat (earlier pending prompts of the session are denied).
    Prompt,
}

/// Reason given when a request of a session out of focus is approved.
pub fn background_approval_reason() -> (s: &'static str)
    ensures
        s@ == "Auto-approved (background session)"@,
{
    "Auto-approved (background session)"
}

/// Route of a request under `policy`, for the focused session or not.
pub fn approval_route(policy: ApprovalPolicy, is_current: bool) -> (r: ApprovalRoute)
    ensures
        r == if policy.auto_always || policy.auto_session {
            ApprovalRoute::AutoApprove
        } else if !is_current {
            ApprovalRoute::AutoApproveBackground
        } else {
            ApprovalRoute::Prompt
        },
{
    if policy.auto_always || policy.auto_session {
        ApprovalRoute::AutoApprove
    } else if !is_current {
        ApprovalRoute::AutoApproveBackground
    } else {
        ApprovalRoute::Prompt
    }
}

/// A prompt is shown only under the ask-every-time policy, and only for the
/// focused session.
pub proof fn law_prompt_only_when_asking(policy: ApprovalPolicy, is_current: bool)
    ensures
        (if policy.auto_always || policy.auto_session {
            ApprovalRoute::AutoApprove
        } else if !is_current {
            ApprovalRoute::AutoApproveBackground
        } else {
            ApprovalRoute::Prompt
        }) == ApprovalRoute::Prompt <==> (policy == policy_spec(0) && is_current),
{
}

/// Denies every pending request with `reason` (when a new request
/// supersedes them, an error ends the turn, or the turn is cancelled).
/// Returns the positions of the requests denied, whose callers must be
/// answered.
pub fn deny_pending(states: &mut Vec<ApprovalState>, reason: &str) -> (denied: Vec<usize>)
    ensures
        final(states)@.len() == old(states)@.len(),
        forall|i: int|
            0 <= i < old(states)@.len() ==> if old(states)@[i] is Pending {
                final(states)@[i] is Denied && final(states)@[i]->Denied_0@ == reason@
            } else {
                final(states)@[i] == old(states)@[i]
            },
        forall|k: int| 0 <= k < denied@.len() ==> (#[trigger] denied@[k]) < old(states)@.len() && old(states)@[denied@[k] as int] is Pending,
        forall|i: int| 0 <= i < old(states)@.len() && old(states)@[i] is Pending ==> denied@.contains(i as usize),
        forall|a: int, b: int| 0 <= a < b < denied@.len() ==> denied@[a] < denied@[b],
{
    let mut denied: Vec<usize> = Vec::new();
    let mut i: usize = 0;
    let ghost orig = states@;
    while i < states.len()
        invariant
            states@.len() == orig.len(),
            i <= orig.len(),
            forall|j: int|
                0 <= j < i ==> if orig[j] is Pending {
                    states@[j] is Denied && states@[j]->Denied_0@ == reason@
                } else {
                    states@[j] == orig[j]
                },
            forall|j: int| i <= j < orig.len() ==> states@[j] == orig[j],
            forall|k: int| 0 <= k < denied@.len() ==> (#[trigger] denied@[k]) < i && orig[denied@[k] as int] is Pending,
            forall|j: int| 0 <= j < i && orig[j] is Pending ==> denied@.contains(j as usize),
            forall|a: int, b: int| 0 <= a < b < denied@.len() ==> denied@[a] < denied@[b],
        decreases orig.len() - i,
    {
        if states[i].is_pending() {
            let ghost before = denied@;
            states.set(i, ApprovalState::Denied(crate::text::string_from_chars(&crate::text::str_chars(reason))));
            denied.push(i);
            assert(denied@[denied@.len() - 1] == i);
            assert forall|j: int| 0 <= j < i + 1 && orig[j] is Pending implies denied@.contains(j as usize) by {
                if j < i {
                    assert(before.contains(j as usize));
                    let w = choose|w: int| 0 <= w < before.len() && before[w] == j as usize;
                    assert(denied@[w] == j as usize);
                } else {
                    assert(denied@[denied@.len() - 1] == j as usize);
                }
            }
        }
        i += 1;
    }
    denied
}

/// After denying the pending requests none is pending.
pub proof fn law_no_pending_after_deny(before: Seq<ApprovalState>, after: Seq<ApprovalState>, reason: Seq<char>)
    requires
        after.len() == before.len(),
        forall|i: int|
            0 <= i < before.len() ==> if before[i] is Pending {
                after[i] is Denied && after[i]->Denied_0@ == reason
            } else {
                after[i] == before[i]
            },
    ensures
        forall|i: int| 0 <= i < after.len() ==> !(after[i] is Pending),
{
}

/// Value stored under `agent.approval_policy` for menu row `selected`.
pub open spec fn config_value_spec(selected: usize) -> Seq<char> {
    if selected == 0 {
        "ask"@
    } else if selected == 1 {
        "auto-session"@
    } else {
        "auto-always"@
    }
}

/// Policy named by a configured `agent.approval_policy` value:
/// `auto-session` and `auto-always` as named, anything else asks every time.
pub open spec fn policy_from_value_spec(value: Seq<char>) -> ApprovalPolicy {
    if value == "auto-session"@ {
        ApprovalPolicy { auto_session: true, auto_always: false }
    } else if value == "auto-always"@ {
        ApprovalPolicy { auto_session: false, auto_always: true }
    } else {
        ApprovalPolicy { auto_session: false, auto_always: false }
    }
}

/// The policy of a configured `agent.approval_policy` value (a missing or
/// unreadable configuration is read as the empty value by the caller).
pub fn policy_from_config_value(value: &str) -> (p: ApprovalPolicy)
    ensures
        p == policy_from_value_spec(value@),
{
    let v = str_chars(value);
    if chars_eq(&v, &str_chars("auto-session")) {
        ApprovalPolicy { auto_session: true, auto_always: false }
    } else if chars_eq(&v, &str_chars("auto-always")) {
        ApprovalPolicy { auto_session: false, auto_always: true }
    } else {
        ApprovalPolicy { auto_session: false, auto_always: false }
    }
}

/// The value the menu stores for a row reads back as that row's policy.
pub proof fn law_config_value_round_trip(selected: usize)
    ensures
        policy_from_value_spec(config_value_spec(selected)) == policy_spec(selected),
{
    reveal_strlit("ask");
    reveal_strlit("auto-session");
    reveal_strlit("auto-always");
    assert("ask"@ != "auto-session"@ && "ask"@ != "auto-always"@) by {
        assert("ask"@.len() != "auto-session"@.len());
        assert("ask"@.len() != "auto-always"@.len());
    }
    assert("auto-session"@ != "auto-always"@) by {
        assert("auto-session"@[5] != "auto-always"@[5]);
    }
}

/// Whether some message still waits on its approval prompt.
pub fn any_pending_approval(approvals: &[Option<ApprovalState>]) -> (b: bool)
    ensures
        b == exists|i: int| 0 <= i < approvals@.len() && approvals@[i] == Some(ApprovalState::Pending),
{
    let mut i: usize = approvals.len();
    while i > 0
        invariant
            i <= approvals@.len(),
            forall|j: int| i <= j < approvals@.len() ==> approvals@[j] != Some(ApprovalState::Pending),
        decreases i,
    {
        i -= 1;
        if let Some(a) = &approvals[i] {
            if a.is_pending() {
                return true;
            }
        }
    }
    false
}

/// A message's `/approve` menu that still waits for a choice.
pub open spec fn menu_waiting(m: Option<ApproveMenu>) -> bool {
    match m {
        Some(menu) => menu.state is Pending,
        None => false,
    }
}

/// Whether some message still shows an unanswered `/approve` menu.
pub fn any_pending_menu(menus: &[Option<ApproveMenu>]) -> (b: bool)
    ensures
        b == exists|i: int| 0 <= i < menus@.len() && menu_waiting(menus@[i]),
{
    let mut i: usize = menus.len();
    while i > 0
        invariant
            i <= menus@.len(),
            forall|j: int| i <= j < menus@.len() ==> !menu_waiting(menus@[j]),
        decreases i,
    {
        i -= 1;
        if let Some(m) = &menus[i] {
            if m.is_pending() {
                return true;
            }
        }
    }
    false
}

} // verus!
