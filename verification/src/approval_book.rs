//! The approval requests carried by the chat's messages over their life: a
//! new request supersedes (denies) the ones still waiting, a finished turn
//! denies those left unanswered, and the user's answer goes to the newest
//! request, whose messages are then removed. Every request denied or
//! answered yields the response its caller waits for.

use vstd::prelude::*;
use crate::approval::{ApprovalOption, ApprovalState};
use crate::text::{str_chars, string_from_chars};

verus! {

/// A request's state as plain values.
pub enum StateView {
    Pending,
    Approved(ApprovalOption),
    Denied(Seq<char>),
}

pub open spec fn state_view(s: ApprovalState) -> StateView {
    match s {
        ApprovalState::Pending => StateView::Pending,
        ApprovalState::Approved(o) => StateView::Approved(o),
        ApprovalState::Denied(r) => StateView::Denied(r@),
    }
}

/// The approval request a message carries: its id and state.
#[derive(Clone, Debug)]
pub struct ApprovalItem {
    pub request_id: u64,
    pub state: ApprovalState,
}

/// A message's request as plain values (`None` for a message without one).
pub open spec fn item_view(m: Option<ApprovalItem>) -> Option<(u64, StateView)> {
    match m {
        Some(a) => Some((a.request_id, state_view(a.state))),
        None => None,
    }
}

pub open spec fn items_view(v: Seq<Option<ApprovalItem>>) -> Seq<Option<(u64, StateView)>> {
    v.map_values(|m: Option<ApprovalItem>| item_view(m))
}

/// The response sent back to a request's caller.
#[derive(Clone, Debug)]
pub struct ApprovalAnswer {
    pub request_id: u64,
    pub approved: bool,
    pub reason: Option<String>,
}

pub open spec fn answer_view(a: ApprovalAnswer) -> (u64, bool, Option<Seq<char>>) {
    (a.request_id, a.approved, match a.reason {
        Some(r) => Some(r@),
        None => None,
    })
}

pub open spec fn answers_view(v: Seq<ApprovalAnswer>) -> Seq<(u64, bool, Option<Seq<char>>)> {
    v.map_values(|a: ApprovalAnswer| answer_view(a))
}

/// The message's request is waiting for the user.
pub open spec fn is_waiting(m: Option<(u64, StateView)>) -> bool {
    m matches Some((_, StateView::Pending))
}

/// A waiting request denied with `reason`; any other message unchanged.
pub open spec fn deny_view(m: Option<(u64, StateView)>, reason: Seq<char>) -> Option<(u64, StateView)> {
    match m {
        Some((id, StateView::Pending)) => Some((id, StateView::Denied(reason))),
        _ => m,
    }
}

/// Every waiting request of `v` denied with `reason`.
pub open spec fn deny_all(v: Seq<Option<(u64, StateView)>>, reason: Seq<char>) -> Seq<Option<(u64, StateView)>> {
    v.map_values(|m: Option<(u64, StateView)>| deny_view(m, reason))
}

/// The responses denying the waiting requests of `v` with `reason`, in
/// message order.
pub open spec fn denials(v: Seq<Option<(u64, StateView)>>, reason: Seq<char>) -> Seq<(u64, bool, Option<Seq<char>>)>
    decreases v.len(),
{
    if v.len() == 0 {
        Seq::empty()
    } else {
        let prev = denials(v.drop_last(), reason);
        match v.last() {
            Some((id, StateView::Pending)) => prev.push((id, false, Some(reason))),
            _ => prev,
        }
    }
}

/// Reason given to requests a newer request supersedes.
pub open spec fn superseded_reason() -> Seq<char> {
    "Superseded by new request"@
}

/// Reason given to requests left unanswered when the agent's turn ends.
pub open spec fn unresolved_reason() -> Seq<char> {
    "Agent completed without resolution"@
}

/// Reason given when the user denies a request.
pub open spec fn user_denied_reason() -> Seq<char> {
    "User denied permission"@
}

/// The messages after request `id` arrives: the waiting requests are
/// superseded, and a message with the new, waiting request is added.
pub open spec fn after_request(v: Seq<Option<(u64, StateView)>>, id: u64) -> Seq<Option<(u64, StateView)>> {
    deny_all(v, superseded_reason()).push(Some((id, StateView::Pending)))
}

/// The messages after the agent's turn ends.
pub open spec fn after_turn_end(v: Seq<Option<(u64, StateView)>>) -> Seq<Option<(u64, StateView)>> {
    deny_all(v, unresolved_reason())
}

/// The newest request among the messages, if any.
pub open spec fn latest_request(v: Seq<Option<(u64, StateView)>>) -> Option<(u64, StateView)>
    decreases v.len(),
{
    if v.len() == 0 {
        None
    } else if v.last() is Some {
        v.last()
    } else {
        latest_request(v.drop_last())
    }
}

/// `v` without the messages carrying request `id`.
pub open spec fn remove_request(v: Seq<Option<(u64, StateView)>>, id: u64) -> Seq<Option<(u64, StateView)>>
    decreases v.len(),
{
    if v.len() == 0 {
        Seq::empty()
    } else {
        let prev = remove_request(v.drop_last(), id);
        match v.last() {
            Some((j, _)) => if j == id {
                prev
            } else {
                prev.push(v.last())
            },
            None => prev.push(v.last()),
        }
    }
}

/// The response to the user's answer: approved with no reason, or denied
/// because the user denied it.
pub open spec fn user_answer(id: u64, approve: bool) -> (u64, bool, Option<Seq<char>>) {
    if approve {
        (id, true, None)
    } else {
        (id, false, Some(user_denied_reason()))
    }
}

/// At most one request is waiting.
pub open spec fn at_most_one_waiting(v: Seq<Option<(u64, StateView)>>) -> bool {
    forall|i: int, j: int|
        0 <= i < v.len() && 0 <= j < v.len() && is_waiting(#[trigger] v[i]) && is_waiting(
            #[trigger] v[j],
        ) ==> i == j
}

fn copy_item(m: &Option<ApprovalItem>) -> (r: Option<ApprovalItem>)
    ensures
        item_view(r) == item_view(*m),
{
    match m {
        Some(a) => {
            let st = match &a.state {
                ApprovalState::Pending => ApprovalState::Pending,
                ApprovalState::Approved(o) => ApprovalState::Approved(*o),
                ApprovalState::Denied(r) => ApprovalState::Denied(string_from_chars(&str_chars(r.as_str()))),
            };
            Some(ApprovalItem { request_id: a.request_id, state: st })
        },
        None => None,
    }
}

/// Denies every waiting request with `reason`; returns the responses for
/// their callers, in message order.
pub fn deny_waiting(items: &mut Vec<Option<ApprovalItem>>, reason: &str) -> (answers: Vec<ApprovalAnswer>)
    ensures
        items_view(final(items)@) == deny_all(items_view(old(items)@), reason@),
        answers_view(answers@) == denials(items_view(old(items)@), reason@),
{
    let ghost orig = items_view(items@);
    let mut answers: Vec<ApprovalAnswer> = Vec::new();
    let mut i: usize = 0;
    while i < items.len()
        invariant
            items@.len() == orig.len(),
            i <= orig.len(),
            forall|j: int| 0 <= j < i ==> #[trigger] item_view(items@[j]) == deny_view(orig[j], reason@),
            forall|j: int| i <= j < orig.len() ==> #[trigger] item_view(items@[j]) == orig[j],
            answers_view(answers@) == denials(orig.take(i as int), reason@),
        decreases orig.len() - i,
    {
        let ghost before = answers@;
        assert(orig.take(i as int + 1).drop_last() =~= orig.take(i as int));
        assert(item_view(items@[i as int]) == orig[i as int]);
        let waiting = match &items[i] {
            Some(a) => a.state.is_pending(),
            None => false,
        };
        if waiting {
            let id: u64 = match &items[i] {
                Some(a) => a.request_id,
                None => 0,
            };
            let r = string_from_chars(&str_chars(reason));
            items.set(i, Some(ApprovalItem { request_id: id, state: ApprovalState::Denied(r.clone()) }));
            answers.push(ApprovalAnswer { request_id: id, approved: false, reason: Some(r) });
            assert(answers_view(answers@) =~= answers_view(before).push((id, false, Some(reason@))));
        }
        i += 1;
    }
    assert(orig.take(orig.len() as int) =~= orig);
    assert(items_view(items@) =~= deny_all(orig, reason@));
    answers
}

/// A new request `request_id` arrives: the requests still waiting are
/// denied as superseded, and a message with the new request is added.
/// Returns the responses for the superseded requests.
pub fn on_approval_request(items: &mut Vec<Option<ApprovalItem>>, request_id: u64) -> (answers: Vec<ApprovalAnswer>)
    ensures
        items_view(final(items)@) == after_request(items_view(old(items)@), request_id),
        answers_view(answers@) == denials(items_view(old(items)@), superseded_reason()),
{
    proof {
        reveal_strlit("Superseded by new request");
    }
    let answers = deny_waiting(items, "Superseded by new request");
    let ghost mid = items@;
    items.push(Some(ApprovalItem { request_id, state: ApprovalState::Pending }));
    assert(items_view(items@) =~= items_view(mid).push(Some((request_id, StateView::Pending))));
    answers
}

/// The agent's turn ended: the requests still waiting are denied as left
/// unresolved. Returns the responses for them.
pub fn on_turn_end(items: &mut Vec<Option<ApprovalItem>>) -> (answers: Vec<ApprovalAnswer>)
    ensures
        items_view(final(items)@) == after_turn_end(items_view(old(items)@)),
        answers_view(answers@) == denials(items_view(old(items)@), unresolved_reason()),
{
    proof {
        reveal_strlit("Agent completed without resolution");
    }
    deny_waiting(items, "Agent completed without resolution")
}

/// The user answers the newest request (approve, or deny): when it is
/// waiting, the response goes back and the messages carrying that request
/// are removed; otherwise nothing changes and `None` is returned.
pub fn answer_latest(items: &mut Vec<Option<ApprovalItem>>, approve: bool) -> (r: Option<ApprovalAnswer>)
    ensures
        match latest_request(items_view(old(items)@)) {
            Some((id, StateView::Pending)) => r matches Some(a) && answer_view(a) == user_answer(id, approve)
                && items_view(final(items)@) == remove_request(items_view(old(items)@), id),
            _ => r is None && items_view(final(items)@) == items_view(old(items)@),
        },
{
    let ghost v = items_view(items@);
    let mut k: usize = items.len();
    assert(v.take(k as int) =~= v);
    while k > 0 && items[k - 1].is_none()
        invariant
            k <= items@.len(),
            v == items_view(items@),
            latest_request(v) == latest_request(v.take(k as int)),
        decreases k,
    {
        assert(v.take(k as int).drop_last() =~= v.take(k as int - 1));
        k -= 1;
    }
    if k == 0 {
        assert(v.take(0) =~= Seq::<Option<(u64, StateView)>>::empty());
        return None;
    }
    assert(v.take(k as int).last() == v[k - 1]);
    let (id, waiting): (u64, bool) = match &items[k - 1] {
        Some(a) => (a.request_id, a.state.is_pending()),
        None => (0, false),
    };
    if !waiting {
        return None;
    }
    let mut kept: Vec<Option<ApprovalItem>> = Vec::new();
    let mut i: usize = 0;
    while i < items.len()
        invariant
            v == items_view(items@),
            i <= items@.len(),
            items_view(kept@) == remove_request(v.take(i as int), id),
        decreases items@.len() - i,
    {
        assert(v.take(i as int + 1).drop_last() =~= v.take(i as int));
        assert(v.take(i as int + 1).last() == item_view(items@[i as int]));
        let drop = match &items[i] {
            Some(a) => a.request_id == id,
            None => false,
        };
        let ghost before = kept@;
        if !drop {
            kept.push(copy_item(&items[i]));
            assert(items_view(kept@) =~= items_view(before).push(item_view(items@[i as int])));
        }
        i += 1;
    }
    assert(v.take(items@.len() as int) =~= v);
    *items = kept;
    if approve {
        Some(ApprovalAnswer { request_id: id, approved: true, reason: None })
    } else {
        proof {
            reveal_strlit("User denied permission");
        }
        Some(ApprovalAnswer { request_id: id, approved: false, reason: Some(string_from_chars(&str_chars("User denied permission"))) })
    }
}

/// No request is waiting.
pub open spec fn none_waiting(v: Seq<Option<(u64, StateView)>>) -> bool {
    forall|i: int| 0 <= i < v.len() ==> !is_waiting(#[trigger] v[i])
}

/// Denying with any reason leaves no request waiting.
pub proof fn law_deny_leaves_none_waiting(v: Seq<Option<(u64, StateView)>>, reason: Seq<char>)
    ensures
        none_waiting(deny_all(v, reason)),
{
    assert forall|i: int| 0 <= i < deny_all(v, reason).len() implies !is_waiting(
        #[trigger] deny_all(v, reason)[i],
    ) by {
        assert(deny_all(v, reason)[i] == deny_view(v[i], reason));
    }
}

/// After a new request exactly one request waits: the new one.
pub proof fn law_request_leaves_one_waiting(v: Seq<Option<(u64, StateView)>>, id: u64)
    ensures
        at_most_one_waiting(after_request(v, id)),
        is_waiting(after_request(v, id).last()),
{
    law_deny_leaves_none_waiting(v, superseded_reason());
    let w = after_request(v, id);
    let d = deny_all(v, superseded_reason());
    assert forall|i: int, j: int|
        0 <= i < w.len() && 0 <= j < w.len() && is_waiting(#[trigger] w[i]) && is_waiting(
            #[trigger] w[j],
        ) implies i == j by {
        if i < d.len() {
            assert(w[i] == d[i]);
        }
        if j < d.len() {
            assert(w[j] == d[j]);
        }
    }
}

/// After the turn ends no request waits.
pub proof fn law_turn_end_leaves_none_waiting(v: Seq<Option<(u64, StateView)>>)
    ensures
        none_waiting(after_turn_end(v)),
{
    law_deny_leaves_none_waiting(v, unresolved_reason());
}

/// Removing a request's messages never adds a waiting request.
pub proof fn law_answer_keeps_at_most_one_waiting(v: Seq<Option<(u64, StateView)>>, id: u64)
    ensures
        at_most_one_waiting(v) ==> at_most_one_waiting(remove_request(v, id)),
        none_waiting(v) ==> none_waiting(remove_request(v, id)),
    decreases v.len(),
{
    if v.len() > 0 {
        let p = v.drop_last();
        law_answer_keeps_at_most_one_waiting(p, id);
        let rp = remove_request(p, id);
        let w = remove_request(v, id);
        assert(at_most_one_waiting(v) ==> at_most_one_waiting(p)) by {
            if at_most_one_waiting(v) {
                assert forall|i: int, j: int|
                    0 <= i < p.len() && 0 <= j < p.len() && is_waiting(#[trigger] p[i])
                        && is_waiting(#[trigger] p[j]) implies i == j by {
                    assert(v[i] == p[i] && v[j] == p[j]);
                }
            }
        }
        assert(none_waiting(v) ==> none_waiting(p)) by {
            if none_waiting(v) {
                assert forall|i: int| 0 <= i < p.len() implies !is_waiting(#[trigger] p[i]) by {
                    assert(v[i] == p[i]);
                }
            }
        }
        if w.len() == rp.len() + 1 {
            assert(w =~= rp.push(v.last()));
            if is_waiting(v.last()) {
                assert(at_most_one_waiting(v) ==> none_waiting(p)) by {
                    if at_most_one_waiting(v) {
                        assert forall|i: int| 0 <= i < p.len() implies !is_waiting(#[trigger] p[i]) by {
                            assert(v[i] == p[i]);
                            assert(v[v.len() - 1] == v.last());
                        }
                    }
                }
            }
            assert forall|i: int, j: int|
                0 <= i < w.len() && 0 <= j < w.len() && is_waiting(#[trigger] w[i]) && is_waiting(
                    #[trigger] w[j],
                ) && at_most_one_waiting(v) implies i == j by {
                if i < rp.len() {
                    assert(w[i] == rp[i]);
                }
                if j < rp.len() {
                    assert(w[j] == rp[j]);
                }
            }
            assert forall|i: int| 0 <= i < w.len() && none_waiting(v) implies !is_waiting(
                #[trigger] w[i],
            ) by {
                if i < rp.len() {
                    assert(w[i] == rp[i]);
                } else {
                    assert(v[v.len() - 1] == v.last());
                }
            }
        } else {
            assert(w == rp);
        }
    }
}

} // verus!
