//! Decisions taken when the user sends a message: what becomes of the plan
//! shown, how a message sent while the agent still works is queued, what
//! the agent receives, whether the message is shown, and how the agent's
//! failures are worded.

use vstd::prelude::*;
use crate::text::{chars_contain_sub, chars_start_with, push_chars, seq_contains_sub, seq_starts_with, str_chars, string_from_chars};
use crate::tool_markers::{join_with, lemma_join_push, strings_view};

verus! {

/// Status of the plan document shown beside the chat.
#[derive(Clone, Copy, Debug, PartialEq, Eq, Structural)]
pub enum PlanStatus {
    Draft,
    PendingApproval,
    Approved,
    InProgress,
    Completed,
    Rejected,
    Cancelled,
}

/// What a new user message does to the plan shown.
#[derive(Clone, Copy, Debug, PartialEq, Eq, Structural)]
pub enum PlanAction {
    /// A finished plan: delete its file and stop showing it.
    DiscardFile,
    /// A plan being carried out: keep it.
    Keep,
    /// Stop showing it; its file stays for the agent.
    HideWidget,
}

/// What a new user message does to a plan of status `status`: finished
/// plans (completed, rejected, cancelled) are discarded, one in progress is
/// kept, any other is hidden with its file kept.
pub fn plan_on_user_message(status: PlanStatus) -> (r: PlanAction)
    ensures
        r == match status {
            PlanStatus::Completed | PlanStatus::Rejected | PlanStatus::Cancelled => PlanAction::DiscardFile,
            PlanStatus::InProgress => PlanAction::Keep,
            _ => PlanAction::HideWidget,
        },
{
    match status {
        PlanStatus::Completed | PlanStatus::Rejected | PlanStatus::Cancelled => PlanAction::DiscardFile,
        PlanStatus::InProgress => PlanAction::Keep,
        _ => PlanAction::HideWidget,
    }
}

/// What waits after `content` is queued behind `existing`.
pub open spec fn queue_spec(existing: Option<Seq<char>>, content: Seq<char>) -> Seq<char> {
    match existing {
        Some(e) => e + seq!['\n'] + content,
        None => content,
    }
}

/// The text waiting to be injected between the agent's tool calls after
/// `content` is sent while it works: appended on a new line to what already
/// waits.
pub fn queue_message(existing: Option<String>, content: &str) -> (r: String)
    ensures
        r@ == queue_spec(
            match existing {
                Some(e) => Some(e@),
                None => None,
            },
            content@,
        ),
{
    match existing {
        Some(e) => {
            let mut out = str_chars(e.as_str());
            out.push('\n');
            push_chars(&mut out, &str_chars(content));
            string_from_chars(&out)
        },
        None => string_from_chars(&str_chars(content)),
    }
}

/// What the agent receives for `content`: the pending context notes (model
/// changes, directory changes, ...) joined by newlines, a blank line, then
/// the message; the message alone when no note is pending.
pub fn with_pending_context(pending: &Vec<String>, content: &str) -> (r: String)
    ensures
        pending@.len() == 0 ==> r@ == content@,
        pending@.len() > 0 ==> r@ == join_with(strings_view(pending@), seq!['\n']) + seq!['\n', '\n'] + content@,
{
    if pending.len() == 0 {
        return string_from_chars(&str_chars(content));
    }
    let ghost pv = strings_view(pending@);
    let mut out = str_chars(pending[0].as_str());
    let mut i: usize = 1;
    assert(pv.take(1) =~= seq![pv[0]]);
    while i < pending.len()
        invariant
            1 <= i <= pending@.len(),
            pv == strings_view(pending@),
            out@ == join_with(pv.take(i as int), seq!['\n']),
        decreases pending@.len() - i,
    {
        let ghost before = out@;
        out.push('\n');
        push_chars(&mut out, &str_chars(pending[i].as_str()));
        proof {
            lemma_join_push(pv.take(i as int), pv[i as int], seq!['\n']);
            assert(pv.take(i as int + 1) =~= pv.take(i as int).push(pv[i as int]));
        }
        i += 1;
    }
    assert(pv.take(pending@.len() as int) =~= pv);
    out.push('\n');
    out.push('\n');
    push_chars(&mut out, &str_chars(content));
    string_from_chars(&out)
}

/// Whether `content` is an internal instruction (it begins `[SYSTEM:`),
/// which the chat does not show as the user's message.
pub fn is_system_trigger(content: &str) -> (b: bool)
    ensures
        b == seq_starts_with(content@, "[SYSTEM:"@),
{
    chars_start_with(&str_chars(content), &str_chars("[SYSTEM:"))
}

/// The message shown for a failed agent call with error text `raw`: the
/// two known provider failures are explained, any other is shown as it is.
pub open spec fn agent_error_spec(raw: Seq<char>) -> Seq<char> {
    if seq_contains_sub(raw, "error decoding response body"@) {
        "Provider stream broke unexpectedly (connection dropped mid-response). This can happen when the provider hits a token limit or network issue. Try again or switch to a different model."@
    } else if seq_contains_sub(raw, "Repetition detected"@) {
        "Provider got stuck in a loop repeating the same content. The stream was terminated automatically. Try rephrasing your request or switching models."@
    } else {
        raw
    }
}

/// The message shown for a failed agent call (see `agent_error_spec`).
pub fn agent_error_message(raw: &str) -> (r: String)
    ensures
        r@ == agent_error_spec(raw@),
{
    let m = str_chars(raw);
    if chars_contain_sub(&m, &str_chars("error decoding response body")) {
        string_from_chars(&str_chars("Provider stream broke unexpectedly (connection dropped mid-response). This can happen when the provider hits a token limit or network issue. Try again or switch to a different model."))
    } else if chars_contain_sub(&m, &str_chars("Repetition detected")) {
        string_from_chars(&str_chars("Provider got stuck in a loop repeating the same content. The stream was terminated automatically. Try rephrasing your request or switching models."))
    } else {
        string_from_chars(&m)
    }
}

/// The message shown when the agent's task panicked with `detail`.
pub fn task_crash_message(detail: &str) -> (r: String)
    ensures
        r@ == "Agent task crashed unexpectedly: "@ + detail@ + ". You can continue chatting."@,
{
    let mut out = str_chars("Agent task crashed unexpectedly: ");
    push_chars(&mut out, &str_chars(detail));
    push_chars(&mut out, &str_chars(". You can continue chatting."));
    string_from_chars(&out)
}

/// What waits after queueing `msgs` in order, starting from nothing.
pub open spec fn queued(msgs: Seq<Seq<char>>) -> Option<Seq<char>>
    decreases msgs.len(),
{
    if msgs.len() == 0 {
        None
    } else {
        Some(queue_spec(queued(msgs.drop_last()), msgs.last()))
    }
}

/// Messages sent while the agent works all reach it, in the order sent,
/// one per line.
pub proof fn law_queue_keeps_every_message(msgs: Seq<Seq<char>>)
    requires
        msgs.len() > 0,
    ensures
        queued(msgs) == Some(join_with(msgs, seq!['\n'])),
    decreases msgs.len(),
{
    if msgs.len() == 1 {
        assert(msgs.drop_last() =~= Seq::<Seq<char>>::empty());
        assert(queued(msgs.drop_last()) is None);
        assert(msgs.last() == msgs[0]);
        assert(join_with(msgs, seq!['\n']) == msgs[0]);
    } else {
        law_queue_keeps_every_message(msgs.drop_last());
        lemma_join_push(msgs.drop_last(), msgs.last(), seq!['\n']);
        assert(msgs.drop_last().push(msgs.last()) =~= msgs);
        assert(join_with(msgs, seq!['\n']) == join_with(msgs.drop_last(), seq!['\n']) + seq!['\n'] + msgs.last());
    }
}

} // verus!
