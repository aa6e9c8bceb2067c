//! What the `/kg` command does with its subcommand, and the status-bar
//! messages that report the outcome of the review actions (approve,
//! decline, revert, restore). The git and queue work itself is done by the
//! caller; these functions take its outcome as a plain value.

use vstd::prelude::*;
use vstd::string::StringSliceAdditionalSpecFns;
use vstd::utf8::*;
use crate::history::decimal_digits;
use crate::input_edit::{char_index_at_byte, char_index_of, lemma_boundary_char_offset};
use crate::text::{encode_chars, chars_eq, push_chars, str_chars, string_from_chars, sub_chars};
use crate::tool_description::decimal;

verus! {

/// Where `/kg <subcommand>` leads.
#[derive(Clone, Copy, Debug, PartialEq, Eq, Structural)]
pub enum KgRoute {
    /// The pending queue (no subcommand, `review` or `queue`).
    Queue,
    /// The commit log (`log`).
    Log,
    /// The queue, then revert the last approved batch (`revert`).
    QueueThenRevert,
    /// An unknown subcommand: the queue, with a notice.
    Unknown,
}

/// The route of a subcommand.
pub open spec fn kg_route_spec(sub: Seq<char>) -> KgRoute {
    if sub == ""@ || sub == "review"@ || sub == "queue"@ {
        KgRoute::Queue
    } else if sub == "log"@ {
        KgRoute::Log
    } else if sub == "revert"@ {
        KgRoute::QueueThenRevert
    } else {
        KgRoute::Unknown
    }
}

/// Where `/kg <subcommand>` leads.
pub fn kg_route(subcommand: &str) -> (r: KgRoute)
    ensures
        r == kg_route_spec(subcommand@),
{
    let s = str_chars(subcommand);
    if chars_eq(&s, &str_chars("")) || chars_eq(&s, &str_chars("review")) || chars_eq(&s, &str_chars("queue")) {
        KgRoute::Queue
    } else if chars_eq(&s, &str_chars("log")) {
        KgRoute::Log
    } else if chars_eq(&s, &str_chars("revert")) {
        KgRoute::QueueThenRevert
    } else {
        KgRoute::Unknown
    }
}

/// The notice shown for an unknown subcommand.
pub fn unknown_subcommand_message(subcommand: &str) -> (m: String)
    ensures
        m@ == "Unknown /kg subcommand \""@ + subcommand@ + "\" — showing queue"@,
{
    let mut out = str_chars("Unknown /kg subcommand \"");
    push_chars(&mut out, &str_chars(subcommand));
    push_chars(&mut out, &str_chars("\" — showing queue"));
    string_from_chars(&out)
}

/// How an approve (a merge of the batch's branch) ended.
#[derive(Clone, Debug, PartialEq, Eq)]
pub enum ApproveResult {
    /// Merged into the vault.
    Merged,
    /// Left queued: the merge conflicted on this many files.
    Conflicted(usize),
    /// The operation failed with this error text.
    Failed(String),
}

/// The message reporting an approve of the batch summarised as `summary`.
pub open spec fn approve_message_spec(summary: Seq<char>, outcome: ApproveResult) -> Seq<char> {
    match outcome {
        ApproveResult::Merged => "Approved \""@ + summary + "\" — merged into vault"@,
        ApproveResult::Conflicted(n) => "Conflict on "@ + summary + " — left queued for manual resolution ("@
            + decimal(n as nat) + " file(s))"@,
        ApproveResult::Failed(e) => "Approve failed: "@ + e@,
    }
}

/// The message reporting an approve of the batch summarised as `summary`.
pub fn approve_message(summary: &str, outcome: &ApproveResult) -> (m: String)
    ensures
        m@ == approve_message_spec(summary@, *outcome),
{
    match outcome {
        ApproveResult::Merged => {
            let mut out = str_chars("Approved \"");
            push_chars(&mut out, &str_chars(summary));
            push_chars(&mut out, &str_chars("\" — merged into vault"));
            string_from_chars(&out)
        },
        ApproveResult::Conflicted(n) => {
            let mut out = str_chars("Conflict on ");
            push_chars(&mut out, &str_chars(summary));
            push_chars(&mut out, &str_chars(" — left queued for manual resolution ("));
            push_chars(&mut out, &decimal_digits(*n as u64));
            push_chars(&mut out, &str_chars(" file(s))"));
            string_from_chars(&out)
        },
        ApproveResult::Failed(e) => {
            let mut out = str_chars("Approve failed: ");
            push_chars(&mut out, &str_chars(e.as_str()));
            string_from_chars(&out)
        },
    }
}

/// The message reporting a decline of the batch summarised as `summary`;
/// `error` holds the failure's text when it failed.
pub fn decline_message(summary: &str, error: Option<&str>) -> (m: String)
    ensures
        match error {
            None => m@ == "Declined \""@ + summary@ + "\" — dropped"@,
            Some(e) => m@ == "Decline failed: "@ + e@,
        },
{
    match error {
        None => {
            let mut out = str_chars("Declined \"");
            push_chars(&mut out, &str_chars(summary));
            push_chars(&mut out, &str_chars("\" — dropped"));
            string_from_chars(&out)
        },
        Some(e) => {
            let mut out = str_chars("Decline failed: ");
            push_chars(&mut out, &str_chars(e));
            string_from_chars(&out)
        },
    }
}

/// The message reporting a revert of the last approved batch.
pub fn revert_message(error: Option<&str>) -> (m: String)
    ensures
        match error {
            None => m@ == "Reverted the last approved batch"@,
            Some(e) => m@ == "Revert failed: "@ + e@,
        },
{
    match error {
        None => string_from_chars(&str_chars("Reverted the last approved batch")),
        Some(e) => {
            let mut out = str_chars("Revert failed: ");
            push_chars(&mut out, &str_chars(e));
            string_from_chars(&out)
        },
    }
}

/// The first eight bytes of a commit id (all of it when shorter), which
/// must end on a char boundary.
pub fn short_sha(sha: &str) -> (r: String)
    requires
        is_char_boundary(
            sha.spec_bytes(),
            if sha.spec_bytes().len() < 8 { sha.spec_bytes().len() as int } else { 8 },
        ),
    ensures
        r@ == sha@.take(
            char_index_of(sha@, if sha.spec_bytes().len() < 8 { sha.spec_bytes().len() as int } else { 8 }),
        ),
{
    let chars = str_chars(sha);
    let total = encode_chars(&chars).len();
    let n = if total < 8 { total } else { 8 };
    proof {
        lemma_boundary_char_offset(chars@, n as int);
    }
    let k = char_index_at_byte(&chars, n);
    let t = sub_chars(&chars, 0, k);
    assert(t@ =~= chars@.take(k as int));
    string_from_chars(&t)
}

/// The message reporting a restore of the vault to commit `sha`.
pub fn restore_message(sha: &str, error: Option<&str>) -> (m: String)
    requires
        is_char_boundary(
            sha.spec_bytes(),
            if sha.spec_bytes().len() < 8 { sha.spec_bytes().len() as int } else { 8 },
        ),
    ensures
        match error {
            None => m@ == "Restored vault to "@ + sha@.take(
                char_index_of(sha@, if sha.spec_bytes().len() < 8 { sha.spec_bytes().len() as int } else { 8 }),
            ),
            Some(e) => m@ == "Restore failed: "@ + e@,
        },
{
    match error {
        None => {
            let mut out = str_chars("Restored vault to ");
            let short = short_sha(sha);
            push_chars(&mut out, &str_chars(short.as_str()));
            string_from_chars(&out)
        },
        Some(e) => {
            let mut out = str_chars("Restore failed: ");
            push_chars(&mut out, &str_chars(e));
            string_from_chars(&out)
        },
    }
}

} // verus!
