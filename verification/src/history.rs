//! Which stored messages of a session the chat view shows: the newest ones
//! that fit a token budget, with a marker for those hidden above them.

use vstd::prelude::*;
use crate::text::{str_chars, string_from_chars};
use crate::tool_description::decimal;

verus! {

/// Sum of the last `k` token counts.
pub open spec fn suffix_sum(c: Seq<usize>, k: nat) -> nat
    decreases k,
{
    if k == 0 || k > c.len() {
        0
    } else {
        suffix_sum(c, (k - 1) as nat) + c[c.len() - k] as nat
    }
}

/// Number of newest messages kept, walking back from the newest one and
/// stopping at the first that would overflow the budget.
pub open spec fn greedy_keep(c: Seq<usize>, budget: nat, k: nat) -> nat
    decreases c.len() - k,
{
    if k >= c.len() {
        c.len()
    } else if suffix_sum(c, k + 1) > budget {
        k
    } else {
        greedy_keep(c, budget, k + 1)
    }
}

proof fn lemma_greedy_keep(c: Seq<usize>, budget: nat, k: nat)
    requires
        k <= c.len(),
        suffix_sum(c, k) <= budget,
    ensures
        k <= greedy_keep(c, budget, k) <= c.len(),
        suffix_sum(c, greedy_keep(c, budget, k)) <= budget,
        greedy_keep(c, budget, k) < c.len() ==> suffix_sum(c, greedy_keep(c, budget, k) + 1)
            > budget,
    decreases c.len() - k,
{
    if k < c.len() && suffix_sum(c, k + 1) <= budget {
        lemma_greedy_keep(c, budget, k + 1);
    }
}

/// How many of the oldest messages to hide so that the rest fit `budget`
/// tokens, newest messages first: `token_counts` holds each message's token
/// count, oldest first. Returns the number hidden (the kept messages are
/// those from that index on) and the tokens of the kept ones.
pub fn trim_messages_to_display_budget(token_counts: &[usize], budget: usize) -> (r: (usize, usize))
    ensures
        r.0 == token_counts@.len() - greedy_keep(token_counts@, budget as nat, 0),
        r.1 == suffix_sum(token_counts@, greedy_keep(token_counts@, budget as nat, 0)),
{
    let n = token_counts.len();
    let mut tokens: usize = 0;
    let mut keep: usize = 0;
    proof {
        lemma_greedy_keep(token_counts@, budget as nat, 0);
    }
    while keep < n
        invariant_except_break
            greedy_keep(token_counts@, budget as nat, 0) == greedy_keep(
                token_counts@,
                budget as nat,
                keep as nat,
            ),
        invariant
            n == token_counts@.len(),
            keep <= n,
            tokens == suffix_sum(token_counts@, keep as nat),
            tokens <= budget,
        ensures
            keep == greedy_keep(token_counts@, budget as nat, 0),
            tokens == suffix_sum(token_counts@, keep as nat),
        decreases n - keep,
    {
        let t = token_counts[n - 1 - keep];
        if t > budget - tokens {
            break;
        }
        tokens = tokens + t;
        keep = keep + 1;
    }
    (n - keep, tokens)
}

/// The newest messages kept fit the budget, and the newest one hidden
/// would not have fitted with them.
pub proof fn law_display_budget(c: Seq<usize>, budget: nat)
    ensures
        greedy_keep(c, budget, 0) <= c.len(),
        suffix_sum(c, greedy_keep(c, budget, 0)) <= budget,
        greedy_keep(c, budget, 0) < c.len() ==> suffix_sum(c, greedy_keep(c, budget, 0) + 1)
            > budget,
{
    lemma_greedy_keep(c, budget, 0);
}

/// Text of the marker above the shown messages when `count` older ones are
/// hidden.
pub open spec fn history_marker_spec(count: nat) -> Seq<char> {
    "↑ "@ + decimal(count) + " older messages hidden · Ctrl+O to load more"@
}

/// Decimal digits of `n`.
pub(crate) fn decimal_digits(n: u64) -> (r: Vec<char>)
    ensures
        r@ == decimal(n as nat),
    decreases n,
{
    let mut out: Vec<char> = if n >= 10 {
        decimal_digits(n / 10)
    } else {
        Vec::new()
    };
    let d = n % 10;
    let c = if d == 0 {
        '0'
    } else if d == 1 {
        '1'
    } else if d == 2 {
        '2'
    } else if d == 3 {
        '3'
    } else if d == 4 {
        '4'
    } else if d == 5 {
        '5'
    } else if d == 6 {
        '6'
    } else if d == 7 {
        '7'
    } else if d == 8 {
        '8'
    } else {
        '9'
    };
    out.push(c);
    assert(out@ =~= decimal(n as nat));
    out
}

/// Content of the history marker shown when `count` older messages are
/// hidden.
pub fn make_history_marker(count: usize) -> (r: String)
    ensures
        r@ == history_marker_spec(count as nat),
{
    let mut out = str_chars("↑ ");
    let mut digits = decimal_digits(count as u64);
    out.append(&mut digits);
    let mut tail = str_chars(" older messages hidden · Ctrl+O to load more");
    out.append(&mut tail);
    string_from_chars(&out)
}

/// Token budget of one page of older messages loaded on request.
pub const HISTORY_PAGE_TOKENS: usize = 100_000;

/// Positions, in order, of the stored messages older than the oldest one
/// shown (sequence number below `oldest`), among the first `n`.
pub open spec fn older_positions(seqs: Seq<i32>, oldest: i32, n: nat) -> Seq<usize>
    decreases n,
{
    if n == 0 || n > seqs.len() {
        Seq::empty()
    } else {
        let prev = older_positions(seqs, oldest, (n - 1) as nat);
        if seqs[n - 1] < oldest { prev.push((n - 1) as usize) } else { prev }
    }
}

/// One more page of older messages to show.
#[derive(Clone, Debug)]
pub struct HistoryPage {
    /// Positions of the messages to add above those shown, oldest first.
    pub added: Vec<usize>,
    /// Older messages that stay hidden.
    pub hidden_still: usize,
    /// Tokens of the added messages.
    pub tokens: usize,
    /// Sequence number of the oldest message shown afterwards (0 when none
    /// is added).
    pub oldest_sequence: i32,
}

/// Plans loading more history: of the stored messages (sequence numbers and
/// token counts, by ascending sequence) those older than `oldest_displayed`
/// are candidates, and the newest of them that fit `HISTORY_PAGE_TOKENS`
/// are added; the rest stay hidden.
pub fn plan_history_page(sequences: &[i32], token_counts: &[usize], oldest_displayed: i32) -> (p: HistoryPage)
    requires
        sequences@.len() == token_counts@.len(),
    ensures
        ({
            let older = older_positions(sequences@, oldest_displayed, sequences@.len() as nat);
            let older_tokens = older.map_values(|i: usize| token_counts@[i as int]);
            let keep = greedy_keep(older_tokens, HISTORY_PAGE_TOKENS as nat, 0);
            &&& p.hidden_still == older.len() - keep
            &&& p.added@ == older.skip(older.len() - keep)
            &&& p.tokens == suffix_sum(older_tokens, keep)
            &&& p.oldest_sequence == if keep > 0 { sequences@[p.added@[0] as int] } else { 0 }
        }),
{
    let ghost seqs = sequences@;
    let mut older: Vec<usize> = Vec::new();
    let mut older_tokens: Vec<usize> = Vec::new();
    let mut i: usize = 0;
    while i < sequences.len()
        invariant
            i <= seqs.len(),
            seqs == sequences@,
            seqs.len() == token_counts@.len(),
            older@ == older_positions(seqs, oldest_displayed, i as nat),
            older_tokens@ == older@.map_values(|k: usize| token_counts@[k as int]),
            forall|k: int| 0 <= k < older@.len() ==> older@[k] < i,
        decreases seqs.len() - i,
    {
        if sequences[i] < oldest_displayed {
            older.push(i);
            older_tokens.push(token_counts[i]);
            assert(older_tokens@ =~= older@.map_values(|k: usize| token_counts@[k as int]));
        }
        i += 1;
    }
    let (hidden, tokens) = trim_messages_to_display_budget(&older_tokens, HISTORY_PAGE_TOKENS);
    proof {
        lemma_greedy_keep(older_tokens@, HISTORY_PAGE_TOKENS as nat, 0);
    }
    let mut added: Vec<usize> = Vec::new();
    let mut k: usize = hidden;
    while k < older.len()
        invariant
            hidden <= k <= older@.len(),
            added@ == older@.subrange(hidden as int, k as int),
        decreases older@.len() - k,
    {
        added.push(older[k]);
        assert(older@.subrange(hidden as int, k as int + 1) =~= older@.subrange(hidden as int, k as int).push(older@[k as int]));
        k += 1;
    }
    assert(added@ =~= older@.skip(hidden as int));
    let oldest_sequence = if added.len() > 0 { sequences[added[0]] } else { 0 };
    HistoryPage { added, hidden_still: hidden, tokens, oldest_sequence }
}

} // verus!
