//! Newest messages that fit the display budget, and the history marker.

use stemcell_tui::history::{plan_history_page, HISTORY_PAGE_TOKENS, make_history_marker, trim_messages_to_display_budget};

#[test]
fn keeps_newest_messages_within_budget() {
    // Oldest first: 50, 30, 20, 10. Budget 60 keeps 10 + 20 + 30.
    assert_eq!(trim_messages_to_display_budget(&[50, 30, 20, 10], 60), (1, 60));
    assert_eq!(trim_messages_to_display_budget(&[50, 30, 20, 10], 59), (2, 30));
    assert_eq!(trim_messages_to_display_budget(&[50, 30, 20, 10], 1000), (0, 110));
    assert_eq!(trim_messages_to_display_budget(&[], 10), (0, 0));
}

#[test]
fn stops_at_first_message_that_does_not_fit() {
    // The 100-token message stops the walk even though the older one fits.
    assert_eq!(trim_messages_to_display_budget(&[1, 100, 5], 50), (2, 5));
    assert_eq!(trim_messages_to_display_budget(&[5, 80], 50), (2, 0));
    assert_eq!(trim_messages_to_display_budget(&[usize::MAX, 3], 10), (1, 3));
}

#[test]
fn history_marker_text() {
    assert_eq!(make_history_marker(12), "↑ 12 older messages hidden · Ctrl+O to load more");
    assert_eq!(make_history_marker(0), "↑ 0 older messages hidden · Ctrl+O to load more");
}

#[test]
fn history_page_adds_the_newest_older_messages_that_fit() {
    // Messages with sequences 1..=6; those below 5 are older than what is shown.
    let seqs = [1, 2, 3, 4, 5, 6];
    let tokens = [40_000, 50_000, 30_000, 60_000, 1, 1];
    let page = plan_history_page(&seqs, &tokens, 5);
    // Newest first: 60_000 fits, +30_000 fits (90_000), +50_000 would not.
    assert_eq!(page.added, vec![2, 3]);
    assert_eq!(page.hidden_still, 2);
    assert_eq!(page.tokens, 90_000);
    assert_eq!(page.oldest_sequence, 3);
}

#[test]
fn history_page_with_nothing_older_adds_nothing() {
    let page = plan_history_page(&[5, 6], &[10, 10], 5);
    assert!(page.added.is_empty());
    assert_eq!(page.hidden_still, 0);
    assert_eq!(page.tokens, 0);
    assert_eq!(page.oldest_sequence, 0);
    // A single older message larger than the page budget stays hidden.
    let page = plan_history_page(&[1], &[HISTORY_PAGE_TOKENS + 1], 5);
    assert!(page.added.is_empty());
    assert_eq!(page.hidden_still, 1);
}
