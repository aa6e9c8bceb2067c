//! `/kg` subcommand routing and the review actions' status messages.

use stemcell_tui::kg_actions::{
    approve_message, decline_message, kg_route, restore_message, revert_message, short_sha,
    unknown_subcommand_message, ApproveResult, KgRoute,
};

#[test]
fn subcommands_route_to_views() {
    assert_eq!(kg_route(""), KgRoute::Queue);
    assert_eq!(kg_route("review"), KgRoute::Queue);
    assert_eq!(kg_route("queue"), KgRoute::Queue);
    assert_eq!(kg_route("log"), KgRoute::Log);
    assert_eq!(kg_route("revert"), KgRoute::QueueThenRevert);
    assert_eq!(kg_route("Log"), KgRoute::Unknown);
    assert_eq!(kg_route("purge"), KgRoute::Unknown);
    assert_eq!(
        unknown_subcommand_message("purge"),
        "Unknown /kg subcommand \"purge\" — showing queue"
    );
}

#[test]
fn approve_messages_cover_every_outcome() {
    assert_eq!(
        approve_message("notes", &ApproveResult::Merged),
        "Approved \"notes\" — merged into vault"
    );
    assert_eq!(
        approve_message("notes", &ApproveResult::Conflicted(3)),
        "Conflict on notes — left queued for manual resolution (3 file(s))"
    );
    assert_eq!(
        approve_message("notes", &ApproveResult::Failed("locked".to_string())),
        "Approve failed: locked"
    );
}

#[test]
fn decline_revert_and_restore_messages() {
    assert_eq!(decline_message("notes", None), "Declined \"notes\" — dropped");
    assert_eq!(decline_message("notes", Some("gone")), "Decline failed: gone");
    assert_eq!(revert_message(None), "Reverted the last approved batch");
    assert_eq!(revert_message(Some("nothing to revert")), "Revert failed: nothing to revert");
    assert_eq!(restore_message("0123456789abcdef", None), "Restored vault to 01234567");
    assert_eq!(restore_message("abc", None), "Restored vault to abc");
    assert_eq!(restore_message("abc", Some("dirty tree")), "Restore failed: dirty tree");
    assert_eq!(short_sha("deadbeefcafe"), "deadbeef");
    assert_eq!(short_sha(""), "");
}
