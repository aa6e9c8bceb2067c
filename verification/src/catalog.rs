//! Commands and skills loaded from the user's workspace, as the autocomplete
//! and the skills dialog see them.

use vstd::prelude::*;

verus! {

/// A user-defined slash command.
#[derive(Clone, Debug)]
pub struct UserCommand {
    /// Command name including the leading slash, e.g. `/deploy`.
    pub name: String,
    /// One-line description shown in the autocomplete popup.
    pub description: String,
    /// Prompt text the command expands to.
    pub prompt: String,
    /// What running it does: `system` shows the prompt as a system message;
    /// anything else sends the prompt to the agent.
    pub action: String,
}

/// A loaded skill (built-in or user overlay).
#[derive(Clone, Debug)]
pub struct Skill {
    /// Display name.
    pub name: String,
    /// One-line description.
    pub description: String,
    /// Prompt body sent to the agent when the skill runs.
    pub body: String,
    /// The skill's `/<slug>` form used by the autocomplete.
    pub slash_name: String,
}

} // verus!
