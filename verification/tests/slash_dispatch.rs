//! What a submitted slash command does.

use stemcell_tui::catalog::UserCommand;
use stemcell_tui::slash_dispatch::{
    classify_slash_command, slash_command_word, unknown_command_message, OnboardStep, SlashAction,
};

fn user(name: &str, action: &str) -> UserCommand {
    UserCommand {
        name: name.to_string(),
        description: String::new(),
        prompt: format!("prompt of {name}"),
        action: action.to_string(),
    }
}

#[test]
fn builtins_are_chosen_by_their_first_word() {
    assert_eq!(classify_slash_command("/models", &[]), SlashAction::OpenModels);
    assert_eq!(classify_slash_command("/usage now", &[]), SlashAction::OpenUsage);
    assert_eq!(classify_slash_command("  /help", &[]), SlashAction::Help);
    assert_eq!(classify_slash_command("/new", &[]), SlashAction::NewSession);
    assert_eq!(classify_slash_command("/sessions", &[]), SlashAction::Sessions);
    assert_eq!(classify_slash_command("/approve", &[]), SlashAction::ApproveMenu);
    assert_eq!(classify_slash_command("/compact", &[]), SlashAction::Compact);
    assert_eq!(classify_slash_command("/rebuild", &[]), SlashAction::Rebuild);
    assert_eq!(classify_slash_command("/evolve", &[]), SlashAction::Evolve);
    assert_eq!(classify_slash_command("/whisper", &[]), SlashAction::Whisper);
    assert_eq!(classify_slash_command("/cd", &[]), SlashAction::ChangeDirectory);
}

#[test]
fn onboarding_links_open_their_step() {
    assert_eq!(classify_slash_command("/onboard", &[]), SlashAction::Onboard(OnboardStep::ModeSelect));
    assert_eq!(
        classify_slash_command("/onboard:provider", &[]),
        SlashAction::Onboard(OnboardStep::ProviderAuth)
    );
    assert_eq!(
        classify_slash_command("/onboard::voice", &[]),
        SlashAction::Onboard(OnboardStep::VoiceSetup)
    );
    assert_eq!(classify_slash_command("/onboardbrain", &[]), SlashAction::Onboard(OnboardStep::BrainSetup));
    assert_eq!(classify_slash_command("/onboard:bogus", &[]), SlashAction::Onboard(OnboardStep::ModeSelect));
    assert_eq!(classify_slash_command("/doctor", &[]), SlashAction::Onboard(OnboardStep::HealthCheck));
}

#[test]
fn user_commands_run_by_their_action() {
    let users = vec![user("/deploy", "prompt"), user("/note", "system"), user("/deploy", "system")];
    assert_eq!(classify_slash_command("/deploy now", &users), SlashAction::UserPrompt(0));
    assert_eq!(classify_slash_command("/note", &users), SlashAction::UserSystemMessage(1));
    // A user command cannot replace a built-in.
    let shadow = vec![user("/help", "system")];
    assert_eq!(classify_slash_command("/help", &shadow), SlashAction::Help);
}

#[test]
fn unknown_commands_and_plain_text() {
    assert_eq!(classify_slash_command("/nope", &[]), SlashAction::Unknown);
    assert_eq!(classify_slash_command("hello /help", &[]), SlashAction::NotHandled);
    assert_eq!(classify_slash_command(" /nope", &[]), SlashAction::NotHandled);
    assert_eq!(classify_slash_command("", &[]), SlashAction::NotHandled);
    assert_eq!(slash_command_word("  /nope  x"), "/nope");
    assert_eq!(
        unknown_command_message("/nope"),
        "Unknown command: /nope. Type /help for available commands."
    );
}
