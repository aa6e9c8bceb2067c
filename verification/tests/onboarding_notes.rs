//! Notes shown when the setup wizard saves.

use stemcell_tui::onboarding_notes::{
    quick_jump_saved_note, setup_complete_note, SttChoice, TtsChoice,
    WizardSummary,
};
use stemcell_tui::slash_dispatch::OnboardStep;

fn summary() -> WizardSummary {
    WizardSummary {
        provider_name: "OpenRouter".to_string(),
        model_name: "qwen".to_string(),
        stt: SttChoice::Groq,
        tts: TtsChoice::Voicebox,
        voicebox_profile_id: "0123456789abcdef".to_string(),
        voicebox_engine: "kokoro".to_string(),
        image_vision: true,
        image_generation: false,
        telegram: true,
        discord: false,
        whatsapp: true,
        slack: false,
        trello: false,
    }
}

#[test]
fn quick_jump_notes_name_what_was_saved() {
    let s = summary();
    assert_eq!(
        quick_jump_saved_note(OnboardStep::ProviderAuth, &s),
        ("[Model changed to OpenRouter/qwen]".to_string(), true)
    );
    assert_eq!(
        quick_jump_saved_note(OnboardStep::VoiceSetup, &s).0,
        "Voice settings saved — STT: Groq | TTS: Voicebox | Profile: 01234567 | Engine: kokoro"
    );
    assert_eq!(quick_jump_saved_note(OnboardStep::ImageSetup, &s).0, "Image settings saved — Vision: ON");
    assert_eq!(quick_jump_saved_note(OnboardStep::Channels, &s).0, "Channels saved — Telegram, WhatsApp");
    let mut off = summary();
    off.image_vision = false;
    off.telegram = false;
    off.whatsapp = false;
    off.tts = TtsChoice::Local;
    assert_eq!(quick_jump_saved_note(OnboardStep::ImageSetup, &off).0, "Image settings saved — Image: OFF");
    assert_eq!(quick_jump_saved_note(OnboardStep::Channels, &off).0, "Channels saved — All channels OFF");
    assert_eq!(
        quick_jump_saved_note(OnboardStep::VoiceSetup, &off).0,
        "Voice settings saved — STT: Groq | TTS: Local Piper"
    );
    assert_eq!(quick_jump_saved_note(OnboardStep::Workspace, &off), ("Settings saved.".to_string(), false));
}

#[test]
fn setup_complete_note_names_provider_and_model() {
    assert_eq!(setup_complete_note("OpenAI", "gpt-4o"), "Setup complete! Provider: OpenAI | Model: gpt-4o");
}
