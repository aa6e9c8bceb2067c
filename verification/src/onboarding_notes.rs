//! What the app reports when the setup wizard finishes a step opened by a
//! quick jump (e.g. `/onboard:voice`) or finishes the whole setup.

use vstd::prelude::*;
use vstd::utf8::*;
use crate::input_edit::char_index_of;
use crate::kg_actions::short_sha;
use crate::slash_dispatch::OnboardStep;
use crate::text::{push_chars, str_chars, string_from_chars};
use crate::tool_markers::{join_with, lemma_join_push, strings_view};

verus! {

/// Speech-to-text choice of the voice step.
#[derive(Clone, Copy, Debug, PartialEq, Eq, Structural)]
pub enum SttChoice {
    Off,
    Groq,
    Local,
    OpenAiCompatible,
    Voicebox,
}

/// Text-to-speech choice of the voice step.
#[derive(Clone, Copy, Debug, PartialEq, Eq, Structural)]
pub enum TtsChoice {
    Off,
    OpenAi,
    Local,
    OpenAiCompatible,
    Voicebox,
}

/// The wizard's settings that the step summaries name.
#[derive(Clone, Debug)]
pub struct WizardSummary {
    /// Provider shown for the chosen provider (`Custom (name)` for a
    /// custom one) and the chosen model.
    pub provider_name: String,
    pub model_name: String,
    pub stt: SttChoice,
    pub tts: TtsChoice,
    pub voicebox_profile_id: String,
    pub voicebox_engine: String,
    pub image_vision: bool,
    pub image_generation: bool,
    pub telegram: bool,
    pub discord: bool,
    pub whatsapp: bool,
    pub slack: bool,
    pub trello: bool,
}

pub open spec fn stt_label(c: SttChoice) -> Seq<char> {
    match c {
        SttChoice::Off => "Off"@,
        SttChoice::Groq => "Groq"@,
        SttChoice::Local => "Local Whisper"@,
        SttChoice::OpenAiCompatible => "OpenAI-compatible"@,
        SttChoice::Voicebox => "Voicebox"@,
    }
}

pub open spec fn tts_label(c: TtsChoice) -> Seq<char> {
    match c {
        TtsChoice::Off => "Off"@,
        TtsChoice::OpenAi => "OpenAI"@,
        TtsChoice::Local => "Local Piper"@,
        TtsChoice::OpenAiCompatible => "OpenAI-compatible"@,
        TtsChoice::Voicebox => "Voicebox"@,
    }
}

fn stt_name(c: SttChoice) -> (s: &'static str)
    ensures
        s@ == stt_label(c),
{
    match c {
        SttChoice::Off => "Off",
        SttChoice::Groq => "Groq",
        SttChoice::Local => "Local Whisper",
        SttChoice::OpenAiCompatible => "OpenAI-compatible",
        SttChoice::Voicebox => "Voicebox",
    }
}

fn tts_name(c: TtsChoice) -> (s: &'static str)
    ensures
        s@ == tts_label(c),
{
    match c {
        TtsChoice::Off => "Off",
        TtsChoice::OpenAi => "OpenAI",
        TtsChoice::Local => "Local Piper",
        TtsChoice::OpenAiCompatible => "OpenAI-compatible",
        TtsChoice::Voicebox => "Voicebox",
    }
}

/// `p` pushed when `b` holds.
pub open spec fn push_if(parts: Seq<Seq<char>>, b: bool, p: Seq<char>) -> Seq<Seq<char>> {
    if b {
        parts.push(p)
    } else {
        parts
    }
}

/// `parts`, or `[fallback]` when it is empty.
pub open spec fn or_single(parts: Seq<Seq<char>>, fallback: Seq<char>) -> Seq<Seq<char>> {
    if parts.len() == 0 {
        seq![fallback]
    } else {
        parts
    }
}

/// Bytes of the Voicebox profile id shown: eight, or all when fewer.
pub open spec fn profile_cut(s: WizardSummary) -> int {
    let n = encode_utf8(s.voicebox_profile_id@).len();
    if n < 8 { n as int } else { 8 }
}

/// The voice summary's parts: STT and TTS, then the Voicebox profile (its
/// first eight chars) and engine when Voicebox speaks and they are set.
pub open spec fn voice_parts(s: WizardSummary) -> Seq<Seq<char>> {
    let vb = s.tts == TtsChoice::Voicebox;
    let base = seq!["STT: "@ + stt_label(s.stt), "TTS: "@ + tts_label(s.tts)];
    let p = s.voicebox_profile_id@;
    let with_profile = push_if(base, vb && p.len() > 0, "Profile: "@ + p.take(char_index_of(p, profile_cut(s))));
    push_if(with_profile, vb && s.voicebox_engine@.len() > 0, "Engine: "@ + s.voicebox_engine@)
}

pub open spec fn image_parts(s: WizardSummary) -> Seq<Seq<char>> {
    or_single(
        push_if(push_if(Seq::empty(), s.image_vision, "Vision: ON"@), s.image_generation, "Generation: ON"@),
        "Image: OFF"@,
    )
}

pub open spec fn channel_parts(s: WizardSummary) -> Seq<Seq<char>> {
    let a = push_if(Seq::empty(), s.telegram, "Telegram"@);
    let b = push_if(a, s.discord, "Discord"@);
    let c = push_if(b, s.whatsapp, "WhatsApp"@);
    let d = push_if(c, s.slack, "Slack"@);
    or_single(push_if(d, s.trello, "Trello"@), "All channels OFF"@)
}

/// The note shown after a quick-jump step was saved, and whether the
/// agent has to be rebuilt (the provider step changed the model).
pub open spec fn quick_jump_note(step: OnboardStep, s: WizardSummary) -> (Seq<char>, bool) {
    match step {
        OnboardStep::ProviderAuth => (
            "[Model changed to "@ + s.provider_name@ + "/"@ + s.model_name@ + "]"@,
            true,
        ),
        OnboardStep::VoiceSetup => ("Voice settings saved — "@ + join_with(voice_parts(s), " | "@), false),
        OnboardStep::ImageSetup => ("Image settings saved — "@ + join_with(image_parts(s), " | "@), false),
        OnboardStep::Channels => ("Channels saved — "@ + join_with(channel_parts(s), ", "@), false),
        _ => ("Settings saved."@, false),
    }
}

/// The pieces joined with `sep` between them.
fn join_strs(parts: &Vec<String>, sep: &str) -> (r: String)
    ensures
        r@ == join_with(strings_view(parts@), sep@),
{
    let mut out: Vec<char> = Vec::new();
    let mut i: usize = 0;
    let ghost pv = strings_view(parts@);
    assert(pv.take(0) =~= Seq::<Seq<char>>::empty());
    while i < parts.len()
        invariant
            i <= parts@.len(),
            pv == strings_view(parts@),
            out@ == join_with(pv.take(i as int), sep@),
        decreases parts@.len() - i,
    {
        proof {
            lemma_join_push(pv.take(i as int), pv[i as int], sep@);
            assert(pv.take(i as int + 1) =~= pv.take(i as int).push(pv[i as int]));
        }
        if i > 0 {
            push_chars(&mut out, &str_chars(sep));
        }
        push_chars(&mut out, &str_chars(parts[i].as_str()));
        i += 1;
    }
    assert(pv.take(parts@.len() as int) =~= pv);
    string_from_chars(&out)
}

fn concat(a: &str, b: &str) -> (r: String)
    ensures
        r@ == a@ + b@,
{
    let mut out = str_chars(a);
    push_chars(&mut out, &str_chars(b));
    string_from_chars(&out)
}

/// The note shown after a quick-jump step of the wizard was saved, and
/// whether the agent must be rebuilt for it (see `quick_jump_note`). The
/// Voicebox profile id is cut after eight bytes, which must end a char.
pub fn quick_jump_saved_note(step: OnboardStep, s: &WizardSummary) -> (r: (String, bool))
    requires
        step == OnboardStep::VoiceSetup && s.tts == TtsChoice::Voicebox ==> is_char_boundary(
            encode_utf8(s.voicebox_profile_id@),
            profile_cut(*s),
        ),
    ensures
        (r.0@, r.1) == quick_jump_note(step, *s),
{
    proof {
        reveal_strlit("Voice settings saved — ");
        reveal_strlit("Image settings saved — ");
        reveal_strlit("Channels saved — ");
    }
    match step {
        OnboardStep::ProviderAuth => {
            let mut out = str_chars("[Model changed to ");
            push_chars(&mut out, &str_chars(s.provider_name.as_str()));
            push_chars(&mut out, &str_chars("/"));
            push_chars(&mut out, &str_chars(s.model_name.as_str()));
            push_chars(&mut out, &str_chars("]"));
            (string_from_chars(&out), true)
        },
        OnboardStep::VoiceSetup => {
            let mut parts: Vec<String> = Vec::new();
            parts.push(concat("STT: ", stt_name(s.stt)));
            parts.push(concat("TTS: ", tts_name(s.tts)));
            let vb = s.tts == TtsChoice::Voicebox;
            let ghost v0 = strings_view(parts@);
            assert(v0 =~= seq!["STT: "@ + stt_label(s.stt), "TTS: "@ + tts_label(s.tts)]);
            if vb && str_chars(s.voicebox_profile_id.as_str()).len() > 0 {
                let ghost before = parts@;
                parts.push(concat("Profile: ", short_sha(s.voicebox_profile_id.as_str()).as_str()));
                assert(strings_view(parts@) =~= strings_view(before).push(parts@.last()@));
            }
            if vb && str_chars(s.voicebox_engine.as_str()).len() > 0 {
                let ghost before = parts@;
                parts.push(concat("Engine: ", s.voicebox_engine.as_str()));
                assert(strings_view(parts@) =~= strings_view(before).push(parts@.last()@));
            }
            assert(strings_view(parts@) == voice_parts(*s));
            (concat("Voice settings saved — ", join_strs(&parts, " | ").as_str()), false)
        },
        OnboardStep::ImageSetup => {
            let mut parts: Vec<String> = Vec::new();
            assert(strings_view(parts@) =~= Seq::<Seq<char>>::empty());
            if s.image_vision {
                parts.push(string_from_chars(&str_chars("Vision: ON")));
                assert(strings_view(parts@) =~= seq!["Vision: ON"@]);
            }
            if s.image_generation {
                let ghost before = parts@;
                parts.push(string_from_chars(&str_chars("Generation: ON")));
                assert(strings_view(parts@) =~= strings_view(before).push("Generation: ON"@));
            }
            if parts.len() == 0 {
                parts.push(string_from_chars(&str_chars("Image: OFF")));
                assert(strings_view(parts@) =~= seq!["Image: OFF"@]);
            }
            assert(strings_view(parts@) == image_parts(*s));
            (concat("Image settings saved — ", join_strs(&parts, " | ").as_str()), false)
        },
        OnboardStep::Channels => {
            let mut parts: Vec<String> = Vec::new();
            let ghost p0 = strings_view(parts@);
            assert(p0 =~= Seq::<Seq<char>>::empty());
            push_named(&mut parts, s.telegram, "Telegram");
            push_named(&mut parts, s.discord, "Discord");
            push_named(&mut parts, s.whatsapp, "WhatsApp");
            push_named(&mut parts, s.slack, "Slack");
            push_named(&mut parts, s.trello, "Trello");
            if parts.len() == 0 {
                parts.push(string_from_chars(&str_chars("All channels OFF")));
                assert(strings_view(parts@) =~= seq!["All channels OFF"@]);
            }
            assert(strings_view(parts@) == channel_parts(*s));
            (concat("Channels saved — ", join_strs(&parts, ", ").as_str()), false)
        },
        _ => (string_from_chars(&str_chars("Settings saved.")), false),
    }
}

fn push_named(parts: &mut Vec<String>, b: bool, name: &str)
    ensures
        strings_view(final(parts)@) == push_if(strings_view(old(parts)@), b, name@),
{
    if b {
        let ghost before = parts@;
        parts.push(string_from_chars(&str_chars(name)));
        assert(strings_view(parts@) =~= strings_view(before).push(name@));
    }
}

/// The note shown when the whole setup was saved.
pub fn setup_complete_note(provider_name: &str, model_name: &str) -> (r: String)
    ensures
        r@ == "Setup complete! Provider: "@ + provider_name@ + " | Model: "@ + model_name@,
{
    let mut out = str_chars("Setup complete! Provider: ");
    push_chars(&mut out, &str_chars(provider_name));
    push_chars(&mut out, &str_chars(" | Model: "));
    push_chars(&mut out, &str_chars(model_name));
    string_from_chars(&out)
}

} // verus!
