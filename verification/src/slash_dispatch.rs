//! What a submitted slash command does: the built-in commands, the
//! onboarding deep links, and the user-defined commands. The caller
//! performs the action (open a screen, send an event, show a message).

use vstd::prelude::*;
use crate::catalog::UserCommand;
use crate::text::{chars_eq, chars_start_with, push_chars, seq_starts_with, str_chars, string_from_chars, trim_start_chars, trim_start_ws};
use crate::unicode::{char_is_whitespace, is_whitespace_char};

verus! {

/// Step of the onboarding wizard that a deep link opens.
#[derive(Clone, Copy, Debug, PartialEq, Eq, Structural)]
pub enum OnboardStep {
    ModeSelect,
    ProviderAuth,
    Workspace,
    Channels,
    VoiceSetup,
    ImageSetup,
    Daemon,
    HealthCheck,
    BrainSetup,
}

/// What a submitted slash command does.
#[derive(Clone, Copy, Debug, PartialEq, Eq, Structural)]
pub enum SlashAction {
    /// `/models`: open the model selector.
    OpenModels,
    /// `/usage`: open the usage dashboard.
    OpenUsage,
    /// `/onboard[:step]` or `/doctor`: open the wizard on this step.
    Onboard(OnboardStep),
    /// `/new`: start a new session.
    NewSession,
    /// `/sessions`: show the sessions screen.
    Sessions,
    /// `/approve`: show the approval-policy menu.
    ApproveMenu,
    /// `/compact`: ask the agent to compact its context.
    Compact,
    /// `/rebuild`: build from source.
    Rebuild,
    /// `/evolve`: check for updates.
    Evolve,
    /// `/whisper`: set up voice input.
    Whisper,
    /// `/help`: show the help screen.
    Help,
    /// `/cd`: open the directory picker.
    ChangeDirectory,
    /// A user command of action `system`: show its prompt (the command's
    /// position in the list).
    UserSystemMessage(usize),
    /// Any other user command: send its prompt to the agent.
    UserPrompt(usize),
    /// An unknown command: say so.
    Unknown,
    /// Not a slash command: the input goes to the agent as typed.
    NotHandled,
}

/// Leading non-whitespace chars of `s`.
pub open spec fn word_prefix(s: Seq<char>) -> Seq<char>
    decreases s.len(),
{
    if s.len() > 0 && !is_whitespace_char(s[0]) {
        seq![s[0]] + word_prefix(s.drop_first())
    } else {
        Seq::empty()
    }
}

/// The first whitespace-separated word of `s` (empty when there is none).
pub open spec fn first_word(s: Seq<char>) -> Seq<char> {
    word_prefix(trim_start_ws(s))
}

/// `s` without its leading colons.
pub open spec fn trim_colons(s: Seq<char>) -> Seq<char>
    decreases s.len(),
{
    if s.len() > 0 && s[0] == ':' {
        trim_colons(s.drop_first())
    } else {
        s
    }
}

/// The wizard step named by an onboarding link's suffix; an unknown or
/// missing one opens the full wizard.
pub open spec fn onboard_step_spec(suffix: Seq<char>) -> OnboardStep {
    if suffix == "provider"@ {
        OnboardStep::ProviderAuth
    } else if suffix == "workspace"@ {
        OnboardStep::Workspace
    } else if suffix == "channels"@ {
        OnboardStep::Channels
    } else if suffix == "voice"@ {
        OnboardStep::VoiceSetup
    } else if suffix == "image"@ {
        OnboardStep::ImageSetup
    } else if suffix == "daemon"@ {
        OnboardStep::Daemon
    } else if suffix == "health"@ {
        OnboardStep::HealthCheck
    } else if suffix == "brain"@ {
        OnboardStep::BrainSetup
    } else {
        OnboardStep::ModeSelect
    }
}

/// Position of the first user command named `cmd`, from position `i` on.
pub open spec fn find_user_command(users: Seq<UserCommand>, cmd: Seq<char>, i: int) -> Option<int>
    decreases users.len() - i,
{
    if i < 0 || i >= users.len() {
        None
    } else if users[i].name@ == cmd {
        Some(i)
    } else {
        find_user_command(users, cmd, i + 1)
    }
}

/// What the submitted `input` does, given the user commands.
pub open spec fn slash_action_spec(input: Seq<char>, users: Seq<UserCommand>) -> SlashAction {
    let cmd = first_word(input);
    if cmd == "/models"@ {
        SlashAction::OpenModels
    } else if cmd == "/usage"@ {
        SlashAction::OpenUsage
    } else if seq_starts_with(cmd, "/onboard"@) || cmd == "/doctor"@ {
        SlashAction::Onboard(
            if cmd == "/doctor"@ {
                OnboardStep::HealthCheck
            } else {
                onboard_step_spec(trim_colons(cmd.skip(8)))
            },
        )
    } else if cmd == "/new"@ {
        SlashAction::NewSession
    } else if cmd == "/sessions"@ {
        SlashAction::Sessions
    } else if cmd == "/approve"@ {
        SlashAction::ApproveMenu
    } else if cmd == "/compact"@ {
        SlashAction::Compact
    } else if cmd == "/rebuild"@ {
        SlashAction::Rebuild
    } else if cmd == "/evolve"@ {
        SlashAction::Evolve
    } else if cmd == "/whisper"@ {
        SlashAction::Whisper
    } else if cmd == "/help"@ {
        SlashAction::Help
    } else if cmd == "/cd"@ {
        SlashAction::ChangeDirectory
    } else if input.len() > 0 && input[0] == '/' {
        match find_user_command(users, cmd, 0) {
            Some(i) => if users[i].action@ == "system"@ {
                SlashAction::UserSystemMessage(i as usize)
            } else {
                SlashAction::UserPrompt(i as usize)
            },
            None => SlashAction::Unknown,
        }
    } else {
        SlashAction::NotHandled
    }
}

/// The first whitespace-separated word of `input`.
pub fn slash_command_word(input: &str) -> (w: String)
    ensures
        w@ == first_word(input@),
{
    let chars = str_chars(input);
    let t = trim_start_chars(&chars);
    let mut n: usize = 0;
    while n < t.len() && !char_is_whitespace(t[n])
        invariant
            n <= t@.len(),
            forall|i: int| 0 <= i < n ==> !is_whitespace_char(t@[i]),
        decreases t@.len() - n,
    {
        n += 1;
    }
    proof {
        lemma_word_prefix(t@, n as int);
    }
    let mut out: Vec<char> = Vec::new();
    let mut i: usize = 0;
    while i < n
        invariant
            i <= n <= t@.len(),
            out@ == t@.take(i as int),
        decreases n - i,
    {
        out.push(t[i]);
        assert(t@.take(i as int + 1) =~= t@.take(i as int).push(t@[i as int]));
        i += 1;
    }
    string_from_chars(&out)
}

proof fn lemma_word_prefix(s: Seq<char>, n: int)
    requires
        0 <= n <= s.len(),
        forall|i: int| 0 <= i < n ==> !is_whitespace_char(s[i]),
        n == s.len() || is_whitespace_char(s[n]),
    ensures
        word_prefix(s) == s.take(n),
    decreases n,
{
    if n > 0 {
        lemma_word_prefix(s.drop_first(), n - 1);
        assert(seq![s[0]] + s.drop_first().take(n - 1) =~= s.take(n));
    } else {
        assert(s.take(0) =~= Seq::<char>::empty());
    }
}

fn trim_colons_exec(s: &[char]) -> (r: Vec<char>)
    ensures
        r@ == trim_colons(s@),
{
    let mut i: usize = 0;
    assert(s@.skip(0) =~= s@);
    while i < s.len() && s[i] == ':'
        invariant
            i <= s@.len(),
            trim_colons(s@.skip(i as int)) == trim_colons(s@),
        decreases s@.len() - i,
    {
        assert(s@.skip(i as int).drop_first() =~= s@.skip(i as int + 1));
        i += 1;
    }
    let mut out: Vec<char> = Vec::new();
    let mut j: usize = i;
    while j < s.len()
        invariant
            i <= j <= s@.len(),
            out@ == s@.subrange(i as int, j as int),
        decreases s@.len() - j,
    {
        out.push(s[j]);
        assert(s@.subrange(i as int, j as int + 1) =~= s@.subrange(i as int, j as int).push(s@[j as int]));
        j += 1;
    }
    assert(out@ =~= s@.skip(i as int));
    out
}

/// The wizard step named by an onboarding link's suffix.
pub fn onboard_step(suffix: &[char]) -> (r: OnboardStep)
    ensures
        r == onboard_step_spec(suffix@),
{
    if chars_eq(suffix, &str_chars("provider")) {
        OnboardStep::ProviderAuth
    } else if chars_eq(suffix, &str_chars("workspace")) {
        OnboardStep::Workspace
    } else if chars_eq(suffix, &str_chars("channels")) {
        OnboardStep::Channels
    } else if chars_eq(suffix, &str_chars("voice")) {
        OnboardStep::VoiceSetup
    } else if chars_eq(suffix, &str_chars("image")) {
        OnboardStep::ImageSetup
    } else if chars_eq(suffix, &str_chars("daemon")) {
        OnboardStep::Daemon
    } else if chars_eq(suffix, &str_chars("health")) {
        OnboardStep::HealthCheck
    } else if chars_eq(suffix, &str_chars("brain")) {
        OnboardStep::BrainSetup
    } else {
        OnboardStep::ModeSelect
    }
}

proof fn lemma_find_user_command(users: Seq<UserCommand>, cmd: Seq<char>, i: int)
    ensures
        find_user_command(users, cmd, i) matches Some(j) ==> 0 <= i <= j < users.len() && users[j].name@ == cmd,
    decreases users.len() - i,
{
    if 0 <= i < users.len() && users[i].name@ != cmd {
        lemma_find_user_command(users, cmd, i + 1);
    }
}

fn find_user(users: &[UserCommand], cmd: &[char]) -> (r: Option<usize>)
    ensures
        match r {
            Some(i) => i < users@.len() && find_user_command(users@, cmd@, 0) == Some(i as int),
            None => find_user_command(users@, cmd@, 0) is None,
        },
{
    proof {
        lemma_find_user_command(users@, cmd@, 0);
    }
    let mut i: usize = 0;
    while i < users.len()
        invariant
            i <= users@.len(),
            find_user_command(users@, cmd@, 0) == find_user_command(users@, cmd@, i as int),
        decreases users@.len() - i,
    {
        let name = str_chars(users[i].name.as_str());
        if chars_eq(&name, cmd) {
            return Some(i);
        }
        i += 1;
    }
    None
}

/// What the submitted `input` does: a built-in command by its first word,
/// an onboarding deep link, a user command (when the input begins with a
/// slash), an unknown command, or no command at all.
pub fn classify_slash_command(input: &str, user_commands: &[UserCommand]) -> (r: SlashAction)
    ensures
        r == slash_action_spec(input@, user_commands@),
{
    let word = slash_command_word(input);
    let cmd = str_chars(word.as_str());
    if chars_eq(&cmd, &str_chars("/models")) {
        SlashAction::OpenModels
    } else if chars_eq(&cmd, &str_chars("/usage")) {
        SlashAction::OpenUsage
    } else if chars_start_with(&cmd, &str_chars("/onboard")) || chars_eq(&cmd, &str_chars("/doctor")) {
        if chars_eq(&cmd, &str_chars("/doctor")) {
            SlashAction::Onboard(OnboardStep::HealthCheck)
        } else {
            proof {
                reveal_strlit("/onboard");
            }
            let mut rest: Vec<char> = Vec::new();
            let mut j: usize = 8;
            while j < cmd.len()
                invariant
                    8 <= cmd@.len(),
                    8 <= j <= cmd@.len(),
                    rest@ == cmd@.subrange(8, j as int),
                decreases cmd@.len() - j,
            {
                rest.push(cmd[j]);
                assert(cmd@.subrange(8, j as int + 1) =~= cmd@.subrange(8, j as int).push(cmd@[j as int]));
                j += 1;
            }
            assert(rest@ =~= cmd@.skip(8));
            let suffix = trim_colons_exec(&rest);
            SlashAction::Onboard(onboard_step(&suffix))
        }
    } else if chars_eq(&cmd, &str_chars("/new")) {
        SlashAction::NewSession
    } else if chars_eq(&cmd, &str_chars("/sessions")) {
        SlashAction::Sessions
    } else if chars_eq(&cmd, &str_chars("/approve")) {
        SlashAction::ApproveMenu
    } else if chars_eq(&cmd, &str_chars("/compact")) {
        SlashAction::Compact
    } else if chars_eq(&cmd, &str_chars("/rebuild")) {
        SlashAction::Rebuild
    } else if chars_eq(&cmd, &str_chars("/evolve")) {
        SlashAction::Evolve
    } else if chars_eq(&cmd, &str_chars("/whisper")) {
        SlashAction::Whisper
    } else if chars_eq(&cmd, &str_chars("/help")) {
        SlashAction::Help
    } else if chars_eq(&cmd, &str_chars("/cd")) {
        SlashAction::ChangeDirectory
    } else {
        let all = str_chars(input);
        if all.len() > 0 && all[0] == '/' {
            match find_user(user_commands, &cmd) {
                Some(i) => {
                    let action = str_chars(user_commands[i].action.as_str());
                    if chars_eq(&action, &str_chars("system")) {
                        SlashAction::UserSystemMessage(i)
                    } else {
                        SlashAction::UserPrompt(i)
                    }
                },
                None => SlashAction::Unknown,
            }
        } else {
            SlashAction::NotHandled
        }
    }
}

/// The notice for an unknown command `cmd`.
pub fn unknown_command_message(cmd: &str) -> (m: String)
    ensures
        m@ == "Unknown command: "@ + cmd@ + ". Type /help for available commands."@,
{
    let mut out = str_chars("Unknown command: ");
    push_chars(&mut out, &str_chars(cmd));
    push_chars(&mut out, &str_chars(". Type /help for available commands."));
    string_from_chars(&out)
}

/// The built-in command words (every `/onboard...` word among them).
pub open spec fn is_builtin_word(cmd: Seq<char>) -> bool {
    ||| cmd == "/models"@
    ||| cmd == "/usage"@
    ||| seq_starts_with(cmd, "/onboard"@)
    ||| cmd == "/doctor"@
    ||| cmd == "/new"@
    ||| cmd == "/sessions"@
    ||| cmd == "/approve"@
    ||| cmd == "/compact"@
    ||| cmd == "/rebuild"@
    ||| cmd == "/evolve"@
    ||| cmd == "/whisper"@
    ||| cmd == "/help"@
    ||| cmd == "/cd"@
}

/// A built-in command word always runs the built-in: no user command of the
/// same name takes its place, and it is never reported unknown.
pub proof fn law_builtins_not_shadowed(input: Seq<char>, users: Seq<UserCommand>)
    requires
        is_builtin_word(first_word(input)),
    ensures
        !(slash_action_spec(input, users) is UserSystemMessage),
        !(slash_action_spec(input, users) is UserPrompt),
        !(slash_action_spec(input, users) is Unknown),
        !(slash_action_spec(input, users) is NotHandled),
{
}

} // verus!
