//! Slash-command autocomplete: the built-in command table, the combined
//! index space over built-ins, user commands and skills, and the ranked
//! filter that the popup shows.

use vstd::prelude::*;
use vstd::utf8::*;
use vstd::multiset::Multiset;
use crate::catalog::{Skill, UserCommand};
use crate::text::{lemma_encode_utf8_len_ge, char_utf8_len, lemma_encode_utf8_take_push, encode_char, encode_chars, str_chars, string_from_chars, seq_starts_with, chars_start_with, chars_eq, chars_contain, trim_start_ws, trim_start_chars, lex_lt, lemma_lex_irreflexive, lemma_lex_transitive, lemma_lex_total, chars_lex_lt};
use crate::unicode::{ascii_lower_char, is_alphanumeric_char, unicode_lowercase, char_is_alphanumeric, str_to_lowercase};
use crate::text::lemma_encode_utf8_concat;

verus! {

/// A built-in slash command: its name and a keyword-rich description that
/// doubles as a search index for synonyms used by other tools.
#[derive(Clone, Copy, Debug)]
pub struct SlashCommand {
    pub name: &'static str,
    pub description: &'static str,
}

/// Number of built-in slash commands.
pub const BUILTIN_COUNT: usize = 25;

/// Name of the built-in command at position `i`.
pub open spec fn builtin_name(i: int) -> Seq<char> {
    if i == 0 {
        "/help"@
    } else if i == 1 {
        "/models"@
    } else if i == 2 {
        "/usage"@
    } else if i == 3 {
        "/onboard"@
    } else if i == 4 {
        "/onboard:provider"@
    } else if i == 5 {
        "/onboard:workspace"@
    } else if i == 6 {
        "/onboard:channels"@
    } else if i == 7 {
        "/onboard:voice"@
    } else if i == 8 {
        "/onboard:image"@
    } else if i == 9 {
        "/onboard:brain"@
    } else if i == 10 {
        "/doctor"@
    } else if i == 11 {
        "/new"@
    } else if i == 12 {
        "/sessions"@
    } else if i == 13 {
        "/approve"@
    } else if i == 14 {
        "/compact"@
    } else if i == 15 {
        "/rebuild"@
    } else if i == 16 {
        "/evolve"@
    } else if i == 17 {
        "/cd"@
    } else if i == 18 {
        "/mission-control"@
    } else if i == 19 {
        "/skills"@
    } else if i == 20 {
        "/rtk"@
    } else if i == 21 {
        "/quit"@
    } else if i == 22 {
        "/statusline"@
    } else if i == 23 {
        "/debug"@
    } else {
        "/export"@
    }
}

/// Description of the built-in command at position `i`.
pub open spec fn builtin_desc(i: int) -> Seq<char> {
    if i == 0 {
        "Show available commands, shortcuts and usage — help, ?, commands, menu"@
    } else if i == 1 {
        "Switch model or AI provider — model, llm, provider, switch, change, /model"@
    } else if i == 2 {
        "Session usage, token count and cost — usage, tokens, cost, stats, /cost, /tokens"@
    } else if i == 3 {
        "Run setup wizard, configure settings and preferences — onboard, setup, config, settings, init, /config, /settings"@
    } else if i == 4 {
        "Set up AI provider, API key, login and auth — provider, apikey, login, auth, /login, /auth"@
    } else if i == 5 {
        "Configure workspace, project and directory settings — workspace, project, folder, directory"@
    } else if i == 6 {
        "Set up Telegram, Slack, Discord, WhatsApp, Trello integrations — channels, integrations, bots, connect"@
    } else if i == 7 {
        "Set up voice, speech-to-text and text-to-speech — voice, stt, tts, speech, audio, mic"@
    } else if i == 8 {
        "Set up image handling, vision and generation — image, vision, picture, photo, generate"@
    } else if i == 9 {
        "Set up brain, persona, system prompt and instructions — brain, persona, prompt, instructions, /agents, /memory"@
    } else if i == 10 {
        "Run connection health check and diagnostics — doctor, health, diagnose, status, check, /status"@
    } else if i == 11 {
        "Start a new session, clear chat and reset context — new, clear, reset, fresh, start over, /clear, /reset"@
    } else if i == 12 {
        "List, resume and switch sessions or chats — sessions, resume, history, conversations, /resume, /session, /chat, /chats, /history"@
    } else if i == 13 {
        "Tool approval and permission policy — approve, permissions, allow, trust, /permissions, /allowed-tools"@
    } else if i == 14 {
        "Compact, summarize and shrink context now — compact, summarize, condense, shrink, /summary"@
    } else if i == 15 {
        "Build and restart from source — rebuild, build, recompile, restart from source"@
    } else if i == 16 {
        "Download latest release, update and upgrade — evolve, update, upgrade, latest, release, /update, /upgrade"@
    } else if i == 17 {
        "Change working directory or folder — cd, directory, folder, path, chdir, cwd"@
    } else if i == 18 {
        "RSI proposals, activity log and schedule — mission control, dashboard, activity, schedule, tasks, jobs"@
    } else if i == 19 {
        "Browse and run loaded skills — skills, commands, prompts, tools, run, /prompts"@
    } else if i == 20 {
        "Show RTK token savings statistics — rtk, tokens, savings, stats, analytics"@
    } else if i == 21 {
        "Exit and quit the app — quit, exit, close, leave, bye, /exit, /q, ctrl+c"@
    } else if i == 22 {
        "Toggle status bar fields"@
    } else if i == 23 {
        "Dump agent internals: system prompt, equipped tools, context usage — debug, inspect, diagnostics, dump, internals, prompt"@
    } else {
        "Export the chat session: copy, save to file, or both — export, save, copy, transcript, download, backup, share"@
    }
}

/// The built-in slash commands, in table order.
#[verifier::rlimit(50)]
pub fn slash_commands() -> (v: Vec<SlashCommand>)
    ensures
        v@.len() == BUILTIN_COUNT,
        forall|i: int|
            0 <= i < BUILTIN_COUNT ==> (#[trigger] v@[i]).name@ == builtin_name(i)
                && v@[i].description@ == builtin_desc(i),
{
    let mut v: Vec<SlashCommand> = Vec::new();
    v.push(SlashCommand {
        name: "/help",
        description: "Show available commands, shortcuts and usage — help, ?, commands, menu",
    });
    v.push(SlashCommand {
        name: "/models",
        description: "Switch model or AI provider — model, llm, provider, switch, change, /model",
    });
    v.push(SlashCommand {
        name: "/usage",
        description: "Session usage, token count and cost — usage, tokens, cost, stats, /cost, /tokens",
    });
    v.push(SlashCommand {
        name: "/onboard",
        description: "Run setup wizard, configure settings and preferences — onboard, setup, config, settings, init, /config, /settings",
    });
    v.push(SlashCommand {
        name: "/onboard:provider",
        description: "Set up AI provider, API key, login and auth — provider, apikey, login, auth, /login, /auth",
    });
    v.push(SlashCommand {
        name: "/onboard:workspace",
        description: "Configure workspace, project and directory settings — workspace, project, folder, directory",
    });
    v.push(SlashCommand {
        name: "/onboard:channels",
        description: "Set up Telegram, Slack, Discord, WhatsApp, Trello integrations — channels, integrations, bots, connect",
    });
    v.push(SlashCommand {
        name: "/onboard:voice",
        description: "Set up voice, speech-to-text and text-to-speech — voice, stt, tts, speech, audio, mic",
    });
    v.push(SlashCommand {
        name: "/onboard:image",
        description: "Set up image handling, vision and generation — image, vision, picture, photo, generate",
    });
    v.push(SlashCommand {
        name: "/onboard:brain",
        description: "Set up brain, persona, system prompt and instructions — brain, persona, prompt, instructions, /agents, /memory",
    });
    v.push(SlashCommand {
        name: "/doctor",
        description: "Run connection health check and diagnostics — doctor, health, diagnose, status, check, /status",
    });
    v.push(SlashCommand {
        name: "/new",
        description: "Start a new session, clear chat and reset context — new, clear, reset, fresh, start over, /clear, /reset",
    });
    v.push(SlashCommand {
        name: "/sessions",
        description: "List, resume and switch sessions or chats — sessions, resume, history, conversations, /resume, /session, /chat, /chats, /history",
    });
    v.push(SlashCommand {
        name: "/approve",
        description: "Tool approval and permission policy — approve, permissions, allow, trust, /permissions, /allowed-tools",
    });
    v.push(SlashCommand {
        name: "/compact",
        description: "Compact, summarize and shrink context now — compact, summarize, condense, shrink, /summary",
    });
    v.push(SlashCommand {
        name: "/rebuild",
        description: "Build and restart from source — rebuild, build, recompile, restart from source",
    });
    v.push(SlashCommand {
        name: "/evolve",
        description: "Download latest release, update and upgrade — evolve, update, upgrade, latest, release, /update, /upgrade",
    });
    v.push(SlashCommand {
        name: "/cd",
        description: "Change working directory or folder — cd, directory, folder, path, chdir, cwd",
    });
    v.push(SlashCommand {
        name: "/mission-control",
        description: "RSI proposals, activity log and schedule — mission control, dashboard, activity, schedule, tasks, jobs",
    });
    v.push(SlashCommand {
        name: "/skills",
        description: "Browse and run loaded skills — skills, commands, prompts, tools, run, /prompts",
    });
    v.push(SlashCommand {
        name: "/rtk",
        description: "Show RTK token savings statistics — rtk, tokens, savings, stats, analytics",
    });
    v.push(SlashCommand {
        name: "/quit",
        description: "Exit and quit the app — quit, exit, close, leave, bye, /exit, /q, ctrl+c",
    });
    v.push(SlashCommand {
        name: "/statusline",
        description: "Toggle status bar fields",
    });
    v.push(SlashCommand {
        name: "/debug",
        description: "Dump agent internals: system prompt, equipped tools, context usage — debug, inspect, diagnostics, dump, internals, prompt",
    });
    v.push(SlashCommand {
        name: "/export",
        description: "Export the chat session: copy, save to file, or both — export, save, copy, transcript, download, backup, share",
    });
    v
}

/// End (exclusive) of the run of alphanumeric chars that starts at `i`.
pub open spec fn word_end(hay: Seq<char>, i: int) -> int
    decreases hay.len() - i,
{
    if i < 0 || i >= hay.len() || !is_alphanumeric_char(hay[i]) {
        i
    } else {
        word_end(hay, i + 1)
    }
}

/// Position `i` begins a piece of `hay` split on non-alphanumeric chars.
pub open spec fn is_word_start(hay: Seq<char>, i: int) -> bool {
    0 <= i <= hay.len() && (i == 0 || !is_alphanumeric_char(hay[i - 1]))
}

/// ASCII lower-casing of one byte.
pub open spec fn ascii_lower_byte(b: u8) -> u8 {
    if 65 <= b <= 90 {
        (b + 32) as u8
    } else {
        b
    }
}

/// `q` is a prefix of `w`, bytes compared ASCII-case-insensitively.
pub open spec fn bytes_prefix_ignore_ascii_case(w: Seq<u8>, q: Seq<u8>) -> bool {
    q.len() <= w.len() && forall|k: int|
        0 <= k < q.len() ==> ascii_lower_byte(#[trigger] w[k]) == ascii_lower_byte(q[k])
}

/// `query` is an ASCII-case-insensitive byte prefix of some word of
/// `haystack`, words being the pieces between non-alphanumeric chars.
pub open spec fn word_prefix_match_spec(hay: Seq<char>, q: Seq<char>) -> bool {
    exists|i: int|
        #![trigger is_word_start(hay, i)]
        is_word_start(hay, i) && bytes_prefix_ignore_ascii_case(
            encode_utf8(hay.subrange(i, word_end(hay, i))),
            encode_utf8(q),
        )
}

fn lower_byte(b: u8) -> (r: u8)
    ensures
        r == ascii_lower_byte(b),
{
    if b >= 65 && b <= 90 {
        b + 32
    } else {
        b
    }
}

fn prefix_ignore_ascii_case(w: &[u8], q: &[u8]) -> (r: bool)
    ensures
        r == bytes_prefix_ignore_ascii_case(w@, q@),
{
    if q.len() > w.len() {
        return false;
    }
    let mut k: usize = 0;
    while k < q.len()
        invariant
            q@.len() <= w@.len(),
            k <= q@.len(),
            forall|j: int| 0 <= j < k ==> ascii_lower_byte(#[trigger] w@[j]) == ascii_lower_byte(q@[j]),
        decreases q@.len() - k,
    {
        if lower_byte(w[k]) != lower_byte(q[k]) {
            return false;
        }
        k += 1;
    }
    true
}

/// Checks the word beginning at `i` against the query bytes.
fn word_at_matches(hay: &[char], i: usize, q: &[u8]) -> (r: bool)
    requires
        i <= hay@.len(),
    ensures
        r == bytes_prefix_ignore_ascii_case(
            encode_utf8(hay@.subrange(i as int, word_end(hay@, i as int))),
            q@,
        ),
{
    let n = hay.len();
    let mut j: usize = i;
    let mut wb: Vec<u8> = Vec::new();
    assert(hay@.subrange(i as int, i as int) =~= Seq::<char>::empty());
    assert(encode_utf8(Seq::<char>::empty()) =~= Seq::<u8>::empty());
    while j < n && char_is_alphanumeric(hay[j])
        invariant
            n == hay@.len(),
            i <= j <= n,
            word_end(hay@, i as int) == word_end(hay@, j as int),
            wb@ == encode_utf8(hay@.subrange(i as int, j as int)),
        decreases n - j,
    {
        let mut b = encode_char(hay[j]);
        proof {
            let sub = hay@.subrange(i as int, j as int + 1);
            lemma_encode_utf8_take_push(sub, j - i);
            assert(sub.take(j - i) =~= hay@.subrange(i as int, j as int));
            assert(sub.take(j - i + 1) =~= sub);
        }
        wb.append(&mut b);
        j += 1;
    }
    assert(word_end(hay@, j as int) == j as int);
    prefix_ignore_ascii_case(&wb, q)
}

fn word_prefix_match_chars(hay: &[char], q: &[u8]) -> (r: bool)
    ensures
        r == exists|i: int|
            #![trigger is_word_start(hay@, i)]
            is_word_start(hay@, i) && bytes_prefix_ignore_ascii_case(
                encode_utf8(hay@.subrange(i, word_end(hay@, i))),
                q@,
            ),
{
    let n = hay.len();
    let mut i: usize = 0;
    let mut at_start = true;
    while i < n
        invariant
            n == hay@.len(),
            i <= n,
            at_start == is_word_start(hay@, i as int),
            forall|j: int|
                #![trigger is_word_start(hay@, j)]
                0 <= j < i && is_word_start(hay@, j) ==> !bytes_prefix_ignore_ascii_case(
                    encode_utf8(hay@.subrange(j, word_end(hay@, j))),
                    q@,
                ),
        decreases n - i,
    {
        if at_start && word_at_matches(hay, i, q) {
            assert(is_word_start(hay@, i as int));
            return true;
        }
        at_start = !char_is_alphanumeric(hay[i]);
        i += 1;
    }
    if at_start && word_at_matches(hay, i, q) {
        assert(is_word_start(hay@, i as int));
        return true;
    }
    proof {
        assert forall|j: int|
            #![trigger is_word_start(hay@, j)]
            is_word_start(hay@, j) implies !bytes_prefix_ignore_ascii_case(
                encode_utf8(hay@.subrange(j, word_end(hay@, j))),
                q@,
            ) by {
            if j == n {
            }
        }
    }
    false
}

/// True if `query` is a prefix of any word of `haystack` (words split on
/// non-alphanumeric chars), compared ASCII-case-insensitively byte by byte.
pub fn word_prefix_match(haystack: &str, query: &str) -> (r: bool)
    ensures
        r == word_prefix_match_spec(haystack@, query@),
{
    let hay = str_chars(haystack);
    let q = query.as_bytes();
    word_prefix_match_chars(&hay, q)
}

/// The empty query matches every haystack.
pub proof fn law_empty_query_matches(hay: Seq<char>)
    ensures
        word_prefix_match_spec(hay, Seq::empty()),
{
    assert(encode_utf8(Seq::<char>::empty()) =~= Seq::<u8>::empty());
    assert(is_word_start(hay, 0));
    assert(bytes_prefix_ignore_ascii_case(
        encode_utf8(hay.subrange(0, word_end(hay, 0))),
        encode_utf8(Seq::<char>::empty()),
    ));
}

/// A query that matches keeps matching when cut down to any of its
/// prefixes.
pub proof fn law_match_keeps_for_query_prefix(hay: Seq<char>, q: Seq<char>, k: int)
    requires
        0 <= k <= q.len(),
        word_prefix_match_spec(hay, q),
    ensures
        word_prefix_match_spec(hay, q.take(k)),
{
    let i = choose|i: int|
        #![trigger is_word_start(hay, i)]
        is_word_start(hay, i) && bytes_prefix_ignore_ascii_case(
            encode_utf8(hay.subrange(i, word_end(hay, i))),
            encode_utf8(q),
        );
    let w = encode_utf8(hay.subrange(i, word_end(hay, i)));
    lemma_encode_utf8_concat(q.take(k), q.skip(k));
    assert(q.take(k) + q.skip(k) =~= q);
    let p = encode_utf8(q.take(k));
    assert forall|m: int| 0 <= m < p.len() implies ascii_lower_byte(#[trigger] w[m])
        == ascii_lower_byte(p[m]) by {
        assert(encode_utf8(q)[m] == p[m]);
    }
    assert(bytes_prefix_ignore_ascii_case(w, p));
}

/// `q` with its ASCII letters lower-cased (`str::to_ascii_lowercase`).
pub open spec fn ascii_lowercase_chars(q: Seq<char>) -> Seq<char> {
    q.map_values(|c: char| ascii_lower_char(c))
}

proof fn lemma_ascii_lower_scalar(c: char)
    ensures
        encode_scalar(ascii_lower_char(c) as u32).len() == encode_scalar(c as u32).len(),
        forall|m: int|
            0 <= m < encode_scalar(c as u32).len() ==> ascii_lower_byte(
                #[trigger] encode_scalar(ascii_lower_char(c) as u32)[m],
            ) == ascii_lower_byte(encode_scalar(c as u32)[m]),
{
    if 'A' <= c && c <= 'Z' {
        let v = c as u32;
        let lv = ascii_lower_char(c) as u32;
        assert(lv == v + 32);
        assert((v & 0x7F) as u8 == v) by (bit_vector)
            requires
                65 <= v <= 90,
        ;
        assert(((v + 32) as u32 & 0x7F) as u8 == v + 32) by (bit_vector)
            requires
                65 <= v <= 90,
        ;
    }
}

proof fn lemma_ascii_lower_encoding(q: Seq<char>)
    ensures
        encode_utf8(ascii_lowercase_chars(q)).len() == encode_utf8(q).len(),
        forall|m: int|
            0 <= m < encode_utf8(q).len() ==> ascii_lower_byte(
                #[trigger] encode_utf8(ascii_lowercase_chars(q))[m],
            ) == ascii_lower_byte(encode_utf8(q)[m]),
    decreases q.len(),
{
    let lq = ascii_lowercase_chars(q);
    if q.len() > 0 {
        assert(lq.drop_first() =~= ascii_lowercase_chars(q.drop_first()));
        assert(lq[0] == ascii_lower_char(q[0]));
        lemma_ascii_lower_encoding(q.drop_first());
        lemma_ascii_lower_scalar(q[0]);
        let a = encode_scalar(q[0] as u32);
        let la = encode_scalar(lq[0] as u32);
        let b = encode_utf8(q.drop_first());
        let lb = encode_utf8(lq.drop_first());
        assert(encode_utf8(q) == a + b);
        assert(encode_utf8(lq) == la + lb);
        assert forall|m: int| 0 <= m < encode_utf8(q).len() implies ascii_lower_byte(
            #[trigger] encode_utf8(lq)[m],
        ) == ascii_lower_byte(encode_utf8(q)[m]) by {
            if m < a.len() {
                assert(la[m] == encode_utf8(lq)[m]);
            } else {
                assert(lb[m - a.len()] == encode_utf8(lq)[m]);
                assert(b[m - a.len()] == encode_utf8(q)[m]);
            }
        }
    } else {
        assert(lq.len() == 0);
    }
}

/// `h` with its ASCII letters upper-cased (`str::to_ascii_uppercase`).
pub open spec fn ascii_uppercase_chars(h: Seq<char>) -> Seq<char> {
    h.map_values(
        |c: char|
            if 'a' <= c && c <= 'z' {
                ((c as u32) - 32) as char
            } else {
                c
            },
    )
}

/// `a` and `b` differ at most in the ASCII case of their letters.
pub open spec fn same_but_ascii_case(a: Seq<char>, b: Seq<char>) -> bool {
    a.len() == b.len() && forall|k: int|
        0 <= k < a.len() ==> ascii_lower_char(#[trigger] a[k]) == ascii_lower_char(b[k])
}

proof fn lemma_case_pair_scalar(c: char, d: char)
    requires
        ascii_lower_char(c) == ascii_lower_char(d),
    ensures
        encode_scalar(c as u32).len() == encode_scalar(d as u32).len(),
        forall|m: int|
            0 <= m < encode_scalar(c as u32).len() ==> ascii_lower_byte(
                #[trigger] encode_scalar(c as u32)[m],
            ) == ascii_lower_byte(encode_scalar(d as u32)[m]),
        is_alphanumeric_char(c) == is_alphanumeric_char(d),
{
    if c != d {
        let v = c as u32;
        let w = d as u32;
        if 'A' <= c && c <= 'Z' {
            assert(w == v + 32);
        } else {
            assert('A' <= d && d <= 'Z');
            assert(v == w + 32);
        }
        assert((v & 0x7F) as u8 == v) by (bit_vector)
            requires
                v < 128,
        ;
        assert((w & 0x7F) as u8 == w) by (bit_vector)
            requires
                w < 128,
        ;
    }
}

proof fn lemma_case_pair_encoding(a: Seq<char>, b: Seq<char>)
    requires
        same_but_ascii_case(a, b),
    ensures
        encode_utf8(a).len() == encode_utf8(b).len(),
        forall|m: int|
            0 <= m < encode_utf8(a).len() ==> ascii_lower_byte(#[trigger] encode_utf8(a)[m])
                == ascii_lower_byte(encode_utf8(b)[m]),
    decreases a.len(),
{
    if a.len() > 0 {
        assert(ascii_lower_char(a[0]) == ascii_lower_char(b[0]));
        assert forall|k: int| 0 <= k < a.drop_first().len() implies ascii_lower_char(
            #[trigger] a.drop_first()[k],
        ) == ascii_lower_char(b.drop_first()[k]) by {
            assert(ascii_lower_char(a[k + 1]) == ascii_lower_char(b[k + 1]));
        }
        lemma_case_pair_encoding(a.drop_first(), b.drop_first());
        lemma_case_pair_scalar(a[0], b[0]);
        let x = encode_scalar(a[0] as u32);
        let y = encode_scalar(b[0] as u32);
        let xr = encode_utf8(a.drop_first());
        let yr = encode_utf8(b.drop_first());
        assert(encode_utf8(a) == x + xr);
        assert(encode_utf8(b) == y + yr);
        assert forall|m: int| 0 <= m < encode_utf8(a).len() implies ascii_lower_byte(
            #[trigger] encode_utf8(a)[m],
        ) == ascii_lower_byte(encode_utf8(b)[m]) by {
            if m < x.len() {
                assert(x[m] == encode_utf8(a)[m]);
                assert(y[m] == encode_utf8(b)[m]);
            } else {
                assert(xr[m - x.len()] == encode_utf8(a)[m]);
                assert(yr[m - x.len()] == encode_utf8(b)[m]);
            }
        }
    }
}

proof fn lemma_word_end_bounds(hay: Seq<char>, i: int)
    requires
        0 <= i <= hay.len(),
    ensures
        i <= word_end(hay, i) <= hay.len(),
    decreases hay.len() - i,
{
    if i < hay.len() && is_alphanumeric_char(hay[i]) {
        lemma_word_end_bounds(hay, i + 1);
    }
}

proof fn lemma_case_pair_word_end(a: Seq<char>, b: Seq<char>, i: int)
    requires
        same_but_ascii_case(a, b),
    ensures
        word_end(a, i) == word_end(b, i),
    decreases a.len() - i,
{
    if 0 <= i < a.len() {
        assert(ascii_lower_char(a[i]) == ascii_lower_char(b[i]));
        lemma_case_pair_scalar(a[i], b[i]);
        lemma_case_pair_word_end(a, b, i + 1);
    }
}

/// The haystack's ASCII case does not matter: a query matches a text
/// exactly when it matches the text with its ASCII letters upper-cased.
pub proof fn law_haystack_ascii_case_ignored(hay: Seq<char>, q: Seq<char>)
    ensures
        word_prefix_match_spec(hay, q) == word_prefix_match_spec(ascii_uppercase_chars(hay), q),
{
    let up = ascii_uppercase_chars(hay);
    assert forall|k: int| 0 <= k < hay.len() implies ascii_lower_char(#[trigger] hay[k])
        == ascii_lower_char(up[k]) by {
        let c = hay[k];
        if 'a' <= c && c <= 'z' {
            assert(up[k] as u32 == (c as u32) - 32);
        }
    }
    assert(same_but_ascii_case(hay, up));
    let e = encode_utf8(q);
    assert forall|i: int| #[trigger] is_word_start(hay, i) <==> is_word_start(up, i) by {
        if 0 < i <= hay.len() {
            assert(ascii_lower_char(hay[i - 1]) == ascii_lower_char(up[i - 1]));
            lemma_case_pair_scalar(hay[i - 1], up[i - 1]);
        }
    }
    assert forall|i: int| #[trigger] is_word_start(hay, i) implies bytes_prefix_ignore_ascii_case(
        encode_utf8(hay.subrange(i, word_end(hay, i))),
        e,
    ) == bytes_prefix_ignore_ascii_case(encode_utf8(up.subrange(i, word_end(up, i))), e) by {
        lemma_case_pair_word_end(hay, up, i);
        let j = word_end(hay, i);
        lemma_word_end_bounds(hay, i);
        let a = hay.subrange(i, j);
        let b = up.subrange(i, j);
        assert forall|k: int| 0 <= k < a.len() implies ascii_lower_char(#[trigger] a[k])
            == ascii_lower_char(b[k]) by {
            assert(ascii_lower_char(hay[i + k]) == ascii_lower_char(up[i + k]));
        }
        lemma_case_pair_encoding(a, b);
        let wa = encode_utf8(a);
        let wb = encode_utf8(b);
        if bytes_prefix_ignore_ascii_case(wa, e) {
            assert forall|m: int| 0 <= m < e.len() implies ascii_lower_byte(#[trigger] wb[m])
                == ascii_lower_byte(e[m]) by {
                assert(ascii_lower_byte(wa[m]) == ascii_lower_byte(e[m]));
            }
        }
        if bytes_prefix_ignore_ascii_case(wb, e) {
            assert forall|m: int| 0 <= m < e.len() implies ascii_lower_byte(#[trigger] wa[m])
                == ascii_lower_byte(e[m]) by {
                assert(ascii_lower_byte(wb[m]) == ascii_lower_byte(e[m]));
            }
        }
    }
    if word_prefix_match_spec(up, q) {
        let i = choose|i: int|
            #![trigger is_word_start(up, i)]
            is_word_start(up, i) && bytes_prefix_ignore_ascii_case(
                encode_utf8(up.subrange(i, word_end(up, i))),
                e,
            );
        assert(is_word_start(hay, i));
    }
}

/// ASCII case matters on neither side: upper-casing the text and
/// lower-casing the query leaves the answer as it is.
pub proof fn law_ascii_case_ignored(hay: Seq<char>, q: Seq<char>)
    ensures
        word_prefix_match_spec(hay, q) == word_prefix_match_spec(
            ascii_uppercase_chars(hay),
            ascii_lowercase_chars(q),
        ),
{
    law_haystack_ascii_case_ignored(hay, q);
    law_query_ascii_case_ignored(ascii_uppercase_chars(hay), q);
}

/// The query's ASCII case does not matter: a query matches exactly when
/// its ASCII-lower-cased form does.
pub proof fn law_query_ascii_case_ignored(hay: Seq<char>, q: Seq<char>)
    ensures
        word_prefix_match_spec(hay, q) == word_prefix_match_spec(hay, ascii_lowercase_chars(q)),
{
    let lq = ascii_lowercase_chars(q);
    lemma_ascii_lower_encoding(q);
    let e = encode_utf8(q);
    let le = encode_utf8(lq);
    assert forall|i: int| #[trigger] is_word_start(hay, i) implies bytes_prefix_ignore_ascii_case(
        encode_utf8(hay.subrange(i, word_end(hay, i))),
        e,
    ) == bytes_prefix_ignore_ascii_case(encode_utf8(hay.subrange(i, word_end(hay, i))), le) by {
        let w = encode_utf8(hay.subrange(i, word_end(hay, i)));
        if bytes_prefix_ignore_ascii_case(w, e) {
            assert forall|m: int| 0 <= m < le.len() implies ascii_lower_byte(#[trigger] w[m])
                == ascii_lower_byte(le[m]) by {
                assert(ascii_lower_byte(w[m]) == ascii_lower_byte(e[m]));
            }
        }
        if bytes_prefix_ignore_ascii_case(w, le) {
            assert forall|m: int| 0 <= m < e.len() implies ascii_lower_byte(#[trigger] w[m])
                == ascii_lower_byte(e[m]) by {
                assert(ascii_lower_byte(w[m]) == ascii_lower_byte(le[m]));
            }
        }
    }
}

/// Number of entries in the combined index space.
pub open spec fn entry_count(users: Seq<UserCommand>, skills: Seq<Skill>) -> int {
    BUILTIN_COUNT + users.len() + skills.len()
}

/// Name at a combined index: built-ins, then user commands, then skills.
pub open spec fn entry_name(i: int, users: Seq<UserCommand>, skills: Seq<Skill>) -> Seq<char> {
    if i < BUILTIN_COUNT {
        builtin_name(i)
    } else if i < BUILTIN_COUNT + users.len() {
        users[i - BUILTIN_COUNT].name@
    } else {
        skills[i - BUILTIN_COUNT - users.len()].slash_name@
    }
}

/// Description at a combined index.
pub open spec fn entry_desc(i: int, users: Seq<UserCommand>, skills: Seq<Skill>) -> Seq<char> {
    if i < BUILTIN_COUNT {
        builtin_desc(i)
    } else if i < BUILTIN_COUNT + users.len() {
        users[i - BUILTIN_COUNT].description@
    } else {
        skills[i - BUILTIN_COUNT - users.len()].description@
    }
}

/// Resolve a combined autocomplete index into the command name it points at
/// (`None` when out of range).
pub fn slash_name_at<'a>(idx: usize, user_commands: &'a [UserCommand], skills: &'a [Skill]) -> (r:
    Option<&'a str>)
    ensures
        r is Some <==> idx < entry_count(user_commands@, skills@),
        r matches Some(s) ==> s@ == entry_name(idx as int, user_commands@, skills@),
{
    let base_user = BUILTIN_COUNT;
    if idx < base_user {
        let t = slash_commands();
        return Some(t[idx].name);
    }
    let k = idx - base_user;
    if k < user_commands.len() {
        return Some(user_commands[k].name.as_str());
    }
    let m = k - user_commands.len();
    if m < skills.len() {
        Some(skills[m].slash_name.as_str())
    } else {
        None
    }
}

/// Description of the command at a combined index (`None` when out of range).
pub fn slash_command_description<'a>(
    index: usize,
    user_commands: &'a [UserCommand],
    skills: &'a [Skill],
) -> (r: Option<&'a str>)
    ensures
        r is Some <==> index < entry_count(user_commands@, skills@),
        r matches Some(s) ==> s@ == entry_desc(index as int, user_commands@, skills@),
{
    if index < BUILTIN_COUNT {
        let t = slash_commands();
        return Some(t[index].description);
    }
    let k = index - BUILTIN_COUNT;
    if k < user_commands.len() {
        return Some(user_commands[k].description.as_str());
    }
    let m = k - user_commands.len();
    if m < skills.len() {
        Some(skills[m].description.as_str())
    } else {
        None
    }
}

/// `s` without its leading `/` chars (`str::trim_start_matches('/')`).
pub open spec fn strip_leading_slashes(s: Seq<char>) -> Seq<char>
    decreases s.len(),
{
    if s.len() > 0 && s[0] == '/' {
        strip_leading_slashes(s.drop_first())
    } else {
        s
    }
}

/// The autocomplete input: the buffer with leading whitespace removed.
pub open spec fn slash_input(input: Seq<char>) -> Seq<char> {
    trim_start_ws(input)
}

/// The input is a single slash word: starts with `/`, holds no space.
pub open spec fn slash_query_ok(input: Seq<char>) -> bool {
    let q = slash_input(input);
    q.len() > 0 && q[0] == '/' && !q.contains(' ')
}

/// The lower-cased query the command names are matched against.
pub open spec fn slash_prefix(input: Seq<char>) -> Seq<char> {
    unicode_lowercase(slash_input(input))
}

/// The query descriptions are matched against: the prefix without slashes.
pub open spec fn desc_query(input: Seq<char>) -> Seq<char> {
    strip_leading_slashes(slash_prefix(input))
}

/// Descriptions are searched once at least two bytes follow the slashes.
pub open spec fn desc_search_on(input: Seq<char>) -> bool {
    encode_utf8(desc_query(input)).len() >= 2
}

/// A description matches the input.
pub open spec fn desc_hit(desc: Seq<char>, input: Seq<char>) -> bool {
    desc_search_on(input) && word_prefix_match_spec(desc, desc_query(input))
}

/// `name` is the name of a built-in command.
pub open spec fn shadows_builtin(name: Seq<char>) -> bool {
    exists|b: int| 0 <= b < BUILTIN_COUNT && builtin_name(b) == name
}

/// `name` is the name of a user command.
pub open spec fn shadowed_by_user(name: Seq<char>, users: Seq<UserCommand>) -> bool {
    exists|u: int| 0 <= u < users.len() && users[u].name@ == name
}

/// The entry's name begins with the query (user command and skill names are
/// lower-cased first; built-in names are matched as written).
pub open spec fn name_hit_at(i: int, input: Seq<char>, users: Seq<UserCommand>, skills: Seq<
    Skill,
>) -> bool {
    if i < BUILTIN_COUNT {
        seq_starts_with(builtin_name(i), slash_prefix(input))
    } else {
        seq_starts_with(unicode_lowercase(entry_name(i, users, skills)), slash_prefix(input))
    }
}

/// The entry is offered at all: user commands shadowed by a built-in, and
/// skills shadowed by a built-in or a user command, are skipped.
pub open spec fn candidate_at(i: int, users: Seq<UserCommand>, skills: Seq<Skill>) -> bool {
    if i < BUILTIN_COUNT {
        true
    } else if i < BUILTIN_COUNT + users.len() {
        !shadows_builtin(users[i - BUILTIN_COUNT].name@)
    } else {
        let n = skills[i - BUILTIN_COUNT - users.len()].slash_name@;
        !shadows_builtin(n) && !shadowed_by_user(n, users)
    }
}

/// The entry at combined index `i` is offered for `input`.
pub open spec fn slash_match(i: int, input: Seq<char>, users: Seq<UserCommand>, skills: Seq<
    Skill,
>) -> bool {
    &&& slash_query_ok(input)
    &&& 0 <= i < entry_count(users, skills)
    &&& candidate_at(i, users, skills)
    &&& (name_hit_at(i, input, users, skills) || desc_hit(entry_desc(i, users, skills), input))
}

/// Ranking key order: name hits first, then by name, then by index.
pub open spec fn rank_key_lt(i: int, hi: bool, ni: Seq<char>, j: int, hj: bool, nj: Seq<char>) -> bool {
    (hi && !hj) || (hi == hj && (lex_lt(ni, nj) || (ni == nj && i < j)))
}

/// Entry `i` is listed before entry `j`.
pub open spec fn ranks_before(i: int, j: int, input: Seq<char>, users: Seq<UserCommand>, skills: Seq<
    Skill,
>) -> bool {
    rank_key_lt(
        i,
        name_hit_at(i, input, users, skills),
        entry_name(i, users, skills),
        j,
        name_hit_at(j, input, users, skills),
        entry_name(j, users, skills),
    )
}

/// The ranking order is transitive.
pub proof fn lemma_rank_transitive(
    i: int,
    hi: bool,
    ni: Seq<char>,
    j: int,
    hj: bool,
    nj: Seq<char>,
    k: int,
    hk: bool,
    nk: Seq<char>,
)
    requires
        rank_key_lt(i, hi, ni, j, hj, nj),
        rank_key_lt(j, hj, nj, k, hk, nk),
    ensures
        rank_key_lt(i, hi, ni, k, hk, nk),
{
    if hi == hj && hj == hk {
        if lex_lt(ni, nj) && lex_lt(nj, nk) {
            lemma_lex_transitive(ni, nj, nk);
        }
    }
}

/// Entries with different indices are ranked one way or the other.
pub proof fn lemma_rank_total(i: int, hi: bool, ni: Seq<char>, j: int, hj: bool, nj: Seq<char>)
    requires
        i != j,
    ensures
        rank_key_lt(i, hi, ni, j, hj, nj) || rank_key_lt(j, hj, nj, i, hi, ni),
{
    if ni != nj {
        lemma_lex_total(ni, nj);
    }
}

/// No entry ranks before itself.
pub proof fn lemma_rank_irreflexive(i: int, hi: bool, ni: Seq<char>)
    ensures
        !rank_key_lt(i, hi, ni, i, hi, ni),
{
    lemma_lex_irreflexive(ni);
}

type Ranked = (usize, bool, Vec<char>);

/// The ranking key of a gathered entry.
pub open spec fn ranked_lt(a: (usize, bool, Vec<char>), b: (usize, bool, Vec<char>)) -> bool {
    rank_key_lt(a.0 as int, a.1, a.2@, b.0 as int, b.1, b.2@)
}

fn ranked_before(a: &Ranked, b: &Ranked) -> (r: bool)
    ensures
        r == ranked_lt(*a, *b),
{
    if a.1 && !b.1 {
        true
    } else if a.1 != b.1 {
        false
    } else if chars_lex_lt(&a.2, &b.2) {
        true
    } else if chars_eq(&a.2, &b.2) {
        a.0 < b.0
    } else {
        false
    }
}

/// A sequence strictly sorted by the ranking order.
pub open spec fn ranked_sorted(s: Seq<(usize, bool, Vec<char>)>) -> bool {
    forall|a: int, b: int| 0 <= a < b < s.len() ==> ranked_lt(#[trigger] s[a], #[trigger] s[b])
}

/// Inserting `x` at the first position it ranks before keeps a sorted
/// sequence sorted.
proof fn lemma_insert_ranked(s: Seq<(usize, bool, Vec<char>)>, p: int, x: (usize, bool, Vec<char>))
    requires
        ranked_sorted(s),
        0 <= p <= s.len(),
        forall|q: int| 0 <= q < p ==> !ranked_lt(x, #[trigger] s[q]),
        p < s.len() ==> ranked_lt(x, s[p]),
        forall|q: int| 0 <= q < s.len() ==> (#[trigger] s[q]).0 != x.0,
    ensures
        ranked_sorted(s.insert(p, x)),
{
    let t = s.insert(p, x);
    assert forall|a: int, b: int| 0 <= a < b < t.len() implies ranked_lt(#[trigger] t[a], #[trigger] t[b]) by {
        if b < p {
            assert(t[a] == s[a] && t[b] == s[b]);
        } else if a > p {
            assert(t[a] == s[a - 1] && t[b] == s[b - 1]);
        } else if b == p {
            assert(t[a] == s[a] && t[b] == x);
            assert(!ranked_lt(x, s[a]));
            lemma_rank_total(x.0 as int, x.1, x.2@, s[a].0 as int, s[a].1, s[a].2@);
        } else if a == p {
            assert(t[a] == x && t[b] == s[b - 1]);
            if b - 1 > p {
                assert(ranked_lt(s[p], s[b - 1]));
                lemma_rank_transitive(
                    x.0 as int,
                    x.1,
                    x.2@,
                    s[p].0 as int,
                    s[p].1,
                    s[p].2@,
                    s[b - 1].0 as int,
                    s[b - 1].1,
                    s[b - 1].2@,
                );
            }
        } else {
            assert(a < p && p < b);
            assert(t[a] == s[a] && t[b] == s[b - 1]);
        }
    }
}

/// Whether `x` equals one of the names in `list`.
fn name_listed(list: &Vec<Vec<char>>, x: &[char]) -> (r: bool)
    ensures
        r == exists|b: int| 0 <= b < list@.len() && (#[trigger] list@[b])@ == x@,
{
    let mut b: usize = 0;
    while b < list.len()
        invariant
            b <= list@.len(),
            forall|c: int| 0 <= c < b ==> (#[trigger] list@[c])@ != x@,
        decreases list@.len() - b,
    {
        if chars_eq(&list[b], x) {
            return true;
        }
        b += 1;
    }
    false
}

/// Removes leading `/` chars.
fn strip_slashes(v: &[char]) -> (out: Vec<char>)
    ensures
        out@ == strip_leading_slashes(v@),
{
    let mut i: usize = 0;
    assert(v@.skip(0) =~= v@);
    while i < v.len() && v[i] == '/'
        invariant
            i <= v@.len(),
            strip_leading_slashes(v@.skip(i as int)) == strip_leading_slashes(v@),
        decreases v@.len() - i,
    {
        assert(v@.skip(i as int).drop_first() =~= v@.skip(i as int + 1));
        i += 1;
    }
    let mut out: Vec<char> = Vec::new();
    let mut j: usize = i;
    while j < v.len()
        invariant
            i <= j <= v@.len(),
            out@ == v@.subrange(i as int, j as int),
        decreases v@.len() - j,
    {
        out.push(v[j]);
        assert(v@.subrange(i as int, j as int + 1) =~= v@.subrange(i as int, j as int).push(
            v@[j as int],
        ));
        j += 1;
    }
    assert(out@ =~= v@.skip(i as int));
    out
}

/// Whether the UTF-8 encoding of `v` has at least two bytes.
fn utf8_len_at_least_two(v: &[char]) -> (r: bool)
    ensures
        r == (encode_utf8(v@).len() >= 2),
{
    proof {
        lemma_encode_utf8_len_ge(v@);
    }
    if v.len() >= 2 {
        true
    } else if v.len() == 0 {
        false
    } else {
        proof {
            lemma_encode_utf8_take_push(v@, 0);
            assert(v@.take(0) =~= Seq::<char>::empty());
            assert(v@.take(1) =~= v@);
        }
        char_utf8_len(v[0]) >= 2
    }
}

/// A gathered entry carries the facts the ranking needs.
pub open spec fn gathered_ok(
    e: (usize, bool, Vec<char>),
    input: Seq<char>,
    users: Seq<UserCommand>,
    skills: Seq<Skill>,
) -> bool {
    &&& slash_match(e.0 as int, input, users, skills)
    &&& e.1 == name_hit_at(e.0 as int, input, users, skills)
    &&& e.2@ == entry_name(e.0 as int, users, skills)
}

/// Gathered entries: every offered entry below `cur`, in index order.
pub open spec fn gathered_upto(
    m: Seq<(usize, bool, Vec<char>)>,
    cur: int,
    input: Seq<char>,
    users: Seq<UserCommand>,
    skills: Seq<Skill>,
) -> bool {
    &&& forall|k: int|
        0 <= k < m.len() ==> gathered_ok(#[trigger] m[k], input, users, skills) && m[k].0 < cur
    &&& forall|k1: int, k2: int| 0 <= k1 < k2 < m.len() ==> (#[trigger] m[k1]).0 < (#[trigger] m[k2]).0
    &&& forall|i: int|
        0 <= i < cur && #[trigger] slash_match(i, input, users, skills) ==> exists|k: int|
            0 <= k < m.len() && (#[trigger] m[k]).0 == i
}

/// Collects every offered entry, in index order, with its name-hit flag and name.
#[verifier::rlimit(80)]
fn gather_matches(
    prefix: &Vec<char>,
    dq_bytes: &Vec<u8>,
    desc_search: bool,
    user_commands: &[UserCommand],
    skills: &[Skill],
    Ghost(input): Ghost<Seq<char>>,
) -> (m: Vec<Ranked>)
    requires
        slash_query_ok(input),
        prefix@ == slash_prefix(input),
        dq_bytes@ == encode_utf8(desc_query(input)),
        desc_search == desc_search_on(input),
        entry_count(user_commands@, skills@) <= usize::MAX,
    ensures
        gathered_upto(
            m@,
            entry_count(user_commands@, skills@),
            input,
            user_commands@,
            skills@,
        ),
{
    let ghost users = user_commands@;
    let ghost sks = skills@;
    let t = slash_commands();
    let mut matches: Vec<Ranked> = Vec::new();
    let mut bnames: Vec<Vec<char>> = Vec::new();
    let mut i: usize = 0;
    while i < BUILTIN_COUNT
        invariant
            users == user_commands@,
            sks == skills@,
            t@.len() == BUILTIN_COUNT,
            forall|b: int|
                0 <= b < BUILTIN_COUNT ==> (#[trigger] t@[b]).name@ == builtin_name(b)
                    && t@[b].description@ == builtin_desc(b),
            i <= BUILTIN_COUNT,
            bnames@.len() == i,
            forall|b: int| 0 <= b < i ==> (#[trigger] bnames@[b])@ == builtin_name(b),
            slash_query_ok(input),
            prefix@ == slash_prefix(input),
            dq_bytes@ == encode_utf8(desc_query(input)),
            desc_search == desc_search_on(input),
            gathered_upto(matches@, i as int, input, users, sks),
        decreases BUILTIN_COUNT - i,
    {
        let nm = str_chars(t[i].name);
        let hit = chars_start_with(&nm, prefix);
        let mut dh = false;
        if !hit && desc_search {
            let d = str_chars(t[i].description);
            dh = word_prefix_match_chars(&d, dq_bytes);
        }
        bnames.push(str_chars(t[i].name));
        let ghost old_m = matches@;
        assert(name_hit_at(i as int, input, users, sks) == hit);
        assert(entry_name(i as int, users, sks) == nm@);
        assert(candidate_at(i as int, users, sks));
        assert(!hit ==> (dh == desc_hit(entry_desc(i as int, users, sks), input)));
        if hit || dh {
            matches.push((i, hit, nm));
            assert(matches@[old_m.len() as int] == (i, hit, nm));
            assert(gathered_upto(matches@, i as int + 1, input, users, sks)) by {
                assert forall|j: int|
                    0 <= j < i + 1 && #[trigger] slash_match(j, input, users, sks) implies exists|k: int|
                    0 <= k < matches@.len() && (#[trigger] matches@[k]).0 == j by {
                    if j < i {
                        let k = choose|k: int| 0 <= k < old_m.len() && (#[trigger] old_m[k]).0 == j;
                        assert(matches@[k] == old_m[k]);
                    } else {
                        assert(matches@[old_m.len() as int].0 == j);
                    }
                }
            }
        } else {
            assert(!slash_match(i as int, input, users, sks));
            assert(gathered_upto(matches@, i as int + 1, input, users, sks)) by {
                assert forall|j: int|
                    0 <= j < i + 1 && #[trigger] slash_match(j, input, users, sks) implies exists|k: int|
                    0 <= k < matches@.len() && (#[trigger] matches@[k]).0 == j by {
                    if j < i {
                    }
                }
            }
        }
        i += 1;
    }
    let mut unames: Vec<Vec<char>> = Vec::new();
    let mut k: usize = 0;
    while k < user_commands.len()
        invariant
            users == user_commands@,
            sks == skills@,
            entry_count(users, sks) <= usize::MAX,
            k <= users.len(),
            bnames@.len() == BUILTIN_COUNT,
            forall|b: int| 0 <= b < BUILTIN_COUNT ==> (#[trigger] bnames@[b])@ == builtin_name(b),
            unames@.len() == k,
            forall|u: int| 0 <= u < k ==> (#[trigger] unames@[u])@ == users[u].name@,
            slash_query_ok(input),
            prefix@ == slash_prefix(input),
            dq_bytes@ == encode_utf8(desc_query(input)),
            desc_search == desc_search_on(input),
            gathered_upto(matches@, BUILTIN_COUNT + k, input, users, sks),
        decreases users.len() - k,
    {
        let idx = BUILTIN_COUNT + k;
        let un = str_chars(user_commands[k].name.as_str());
        let shadow = name_listed(&bnames, &un);
        assert(shadow == shadows_builtin(un@)) by {
            if shadow {
                let b = choose|b: int| 0 <= b < bnames@.len() && (#[trigger] bnames@[b])@ == un@;
                assert(builtin_name(b) == un@);
            }
            if shadows_builtin(un@) {
                let b = choose|b: int| 0 <= b < BUILTIN_COUNT && builtin_name(b) == un@;
                assert(bnames@[b]@ == un@);
            }
        }
        let mut hit = false;
        let mut dh = false;
        if !shadow {
            let low = str_to_lowercase(user_commands[k].name.as_str());
            let lc = str_chars(low.as_str());
            hit = chars_start_with(&lc, prefix);
            if !hit && desc_search {
                let d = str_chars(user_commands[k].description.as_str());
                dh = word_prefix_match_chars(&d, dq_bytes);
            }
        }
        let ghost old_m = matches@;
        assert(entry_name(idx as int, users, sks) == un@);
        assert(candidate_at(idx as int, users, sks) == !shadow);
        assert(!shadow ==> name_hit_at(idx as int, input, users, sks) == hit);
        assert(!shadow && !hit ==> (dh == desc_hit(entry_desc(idx as int, users, sks), input)));
        if hit || dh {
            matches.push((idx, hit, str_chars(user_commands[k].name.as_str())));
            assert(gathered_upto(matches@, idx as int + 1, input, users, sks)) by {
                assert(matches@[old_m.len() as int].0 == idx);
                assert forall|j: int|
                    0 <= j < idx + 1 && #[trigger] slash_match(j, input, users, sks) implies exists|kk: int|
                    0 <= kk < matches@.len() && (#[trigger] matches@[kk]).0 == j by {
                    if j < idx {
                        let kk = choose|kk: int| 0 <= kk < old_m.len() && (#[trigger] old_m[kk]).0 == j;
                        assert(matches@[kk] == old_m[kk]);
                    } else {
                        assert(matches@[old_m.len() as int].0 == j);
                    }
                }
            }
        } else {
            assert(!slash_match(idx as int, input, users, sks));
            assert(gathered_upto(matches@, idx as int + 1, input, users, sks)) by {
                assert forall|j: int|
                    0 <= j < idx + 1 && #[trigger] slash_match(j, input, users, sks) implies exists|kk: int|
                    0 <= kk < matches@.len() && (#[trigger] matches@[kk]).0 == j by {
                    if j < idx {
                    }
                }
            }
        }
        unames.push(un);
        k += 1;
    }
    let mut q: usize = 0;
    while q < skills.len()
        invariant
            users == user_commands@,
            sks == skills@,
            entry_count(users, sks) <= usize::MAX,
            q <= sks.len(),
            bnames@.len() == BUILTIN_COUNT,
            forall|b: int| 0 <= b < BUILTIN_COUNT ==> (#[trigger] bnames@[b])@ == builtin_name(b),
            unames@.len() == users.len(),
            forall|u: int| 0 <= u < users.len() ==> (#[trigger] unames@[u])@ == users[u].name@,
            slash_query_ok(input),
            prefix@ == slash_prefix(input),
            dq_bytes@ == encode_utf8(desc_query(input)),
            desc_search == desc_search_on(input),
            gathered_upto(matches@, BUILTIN_COUNT + users.len() + q, input, users, sks),
        decreases sks.len() - q,
    {
        let idx = BUILTIN_COUNT + user_commands.len() + q;
        let sn = str_chars(skills[q].slash_name.as_str());
        let sb = name_listed(&bnames, &sn);
        let su = name_listed(&unames, &sn);
        assert(sb == shadows_builtin(sn@)) by {
            if sb {
                let b = choose|b: int| 0 <= b < bnames@.len() && (#[trigger] bnames@[b])@ == sn@;
                assert(builtin_name(b) == sn@);
            }
            if shadows_builtin(sn@) {
                let b = choose|b: int| 0 <= b < BUILTIN_COUNT && builtin_name(b) == sn@;
                assert(bnames@[b]@ == sn@);
            }
        }
        assert(su == shadowed_by_user(sn@, users)) by {
            if su {
                let u = choose|u: int| 0 <= u < unames@.len() && (#[trigger] unames@[u])@ == sn@;
                assert(users[u].name@ == sn@);
            }
            if shadowed_by_user(sn@, users) {
                let u = choose|u: int| 0 <= u < users.len() && users[u].name@ == sn@;
                assert(unames@[u]@ == sn@);
            }
        }
        let shadow = sb || su;
        let mut hit = false;
        let mut dh = false;
        if !shadow {
            let low = str_to_lowercase(skills[q].slash_name.as_str());
            let lc = str_chars(low.as_str());
            hit = chars_start_with(&lc, prefix);
            if !hit && desc_search {
                let d = str_chars(skills[q].description.as_str());
                dh = word_prefix_match_chars(&d, dq_bytes);
            }
        }
        let ghost old_m = matches@;
        assert(entry_name(idx as int, users, sks) == sn@);
        assert(candidate_at(idx as int, users, sks) == !shadow);
        assert(!shadow ==> name_hit_at(idx as int, input, users, sks) == hit);
        assert(!shadow && !hit ==> (dh == desc_hit(entry_desc(idx as int, users, sks), input)));
        if hit || dh {
            matches.push((idx, hit, sn));
            assert(gathered_upto(matches@, idx as int + 1, input, users, sks)) by {
                assert(matches@[old_m.len() as int].0 == idx);
                assert forall|j: int|
                    0 <= j < idx + 1 && #[trigger] slash_match(j, input, users, sks) implies exists|kk: int|
                    0 <= kk < matches@.len() && (#[trigger] matches@[kk]).0 == j by {
                    if j < idx {
                        let kk = choose|kk: int| 0 <= kk < old_m.len() && (#[trigger] old_m[kk]).0 == j;
                        assert(matches@[kk] == old_m[kk]);
                    } else {
                        assert(matches@[old_m.len() as int].0 == j);
                    }
                }
            }
        } else {
            assert(!slash_match(idx as int, input, users, sks));
            assert(gathered_upto(matches@, idx as int + 1, input, users, sks)) by {
                assert forall|j: int|
                    0 <= j < idx + 1 && #[trigger] slash_match(j, input, users, sks) implies exists|kk: int|
                    0 <= kk < matches@.len() && (#[trigger] matches@[kk]).0 == j by {
                    if j < idx {
                    }
                }
            }
        }
        q += 1;
    }
    matches
}

/// Sorts gathered entries by the ranking order.
fn sort_ranked(matches: Vec<Ranked>) -> (sorted: Vec<Ranked>)
    requires
        forall|k1: int, k2: int|
            0 <= k1 < k2 < matches@.len() ==> (#[trigger] matches@[k1]).0 < (#[trigger] matches@[k2]).0,
    ensures
        ranked_sorted(sorted@),
        sorted@.to_multiset() == matches@.to_multiset(),
{
    broadcast use vstd::seq_lib::group_to_multiset_ensures;

    let ghost orig = matches@;
    let mut rest = matches;
    let mut sorted: Vec<Ranked> = Vec::new();
    assert(sorted@.to_multiset() =~= Multiset::<Ranked>::empty());
    while rest.len() > 0
        invariant
            forall|k1: int, k2: int|
                0 <= k1 < k2 < rest@.len() ==> (#[trigger] rest@[k1]).0 < (#[trigger] rest@[k2]).0,
            forall|k: int, j: int|
                0 <= k < sorted@.len() && 0 <= j < rest@.len() ==> (#[trigger] rest@[j]).0 < (
                #[trigger] sorted@[k]).0,
            ranked_sorted(sorted@),
            sorted@.to_multiset().add(rest@.to_multiset()) == orig.to_multiset(),
        decreases rest@.len(),
    {
        let ghost old_rest = rest@;
        let x = rest.pop().unwrap();
        assert(old_rest == rest@.push(x));
        let mut p: usize = 0;
        while p < sorted.len() && !ranked_before(&x, &sorted[p])
            invariant
                p <= sorted@.len(),
                forall|qq: int| 0 <= qq < p ==> !ranked_lt(x, #[trigger] sorted@[qq]),
            decreases sorted@.len() - p,
        {
            p += 1;
        }
        let ghost old_s = sorted@;
        proof {
            assert forall|qq: int| 0 <= qq < old_s.len() implies (#[trigger] old_s[qq]).0 != x.0 by {
                assert(old_rest[old_rest.len() - 1] == x);
            }
            lemma_insert_ranked(old_s, p as int, x);
        }
        sorted.insert(p, x);
        proof {
            assert(sorted@ == old_s.insert(p as int, x));
            vstd::seq_lib::to_multiset_insert(old_s, p as int, x);
            vstd::seq_lib::to_multiset_build(rest@, x);
            assert(sorted@.to_multiset() == old_s.to_multiset().insert(x));
            assert(old_rest.to_multiset() == rest@.to_multiset().insert(x));
            assert(sorted@.to_multiset().add(rest@.to_multiset()) =~= old_s.to_multiset().add(
                old_rest.to_multiset(),
            ));
            assert forall|k: int, j: int|
                0 <= k < sorted@.len() && 0 <= j < rest@.len() implies (#[trigger] rest@[j]).0 < (
                #[trigger] sorted@[k]).0 by {
                assert(rest@[j] == old_rest[j]);
                assert(old_rest[j].0 < old_rest[old_rest.len() - 1].0);
                if k < p {
                    assert(sorted@[k] == old_s[k]);
                } else if k > p {
                    assert(sorted@[k] == old_s[k - 1]);
                }
            }
        }
    }
    assert(rest@.to_multiset() =~= Multiset::<Ranked>::empty());
    assert(sorted@.to_multiset() =~= sorted@.to_multiset().add(rest@.to_multiset()));
    sorted
}

/// Filter the slash commands for autocomplete and return combined indices
/// (built-ins, then user commands, then skills) in display order.
///
/// An entry is offered when the trimmed input is a single `/word` and the
/// lower-cased input is a prefix of the entry's name, or, once two bytes follow
/// the slashes, a word-prefix of its description. User commands and skills
/// that shadow a built-in, and skills shadowed by a user command, are skipped.
/// Name hits come first, then entries by name, ties kept in index order.
pub fn filter_slash_commands(
    input_buffer: &str,
    user_commands: &[UserCommand],
    skills: &[Skill],
) -> (r: Vec<usize>)
    requires
        entry_count(user_commands@, skills@) <= usize::MAX,
    ensures
        !slash_query_ok(input_buffer@) ==> r@.len() == 0,
        forall|k: int|
            0 <= k < r@.len() ==> slash_match(
                #[trigger] r@[k] as int,
                input_buffer@,
                user_commands@,
                skills@,
            ),
        forall|i: int|
            #[trigger] slash_match(i, input_buffer@, user_commands@, skills@) ==> exists|k: int|
                0 <= k < r@.len() && r@[k] == i,
        forall|a: int, b: int|
            0 <= a < b < r@.len() ==> ranks_before(
                #[trigger] r@[a] as int,
                #[trigger] r@[b] as int,
                input_buffer@,
                user_commands@,
                skills@,
            ),
        forall|a: int, b: int| 0 <= a < b < r@.len() ==> #[trigger] r@[a] != #[trigger] r@[b],
{
    broadcast use vstd::seq_lib::group_to_multiset_ensures;

    let ghost inp = input_buffer@;
    let chars = str_chars(input_buffer);
    let input = trim_start_chars(&chars);
    if input.len() == 0 || input[0] != '/' || chars_contain(&input, ' ') {
        assert(!slash_query_ok(inp));
        return Vec::new();
    }
    let input_s = string_from_chars(&input);
    let prefix_s = str_to_lowercase(input_s.as_str());
    let prefix = str_chars(prefix_s.as_str());
    let dq = strip_slashes(&prefix);
    let desc_search = utf8_len_at_least_two(&dq);
    let dq_bytes = encode_chars(&dq);
    let matches = gather_matches(&prefix, &dq_bytes, desc_search, user_commands, skills, Ghost(inp));
    let ghost m = matches@;
    let sorted = sort_ranked(matches);
    let mut r: Vec<usize> = Vec::new();
    let mut k: usize = 0;
    while k < sorted.len()
        invariant
            k <= sorted@.len(),
            r@.len() == k,
            forall|j: int| 0 <= j < k ==> r@[j] == (#[trigger] sorted@[j]).0,
        decreases sorted@.len() - k,
    {
        r.push(sorted[k].0);
        k += 1;
    }
    proof {
        let users = user_commands@;
        let sks = skills@;
        assert forall|j: int| 0 <= j < r@.len() implies gathered_ok(#[trigger] sorted@[j], inp, users, sks) by {
            assert(sorted@.contains(sorted@[j]));
            assert(sorted@.to_multiset().count(sorted@[j]) > 0);
            assert(m.contains(sorted@[j]));
        }
        assert forall|kk: int| 0 <= kk < r@.len() implies slash_match(
            #[trigger] r@[kk] as int, inp, users, sks) by {
            assert(gathered_ok(sorted@[kk], inp, users, sks));
        }
        assert forall|i: int| #[trigger] slash_match(i, inp, users, sks) implies exists|kk: int|
            0 <= kk < r@.len() && r@[kk] == i by {
            let mm = choose|mm: int| 0 <= mm < m.len() && (#[trigger] m[mm]).0 == i;
            assert(m.contains(m[mm]));
            assert(m.to_multiset().count(m[mm]) > 0);
            assert(sorted@.contains(m[mm]));
            let kk = choose|kk: int| 0 <= kk < sorted@.len() && sorted@[kk] == m[mm];
            assert(r@[kk] == i);
        }
        assert forall|a: int, b: int| 0 <= a < b < r@.len() implies ranks_before(
            #[trigger] r@[a] as int, #[trigger] r@[b] as int, inp, users, sks) by {
            assert(ranked_lt(sorted@[a], sorted@[b]));
            assert(gathered_ok(sorted@[a], inp, users, sks));
            assert(gathered_ok(sorted@[b], inp, users, sks));
        }
        law_ranked_list_distinct(r@, inp, users, sks);
    }
    r
}

/// A list of offered entries never holds a user command that a built-in
/// shadows, nor a skill that a built-in or a user command shadows.
pub proof fn law_shadowed_entries_never_offered(
    r: Seq<usize>,
    input: Seq<char>,
    users: Seq<UserCommand>,
    skills: Seq<Skill>,
)
    requires
        forall|k: int| 0 <= k < r.len() ==> slash_match(#[trigger] r[k] as int, input, users, skills),
    ensures
        forall|k: int, u: int|
            #![trigger r[k], users[u]]
            0 <= k < r.len() && 0 <= u < users.len() && shadows_builtin(users[u].name@) ==> r[k]
                != BUILTIN_COUNT + u,
        forall|k: int, t: int|
            #![trigger r[k], skills[t]]
            0 <= k < r.len() && 0 <= t < skills.len() && (shadows_builtin(skills[t].slash_name@)
                || shadowed_by_user(skills[t].slash_name@, users)) ==> r[k] != BUILTIN_COUNT
                + users.len() + t,
{
    assert forall|k: int, u: int|
        #![trigger r[k], users[u]]
        0 <= k < r.len() && 0 <= u < users.len() && shadows_builtin(users[u].name@) implies r[k]
            != BUILTIN_COUNT + u by {
        assert(slash_match(r[k] as int, input, users, skills));
    }
    assert forall|k: int, t: int|
        #![trigger r[k], skills[t]]
        0 <= k < r.len() && 0 <= t < skills.len() && (shadows_builtin(skills[t].slash_name@)
            || shadowed_by_user(skills[t].slash_name@, users)) implies r[k] != BUILTIN_COUNT
            + users.len() + t by {
        assert(slash_match(r[k] as int, input, users, skills));
    }
}

/// Name hits are listed before description-only hits: between an entry
/// whose name the query prefixes and one matched only through its
/// description, the first always ranks before the second.
pub proof fn law_name_hits_rank_first(
    i: int,
    j: int,
    input: Seq<char>,
    users: Seq<UserCommand>,
    skills: Seq<Skill>,
)
    requires
        name_hit_at(i, input, users, skills),
        !name_hit_at(j, input, users, skills),
    ensures
        ranks_before(i, j, input, users, skills),
        !ranks_before(j, i, input, users, skills),
{
}

/// A list in strict ranking order holds no entry twice.
pub proof fn law_ranked_list_distinct(
    r: Seq<usize>,
    input: Seq<char>,
    users: Seq<UserCommand>,
    skills: Seq<Skill>,
)
    requires
        forall|a: int, b: int|
            0 <= a < b < r.len() ==> ranks_before(
                #[trigger] r[a] as int,
                #[trigger] r[b] as int,
                input,
                users,
                skills,
            ),
    ensures
        forall|a: int, b: int| 0 <= a < b < r.len() ==> #[trigger] r[a] != #[trigger] r[b],
{
    assert forall|a: int, b: int| 0 <= a < b < r.len() implies #[trigger] r[a] != #[trigger] r[b] by {
        assert(ranks_before(r[a] as int, r[b] as int, input, users, skills));
        if r[a] == r[b] {
            lemma_rank_irreflexive(
                r[a] as int,
                name_hit_at(r[a] as int, input, users, skills),
                entry_name(r[a] as int, users, skills),
            );
        }
    }
}

/// `r` is the suggestion list for `input`: every entry in it matches, every
/// match is in it, and it runs in strict ranking order.
pub open spec fn is_suggestion_list(r: Seq<usize>, input: Seq<char>, users: Seq<UserCommand>, skills: Seq<Skill>) -> bool {
    &&& !slash_query_ok(input) ==> r.len() == 0
    &&& forall|k: int| 0 <= k < r.len() ==> slash_match(#[trigger] r[k] as int, input, users, skills)
    &&& forall|i: int| #[trigger] slash_match(i, input, users, skills) ==> exists|k: int| 0 <= k < r.len() && r[k] == i
    &&& forall|a: int, b: int|
        0 <= a < b < r.len() ==> ranks_before(#[trigger] r[a] as int, #[trigger] r[b] as int, input, users, skills)
}

/// Autocomplete state under the input line: the offered entries, whether
/// the popup shows, and the highlighted row.
#[derive(Clone, Debug)]
pub struct SlashSuggestions {
    pub filtered: Vec<usize>,
    pub active: bool,
    pub selected_index: usize,
}

impl SlashSuggestions {
    /// Recomputes the offered entries for the current input. The popup shows
    /// when something is offered; a highlight past the new end goes back to
    /// the first row.
    pub fn update(&mut self, input_buffer: &str, user_commands: &[UserCommand], skills: &[Skill])
        requires
            entry_count(user_commands@, skills@) <= usize::MAX,
        ensures
            is_suggestion_list(final(self).filtered@, input_buffer@, user_commands@, skills@),
            final(self).active == (final(self).filtered@.len() > 0),
            final(self).selected_index == if old(self).selected_index >= final(self).filtered@.len() {
                0
            } else {
                old(self).selected_index
            },
    {
        self.filtered = filter_slash_commands(input_buffer, user_commands, skills);
        self.active = self.filtered.len() > 0;
        if self.selected_index >= self.filtered.len() {
            self.selected_index = 0;
        }
    }
}

} // verus!
