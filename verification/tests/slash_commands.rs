//! Slash-command autocomplete: word-prefix matching and ranking.

use stemcell_tui::catalog::{Skill, UserCommand};
use stemcell_tui::slash::{
    filter_slash_commands, slash_command_description, slash_commands, slash_name_at,
    word_prefix_match, SlashSuggestions, BUILTIN_COUNT,
};

fn names(query: &str, user: &[UserCommand], skills: &[Skill]) -> Vec<String> {
    filter_slash_commands(query, user, skills)
        .into_iter()
        .map(|idx| slash_name_at(idx, user, skills).unwrap().to_string())
        .collect()
}

#[test]
fn word_prefix_match_respects_word_boundaries() {
    assert!(word_prefix_match("compact condense shrink", "co"));
    assert!(word_prefix_match("download latest release", "rel"));
    assert!(!word_prefix_match("record audio", "co"));
    assert!(word_prefix_match("start over /clear /reset", "clear"));
}

#[test]
fn description_only_query_surfaces_nearest_command() {
    let out = names("/resume", &[], &[]);
    assert!(
        out.contains(&"/sessions".to_string()),
        "expected /sessions for /resume, got {out:?}"
    );
    let out = names("/clear", &[], &[]);
    assert!(
        out.contains(&"/new".to_string()),
        "expected /new for /clear, got {out:?}"
    );
}

#[test]
fn name_prefix_matches_rank_above_description_only() {
    let out = names("/co", &[], &[]);
    assert_eq!(
        out.first(),
        Some(&"/compact".to_string()),
        "name-prefix hit should rank first, got {out:?}"
    );
    assert!(
        out.len() > 1,
        "expected description-only hits too, got {out:?}"
    );
}

#[test]
fn lone_slash_does_not_match_descriptions() {
    let out = names("/", &[], &[]);
    assert_eq!(out.len(), slash_commands().len());
    assert_eq!(out.len(), BUILTIN_COUNT);
}

#[test]
fn suggestions_popup_follows_the_input() {
    let mut sg = SlashSuggestions { filtered: Vec::new(), active: false, selected_index: 0 };
    sg.update("/co", &[], &[]);
    assert!(sg.active);
    assert_eq!(sg.filtered, filter_slash_commands("/co", &[], &[]));
    sg.selected_index = sg.filtered.len() - 1;
    let kept = sg.selected_index;
    sg.update("/co", &[], &[]);
    assert_eq!(sg.selected_index, kept);
    sg.update("hello", &[], &[]);
    assert!(!sg.active);
    assert!(sg.filtered.is_empty());
    assert_eq!(sg.selected_index, 0);
}

#[test]
fn word_prefix_laws_on_examples() {
    assert!(word_prefix_match("Export the chat", ""));
    assert!(word_prefix_match("Export the chat", "EXP"));
    assert!(word_prefix_match("Export the chat", "exp"));
    assert!(word_prefix_match("Export the chat", "ex"));
    assert!(!word_prefix_match("record", "co"));
    assert!(word_prefix_match("EXPORT THE CHAT", "exp"));
    assert!(word_prefix_match("export the chat", "EXP"));
    let r = filter_slash_commands("/", &[], &[]);
    let mut sorted = r.clone();
    sorted.sort();
    sorted.dedup();
    assert_eq!(sorted.len(), r.len());
}

#[test]
fn shadowed_user_commands_and_skills_are_not_offered() {
    let users = vec![
        UserCommand {
            name: "/help".to_string(),
            description: "my help".to_string(),
            prompt: "p".to_string(),
            action: "prompt".to_string(),
        },
        UserCommand {
            name: "/deploy".to_string(),
            description: "ship".to_string(),
            prompt: "p".to_string(),
            action: "prompt".to_string(),
        },
    ];
    let skills = vec![Skill {
        name: "Deploy".to_string(),
        description: "deploy skill".to_string(),
        body: "b".to_string(),
        slash_name: "/deploy".to_string(),
    }];
    let r = filter_slash_commands("/", &users, &skills);
    assert!(!r.contains(&BUILTIN_COUNT));
    assert!(r.contains(&(BUILTIN_COUNT + 1)));
    assert!(!r.contains(&(BUILTIN_COUNT + 2)));
}
