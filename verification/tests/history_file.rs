//! Reading and saving the prompt-history file.

use stemcell_tui::history_file::{history_file_write, parse_history_file, HistoryWrite, MAX_HISTORY_ENTRIES};

#[test]
fn reading_keeps_non_empty_lines() {
    assert_eq!(parse_history_file(""), Vec::<String>::new());
    assert_eq!(parse_history_file("a\nb\n"), vec!["a", "b"]);
    assert_eq!(parse_history_file("a\n\n\nb"), vec!["a", "b"]);
    assert_eq!(parse_history_file("one\r\ntwo\r\n"), vec!["one", "two"]);
    // A last line without a newline keeps its carriage return, as str::lines does.
    assert_eq!(parse_history_file("x\ny\r"), vec!["x", "y\r"]);
    assert_eq!(parse_history_file("\r\n\n"), Vec::<String>::new());
}

#[test]
fn saving_appends_a_line_below_the_cap() {
    let history: Vec<String> = vec!["ls".to_string(), "git status".to_string()];
    assert_eq!(history_file_write(&history, "git status"), HistoryWrite::Append("git status\n".to_string()));
    let file = "ls\n".to_string() + "git status\n";
    assert_eq!(parse_history_file(&file), history);
}

#[test]
fn saving_past_the_cap_rewrites_the_newest_entries() {
    let history: Vec<String> = (0..MAX_HISTORY_ENTRIES + 2).map(|i| format!("cmd {i}")).collect();
    match history_file_write(&history, "cmd 501") {
        HistoryWrite::Rewrite(text) => {
            let back = parse_history_file(&text);
            assert_eq!(back.len(), MAX_HISTORY_ENTRIES);
            assert_eq!(back[0], "cmd 2");
            assert_eq!(back[MAX_HISTORY_ENTRIES - 1], "cmd 501");
            assert!(text.ends_with("cmd 501\n"));
        }
        other => panic!("expected a rewrite, got {other:?}"),
    }
    // Exactly at the cap the entry is still appended.
    let at_cap: Vec<String> = (0..MAX_HISTORY_ENTRIES).map(|i| format!("c{i}")).collect();
    assert_eq!(history_file_write(&at_cap, "c499"), HistoryWrite::Append("c499\n".to_string()));
}
