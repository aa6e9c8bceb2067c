//! Clean-up of pasted text and scanning of stored tool markers.

use stemcell_tui::paste_cleanup::{
    clean_paste, paste_insertion, expand_tabs, normalize_unicode_whitespace, strip_terminal_escapes, utf8_char_len,
};
use stemcell_tui::transcript::find_balanced_json_end;

#[test]
fn utf8_lengths_from_leading_byte() {
    assert_eq!(utf8_char_len(b'a'), 1);
    assert_eq!(utf8_char_len(0xC3), 2);
    assert_eq!(utf8_char_len(0xE2), 3);
    assert_eq!(utf8_char_len(0xF0), 4);
}

#[test]
fn strips_csi_osc_and_two_char_escapes() {
    assert_eq!(strip_terminal_escapes("a\u{1b}[31mred\u{1b}[0m"), "ared");
    assert_eq!(strip_terminal_escapes("x\u{1b}]0;title\u{7}y"), "xy");
    assert_eq!(strip_terminal_escapes("x\u{1b}]8;;u\u{1b}\\y"), "xy");
    assert_eq!(strip_terminal_escapes("a\u{1b}Mb"), "ab");
    assert_eq!(strip_terminal_escapes("plain"), "plain");
    assert_eq!(strip_terminal_escapes("\u{1b}[<35;116;77M"), "");
}

#[test]
fn stripping_twice_changes_nothing_more() {
    let once = strip_terminal_escapes("a\u{1b}[1;2Hb\u{1b}]x\u{7}c");
    assert_eq!(strip_terminal_escapes(&once), once);
}

#[test]
fn normalizes_exotic_spaces() {
    assert_eq!(normalize_unicode_whitespace("a\u{00A0}b\u{2003}c"), "a b c");
    assert_eq!(normalize_unicode_whitespace("z\u{200B}e\u{FEFF}r\u{00AD}o"), "zero");
    assert_eq!(normalize_unicode_whitespace("plain text"), "plain text");
}

#[test]
fn expands_tabs_to_stops_of_eight() {
    assert_eq!(expand_tabs("a\tb"), "a       b");
    assert_eq!(expand_tabs("\t"), "        ");
    assert_eq!(expand_tabs("12345678\tx"), "12345678        x");
    assert_eq!(expand_tabs("ab\n\tc"), "ab\n        c");
    let once = expand_tabs("x\ty\tz");
    assert_eq!(expand_tabs(&once), once);
}

#[test]
fn balanced_json_array_end() {
    assert_eq!(find_balanced_json_end("[1,2] -->"), Some(5));
    assert_eq!(find_balanced_json_end("[{\"a\":\"]\"}] tail"), Some(11));
    assert_eq!(find_balanced_json_end("[\"--> x\\\"]\"]"), Some(12));
    assert_eq!(find_balanced_json_end("[[1],[2]]"), Some(9));
    assert_eq!(find_balanced_json_end("[1,2"), None);
    assert_eq!(find_balanced_json_end("x[1]"), None);
    assert_eq!(find_balanced_json_end(""), None);
}

#[test]
fn pastes_are_cleaned_before_insertion() {
    assert_eq!(clean_paste("a\tb"), Some("a       b".to_string()));
    assert_eq!(clean_paste("x\u{1b}[<35;1;2My"), Some("xy".to_string()));
    assert_eq!(clean_paste("\u{1b}[<35;1;2M"), None);
    assert_eq!(clean_paste("  \u{200b} "), None);
    assert_eq!(clean_paste("a\u{a0}b"), Some("a b".to_string()));
    assert_eq!(paste_insertion("see /tmp/a.png", "see", true), Some("see".to_string()));
    assert_eq!(paste_insertion("/tmp/a.png", "  ", true), None);
    assert_eq!(paste_insertion("plain", "plain", false), Some("plain".to_string()));
}

#[test]
fn utf8_char_len_matches_each_chars_encoding() {
    for c in ['a', 'é', '€', '🦀'] {
        let mut buf = [0u8; 4];
        let e = c.encode_utf8(&mut buf);
        assert_eq!(utf8_char_len(e.as_bytes()[0]), e.len());
    }
    for b in 0x80u8..=0xBF {
        assert_eq!(utf8_char_len(b), 1);
    }
}
