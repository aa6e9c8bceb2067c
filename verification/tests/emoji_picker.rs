//! The `:shortcode` emoji picker.

use stemcell_tui::emoji_picker::{emoji_query, replace_query, search_emojis, EmojiPicker, EMOJI_MAX_RESULTS};

fn table() -> Vec<(String, Vec<String>)> {
    vec![
        ("😀".to_string(), vec!["grinning".to_string()]),
        ("😄".to_string(), vec!["smile".to_string()]),
        ("🚀".to_string(), vec!["rocket".to_string()]),
        ("😏".to_string(), vec!["smirk".to_string(), "smile_sly".to_string()]),
        ("🙂".to_string(), vec![]),
    ]
}

#[test]
fn query_is_the_text_after_the_last_colon() {
    assert_eq!(emoji_query("hi :smi", 7), Some((3, "smi".to_string())));
    assert_eq!(emoji_query("a:b :ro", 7), Some((4, "ro".to_string())));
    // Only the text before the cursor counts.
    assert_eq!(emoji_query("hi :smile there", 7), Some((3, "smi".to_string())));
    assert_eq!(emoji_query("hi :sm ile", 10), None);
    assert_eq!(emoji_query("no colon", 8), None);
    assert_eq!(emoji_query("end:", 4), None);
    // Byte offsets past multi-byte chars.
    assert_eq!(emoji_query("é :x", 5), Some((3, "x".to_string())));
}

#[test]
fn search_keeps_table_order_and_first_matching_shortcode() {
    let hits = search_emojis(&table(), "smi");
    assert_eq!(
        hits,
        vec![
            ("😄".to_string(), "smile".to_string()),
            ("😏".to_string(), "smirk".to_string()),
        ]
    );
    let hits = search_emojis(&table(), "sly");
    assert_eq!(hits, vec![("😏".to_string(), "smile_sly".to_string())]);
    assert!(search_emojis(&table(), "zzz").is_empty());
}

#[test]
fn search_offers_at_most_the_limit() {
    let many: Vec<(String, Vec<String>)> =
        (0..20).map(|i| (format!("e{i}"), vec![format!("code{i}")])).collect();
    let hits = search_emojis(&many, "code");
    assert_eq!(hits.len(), EMOJI_MAX_RESULTS);
    assert_eq!(hits[0].0, "e0");
    assert_eq!(hits[EMOJI_MAX_RESULTS - 1].0, "e7");
}

#[test]
fn picker_offers_crate_emojis_and_accepts_the_highlight() {
    let mut p = EmojiPicker::new();
    p.update("look :rocke", 11);
    assert!(p.active);
    assert_eq!(p.colon_offset, 5);
    assert!(p.filtered.iter().any(|(e, code)| e == "🚀" && code == "rocket"));
    let idx = p.filtered.iter().position(|(e, _)| e == "🚀").unwrap();
    p.selected_index = idx;
    let (buf, cursor) = p.accept("look :rocke", 11).unwrap();
    assert_eq!(buf, "look 🚀");
    assert_eq!(cursor, 5 + "🚀".len());
    assert!(!p.active);
    assert!(p.filtered.is_empty());
}

#[test]
fn picker_hides_without_a_query_or_hits() {
    let mut p = EmojiPicker::new();
    p.update("look :ROCKE", 11);
    assert!(p.active, "the query is lower-cased before the search");
    p.update("look", 4);
    assert!(!p.active);
    assert!(p.filtered.is_empty());
    p.update("x :qqqqqqqqqq", 13);
    assert!(!p.active);
    assert_eq!(p.accept("x :qqqqqqqqqq", 13), None);
}

#[test]
fn replacing_the_query_keeps_the_rest_of_the_line() {
    assert_eq!(replace_query("say :smi now", 4, 8, "😄"), ("say 😄 now".to_string(), 8));
}
