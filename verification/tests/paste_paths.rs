//! File paths and URLs in pasted input.

use stemcell_tui::paste_paths::{
    extract_image_paths, has_text_extension, paths_to_probe, ImageAttachment, PathProbe,
};

fn probe(path: &str, exists: bool, content: Option<&str>) -> PathProbe {
    PathProbe { path: path.to_string(), exists, content: content.map(|c| c.to_string()) }
}

fn att(name: &str, path: &str) -> ImageAttachment {
    ImageAttachment { name: name.to_string(), path: path.to_string(), is_video: false }
}

#[test]
fn whole_input_image_path_or_url() {
    let probes = vec![probe("/tmp/my photo.PNG", true, None)];
    assert_eq!(
        extract_image_paths("  /tmp/my photo.PNG \n", &probes),
        (String::new(), vec![att("my photo.PNG", "/tmp/my photo.PNG")])
    );
    assert_eq!(
        extract_image_paths("https://x.com/a/cat.jpg", &[]),
        (String::new(), vec![att("cat.jpg", "https://x.com/a/cat.jpg")])
    );
}

#[test]
fn whole_input_text_file_is_inlined() {
    let probes = vec![probe("notes.md", true, Some("hello"))];
    assert_eq!(
        extract_image_paths("notes.md", &probes),
        ("[File: notes.md]\n```\nhello\n```".to_string(), vec![])
    );
    // Not readable as text: the word stays.
    let probes = vec![probe("notes.md", true, None)];
    assert_eq!(extract_image_paths("notes.md", &probes), ("notes.md".to_string(), vec![]));
}

#[test]
fn mixed_input() {
    let probes = vec![probe("/a/b.png", true, None), probe("notes.txt", true, Some("N"))];
    let (text, atts) = extract_image_paths("look at /a/b.png and https://h/x.gif plus notes.txt end", &probes);
    assert_eq!(text, "look at and plus end\n\n[File: notes.txt]\n```\nN\n```");
    assert_eq!(atts, vec![att("b.png", "/a/b.png"), att("x.gif", "https://h/x.gif")]);
}

#[test]
fn missing_files_stay_as_words() {
    assert_eq!(extract_image_paths("see  /no/such.png", &[]), ("see /no/such.png".to_string(), vec![]));
    let probes = vec![probe("/gone.png", false, None)];
    assert_eq!(extract_image_paths("/gone.png", &probes), ("/gone.png".to_string(), vec![]));
}

#[test]
fn long_text_files_are_cut() {
    let content = "a".repeat(9000);
    let probes = vec![probe("big.log", true, Some(&content))];
    let (text, _) = extract_image_paths("big.log", &probes);
    assert_eq!(text, format!("[File: big.log]\n```\n{}…[truncated]\n```", "a".repeat(8000)));
}

#[test]
fn paths_worth_probing() {
    assert_eq!(
        paths_to_probe("look at /a/b.png and notes.txt"),
        vec!["look at /a/b.png and notes.txt".to_string(), "/a/b.png".to_string(), "notes.txt".to_string()]
    );
    assert_eq!(paths_to_probe("just words"), Vec::<String>::new());
    assert_eq!(paths_to_probe(" x.JPG "), vec!["x.JPG".to_string(), "x.JPG".to_string()]);
}

#[test]
fn text_extensions() {
    assert!(has_text_extension("src/main.RS"));
    assert!(has_text_extension("a.json"));
    assert!(!has_text_extension("a.png"));
    assert!(!has_text_extension("README"));
}
