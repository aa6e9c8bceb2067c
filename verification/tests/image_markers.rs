//! Image attachment markers shown as labels.

use stemcell_tui::image_markers::{humanize_image_markers, image_marker_path, label_first_image_marker};

#[test]
fn markers_become_file_name_labels() {
    assert_eq!(
        humanize_image_markers("see <<IMG:/tmp/a b/photo.png>> and <<IMG:x.jpg>>"),
        "see [IMG: photo.png] and [IMG: x.jpg]"
    );
}

#[test]
fn path_without_file_name_is_shown_whole() {
    assert_eq!(humanize_image_markers("<<IMG:/>>"), "[IMG: /]");
    assert_eq!(humanize_image_markers("<<IMG:a/..>>"), "[IMG: a/..]");
}

#[test]
fn unclosed_marker_and_plain_text_stay() {
    assert_eq!(humanize_image_markers("  <<IMG:no end  "), "<<IMG:no end");
    assert_eq!(humanize_image_markers(" plain "), "plain");
    assert_eq!(humanize_image_markers("<<IMG:>>"), "[IMG: ]");
}

#[test]
fn first_marker_is_labelled_with_the_given_file_name() {
    let t = "a <<IMG:/x/y.png>> b <<IMG:z.gif>>";
    assert_eq!(image_marker_path(t).as_deref(), Some("/x/y.png"));
    assert_eq!(
        label_first_image_marker(t, Some("y.png")).as_deref(),
        Some("a [IMG: y.png] b <<IMG:z.gif>>")
    );
    assert_eq!(
        label_first_image_marker(t, None).as_deref(),
        Some("a [IMG: /x/y.png] b <<IMG:z.gif>>")
    );
    assert_eq!(image_marker_path("no marker <<IMG:open"), None);
    assert_eq!(label_first_image_marker("plain", Some("n")), None);
}
