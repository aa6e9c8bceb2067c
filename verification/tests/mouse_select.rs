//! Click highlighting, drag selection and the text a drag copies.

use stemcell_tui::mouse_select::{in_input_area, copy_target, extract_drag_selection, row_to_msg_idx, ChatViewport, MouseSelection};

fn view(height: u16) -> ChatViewport {
    ChatViewport { area_x: 0, area_y: 0, area_height: height, render_scroll: 0 }
}

fn rendered() -> Vec<String> {
    vec![
        "  hello world".to_string(),
        "  1 │ fn main()".to_string(),
        "   ".to_string(),
        "  bye".to_string(),
    ]
}

#[test]
fn single_line_drag_copies_the_covered_columns() {
    let lines = rendered();
    assert_eq!(extract_drag_selection(&lines, &view(10), (3, 1), (7, 1)), "hello");
    // Either end may come first.
    assert_eq!(extract_drag_selection(&lines, &view(10), (7, 1), (3, 1)), "hello");
}

#[test]
fn multi_line_drag_strips_gutters_and_skips_blank_lines() {
    let lines = rendered();
    assert_eq!(
        extract_drag_selection(&lines, &view(10), (9, 1), (4, 4)),
        "world\nfn main()\nby"
    );
}

#[test]
fn drag_outside_the_text_rows_copies_nothing() {
    let lines = rendered();
    assert_eq!(extract_drag_selection(&lines, &view(10), (3, 0), (7, 1)), "");
    assert_eq!(extract_drag_selection(&lines, &view(10), (3, 1), (7, 10)), "");
    assert_eq!(extract_drag_selection(&lines, &view(0), (3, 1), (7, 1)), "");
    // A row past the last rendered line.
    assert_eq!(extract_drag_selection(&lines, &view(10), (3, 7), (7, 7)), "");
}

#[test]
fn scrolled_view_maps_rows_past_the_scroll_offset() {
    let lines = rendered();
    let v = ChatViewport { area_x: 2, area_y: 5, area_height: 10, render_scroll: 3 };
    // Row 6 is the first text row: rendered line 3; column 3 is char 0.
    assert_eq!(extract_drag_selection(&lines, &v, (3, 6), (20, 6)), "bye");
}

#[test]
fn drag_keeps_its_first_anchor_and_release_returns_the_span() {
    let mut m = MouseSelection::new();
    m.click_select(Some(2));
    assert_eq!(m.selected_message_idx, Some(2));
    m.mouse_drag(5, 2);
    assert_eq!(m.selected_message_idx, None);
    m.mouse_drag(6, 3);
    assert_eq!(m.drag_anchor, Some((5, 2)));
    assert_eq!(m.drag_current, Some((6, 3)));
    assert_eq!(m.mouse_up(7, 4, Some(1)), Some(((5, 2), (7, 4))));
    assert_eq!(m.drag_anchor, None);
    assert_eq!(m.drag_current, None);
}

#[test]
fn release_without_drag_toggles_the_highlight() {
    let mut m = MouseSelection::new();
    assert_eq!(m.mouse_up(1, 1, Some(3)), None);
    assert_eq!(m.selected_message_idx, Some(3));
    assert_eq!(m.mouse_up(1, 1, Some(3)), None);
    assert_eq!(m.selected_message_idx, None);
    m.click_select(Some(1));
    m.click_select(Some(4));
    assert_eq!(m.selected_message_idx, Some(4));
}

#[test]
fn rows_map_to_messages_through_the_line_map() {
    let map = vec![Some(0), Some(0), None, Some(1)];
    let v = view(10);
    assert_eq!(row_to_msg_idx(&v, &map, 1), Some(0));
    assert_eq!(row_to_msg_idx(&v, &map, 0), Some(0));
    assert_eq!(row_to_msg_idx(&v, &map, 3), None);
    assert_eq!(row_to_msg_idx(&v, &map, 4), Some(1));
    assert_eq!(row_to_msg_idx(&v, &map, 9), None);
}

#[test]
fn right_click_copies_clicked_or_highlighted_non_blank_message() {
    let contents = vec!["hi".to_string(), "  ".to_string()];
    assert_eq!(copy_target(Some(1), Some(0), &contents), None);
    assert_eq!(copy_target(None, Some(0), &contents), Some(0));
    assert_eq!(copy_target(Some(0), None, &contents), Some(0));
    assert_eq!(copy_target(Some(5), None, &contents), None);
    assert_eq!(copy_target(None, None, &contents), None);
}

#[test]
fn input_box_rows_route_to_the_input() {
    assert!(in_input_area(false, 20, 20, 3));
    assert!(in_input_area(false, 22, 20, 3));
    assert!(!in_input_area(false, 23, 20, 3));
    assert!(!in_input_area(false, 19, 20, 3));
    assert!(in_input_area(true, 2, 20, 3));
}
