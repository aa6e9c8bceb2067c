//! Order of the pickers' listings.

use stemcell_tui::listing_order::{listing_order, ListedPath};

fn p(is_dir: bool, name: Option<&str>) -> ListedPath {
    ListedPath { is_dir, name: name.map(|n| n.to_string()) }
}

#[test]
fn directories_first_then_names() {
    let paths = vec![
        p(false, Some("b.rs")),
        p(true, Some("src")),
        p(false, Some("a.rs")),
        p(true, None),
        p(true, Some("docs")),
        p(false, Some("B.md")),
    ];
    let order = listing_order(&paths);
    let names: Vec<Option<&str>> = order.iter().map(|&i| paths[i].name.as_deref()).collect();
    assert_eq!(names, vec![None, Some("docs"), Some("src"), Some("B.md"), Some("a.rs"), Some("b.rs")]);
}

#[test]
fn equal_entries_keep_listing_order() {
    let paths = vec![p(false, Some("x")), p(true, Some("d")), p(false, Some("x"))];
    assert_eq!(listing_order(&paths), vec![1, 0, 2]);
    assert_eq!(listing_order(&[]), Vec::<usize>::new());
}
