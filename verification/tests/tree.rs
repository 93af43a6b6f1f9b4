use makereadme::tree::listing_order_by_keys;
use makereadme::tree::{project_tree_snapshot, render_directory_tree, DirNode};

fn file(name: &str) -> DirNode {
    DirNode { name: name.to_string(), is_dir: false, children: Vec::new() }
}

fn dir(name: &str, children: Vec<DirNode>) -> DirNode {
    DirNode { name: name.to_string(), is_dir: true, children }
}

#[test]
fn directories_first_then_names_ignoring_case() {
    let entries = vec![file("b.txt"), dir("src", vec![file("main.rs")]), file("A.md")];
    assert_eq!(
        project_tree_snapshot(&entries),
        ".\n├── src/\n│   └── main.rs\n├── A.md\n└── b.txt"
    );
}

#[test]
fn empty_directory_is_just_the_heading() {
    assert_eq!(project_tree_snapshot(&Vec::new()), ".");
}

#[test]
fn nested_last_directory_uses_blank_indent() {
    let entries = vec![dir("a", vec![dir("b", vec![file("c")])])];
    assert_eq!(render_directory_tree(&entries, "x", 6, 400), "x\n└── a/\n    └── b/\n        └── c");
}

#[test]
fn depth_limit_hides_deeper_entries() {
    let entries = vec![dir("a", vec![dir("b", vec![file("c")])])];
    assert_eq!(render_directory_tree(&entries, ".", 2, 400), ".\n└── a/\n    └── b/");
}

#[test]
fn entry_limit_truncates_listing() {
    let entries = vec![file("1"), file("2"), file("3")];
    assert_eq!(
        render_directory_tree(&entries, ".", 6, 2),
        ".\n├── 1\n├── 2\n└── ... (tree truncated: too many entries)"
    );
}

#[test]
fn exactly_the_limit_is_still_reported_as_truncated() {
    let entries = vec![file("1"), file("2")];
    assert_eq!(
        render_directory_tree(&entries, ".", 6, 2),
        ".\n├── 1\n└── 2\n└── ... (tree truncated: too many entries)"
    );
}

#[test]
fn listing_never_exceeds_entry_limit() {
    let mut many = Vec::new();
    for i in 0..500 {
        many.push(file(&format!("f{:03}", i)));
    }
    let out = project_tree_snapshot(&many);
    assert_eq!(out.lines().count(), 400 + 2);
}

#[test]
fn equal_lowercase_names_keep_their_order() {
    let entries = vec![file("B"), file("b"), file("a")];
    assert_eq!(render_directory_tree(&entries, ".", 6, 400), ".\n├── a\n├── B\n└── b");
}

#[test]
fn keys_order_directories_first_then_by_key() {
    let dirs = vec![false, true, false, true];
    let keys = vec!["b".to_string(), "z".to_string(), "a".to_string(), "c".to_string()];
    assert_eq!(listing_order_by_keys(&dirs, &keys), vec![3, 1, 2, 0]);
    let same = vec!["a".to_string(), "a".to_string()];
    assert_eq!(listing_order_by_keys(&vec![false, false], &same), vec![0, 1]);
    assert_eq!(listing_order_by_keys(&Vec::new(), &Vec::new()), Vec::<usize>::new());
}
