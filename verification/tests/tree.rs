use twilight_commander::model::config::Config;
use twilight_commander::model::listing::{DirEntry, PathNodeSort};
use twilight_commander::model::path_node::{join, PathError, PathNode};
use twilight_commander::model::tree_index::TreeIndex;
use twilight_commander::view::composer::Composer;

fn entry(name: &str, is_dir: bool) -> DirEntry {
    DirEntry { name: String::from(name), is_dir }
}

fn names_of(entries: &[DirEntry]) -> Vec<String> {
    entries.iter().map(|e| e.name.clone()).collect()
}

fn row_names(root: &PathNode) -> Vec<String> {
    let composer = Composer::new(Config::default());
    composer.compose_path_node(root).iter().map(|row| row.name.clone()).collect()
}

/// `/a` with `dir1/` and `file1`, the root expanded.
fn tree_a() -> PathNode {
    let mut root = PathNode::new("/a", Ok(true)).unwrap();
    let listing = vec![entry("file1", false), entry("dir1", true)];
    assert_eq!(root.expand_dir(&TreeIndex::root(), Ok(listing), PathNodeSort::DirsTop), Ok(()));
    root
}

#[test]
fn scenario_expand_and_collapse() {
    let mut root = PathNode::new("/a", Ok(true)).unwrap();
    assert_eq!(row_names(&root), vec!["/a"]);

    let listing = vec![entry("file1", false), entry("dir1", true)];
    assert_eq!(root.expand_dir(&TreeIndex::root(), Ok(listing), PathNodeSort::DirsTop), Ok(()));
    assert_eq!(row_names(&root), vec!["/a", "dir1", "file1"]);

    let dir1 = root.flat_index_to_tree_index(1);
    assert_eq!(dir1.index, vec![0]);
    let listing = vec![entry("file2", false)];
    assert_eq!(root.expand_dir(&dir1, Ok(listing), PathNodeSort::DirsTop), Ok(()));
    assert_eq!(row_names(&root), vec!["/a", "dir1", "file2", "file1"]);

    let dir1 = root.flat_index_to_tree_index(1);
    assert_eq!(root.collapse_dir(&dir1), Ok(()));
    assert_eq!(row_names(&root), vec!["/a", "dir1", "file1"]);
}

#[test]
fn new_root_is_collapsed() {
    let root = PathNode::new("/a", Ok(true)).unwrap();
    assert_eq!(root.absolute_path, "/a");
    assert_eq!(root.display_text, "/a");
    assert!(root.is_dir);
    assert!(!root.is_expanded);
    assert!(root.children.is_empty());
    assert_eq!(root.get_absolute_path(), "/a");
}

#[test]
fn new_root_of_a_file() {
    let root = PathNode::new("/a/file1", Ok(false)).unwrap();
    assert!(!root.is_dir);
    assert!(!root.is_expanded);
}

#[test]
fn new_fails_on_a_missing_path() {
    assert!(matches!(
        PathNode::new("/nowhere", Err(PathError::PathNotFound)),
        Err(PathError::PathNotFound)
    ));
}

#[test]
fn new_fails_on_an_unreadable_path() {
    assert!(matches!(
        PathNode::new("/root", Err(PathError::PathUnreadable)),
        Err(PathError::PathUnreadable)
    ));
}

#[test]
fn expand_gives_children_their_paths() {
    let root = tree_a();
    assert!(root.is_expanded);
    assert_eq!(root.children.len(), 2);
    assert_eq!(root.children[0].display_text, "dir1");
    assert_eq!(root.children[0].absolute_path, "/a/dir1");
    assert!(root.children[0].is_dir);
    assert!(!root.children[0].is_expanded);
    assert_eq!(root.children[1].display_text, "file1");
    assert_eq!(root.children[1].absolute_path, "/a/file1");
    assert!(!root.children[1].is_dir);
}

#[test]
fn expand_of_an_empty_directory() {
    let mut root = PathNode::new("/a", Ok(true)).unwrap();
    assert_eq!(root.expand_dir(&TreeIndex::root(), Ok(Vec::new()), PathNodeSort::DirsTop), Ok(()));
    assert!(root.is_expanded);
    assert_eq!(row_names(&root), vec!["/a"]);
}

#[test]
fn expand_twice_is_a_no_op() {
    let mut root = tree_a();
    let other = vec![entry("other", false)];
    assert_eq!(root.expand_dir(&TreeIndex::root(), Ok(other), PathNodeSort::DirsTop), Ok(()));
    assert_eq!(row_names(&root), vec!["/a", "dir1", "file1"]);
}

#[test]
fn expand_of_a_file_is_a_no_op() {
    let mut root = tree_a();
    let file1 = TreeIndex::new(vec![1]);
    let listing = Err(PathError::PathUnreadable);
    assert_eq!(root.expand_dir(&file1, listing, PathNodeSort::DirsTop), Ok(()));
    assert!(!root.children[1].is_expanded);
    assert_eq!(row_names(&root), vec!["/a", "dir1", "file1"]);
}

#[test]
fn expand_with_a_failed_read_changes_nothing() {
    let mut root = tree_a();
    let dir1 = TreeIndex::new(vec![0]);
    assert_eq!(
        root.expand_dir(&dir1, Err(PathError::PathUnreadable), PathNodeSort::DirsTop),
        Err(PathError::PathUnreadable)
    );
    assert_eq!(
        root.expand_dir(&dir1, Err(PathError::PathNotFound), PathNodeSort::DirsTop),
        Err(PathError::PathNotFound)
    );
    assert!(!root.children[0].is_expanded);
    assert_eq!(row_names(&root), vec!["/a", "dir1", "file1"]);
}

#[test]
fn stale_index_is_refused() {
    let mut root = tree_a();
    let stale = TreeIndex::new(vec![2]);
    assert!(matches!(root.get_child_path_node(&stale), Err(PathError::StaleIndex)));
    assert_eq!(
        root.expand_dir(&stale, Ok(Vec::new()), PathNodeSort::DirsTop),
        Err(PathError::StaleIndex)
    );
    assert_eq!(root.collapse_dir(&stale), Err(PathError::StaleIndex));
    let deeper = TreeIndex::new(vec![0, 0]);
    assert!(matches!(root.get_child_path_node(&deeper), Err(PathError::StaleIndex)));
    assert_eq!(row_names(&root), vec!["/a", "dir1", "file1"]);
}

#[test]
fn get_child_path_node_descends() {
    let mut root = tree_a();
    let dir1 = TreeIndex::new(vec![0]);
    root.expand_dir(&dir1, Ok(vec![entry("file2", false)]), PathNodeSort::DirsTop).unwrap();
    assert_eq!(root.get_child_path_node(&TreeIndex::root()).unwrap().absolute_path, "/a");
    assert_eq!(root.get_child_path_node(&dir1).unwrap().absolute_path, "/a/dir1");
    let file2 = TreeIndex::new(vec![0, 0]);
    assert_eq!(root.get_child_path_node(&file2).unwrap().absolute_path, "/a/dir1/file2");
    let file1 = TreeIndex::new(vec![1]);
    assert_eq!(root.get_child_path_node(&file1).unwrap().absolute_path, "/a/file1");
}

#[test]
fn row_addresses_resolve_to_the_rows_nodes() {
    let mut root = tree_a();
    let dir1 = TreeIndex::new(vec![0]);
    let listing = vec![entry("sub", true), entry("file2", false)];
    root.expand_dir(&dir1, Ok(listing), PathNodeSort::DirsTop).unwrap();
    let sub = TreeIndex::new(vec![0, 0]);
    root.expand_dir(&sub, Ok(vec![entry("deep", false)]), PathNodeSort::DirsTop).unwrap();

    let composer = Composer::new(Config::default());
    let rows = composer.compose_path_node(&root);
    let expected: Vec<Vec<usize>> =
        vec![vec![], vec![0], vec![0, 0], vec![0, 0, 0], vec![0, 1], vec![1]];
    assert_eq!(rows.len(), expected.len());
    for r in 0..rows.len() {
        let index = root.flat_index_to_tree_index(r);
        assert_eq!(index.index, expected[r]);
        let node = root.get_child_path_node(&index).unwrap();
        assert_eq!(node.display_text, rows[r].name);
        assert_eq!(node.is_dir, rows[r].is_dir);
        assert_eq!(index.depth(), rows[r].depth);
    }
    let names: Vec<String> = rows.iter().map(|row| row.name.clone()).collect();
    assert_eq!(names, vec!["/a", "dir1", "sub", "deep", "file2", "file1"]);
}

#[test]
fn collapse_undoes_expand() {
    let mut root = tree_a();
    let before = row_names(&root);
    let dir1 = TreeIndex::new(vec![0]);
    let listing = vec![entry("x", false), entry("y", false), entry("z", true)];
    root.expand_dir(&dir1, Ok(listing), PathNodeSort::DirsTop).unwrap();
    assert_eq!(row_names(&root).len(), before.len() + 3);
    root.collapse_dir(&dir1).unwrap();
    assert_eq!(row_names(&root), before);
    assert!(root.children[0].children.is_empty());
    assert!(!root.children[0].is_expanded);
}

#[test]
fn collapse_loses_deeper_expand_state() {
    let mut root = tree_a();
    let dir1 = TreeIndex::new(vec![0]);
    root.expand_dir(&dir1, Ok(vec![entry("sub", true)]), PathNodeSort::DirsTop).unwrap();
    let sub = TreeIndex::new(vec![0, 0]);
    root.expand_dir(&sub, Ok(vec![entry("deep", false)]), PathNodeSort::DirsTop).unwrap();
    assert_eq!(row_names(&root), vec!["/a", "dir1", "sub", "deep", "file1"]);

    root.collapse_dir(&dir1).unwrap();
    assert_eq!(row_names(&root), vec!["/a", "dir1", "file1"]);
    root.expand_dir(&dir1, Ok(vec![entry("sub", true)]), PathNodeSort::DirsTop).unwrap();
    assert_eq!(row_names(&root), vec!["/a", "dir1", "sub", "file1"]);
    assert!(!root.children[0].children[0].is_expanded);
}

#[test]
fn collapse_of_a_collapsed_node_is_a_no_op() {
    let mut root = tree_a();
    assert_eq!(root.collapse_dir(&TreeIndex::new(vec![0])), Ok(()));
    assert_eq!(root.collapse_dir(&TreeIndex::new(vec![1])), Ok(()));
    assert_eq!(row_names(&root), vec!["/a", "dir1", "file1"]);
}

#[test]
fn collapse_of_the_root_leaves_one_row() {
    let mut root = tree_a();
    assert_eq!(root.collapse_dir(&TreeIndex::root()), Ok(()));
    assert_eq!(row_names(&root), vec!["/a"]);
    assert!(root.children.is_empty());
}

#[test]
fn join_adds_one_separator() {
    assert_eq!(join("/a", "b"), "/a/b");
    assert_eq!(join("/a/", "b"), "/a/b");
    assert_eq!(join("/", "b"), "/b");
    assert_eq!(join("", "b"), "b");
    assert_eq!(join(".", "b"), "./b");
    assert_eq!(join("/ä", "ö"), "/ä/ö");
}

#[test]
fn sort_dirs_top() {
    let listing = vec![
        entry("b", false),
        entry("z", true),
        entry("a", false),
        entry("m", true),
        entry("B", false),
    ];
    let sorted = PathNodeSort::DirsTop.sort(listing);
    assert_eq!(names_of(&sorted), vec!["m", "z", "B", "a", "b"]);
    assert!(sorted[0].is_dir && sorted[1].is_dir && !sorted[2].is_dir);
}

#[test]
fn sort_dirs_bot() {
    let listing = vec![
        entry("b", false),
        entry("z", true),
        entry("a", false),
        entry("m", true),
    ];
    let sorted = PathNodeSort::DirsBot.sort(listing);
    assert_eq!(names_of(&sorted), vec!["a", "b", "m", "z"]);
}

#[test]
fn sort_by_name() {
    let listing = vec![
        entry("b", false),
        entry("z", true),
        entry("a", false),
        entry("ab", true),
        entry("", false),
    ];
    let sorted = PathNodeSort::Name.sort(listing);
    assert_eq!(names_of(&sorted), vec!["", "a", "ab", "b", "z"]);
}

#[test]
fn sort_unsorted_keeps_the_order() {
    let listing = vec![entry("b", false), entry("z", true), entry("a", false)];
    let sorted = PathNodeSort::Unsorted.sort(listing);
    assert_eq!(names_of(&sorted), vec!["b", "z", "a"]);
}

#[test]
fn sort_keeps_every_entry() {
    let listing = vec![entry("a", false), entry("a", true), entry("a", false)];
    let sorted = PathNodeSort::DirsTop.sort(listing);
    assert_eq!(sorted.len(), 3);
    assert!(sorted[0].is_dir);
    assert!(!sorted[1].is_dir && !sorted[2].is_dir);
    assert!(PathNodeSort::Name.sort(Vec::new()).is_empty());
}

#[test]
fn sort_orders_by_code_point() {
    let listing = vec![entry("é", false), entry("z", false), entry("Z", false), entry("10", false), entry("9", false)];
    let sorted = PathNodeSort::Name.sort(listing);
    assert_eq!(names_of(&sorted), vec!["10", "9", "Z", "z", "é"]);
}

#[test]
fn comes_before_follows_the_policy() {
    let dir = entry("b", true);
    let file = entry("a", false);
    assert!(PathNodeSort::DirsTop.comes_before(&dir, &file));
    assert!(!PathNodeSort::DirsTop.comes_before(&file, &dir));
    assert!(PathNodeSort::DirsBot.comes_before(&file, &dir));
    assert!(!PathNodeSort::DirsBot.comes_before(&dir, &file));
    assert!(PathNodeSort::Name.comes_before(&file, &dir));
    assert!(!PathNodeSort::Name.comes_before(&dir, &file));
    assert!(!PathNodeSort::Unsorted.comes_before(&file, &dir));
    assert!(!PathNodeSort::Unsorted.comes_before(&dir, &file));
    assert!(!PathNodeSort::Name.comes_before(&dir, &dir));
}

#[test]
fn sort_policy_by_name() {
    assert_eq!(PathNodeSort::from_name("dirs_top_simple"), PathNodeSort::DirsTop);
    assert_eq!(PathNodeSort::from_name("dirs_bot_simple"), PathNodeSort::DirsBot);
    assert_eq!(PathNodeSort::from_name("name"), PathNodeSort::Name);
    assert_eq!(PathNodeSort::from_name("none"), PathNodeSort::Unsorted);
    assert_eq!(PathNodeSort::from_name("whatever"), PathNodeSort::DirsTop);
    assert_eq!(PathNodeSort::from_name(""), PathNodeSort::DirsTop);
}

#[test]
fn tree_index_root_and_child() {
    let root = TreeIndex::root();
    assert!(root.index.is_empty());
    assert_eq!(root.depth(), 0);
    let child = root.child(3);
    assert_eq!(child.index, vec![3]);
    let grandchild = child.child(0);
    assert_eq!(grandchild.index, vec![3, 0]);
    assert_eq!(grandchild.depth(), 2);
    assert_eq!(child.index, vec![3]);
    assert_eq!(TreeIndex::new(vec![1, 2]).index, vec![1, 2]);
}

#[test]
fn tree_index_equality_is_sequence_wise() {
    assert!(TreeIndex::new(vec![1, 2]) == TreeIndex::new(vec![1, 2]));
    assert!(TreeIndex::new(vec![1, 2]) != TreeIndex::new(vec![1, 3]));
    assert!(TreeIndex::new(vec![1, 2]) != TreeIndex::new(vec![1]));
    assert!(TreeIndex::new(vec![1]) != TreeIndex::new(vec![1, 2]));
    assert!(TreeIndex::root() == TreeIndex::new(Vec::new()));
    assert!(TreeIndex::root() != TreeIndex::new(vec![0]));
}

#[test]
fn tree_index_order_is_lexicographic() {
    assert!(TreeIndex::root() < TreeIndex::new(vec![0]));
    assert!(TreeIndex::new(vec![0]) < TreeIndex::new(vec![0, 0]));
    assert!(TreeIndex::new(vec![0, 5]) < TreeIndex::new(vec![1]));
    assert!(TreeIndex::new(vec![1]) > TreeIndex::new(vec![0, 5]));
    assert!(TreeIndex::new(vec![2, 1]) > TreeIndex::new(vec![2, 0, 9]));
    assert!(!(TreeIndex::new(vec![2]) < TreeIndex::new(vec![2])));
    assert!(TreeIndex::new(vec![2]) <= TreeIndex::new(vec![2]));
    assert!(TreeIndex::new(vec![0]).precedes(&TreeIndex::new(vec![1])));
    assert!(!TreeIndex::new(vec![1]).precedes(&TreeIndex::new(vec![1])));
    assert!(!TreeIndex::new(vec![1, 0]).precedes(&TreeIndex::new(vec![1])));
}
