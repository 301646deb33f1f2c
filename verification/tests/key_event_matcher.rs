use twilight_commander::controller::{Action, EventQueue, Key, PathReport};
use twilight_commander::model::config::Config;
use twilight_commander::model::listing::DirEntry;
use twilight_commander::model::path_node::{PathError, PathNode};
use twilight_commander::model::tree_index::TreeIndex;
use twilight_commander::view::composer::Composer;
use twilight_commander::view::Pager;

fn prepare_event_queue() -> EventQueue {
    let config = Config::default();

    let composer = Composer::new(config.clone());
    let pager = Pager::new(config.clone(), 24);
    let path_node = PathNode::new(&config.setup.working_dir, Ok(true)).unwrap();

    EventQueue::new(config, composer, pager, path_node)
}

fn entry(name: &str, is_dir: bool) -> DirEntry {
    DirEntry { name: String::from(name), is_dir }
}

fn names(event_queue: &EventQueue) -> Vec<String> {
    event_queue.text_entries.iter().map(|row| row.name.clone()).collect()
}

/// A browser on `/a`, which holds `dir1/` and `file1`, with the root expanded.
fn browser_on_a(file_action: &str) -> EventQueue {
    let mut config = Config::default();
    config.behavior.file_action = String::from(file_action);
    config.setup.working_dir = String::from("/a");
    let composer = Composer::new(config.clone());
    let pager = Pager::new(config.clone(), 10);
    let mut root = PathNode::new("/a", Ok(true)).unwrap();
    let listing = vec![entry("file1", false), entry("dir1", true)];
    let sort = twilight_commander::model::listing::PathNodeSort::DirsTop;
    assert_eq!(root.expand_dir(&TreeIndex::root(), Ok(listing), sort), Ok(()));
    EventQueue::new(config, composer, pager, root)
}

#[test]
fn match_key_event_default_test() {
    let result = {
        let mut event_queue = prepare_event_queue();
        event_queue.match_key_event(Key::__IsNotComplete, PathReport::unread())
    };

    assert!(result.is_some());
}

#[test]
fn match_key_event_q_test() {
    let result = {
        let mut event_queue = prepare_event_queue();
        event_queue.match_key_event(Key::Char('q'), PathReport::unread())
    };

    assert!(result.is_none());
}

#[test]
fn match_key_event_r_test() {
    let result = {
        let mut event_queue = prepare_event_queue();
        event_queue.match_key_event(Key::Char('r'), PathReport::unread())
    };

    assert!(result.is_some());
}

#[test]
fn match_key_event_return_test() {
    let result = {
        let mut event_queue = prepare_event_queue();
        event_queue.match_key_event(Key::Char('\u{0A}'), PathReport::unread())
    };

    assert!(result.is_some());
}

#[test]
fn match_key_event_up_test() {
    let result = {
        let mut event_queue = prepare_event_queue();
        event_queue.match_key_event(Key::Up, PathReport::unread())
    };

    assert!(result.is_some());
}

#[test]
fn match_key_event_down_test() {
    let result = {
        let mut event_queue = prepare_event_queue();
        event_queue.match_key_event(Key::Down, PathReport::unread())
    };

    assert!(result.is_some());
}

#[test]
fn match_key_event_left_test() {
    let result = {
        let mut event_queue = prepare_event_queue();
        event_queue.match_key_event(Key::Left, PathReport::unread())
    };

    assert!(result.is_some());
}

#[test]
fn match_key_event_right_test() {
    let result = {
        let mut event_queue = prepare_event_queue();
        event_queue.match_key_event(Key::Right, PathReport::unread())
    };

    assert!(result.is_some());
}

#[test]
fn new_composes_rows_and_places_cursor() {
    let event_queue = browser_on_a("true");
    assert_eq!(names(&event_queue), vec!["/a", "dir1", "file1"]);
    assert_eq!(event_queue.pager.cursor_row, 0);
    assert_eq!(event_queue.pager.top_row, 0);
}

#[test]
fn unbound_key_changes_nothing() {
    let mut event_queue = browser_on_a("true");
    let result = event_queue.match_key_event(Key::Char('x'), PathReport::unread());
    assert!(matches!(result, Some(Action::Nothing)));
    assert_eq!(names(&event_queue), vec!["/a", "dir1", "file1"]);
    assert_eq!(event_queue.pager.cursor_row, 0);
}

#[test]
fn down_and_up_move_the_cursor_and_wrap() {
    let mut event_queue = browser_on_a("true");
    match event_queue.match_key_event(Key::Down, PathReport::unread()) {
        Some(Action::Redraw(frame)) => {
            assert_eq!(frame.title, "/a");
            assert_eq!(frame.cursor_line, 1);
            assert_eq!(frame.lines, vec!["▼ /a/", "  ▶ dir1/", "    file1"]);
        }
        other => panic!("{:?}", other),
    }
    assert_eq!(event_queue.pager.cursor_row, 1);
    event_queue.do_entry_down();
    assert_eq!(event_queue.pager.cursor_row, 2);
    event_queue.do_entry_down();
    assert_eq!(event_queue.pager.cursor_row, 0);
    event_queue.do_entry_up();
    assert_eq!(event_queue.pager.cursor_row, 2);
    event_queue.match_key_event(Key::Up, PathReport::unread());
    assert_eq!(event_queue.pager.cursor_row, 1);
}

#[test]
fn right_expands_the_directory_under_the_cursor() {
    let mut event_queue = browser_on_a("true");
    event_queue.do_entry_down();
    assert_eq!(event_queue.path_to_read(Key::Right), Some(String::from("/a/dir1")));
    let report = PathReport { is_dir: Ok(true), listing: Ok(vec![entry("file2", false)]) };
    let result = event_queue.match_key_event(Key::Right, report);
    assert!(matches!(result, Some(Action::Redraw(_))));
    assert_eq!(names(&event_queue), vec!["/a", "dir1", "file2", "file1"]);
    assert_eq!(event_queue.pager.cursor_row, 1);
    assert_eq!(event_queue.path_to_read(Key::Right), None);
}

#[test]
fn right_with_a_failed_read_leaves_the_rows() {
    let mut event_queue = browser_on_a("true");
    event_queue.do_entry_down();
    let result = event_queue.do_expand_dir(Err(PathError::PathUnreadable));
    assert!(matches!(result, Some(Action::Redraw(_))));
    assert_eq!(names(&event_queue), vec!["/a", "dir1", "file1"]);
    assert!(!event_queue.path_node.children[0].is_expanded);
}

#[test]
fn right_on_a_file_changes_nothing() {
    let mut event_queue = browser_on_a("true");
    event_queue.do_entry_up();
    assert_eq!(event_queue.pager.cursor_row, 2);
    assert_eq!(event_queue.path_to_read(Key::Right), None);
    event_queue.do_expand_dir(Ok(vec![entry("ghost", false)]));
    assert_eq!(names(&event_queue), vec!["/a", "dir1", "file1"]);
}

#[test]
fn left_collapses_the_directory_under_the_cursor() {
    let mut event_queue = browser_on_a("true");
    event_queue.do_entry_down();
    event_queue.do_expand_dir(Ok(vec![entry("file2", false)]));
    assert_eq!(names(&event_queue), vec!["/a", "dir1", "file2", "file1"]);
    let result = event_queue.match_key_event(Key::Left, PathReport::unread());
    assert!(matches!(result, Some(Action::Redraw(_))));
    assert_eq!(names(&event_queue), vec!["/a", "dir1", "file1"]);
    assert_eq!(event_queue.pager.cursor_row, 1);
}

#[test]
fn left_on_the_root_leaves_one_row() {
    let mut event_queue = browser_on_a("true");
    event_queue.do_collapse_dir();
    assert_eq!(names(&event_queue), vec!["/a"]);
    assert_eq!(event_queue.pager.cursor_row, 0);
}

#[test]
fn return_on_a_file_asks_for_the_file_action() {
    let mut event_queue = browser_on_a("xdg-open %s && echo %s");
    event_queue.do_entry_up();
    match event_queue.match_key_event(Key::Char('\u{0A}'), PathReport::unread()) {
        Some(Action::Spawn(line)) => assert_eq!(line, "xdg-open /a/file1 && echo /a/file1"),
        other => panic!("{:?}", other),
    }
}

#[test]
fn return_on_a_directory_asks_for_nothing() {
    let mut event_queue = browser_on_a("xdg-open %s");
    event_queue.do_entry_down();
    assert!(matches!(event_queue.do_file_action(), Some(Action::Nothing)));
}

#[test]
fn quit_ends_the_browser() {
    let mut event_queue = browser_on_a("true");
    assert!(event_queue.do_quit().is_none());
    assert_eq!(names(&event_queue), vec!["/a", "dir1", "file1"]);
}

#[test]
fn reload_expands_only_the_root() {
    let mut event_queue = browser_on_a("true");
    event_queue.do_entry_down();
    event_queue.do_expand_dir(Ok(vec![entry("file2", false)]));
    event_queue.do_entry_down();
    event_queue.do_entry_down();
    assert_eq!(event_queue.pager.cursor_row, 3);
    assert_eq!(event_queue.path_to_read(Key::Char('r')), Some(String::from("/a")));
    let report = PathReport {
        is_dir: Ok(true),
        listing: Ok(vec![entry("dir1", true), entry("file1", false)]),
    };
    let result = event_queue.match_key_event(Key::Char('r'), report);
    assert!(matches!(result, Some(Action::Redraw(_))));
    assert_eq!(names(&event_queue), vec!["/a", "dir1", "file1"]);
    assert!(!event_queue.path_node.children[0].is_expanded);
    assert_eq!(event_queue.pager.cursor_row, 0);
}

#[test]
fn reload_of_a_lost_directory_leaves_the_tree() {
    let mut event_queue = browser_on_a("true");
    let report = PathReport { is_dir: Err(PathError::PathNotFound), listing: Err(PathError::PathNotFound) };
    let result = event_queue.do_reload(report);
    assert!(matches!(result, Some(Action::Redraw(_))));
    assert_eq!(names(&event_queue), vec!["/a", "dir1", "file1"]);
}

#[test]
fn reload_with_a_failed_listing_shows_the_root_alone() {
    let mut event_queue = browser_on_a("true");
    let report = PathReport { is_dir: Ok(true), listing: Err(PathError::PathUnreadable) };
    event_queue.do_reload(report);
    assert_eq!(names(&event_queue), vec!["/a"]);
}

#[test]
fn unread_report_holds_no_answer() {
    let report = PathReport::unread();
    assert_eq!(report.is_dir, Err(PathError::PathUnreadable));
    assert!(matches!(report.listing, Err(PathError::PathUnreadable)));
}
