//! What each key does.

use crate::controller::{Action, EventQueue, Key, PathReport};
use crate::model::listing::{listing_view, DirEntry};
use crate::model::path_node::{PathError, PathNode};
use crate::model::tree_index::TreeIndex;
use crate::model::tree_model::Tree;
use crate::text::{fill_in, filled_in};
use vstd::prelude::*;

verus! {

impl EventQueue {
    /// The tree after the directory under the cursor has been expanded with
    /// `listing`; a failed read leaves it as it is.
    pub open spec fn expanded_tree(&self, listing: Result<Vec<DirEntry>, PathError>) -> Tree {
        match listing {
            Ok(entries) => self.path_node@.expand_at(
                self.cursor_visit().index,
                self.path_node_sort.sorted(listing_view(entries@)),
            ),
            Err(_) => self.path_node@,
        }
    }

    /// The tree after a reload: the working directory as the root, expanded
    /// with its listing where that could be read. Where the working
    /// directory could not be looked at, the tree stays as it is.
    pub open spec fn reloaded_tree(&self, report: PathReport) -> Tree {
        match report.is_dir {
            Err(_) => self.path_node@,
            Ok(d) => {
                let root = Tree::root(self.config.setup.working_dir@, d);
                match report.listing {
                    Ok(entries) => root.expand_at(
                        Seq::empty(),
                        self.path_node_sort.sorted(listing_view(entries@)),
                    ),
                    Err(_) => root,
                }
            },
        }
    }

    /// The command line of the file action for the node under the cursor,
    /// if that is a file.
    pub open spec fn file_action(&self) -> Option<Seq<char>> {
        if self.cursor_visit().node.is_dir {
            None
        } else {
            Some(filled_in(self.config.behavior.file_action@, self.cursor_visit().node.path))
        }
    }

    /// The path that the filesystem reader has to report on before `key` is
    /// handled: for the expand key the directory under the cursor, if it is
    /// collapsed; for the reload key the working directory.
    pub open spec fn wanted_path(&self, key: Key) -> Option<Seq<char>> {
        match key {
            Key::Right => {
                let node = self.cursor_visit().node;
                if node.is_dir && !node.is_expanded {
                    Some(node.path)
                } else {
                    None
                }
            },
            Key::Char('r') => Some(self.config.setup.working_dir@),
            _ => None,
        }
    }

    /// The path that the filesystem reader has to report on before `key` is
    /// handled.
    pub fn path_to_read(&self, key: Key) -> (r: Option<String>)
        requires
            self.wf(),
        ensures
            match self.wanted_path(key) {
                Some(path) => r is Some && r->0@ == path,
                None => r is None,
            },
    {
        match key {
            Key::Right => {
                proof {
                    self.lemma_cursor_on_row();
                    self.path_node@.law_row_address_resolves(self.pager.cursor_row as int);
                }
                let tree_index = self.path_node.flat_index_to_tree_index(self.pager.cursor_row);
                match self.path_node.get_child_path_node(&tree_index) {
                    Ok(node) => {
                        if node.is_dir && !node.is_expanded {
                            Some(node.get_absolute_path())
                        } else {
                            None
                        }
                    },
                    Err(_) => None,
                }
            },
            Key::Char(c) => {
                if c == 'r' {
                    Some(self.config.setup.working_dir.clone())
                } else {
                    None
                }
            },
            _ => None,
        }
    }

    /// Handles `key`. `report` is what the filesystem reader found at the
    /// path that `key` asks for; other keys pay no heed to it. `None` ends
    /// the browser.
    pub fn match_key_event(&mut self, key: Key, report: PathReport) -> (r: Option<Action>)
        requires
            old(self).wf(),
        ensures
            match key {
                Key::Char('q') => r is None && *final(self) == *old(self),
                Key::Up => final(self).redrawn(*old(self), old(self).path_node@, -1, r),
                Key::Down => final(self).redrawn(*old(self), old(self).path_node@, 1, r),
                Key::Right => final(self).redrawn(
                    *old(self),
                    old(self).expanded_tree(report.listing),
                    0,
                    r,
                ),
                Key::Left => final(self).redrawn(
                    *old(self),
                    old(self).path_node@.collapse_at(old(self).cursor_visit().index),
                    0,
                    r,
                ),
                Key::Char('\u{0A}') => *final(self) == *old(self) && match old(self).file_action() {
                    Some(line) => r matches Some(Action::Spawn(s)) && s@ == line,
                    None => r matches Some(Action::Nothing),
                },
                Key::Char('r') => final(self).redrawn(
                    *old(self),
                    old(self).reloaded_tree(report),
                    0,
                    r,
                ),
                _ => *final(self) == *old(self) && r matches Some(Action::Nothing),
            },
    {
        match key {
            Key::Up => self.do_entry_up(),
            Key::Down => self.do_entry_down(),
            Key::Right => self.do_expand_dir(report.listing),
            Key::Left => self.do_collapse_dir(),
            Key::Char(c) => {
                if c == 'q' {
                    self.do_quit()
                } else if c == '\u{0A}' {
                    self.do_file_action()
                } else if c == 'r' {
                    self.do_reload(report)
                } else {
                    Some(Action::Nothing)
                }
            },
            _ => Some(Action::Nothing),
        }
    }

    /// Collapses the node under the cursor.
    pub fn do_collapse_dir(&mut self) -> (r: Option<Action>)
        requires
            old(self).wf(),
        ensures
            final(self).redrawn(
                *old(self),
                old(self).path_node@.collapse_at(old(self).cursor_visit().index),
                0,
                r,
            ),
    {
        proof {
            self.lemma_cursor_on_row();
        }
        let tree_index = self.path_node.flat_index_to_tree_index(self.pager.cursor_row);
        let _ = self.path_node.collapse_dir(&tree_index);
        self.refresh(0)
    }

    /// Moves the cursor one row down; from the last row it goes to the
    /// first.
    pub fn do_entry_down(&mut self) -> (r: Option<Action>)
        requires
            old(self).wf(),
        ensures
            final(self).redrawn(*old(self), old(self).path_node@, 1, r),
    {
        self.refresh(1)
    }

    /// Moves the cursor one row up; from the first row it goes to the last.
    pub fn do_entry_up(&mut self) -> (r: Option<Action>)
        requires
            old(self).wf(),
        ensures
            final(self).redrawn(*old(self), old(self).path_node@, -1, r),
    {
        self.refresh(-1)
    }

    /// Expands the directory under the cursor with the listing that was
    /// read from it. A failed read is passed over: the tree stays as it is.
    pub fn do_expand_dir(&mut self, listing: Result<Vec<DirEntry>, PathError>) -> (r: Option<
        Action,
    >)
        requires
            old(self).wf(),
        ensures
            final(self).redrawn(*old(self), old(self).expanded_tree(listing), 0, r),
    {
        proof {
            self.lemma_cursor_on_row();
            self.path_node@.law_row_address_resolves(self.pager.cursor_row as int);
        }
        let tree_index = self.path_node.flat_index_to_tree_index(self.pager.cursor_row);
        let _ = self.path_node.expand_dir(&tree_index, listing, self.path_node_sort);
        self.refresh(0)
    }

    /// The file action for the node under the cursor: for a file, the
    /// command line to run, which is the configured one with each `%s`
    /// replaced by the path of the file; for a directory, nothing.
    pub fn do_file_action(&mut self) -> (r: Option<Action>)
        requires
            old(self).wf(),
        ensures
            *final(self) == *old(self),
            match old(self).file_action() {
                Some(line) => r matches Some(Action::Spawn(s)) && s@ == line,
                None => r matches Some(Action::Nothing),
            },
    {
        proof {
            self.lemma_cursor_on_row();
            self.path_node@.law_row_address_resolves(self.pager.cursor_row as int);
        }
        let tree_index = self.path_node.flat_index_to_tree_index(self.pager.cursor_row);
        match self.path_node.get_child_path_node(&tree_index) {
            Ok(child_node) => {
                if !child_node.is_dir {
                    let file_path = child_node.get_absolute_path();
                    Some(
                        Action::Spawn(
                            fill_in(self.config.behavior.file_action.as_str(), file_path.as_str()),
                        ),
                    )
                } else {
                    Some(Action::Nothing)
                }
            },
            Err(_) => Some(Action::Nothing),
        }
    }

    /// Ends the browser.
    pub fn do_quit(&mut self) -> (r: Option<Action>)
        ensures
            r is None,
            *final(self) == *old(self),
    {
        None
    }

    /// Starts over from the working directory: the tree is its root alone,
    /// expanded one level with the listing in `report`; what was expanded
    /// below is forgotten. Where the working directory could not be looked
    /// at, the tree stays as it is.
    pub fn do_reload(&mut self, report: PathReport) -> (r: Option<Action>)
        requires
            old(self).wf(),
        ensures
            final(self).redrawn(*old(self), old(self).reloaded_tree(report), 0, r),
    {
        match PathNode::new(self.config.setup.working_dir.as_str(), report.is_dir) {
            Ok(root) => {
                let mut root = root;
                let ghost fresh = root@;
                assert(fresh.node_at(Seq::empty()) == Some(fresh));
                let top = TreeIndex::root();
                let _ = root.expand_dir(&top, report.listing, self.path_node_sort);
                self.path_node = root;
            },
            Err(_) => {},
        }
        self.refresh(0)
    }
}

} // verus!
