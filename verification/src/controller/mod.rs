//! The handling of commands: what each key does to the tree, the rows and
//! the pager, and what it asks of the terminal and the filesystem.

use crate::model::config::Config;
use crate::model::listing::{DirEntry, PathNodeSort};
use crate::model::path_node::{PathError, PathNode};
use crate::model::tree_model::{Tree, Visit};
use crate::view::composer::{rows_view, Composer, DisplayRow};
use crate::view::pager::{Frame, Pager};
use vstd::prelude::*;

pub mod key_event_matcher;

verus! {

/// A key, as the terminal reports it.
#[allow(non_camel_case_types)]
#[derive(Clone, Copy, Debug, PartialEq, Eq, Structural)]
pub enum Key {
    Backspace,
    Left,
    Right,
    Up,
    Down,
    Home,
    End,
    PageUp,
    PageDown,
    BackTab,
    Delete,
    Insert,
    /// A function key, by its number.
    F(u8),
    /// A character key.
    Char(char),
    /// A character key with Alt held.
    Alt(char),
    /// A character key with Ctrl held.
    Ctrl(char),
    Null,
    Esc,
    /// A key that the terminal could not tell.
    __IsNotComplete,
}

/// What the filesystem reader found at a path.
#[derive(Debug)]
pub struct PathReport {
    /// Whether the path is a directory, or why that could not be told.
    pub is_dir: Result<bool, PathError>,
    /// The entries of the directory, or why they could not be read.
    pub listing: Result<Vec<DirEntry>, PathError>,
}

impl PathReport {
    /// The report for a path that was not looked at.
    pub fn unread() -> (r: Self)
        ensures
            r.is_dir == Err::<bool, PathError>(PathError::PathUnreadable),
            r.listing == Err::<Vec<DirEntry>, PathError>(PathError::PathUnreadable),
    {
        PathReport {
            is_dir: Err(PathError::PathUnreadable),
            listing: Err(PathError::PathUnreadable),
        }
    }
}

/// What is to be done once a key has been handled.
#[derive(Clone, Debug)]
pub enum Action {
    /// Draw this frame.
    Redraw(Frame),
    /// Run this command line in a shell, without waiting for it.
    Spawn(String),
    /// Nothing.
    Nothing,
}

/// The state of the browser between two keys.
#[derive(Debug)]
pub struct EventQueue {
    pub config: Config,
    pub composer: Composer,
    pub pager: Pager,
    pub path_node: PathNode,
    /// The order in which the entries of a directory are shown.
    pub path_node_sort: PathNodeSort,
    /// The rows of the listing, as last composed.
    pub text_entries: Vec<DisplayRow>,
}

impl EventQueue {
    /// The rows are those of the tree, and the cursor is on one of them.
    pub open spec fn wf(&self) -> bool {
        &&& rows_view(self.text_entries@) == self.composer.composed(self.path_node@)
        &&& self.pager.cursor_row < self.text_entries@.len()
    }

    /// The node that the cursor is on, with its address.
    pub open spec fn cursor_visit(&self) -> Visit {
        self.path_node@.rows()[self.pager.cursor_row as int]
    }

    /// `self` is `before` after the tree has become `tree`, the rows have
    /// been composed anew and the cursor has moved over them by `delta`, and
    /// `result` asks to draw what the pager shows then, under the path of
    /// the root as the title.
    pub open spec fn redrawn(
        &self,
        before: EventQueue,
        tree: Tree,
        delta: int,
        result: Option<Action>,
    ) -> bool {
        &&& self.config == before.config
        &&& self.composer == before.composer
        &&& self.path_node_sort == before.path_node_sort
        &&& self.path_node@ == tree
        &&& (before.path_node.wf() ==> self.path_node.wf())
        &&& self.wf()
        &&& self.pager == before.pager.moved(delta, self.text_entries@.len())
        &&& self.pager.in_view(self.text_entries@.len())
        &&& result matches Some(Action::Redraw(frame)) && self.pager.shows(
            frame,
            rows_view(self.text_entries@),
            tree.path,
        )
    }

    /// With well-formed rows the cursor is on a row of the tree.
    pub proof fn lemma_cursor_on_row(&self)
        requires
            self.wf(),
        ensures
            self.text_entries@.len() == self.path_node@.rows().len(),
            self.pager.cursor_row < self.path_node@.rows().len(),
    {
        self.path_node@.lemma_rows_start_with_root();
        assert(rows_view(self.text_entries@).len() == self.text_entries@.len());
    }

    /// The browser on the tree below `path_node`, with the rows composed and
    /// the cursor brought onto them.
    pub fn new(config: Config, composer: Composer, pager: Pager, path_node: PathNode) -> (r: Self)
        ensures
            r.wf(),
            r.pager.in_view(r.text_entries@.len()),
            r.config == config,
            r.composer == composer,
            r.path_node == path_node,
            r.path_node_sort == PathNodeSort::named(config.behavior.path_node_sort@),
            r.pager == pager.moved(0, r.text_entries@.len()),
    {
        let path_node_sort = PathNodeSort::from_name(config.behavior.path_node_sort.as_str());
        let text_entries = composer.compose_path_node(&path_node);
        let mut pager = pager;
        let title = path_node.get_absolute_path();
        pager.update(0, &text_entries, title);
        proof {
            path_node@.lemma_rows_start_with_root();
            assert(rows_view(text_entries@).len() == text_entries@.len());
        }
        EventQueue { config, composer, pager, path_node, path_node_sort, text_entries }
    }

    /// Composes the rows anew and moves the cursor over them by `delta`.
    pub(crate) fn refresh(&mut self, delta: i32) -> (r: Option<Action>)
        ensures
            final(self).redrawn(*old(self), old(self).path_node@, delta as int, r),
            final(self).path_node == old(self).path_node,
    {
        self.text_entries = self.composer.compose_path_node(&self.path_node);
        let title = self.path_node.get_absolute_path();
        let frame = self.pager.update(delta, &self.text_entries, title);
        proof {
            self.path_node@.lemma_rows_start_with_root();
            assert(rows_view(self.text_entries@).len() == self.text_entries@.len());
        }
        Some(Action::Redraw(frame))
    }
}

} // verus!
