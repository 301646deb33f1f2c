//! The window onto the rows: where the cursor is and which rows are in view.

use crate::model::config::Config;
use crate::text::str_eq;
use crate::view::composer::{rows_view, DisplayRow, Row};
use vstd::prelude::*;

verus! {

/// How the window follows the cursor.
#[derive(Clone, Copy, Debug, PartialEq, Eq, Structural)]
pub enum Scrolling {
    /// The cursor is kept in the middle of the window where the listing
    /// allows it.
    Center,
    /// The window moves only when the cursor leaves it, and then just far
    /// enough.
    Editor,
}

impl Scrolling {
    /// The mode that a setting names: `center`, or else `Editor`.
    pub open spec fn named(name: Seq<char>) -> Scrolling {
        if name == "center"@ {
            Scrolling::Center
        } else {
            Scrolling::Editor
        }
    }

    /// The mode that a setting names.
    pub fn from_name(name: &str) -> (r: Scrolling)
        ensures
            r == Self::named(name@),
    {
        if str_eq(name, "center") {
            Scrolling::Center
        } else {
            Scrolling::Editor
        }
    }

    /// The first row in view, for a window of `height >= 1` rows that
    /// showed `top` first, once the cursor is on row `cursor` of `len`.
    pub open spec fn top_row(self, top: int, cursor: int, len: int, height: int) -> int {
        match self {
            Scrolling::Editor => {
                if cursor < top {
                    cursor
                } else if cursor >= top + height {
                    cursor - height + 1
                } else {
                    top
                }
            },
            Scrolling::Center => {
                let wanted = cursor - height / 2;
                let last = if len > height {
                    len - height
                } else {
                    0
                };
                if wanted < 0 {
                    0
                } else if wanted > last {
                    last
                } else {
                    wanted
                }
            },
        }
    }
}

/// The row that the cursor is on after a move by `delta` over `len` rows:
/// a move past either end lands on the other end, and on an empty listing
/// the cursor is on row 0.
pub open spec fn wrap_cursor(cursor: int, delta: int, len: int) -> int {
    if len <= 0 {
        0
    } else if cursor + delta < 0 {
        len - 1
    } else if cursor + delta >= len {
        0
    } else {
        cursor + delta
    }
}

/// What the terminal has to draw.
#[derive(Clone, Debug)]
pub struct Frame {
    pub title: String,
    /// The text of the rows in view, from the top.
    pub lines: Vec<String>,
    /// Which of `lines` the cursor is on.
    pub cursor_line: usize,
}

/// The texts of a frame's lines.
pub open spec fn lines_view(lines: Seq<String>) -> Seq<Seq<char>> {
    lines.map_values(|s: String| s@)
}

/// The texts of rows.
pub open spec fn texts(rows: Seq<Row>) -> Seq<Seq<char>> {
    rows.map_values(|r: Row| r.text)
}

/// The cursor and the window.
#[derive(Clone, Copy, Debug)]
pub struct Pager {
    pub scrolling: Scrolling,
    /// The row that the cursor is on.
    pub cursor_row: usize,
    /// The first row in view.
    pub top_row: usize,
    /// How many rows the terminal can show.
    pub viewport_height: usize,
}

impl Pager {
    /// The height that scrolling reckons with: at least one row.
    pub open spec fn height(&self) -> int {
        if self.viewport_height == 0 {
            1
        } else {
            self.viewport_height as int
        }
    }

    /// The cursor is on a row of the listing, and that row is in view.
    pub open spec fn in_view(&self, len: nat) -> bool {
        &&& (len > 0 ==> self.cursor_row < len)
        &&& (len == 0 ==> self.cursor_row == 0)
        &&& self.top_row <= self.cursor_row < self.top_row + self.height()
    }

    /// One past the last row in view, of `len` rows.
    pub open spec fn end_row(&self, len: nat) -> int {
        if self.top_row + self.viewport_height <= len {
            self.top_row + self.viewport_height
        } else if self.top_row <= len {
            len as int
        } else {
            self.top_row as int
        }
    }

    /// The pager after a move of the cursor by `delta` over `len` rows: the
    /// cursor has wrapped at the ends and the window has followed it.
    pub open spec fn moved(self, delta: int, len: nat) -> Pager {
        let cursor = wrap_cursor(self.cursor_row as int, delta, len as int);
        Pager {
            cursor_row: cursor as usize,
            top_row: self.scrolling.top_row(
                self.top_row as int,
                cursor,
                len as int,
                self.height(),
            ) as usize,
            ..self
        }
    }

    /// `frame` is what this pager shows of `rows` under `title`: the rows
    /// in view, and the line that the cursor is on.
    pub open spec fn shows(&self, frame: Frame, rows: Seq<Row>, title: Seq<char>) -> bool {
        &&& frame.title@ == title
        &&& frame.cursor_line == self.cursor_row - self.top_row
        &&& lines_view(frame.lines@) == texts(
            rows.subrange(self.top_row as int, self.end_row(rows.len())),
        )
    }

    /// A pager for a terminal that shows `viewport_height` rows, with the
    /// cursor on the first row.
    pub fn new(config: Config, viewport_height: usize) -> (r: Self)
        ensures
            r.scrolling == Scrolling::named(config.behavior.scrolling@),
            r.cursor_row == 0,
            r.top_row == 0,
            r.viewport_height == viewport_height,
    {
        Pager {
            scrolling: Scrolling::from_name(config.behavior.scrolling.as_str()),
            cursor_row: 0,
            top_row: 0,
            viewport_height,
        }
    }

    /// Tells the pager how many rows the terminal shows now.
    pub fn set_viewport_height(&mut self, viewport_height: usize)
        ensures
            *final(self) == (Pager { viewport_height, ..*old(self) }),
    {
        self.viewport_height = viewport_height;
    }

    /// The rows in view, of `len` rows: the first of them and one past the
    /// last.
    pub fn visible_rows(&self, len: usize) -> (r: (usize, usize))
        ensures
            r.0 == self.top_row,
            r.1 == self.end_row(len as nat),
            r.0 <= r.1,
    {
        if self.top_row >= len {
            (self.top_row, self.top_row)
        } else if self.viewport_height >= len - self.top_row {
            (self.top_row, len)
        } else {
            (self.top_row, self.top_row + self.viewport_height)
        }
    }

    /// The row that the cursor moves to.
    fn moved_cursor(cursor: usize, delta: i32, len: usize) -> (r: usize)
        ensures
            r == wrap_cursor(cursor as int, delta as int, len as int),
    {
        if len == 0 {
            0
        } else if delta < 0 {
            let back: usize = (-(delta as i64)) as usize;
            if back > cursor {
                len - 1
            } else if cursor - back >= len {
                0
            } else {
                cursor - back
            }
        } else {
            let forth: usize = delta as usize;
            if cursor >= len || forth >= len - cursor {
                0
            } else {
                cursor + forth
            }
        }
    }

    /// The first row in view after the cursor has moved.
    fn scrolled_top(&self, cursor: usize, len: usize) -> (r: usize)
        requires
            len > 0 ==> cursor < len,
            len == 0 ==> cursor == 0,
        ensures
            r == self.scrolling.top_row(
                self.top_row as int,
                cursor as int,
                len as int,
                self.height(),
            ),
            r <= cursor < r + self.height(),
    {
        let height: usize = if self.viewport_height == 0 {
            1
        } else {
            self.viewport_height
        };
        match self.scrolling {
            Scrolling::Editor => {
                if cursor < self.top_row {
                    cursor
                } else if cursor - self.top_row >= height {
                    cursor - height + 1
                } else {
                    self.top_row
                }
            },
            Scrolling::Center => {
                let half: usize = height / 2;
                let last: usize = if len > height {
                    len - height
                } else {
                    0
                };
                if cursor < half {
                    0
                } else if cursor - half > last {
                    last
                } else {
                    cursor - half
                }
            },
        }
    }

    /// Moves the cursor by `cursor_delta` rows over `rows`, wrapping at the
    /// ends, lets the window follow it, and hands back what is to be drawn:
    /// the title and the rows in view.
    pub fn update(&mut self, cursor_delta: i32, rows: &Vec<DisplayRow>, title: String) -> (frame:
        Frame)
        ensures
            *final(self) == old(self).moved(cursor_delta as int, rows@.len()),
            final(self).in_view(rows@.len()),
            final(self).shows(frame, rows_view(rows@), title@),
    {
        let len = rows.len();
        let cursor = Self::moved_cursor(self.cursor_row, cursor_delta, len);
        let top = self.scrolled_top(cursor, len);
        self.cursor_row = cursor;
        self.top_row = top;
        let (_, end) = self.visible_rows(len);
        let mut lines: Vec<String> = Vec::new();
        let mut i: usize = top;
        while i < end
            invariant
                top <= i <= end <= rows@.len(),
                lines@.len() == i - top,
                forall|k: int| 0 <= k < i - top ==> (#[trigger] lines@[k])@ == rows@[top + k].text@,
            decreases end - i,
        {
            lines.push(rows[i].text.clone());
            i += 1;
        }
        assert(lines_view(lines@) =~= texts(rows_view(rows@).subrange(top as int, end as int)));
        Frame { title, lines, cursor_line: cursor - top }
    }
}

} // verus!
