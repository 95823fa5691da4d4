//! The document: an ordered sequence of lines, a logical cursor, and the
//! viewport through which the document is shown.

use crate::line::Line;
use crate::model::BufferView;
use crate::terminal::Motion;
use crate::text::{expand_tabs, match_positions, render_to_cursor_position};
use vstd::prelude::*;
use vstd::string::StringExecFns;

verus! {

/// A saved cursor: its position and the viewport that went with it.
#[derive(Clone, Copy, Debug, PartialEq, Eq, Structural)]
pub struct Cursor {
    pub cursor_row: usize,
    pub cursor_col: usize,
    pub row_offset: usize,
    pub col_offset: usize,
}

/// The document being edited.
pub struct Buffer {
    render_col: usize,
    cursor_col: usize,
    cursor_row: usize,
    lines: Vec<Line>,
    row_offset: usize,
    col_offset: usize,
    filename: Option<String>,
    dirty: bool,
}

impl View for Buffer {
    type V = BufferView;

    closed spec fn view(&self) -> BufferView {
        BufferView {
            lines: self.lines@.map_values(|line: Line| line@),
            cursor_row: self.cursor_row as nat,
            cursor_col: self.cursor_col as nat,
            render_col: self.render_col as nat,
            row_offset: self.row_offset as nat,
            col_offset: self.col_offset as nat,
            filename: match self.filename {
                Some(name) => Some(name@),
                None => None,
            },
            dirty: self.dirty,
        }
    }
}

impl Default for Buffer {
    /// The empty document.
    fn default() -> (buffer: Self)
        ensures
            buffer@ == BufferView::empty(),
    {
        Buffer::new()
    }
}

impl Buffer {
    /// An empty, unnamed, clean document with the cursor at its start.
    pub fn new() -> (buffer: Self)
        ensures
            buffer@ == BufferView::empty(),
            buffer@.well_formed(),
    {
        let buffer = Buffer {
            render_col: 0,
            cursor_col: 0,
            cursor_row: 0,
            lines: Vec::new(),
            row_offset: 0,
            col_offset: 0,
            filename: None,
            dirty: false,
        };
        assert(buffer@.lines =~= Seq::empty());
        buffer
    }

    /// Whether the document was changed since it was last marked clean.
    pub fn is_dirty(&self) -> (dirty: bool)
        ensures
            dirty == self@.dirty,
    {
        self.dirty
    }

    /// Marks the document clean.
    pub fn not_dirty(&mut self)
        ensures
            final(self)@ == (BufferView { dirty: false, ..old(self)@ }),
    {
        self.dirty = false;
    }

    /// Whether the document has no rows.
    pub fn is_empty(&self) -> (empty: bool)
        ensures
            empty == (self@.lines.len() == 0),
    {
        self.lines.len() == 0
    }

    /// The name of the file the document belongs to.
    pub fn filename(&self) -> (name: &Option<String>)
        ensures
            name.is_some() == self@.filename.is_some(),
            name.is_some() ==> name.unwrap()@ == self@.filename.unwrap(),
    {
        &self.filename
    }

    /// Names the file the document belongs to, or makes it unnamed.
    pub fn set_filename(&mut self, filename: Option<String>)
        ensures
            final(self)@ == (BufferView {
                filename: match filename {
                    Some(name) => Some(name@),
                    None => None,
                },
                ..old(self)@
            }),
    {
        self.filename = filename;
    }

    /// The number of rows.
    pub fn line_count(&self) -> (count: usize)
        ensures
            count == self@.lines.len(),
    {
        self.lines.len()
    }

    /// The cursor and the viewport, to be restored later.
    pub fn cursor_position(&self) -> (cursor: Cursor)
        ensures
            cursor.cursor_row == self@.cursor_row,
            cursor.cursor_col == self@.cursor_col,
            cursor.row_offset == self@.row_offset,
            cursor.col_offset == self@.col_offset,
    {
        Cursor {
            cursor_row: self.cursor_row,
            cursor_col: self.cursor_col,
            row_offset: self.row_offset,
            col_offset: self.col_offset,
        }
    }

    /// Puts the cursor and the viewport where `cursor` says. The position
    /// has to be on the document.
    pub fn set_cursor_position(&mut self, cursor: Cursor)
        requires
            cursor.cursor_row <= old(self)@.lines.len(),
            cursor.cursor_col <= old(self)@.line_len(cursor.cursor_row as nat),
        ensures
            final(self)@ == (BufferView {
                cursor_row: cursor.cursor_row as nat,
                cursor_col: cursor.cursor_col as nat,
                row_offset: cursor.row_offset as nat,
                col_offset: cursor.col_offset as nat,
                ..old(self)@
            }),
            final(self)@.well_formed(),
    {
        self.cursor_row = cursor.cursor_row;
        self.cursor_col = cursor.cursor_col;
        self.row_offset = cursor.row_offset;
        self.col_offset = cursor.col_offset;
    }

    /// Where the cursor is on the screen: its row and column within the
    /// viewport, both counted from 1. The cursor has to be at or behind the
    /// viewport's corner, as it is after a scroll.
    pub fn cursor_placement(&self) -> (place: (usize, usize))
        requires
            self@.row_offset <= self@.cursor_row < self@.row_offset + usize::MAX,
            self@.col_offset <= self@.render_col < self@.col_offset + usize::MAX,
        ensures
            place.0 == self@.cursor_row - self@.row_offset + 1,
            place.1 == self@.render_col - self@.col_offset + 1,
    {
        (self.cursor_row - self.row_offset + 1, self.render_col - self.col_offset + 1)
    }

    /// Whether the cursor is on the document. It is, unless the cursor was
    /// put elsewhere against what this type's operations ask for.
    pub fn is_well_formed(&self) -> (ok: bool)
        ensures
            ok == self@.well_formed(),
    {
        self.holds(self.cursor_row, self.cursor_col)
    }

    /// Whether `row` and `col` are a position on the document: a column
    /// within a row, or column 0 just below the last row.
    pub fn holds(&self, row: usize, col: usize) -> (valid: bool)
        ensures
            valid == (row <= self@.lines.len() && col <= self@.line_len(row as nat)),
    {
        row <= self.lines.len() && col <= self.line_len(row)
    }

    /// The length of row `row`; rows outside the document are empty.
    fn line_len(&self, row: usize) -> (len: usize)
        ensures
            len == self@.line_len(row as nat),
    {
        if row < self.lines.len() {
            self.lines[row].len()
        } else {
            0
        }
    }

    /// Moves the cursor as `motion` asks, in a viewport of `rows` rows and
    /// `cols` columns.
    pub fn move_cursor(&mut self, motion: Motion, rows: usize, cols: usize)
        ensures
            final(self)@ == old(self)@.move_cursor(motion, rows as nat, cols as nat),
            old(self)@.well_formed() ==> final(self)@.well_formed(),
    {
        let count = self.lines.len();
        let last: usize = if count == 0 {
            0
        } else {
            count - 1
        };
        match motion {
            Motion::Up => {
                if self.cursor_row >= 1 {
                    self.cursor_row -= 1;
                }
            },
            Motion::Left => {
                if self.cursor_col != 0 {
                    self.cursor_col -= 1;
                } else if self.cursor_row > 0 {
                    self.cursor_row -= 1;
                    self.cursor_col = self.line_len(self.cursor_row);
                }
            },
            Motion::Down => {
                self.cursor_row = if self.cursor_row < last {
                    self.cursor_row + 1
                } else {
                    last
                };
            },
            Motion::Right => {
                if self.cursor_row < count {
                    if self.cursor_col < self.line_len(self.cursor_row) {
                        self.cursor_col += 1;
                    } else if self.cursor_row < last {
                        self.cursor_row += 1;
                        self.cursor_col = 0;
                    }
                }
            },
            Motion::PgUp => {
                self.cursor_row = if self.cursor_row >= rows {
                    self.cursor_row - rows
                } else {
                    0
                };
            },
            Motion::PgDn => {
                self.cursor_row = if self.cursor_row <= last && rows <= last - self.cursor_row {
                    self.cursor_row + rows
                } else {
                    last
                };
            },
            Motion::Home => {
                self.cursor_col = 0;
            },
            Motion::End => {
                self.cursor_col = if cols >= 1 {
                    cols - 1
                } else {
                    0
                };
            },
        }
        let len = self.line_len(self.cursor_row);
        if self.cursor_col > len {
            self.cursor_col = len;
        }
    }

    /// Brings the cursor back into a viewport of `rows` rows and `cols`
    /// columns, moving the viewport no further than needed.
    pub fn scroll(&mut self, rows: usize, cols: usize)
        requires
            rows >= 1,
            cols >= 1,
        ensures
            final(self)@ == old(self)@.scroll(rows as nat, cols as nat),
            final(self)@.render_col == final(self)@.cursor_render_col(),
            BufferView::shows(final(self)@.row_offset, rows as nat, final(self)@.cursor_row),
            BufferView::shows(final(self)@.col_offset, cols as nat, final(self)@.render_col),
            old(self)@.well_formed() ==> final(self)@.well_formed(),
    {
        self.render_col = if self.cursor_row < self.lines.len() {
            self.lines[self.cursor_row].render_position(self.cursor_col)
        } else {
            0
        };
        if self.cursor_row < self.row_offset {
            self.row_offset = self.cursor_row;
        } else if self.cursor_row - self.row_offset >= rows {
            self.row_offset = self.cursor_row - (rows - 1);
        }
        if self.render_col < self.col_offset {
            self.col_offset = self.render_col;
        } else if self.render_col - self.col_offset >= cols {
            self.col_offset = self.render_col - (cols - 1);
        }
    }

    /// Puts the cursor at `row` and `col`, a position on the document, and
    /// the viewport's first row below the document, so that the next scroll
    /// brings the cursor's row to the top.
    pub fn place_cursor(&mut self, row: usize, col: usize)
        requires
            row <= old(self)@.lines.len(),
            col <= old(self)@.line_len(row as nat),
        ensures
            final(self)@ == (BufferView {
                cursor_row: row as nat,
                cursor_col: col as nat,
                row_offset: old(self)@.lines.len(),
                ..old(self)@
            }),
            final(self)@.well_formed(),
    {
        self.cursor_row = row;
        self.cursor_col = col;
        self.row_offset = self.lines.len();
    }

    /// The frame for a viewport of `rows` rows and `cols` columns: for each
    /// screen line the visible part of its row, or the placeholder `~` below
    /// the document, followed by the sequence that clears the rest of the
    /// line and ends it.
    pub fn frame_content(&self, rows: usize, cols: usize) -> (frame: String)
        ensures
            frame@ == self@.frame_content(rows as nat, cols as nat),
    {
        let count = self.lines.len();
        let present: usize = if self.row_offset < count {
            count - self.row_offset
        } else {
            0
        };
        let mut frame = String::new();
        let mut i: usize = 0;
        while i < rows
            invariant
                i <= rows,
                count == self.lines@.len(),
                present == (if self.row_offset < count {
                    count - self.row_offset
                } else {
                    0
                }),
                frame@ == self@.frame_rows(i as nat, cols as nat),
            decreases rows - i,
        {
            if i < present {
                let line = &self.lines[self.row_offset + i];
                let width = line.width();
                let from: usize = if self.col_offset <= width {
                    self.col_offset
                } else {
                    width
                };
                let to: usize = if cols <= width - from {
                    from + cols
                } else {
                    width
                };
                frame.append(line.rendered().substring_char(from, to));
            } else {
                frame.append("~");
            }
            frame.append("\x1b[K\r\n");
            i += 1;
        }
        frame
    }

    /// The document as the text of a file: every row followed by a line
    /// feed, and a lone line feed for a document without rows.
    pub fn rows_to_string(&self) -> (content: String)
        ensures
            content@ == self@.rows_to_string(),
    {
        let mut content = String::new();
        let mut i: usize = 0;
        while i < self.lines.len()
            invariant
                i <= self.lines@.len(),
                content@ == self@.joined(i as nat),
            decreases self.lines@.len() - i,
        {
            if i > 0 {
                content.push('\n');
            }
            content.append(self.lines[i].content());
            i += 1;
        }
        content.push('\n');
        content
    }

    /// The logical columns at which the matches of `query` in row `row`
    /// start, left to right.
    fn row_matches(&self, row: usize, query: &str) -> (cols: Vec<usize>)
        requires
            row < self@.lines.len(),
        ensures
            cols@.map_values(|col: usize| col as nat) == self@.row_matches(row as nat, query@),
            forall|j: int| 0 <= j < cols@.len() ==> cols@[j] <= self@.lines[row as int].len(),
    {
        let line = &self.lines[row];
        let found = line.match_indices(query);
        let ghost wanted = match_positions(expand_tabs(line@), query@);
        let mut cols: Vec<usize> = Vec::new();
        let mut j: usize = 0;
        while j < found.len()
            invariant
                j <= found@.len(),
                found@.len() == wanted.len(),
                forall|i: int| 0 <= i < found@.len() ==> (#[trigger] found@[i]).0 == wanted[i],
                cols@.len() == j,
                forall|i: int|
                    0 <= i < j ==> cols@[i] == render_to_cursor_position(line@, wanted[i]),
                forall|i: int| 0 <= i < j ==> cols@[i] <= line@.len(),
            decreases found@.len() - j,
        {
            let col = line.render_to_cursor_position(found[j].0);
            cols.push(col);
            j += 1;
        }
        cols
    }

    /// The columns of row `row` at which a forward search may stop, in the
    /// order in which it comes to them.
    fn forward_hits_in(&self, row: usize, query: &str) -> (cols: Vec<usize>)
        requires
            row < self@.lines.len(),
        ensures
            cols@.map_values(|col: usize| (row as nat, col as nat)) == self@.forward_hits_in(
                row as nat,
                query@,
            ),
            forall|j: int| 0 <= j < cols@.len() ==> cols@[j] <= self@.lines[row as int].len(),
    {
        let all = self.row_matches(row, query);
        let ghost stop = self@.forward_stop(row as nat);
        let ghost wide = all@.map_values(|col: usize| col as nat);
        let mut cols: Vec<usize> = Vec::new();
        let mut j: usize = 0;
        while j < all.len()
            invariant
                j <= all@.len(),
                wide == all@.map_values(|col: usize| col as nat),
                stop == self@.forward_stop(row as nat),
                cols@.map_values(|col: usize| col as nat) == wide.take(j as int).filter(stop),
                forall|i: int| 0 <= i < all@.len() ==> all@[i] <= self@.lines[row as int].len(),
                forall|i: int| 0 <= i < cols@.len() ==> cols@[i] <= self@.lines[row as int].len(),
            decreases all@.len() - j,
        {
            let col = all[j];
            proof {
                assert(wide.take(j + 1) == wide.take(j as int).push(col as nat));
                wide.take(j as int).lemma_filter_push(col as nat, stop);
            }
            if row != self.cursor_row || col >= self.cursor_col {
                cols.push(col);
            }
            j += 1;
        }
        assert(wide.take(all@.len() as int) == wide);
        cols
    }

    /// The columns of row `row` at which a reverse search may stop, in the
    /// order in which it comes to them.
    fn reverse_hits_in(&self, row: usize, query: &str) -> (cols: Vec<usize>)
        requires
            row < self@.lines.len(),
        ensures
            cols@.map_values(|col: usize| (row as nat, col as nat)) == self@.reverse_hits_in(
                row as nat,
                query@,
            ),
            forall|j: int| 0 <= j < cols@.len() ==> cols@[j] <= self@.lines[row as int].len(),
    {
        let all = self.row_matches(row, query);
        let ghost stop = self@.reverse_stop(row as nat);
        let ghost wide = all@.map_values(|col: usize| col as nat).reverse();
        let mut cols: Vec<usize> = Vec::new();
        let mut j: usize = all.len();
        while j > 0
            invariant
                j <= all@.len(),
                wide == all@.map_values(|col: usize| col as nat).reverse(),
                stop == self@.reverse_stop(row as nat),
                cols@.map_values(|col: usize| col as nat) == wide.take(all@.len() - j).filter(stop),
                forall|i: int| 0 <= i < all@.len() ==> all@[i] <= self@.lines[row as int].len(),
                forall|i: int| 0 <= i < cols@.len() ==> cols@[i] <= self@.lines[row as int].len(),
            decreases j,
        {
            j -= 1;
            let col = all[j];
            proof {
                assert(wide.take(all@.len() - j) == wide.take(all@.len() - j - 1).push(col as nat));
                wide.take(all@.len() - j - 1).lemma_filter_push(col as nat, stop);
            }
            if row != self.cursor_row || col <= self.cursor_col {
                cols.push(col);
            }
        }
        assert(wide.take(all@.len() as int) == wide);
        cols
    }

    /// Searches forward for `query`, from the cursor downwards and round to
    /// the cursor's row again, and returns the row and column of the first
    /// match it may stop at; with `skip_once`, of the second. Returns the
    /// cursor's position if there is none.
    pub fn find_forward(&self, query: &str, skip_once: bool) -> (found: (usize, usize))
        requires
            self@.well_formed(),
        ensures
            (found.0 as nat, found.1 as nat) == self@.find_forward(query@, skip_once),
            found.0 <= self@.lines.len(),
            found.1 <= self@.line_len(found.0 as nat),
    {
        let count = self.lines.len();
        let mut to_skip: usize = if skip_once {
            1
        } else {
            0
        };
        let mut visited: usize = 0;
        while visited < count
            invariant
                visited <= count,
                count == self@.lines.len(),
                self@.well_formed(),
                to_skip + self@.forward_hits(query@, visited as nat).len() == (if skip_once {
                    1int
                } else {
                    0int
                }),
            decreases count - visited,
        {
            let row: usize = if visited < count - self.cursor_row {
                self.cursor_row + visited
            } else {
                visited - (count - self.cursor_row)
            };
            let cols = self.forward_hits_in(row, query);
            proof {
                self@.lemma_forward_hits_grow(query@, (visited + 1) as nat, count as nat);
            }
            if to_skip < cols.len() {
                return (row, cols[to_skip]);
            }
            to_skip -= cols.len();
            visited += 1;
        }
        (self.cursor_row, self.cursor_col)
    }

    /// Searches backwards for `query`, from the cursor upwards and round to
    /// the cursor's row again, and returns the row and column of the first
    /// match it may stop at; with `skip_once`, of the second. Returns the
    /// cursor's position if there is none.
    pub fn find_reverse(&self, query: &str, skip_once: bool) -> (found: (usize, usize))
        requires
            self@.well_formed(),
        ensures
            (found.0 as nat, found.1 as nat) == self@.find_reverse(query@, skip_once),
            found.0 <= self@.lines.len(),
            found.1 <= self@.line_len(found.0 as nat),
    {
        let count = self.lines.len();
        let start: usize = if self.cursor_row < count {
            self.cursor_row
        } else if count == 0 {
            0
        } else {
            count - 1
        };
        let mut to_skip: usize = if skip_once {
            1
        } else {
            0
        };
        let mut visited: usize = 0;
        while visited < count
            invariant
                visited <= count,
                count == self@.lines.len(),
                self@.well_formed(),
                start == (if self@.cursor_row < count {
                    self@.cursor_row
                } else {
                    self@.last_row()
                }),
                to_skip + self@.reverse_hits(query@, visited as nat).len() == (if skip_once {
                    1int
                } else {
                    0int
                }),
            decreases count - visited,
        {
            let row: usize = if visited <= start {
                start - visited
            } else {
                count - (visited - start)
            };
            let cols = self.reverse_hits_in(row, query);
            proof {
                self@.lemma_reverse_hits_grow(query@, (visited + 1) as nat, count as nat);
            }
            if to_skip < cols.len() {
                return (row, cols[to_skip]);
            }
            to_skip -= cols.len();
            visited += 1;
        }
        (self.cursor_row, self.cursor_col)
    }

    fn insert_row(&mut self, index: usize, line: String)
        ensures
            final(self)@ == old(self)@.insert_row(index as nat, line@),
    {
        if index > self.lines.len() {
            return ;
        }
        self.lines.insert(index, Line::new(line));
        self.dirty = true;
        assert(self@.lines =~= old(self)@.lines.insert(index as int, line@));
    }

    /// Appends `line` as the last row.
    pub fn append_row(&mut self, line: String)
        ensures
            final(self)@ == (BufferView {
                lines: old(self)@.lines.push(line@),
                dirty: true,
                ..old(self)@
            }),
            old(self)@.well_formed() ==> final(self)@.well_formed(),
    {
        self.insert_row(self.lines.len(), line);
        assert(old(self)@.lines.insert(old(self)@.lines.len() as int, line@) =~= old(self)@.lines.push(
            line@,
        ));
    }

    /// Breaks the row at the cursor in two and puts the cursor at the start
    /// of the second. At column 0 this puts an empty row before the cursor's.
    pub fn insert_new_line(&mut self)
        requires
            old(self)@.well_formed(),
        ensures
            final(self)@ == old(self)@.insert_new_line(),
            final(self)@.well_formed(),
    {
        if self.cursor_col == 0 {
            self.insert_row(self.cursor_row, String::new());
        } else {
            assert(self.cursor_row < self.lines.len());
            let tail = self.lines[self.cursor_row].split_off(self.cursor_col);
            assert(self@.lines =~= old(self)@.lines.update(
                self.cursor_row as int,
                old(self)@.lines[self.cursor_row as int].take(self.cursor_col as int),
            ));
            self.insert_row(self.cursor_row + 1, tail);
        }
        assert(self@.lines.len() == self.lines.len());
        self.cursor_row += 1;
        self.cursor_col = 0;
    }

    fn delete_row(&mut self)
        ensures
            final(self)@ == old(self)@.delete_row(),
    {
        if self.cursor_row < self.lines.len() {
            self.lines.remove(self.cursor_row);
            self.dirty = true;
            assert(self@.lines =~= old(self)@.lines.remove(self.cursor_row as int));
        }
    }

    /// Deletes the character before the cursor, or, at the start of a row,
    /// joins the row to the one above. Does nothing at the start of the
    /// document, nor with the cursor below the last row.
    pub fn delete_char(&mut self)
        requires
            old(self)@.well_formed(),
        ensures
            final(self)@ == old(self)@.delete_char(),
            final(self)@.well_formed(),
    {
        if self.cursor_row == 0 && self.cursor_col == 0 {
            return ;
        }
        if self.cursor_row < self.lines.len() {
            if self.cursor_col > 0 {
                self.lines[self.cursor_row].remove(self.cursor_col - 1);
                self.cursor_col -= 1;
                self.dirty = true;
                assert(self@.lines =~= old(self)@.lines.update(
                    self.cursor_row as int,
                    old(self)@.lines[self.cursor_row as int].remove(self.cursor_col as int),
                ));
            } else {
                let joint = self.lines[self.cursor_row - 1].len();
                let tail = String::from_str(self.lines[self.cursor_row].content());
                self.lines[self.cursor_row - 1].push_str(tail.as_str());
                assert(self@.lines =~= old(self)@.lines.update(
                    self.cursor_row - 1,
                    old(self)@.lines[self.cursor_row - 1] + old(self)@.lines[self.cursor_row as int],
                ));
                self.delete_row();
                self.cursor_row -= 1;
                self.cursor_col = joint;
            }
        }
    }

    /// Types `ch` at the cursor: the character is inserted at the cursor
    /// column and the cursor moves behind it. With the cursor below the last
    /// row, a new empty row is appended first.
    pub fn insert_char(&mut self, ch: char)
        requires
            old(self)@.well_formed(),
        ensures
            final(self)@ == old(self)@.insert_char(ch),
            final(self)@.well_formed(),
    {
        if self.cursor_row == self.lines.len() {
            self.insert_row(self.cursor_row, String::new());
        }
        let ghost opened = self@;
        self.lines[self.cursor_row].insert(self.cursor_col, ch);
        self.cursor_col += 1;
        self.dirty = true;
        assert(self@.lines =~= opened.lines.update(
            self.cursor_row as int,
            opened.lines[self.cursor_row as int].insert(old(self).cursor_col as int, ch),
        ));
    }
}

} // verus!
