//! The document as a mathematical value, and what each operation of the
//! buffer makes of it.

use crate::terminal::Motion;
use crate::text::{
    expand_tabs, lemma_matches_are_occurrences, match_positions, occurs_at, render_position,
    render_to_cursor_position,
};
use vstd::prelude::*;

verus! {

/// The document as a mathematical value.
pub struct BufferView {
    /// The logical text of each row, top to bottom.
    pub lines: Seq<Seq<char>>,
    /// The row the cursor is on; the row count when it is below the last row.
    pub cursor_row: nat,
    /// The logical offset of the cursor within its row.
    pub cursor_col: nat,
    /// The rendered column of the cursor, as of the last scroll.
    pub render_col: nat,
    /// The first visible row.
    pub row_offset: nat,
    /// The first visible rendered column.
    pub col_offset: nat,
    /// The name of the file the document belongs to, if it has one.
    pub filename: Option<Seq<char>>,
    /// Whether the document was changed since it was last marked clean.
    pub dirty: bool,
}

impl BufferView {
    /// The empty document: no rows, no name, unchanged, the cursor and the
    /// viewport at the origin.
    pub open spec fn empty() -> BufferView {
        BufferView {
            lines: Seq::empty(),
            cursor_row: 0,
            cursor_col: 0,
            render_col: 0,
            row_offset: 0,
            col_offset: 0,
            filename: None,
            dirty: false,
        }
    }

    /// The length of row `row`; rows outside the document are empty.
    pub open spec fn line_len(self, row: nat) -> nat {
        if row < self.lines.len() {
            self.lines[row as int].len()
        } else {
            0
        }
    }

    /// The cursor is on a row of the document or just below the last one,
    /// and within the text of its row.
    pub open spec fn well_formed(self) -> bool {
        &&& self.cursor_row <= self.lines.len()
        &&& self.cursor_col <= self.line_len(self.cursor_row)
    }

    /// The document after `line` became row `index`; unchanged when `index`
    /// is beyond the row count.
    pub open spec fn insert_row(self, index: nat, line: Seq<char>) -> BufferView {
        if index > self.lines.len() {
            self
        } else {
            BufferView { lines: self.lines.insert(index as int, line), dirty: true, ..self }
        }
    }

    /// The last row of the document; row 0 when the document is empty.
    pub open spec fn last_row(self) -> nat {
        if self.lines.len() == 0 {
            0
        } else {
            (self.lines.len() - 1) as nat
        }
    }

    /// The document with the cursor column pulled back into its row.
    pub open spec fn clamp_col(self) -> BufferView {
        let len = self.line_len(self.cursor_row);
        BufferView { cursor_col: if self.cursor_col <= len { self.cursor_col } else { len }, ..self }
    }

    /// The document after the cursor moved as `motion` asks, in a viewport
    /// of `rows` rows and `cols` columns.
    ///
    /// Up and Down move by one row and stop at the first and the last row.
    /// Left at the start of a row goes to the end of the row above, Right at
    /// the end of a row to the start of the row below. PgUp and PgDn move by
    /// `rows` rows. Home goes to column 0, End to column `cols - 1`. Then the
    /// column is pulled back into the row the cursor arrived on.
    pub open spec fn move_cursor(self, motion: Motion, rows: nat, cols: nat) -> BufferView {
        let row = self.cursor_row;
        let col = self.cursor_col;
        let moved = match motion {
            Motion::Up => BufferView { cursor_row: if row >= 1 { (row - 1) as nat } else { 0 }, ..self },
            Motion::Down => BufferView {
                cursor_row: if row + 1 <= self.last_row() { row + 1 } else { self.last_row() },
                ..self
            },
            Motion::Left => if col != 0 {
                BufferView { cursor_col: (col - 1) as nat, ..self }
            } else if row > 0 {
                BufferView {
                    cursor_row: (row - 1) as nat,
                    cursor_col: self.line_len((row - 1) as nat),
                    ..self
                }
            } else {
                self
            },
            Motion::Right => if row < self.lines.len() {
                if col < self.line_len(row) {
                    BufferView { cursor_col: col + 1, ..self }
                } else if row < self.last_row() {
                    BufferView { cursor_row: row + 1, cursor_col: 0, ..self }
                } else {
                    self
                }
            } else {
                self
            },
            Motion::PgUp => BufferView {
                cursor_row: if row >= rows { (row - rows) as nat } else { 0 },
                ..self
            },
            Motion::PgDn => BufferView {
                cursor_row: if row + rows <= self.last_row() { row + rows } else { self.last_row() },
                ..self
            },
            Motion::Home => BufferView { cursor_col: 0, ..self },
            Motion::End => BufferView { cursor_col: if cols >= 1 { (cols - 1) as nat } else { 0 }, ..self },
        };
        moved.clamp_col()
    }

    /// The rendered column of the cursor.
    pub open spec fn cursor_render_col(self) -> nat {
        if self.cursor_row < self.lines.len() {
            render_position(self.lines[self.cursor_row as int], self.cursor_col)
        } else {
            0
        }
    }

    /// Whether the window of `size` cells that starts at `offset` holds
    /// `target`.
    pub open spec fn shows(offset: nat, size: nat, target: nat) -> bool {
        offset <= target < offset + size
    }

    /// The offset nearest to `offset` at which a window of `size` cells holds
    /// `target`.
    pub open spec fn slide(offset: nat, size: nat, target: nat) -> nat {
        if target < offset {
            target
        } else if target >= offset + size {
            (target + 1 - size) as nat
        } else {
            offset
        }
    }

    /// The document after scrolling a viewport of `rows` rows and `cols`
    /// columns: the rendered cursor column is brought up to date, and each
    /// offset moves by just what brings the cursor back into view.
    pub open spec fn scroll(self, rows: nat, cols: nat) -> BufferView {
        let render_col = self.cursor_render_col();
        BufferView {
            render_col,
            row_offset: Self::slide(self.row_offset, rows, self.cursor_row),
            col_offset: Self::slide(self.col_offset, cols, render_col),
            ..self
        }
    }

    /// The document after the row at the cursor was removed; unchanged when
    /// the cursor is below the last row.
    pub open spec fn delete_row(self) -> BufferView {
        if self.cursor_row < self.lines.len() {
            BufferView { lines: self.lines.remove(self.cursor_row as int), dirty: true, ..self }
        } else {
            self
        }
    }

    /// The document after a line break was typed at the cursor: the row is
    /// cut at the cursor column, its tail becomes the next row, and the
    /// cursor goes to the start of that row.
    pub open spec fn insert_new_line(self) -> BufferView {
        let row = self.cursor_row as int;
        let col = self.cursor_col as int;
        let broken = if col == 0 {
            self.insert_row(self.cursor_row, Seq::empty())
        } else {
            BufferView {
                lines: self.lines.update(row, self.lines[row].take(col)).insert(
                    row + 1,
                    self.lines[row].skip(col),
                ),
                dirty: true,
                ..self
            }
        };
        BufferView { cursor_row: self.cursor_row + 1, cursor_col: 0, ..broken }
    }

    /// The document after the character before the cursor was deleted.
    ///
    /// Nothing happens at the start of the document, nor with the cursor
    /// below the last row. At the start of any other row, the row is joined
    /// to the end of the row above and the cursor goes to where the two meet.
    pub open spec fn delete_char(self) -> BufferView {
        let row = self.cursor_row as int;
        let col = self.cursor_col as int;
        if row == 0 && col == 0 {
            self
        } else if row >= self.lines.len() {
            self
        } else if col > 0 {
            BufferView {
                lines: self.lines.update(row, self.lines[row].remove(col - 1)),
                cursor_col: (col - 1) as nat,
                dirty: true,
                ..self
            }
        } else {
            BufferView {
                lines: self.lines.update(row - 1, self.lines[row - 1] + self.lines[row]).remove(row),
                cursor_row: (row - 1) as nat,
                cursor_col: self.lines[row - 1].len(),
                dirty: true,
                ..self
            }
        }
    }

    /// What a frame shows of `shown` through a viewport `cols` columns wide
    /// that starts at column `offset`.
    pub open spec fn visible(shown: Seq<char>, offset: nat, cols: nat) -> Seq<char> {
        let from = if offset <= shown.len() { offset } else { shown.len() };
        let to = if offset + cols <= shown.len() { offset + cols } else { shown.len() };
        shown.subrange(from as int, to as int)
    }

    /// One line of a frame: the visible part of the rendered row `row`, and
    /// the sequence that clears the rest of the screen line and ends it.
    /// Below the document the line holds the placeholder `~` instead,
    /// wherever the viewport stands and however wide it is.
    pub open spec fn frame_row(self, row: nat, cols: nat) -> Seq<char> {
        let shown = if row < self.lines.len() {
            Self::visible(expand_tabs(self.lines[row as int]), self.col_offset, cols)
        } else {
            "~"@
        };
        shown + "\x1b[K\r\n"@
    }

    /// The first `count` lines of a frame `cols` columns wide.
    pub open spec fn frame_rows(self, count: nat, cols: nat) -> Seq<char>
        decreases count,
    {
        if count == 0 {
            Seq::empty()
        } else {
            self.frame_rows((count - 1) as nat, cols) + self.frame_row(
                (self.row_offset + count - 1) as nat,
                cols,
            )
        }
    }

    /// The frame for a viewport of `rows` rows and `cols` columns: `rows`
    /// lines, starting with the row at the viewport's row offset.
    pub open spec fn frame_content(self, rows: nat, cols: nat) -> Seq<char> {
        self.frame_rows(rows, cols)
    }

    /// The first `count` rows, with a line feed between each two.
    pub open spec fn joined(self, count: nat) -> Seq<char>
        decreases count,
    {
        if count == 0 {
            Seq::empty()
        } else if count == 1 {
            self.lines[0]
        } else {
            self.joined((count - 1) as nat).push('\n') + self.lines[count - 1]
        }
    }

    /// The document as the text of a file: the rows joined by line feeds,
    /// and a line feed at the end.
    pub open spec fn rows_to_string(self) -> Seq<char> {
        self.joined(self.lines.len()).push('\n')
    }

    /// The logical columns at which the matches of `query` in row `row`
    /// start, left to right. The matches are those in the rendered text.
    pub open spec fn row_matches(self, row: nat, query: Seq<char>) -> Seq<nat> {
        let line = self.lines[row as int];
        match_positions(expand_tabs(line), query).map_values(
            |rx: nat| render_to_cursor_position(line, rx),
        )
    }

    /// The `k`-th row that a forward search visits: the cursor's row first,
    /// then downwards, and from the last row on to the first.
    pub open spec fn forward_row(self, k: nat) -> nat {
        if self.cursor_row + k < self.lines.len() {
            self.cursor_row + k
        } else {
            (self.cursor_row + k - self.lines.len()) as nat
        }
    }

    /// Whether a forward search may stop at column `col` of row `row`: not
    /// before the cursor in the cursor's own row.
    pub open spec fn forward_stop(self, row: nat) -> spec_fn(nat) -> bool {
        |col: nat| row != self.cursor_row || col >= self.cursor_col
    }

    /// The positions in row `row` at which a forward search may stop, in the
    /// order in which it comes to them: every match, but in the cursor's row
    /// only those at or behind the cursor.
    pub open spec fn forward_hits_in(self, row: nat, query: Seq<char>) -> Seq<(nat, nat)> {
        self.row_matches(row, query).filter(self.forward_stop(row)).map_values(
            |col: nat| (row, col),
        )
    }

    /// The positions at which a forward search may stop within the first
    /// `visited` rows it visits.
    pub open spec fn forward_hits(self, query: Seq<char>, visited: nat) -> Seq<(nat, nat)>
        decreases visited,
    {
        if visited == 0 {
            Seq::empty()
        } else {
            self.forward_hits(query, (visited - 1) as nat) + self.forward_hits_in(
                self.forward_row((visited - 1) as nat),
                query,
            )
        }
    }

    /// Where a forward search for `query` stops: at the first position it
    /// may stop at, or at the second if `skip_current` is set; at the cursor
    /// if there is no such position. Every row is visited once.
    pub open spec fn find_forward(self, query: Seq<char>, skip_current: bool) -> (nat, nat) {
        let hits = self.forward_hits(query, self.lines.len());
        let skipped: int = if skip_current { 1 } else { 0 };
        if skipped < hits.len() {
            hits[skipped]
        } else {
            (self.cursor_row, self.cursor_col)
        }
    }

    /// The `k`-th row that a reverse search visits: the cursor's row first
    /// (the last row, with the cursor below it), then upwards, and from the
    /// first row on to the last.
    pub open spec fn reverse_row(self, k: nat) -> nat {
        let start = if self.cursor_row < self.lines.len() { self.cursor_row } else { self.last_row() };
        if k <= start {
            (start - k) as nat
        } else {
            (start + self.lines.len() - k) as nat
        }
    }

    /// Whether a reverse search may stop at column `col` of row `row`: not
    /// behind the cursor in the cursor's own row.
    pub open spec fn reverse_stop(self, row: nat) -> spec_fn(nat) -> bool {
        |col: nat| row != self.cursor_row || col <= self.cursor_col
    }

    /// The positions in row `row` at which a reverse search may stop, in the
    /// order in which it comes to them: every match, right to left, but in
    /// the cursor's row only those at or before the cursor.
    pub open spec fn reverse_hits_in(self, row: nat, query: Seq<char>) -> Seq<(nat, nat)> {
        self.row_matches(row, query).reverse().filter(self.reverse_stop(row)).map_values(
            |col: nat| (row, col),
        )
    }

    /// The positions at which a reverse search may stop within the first
    /// `visited` rows it visits.
    pub open spec fn reverse_hits(self, query: Seq<char>, visited: nat) -> Seq<(nat, nat)>
        decreases visited,
    {
        if visited == 0 {
            Seq::empty()
        } else {
            self.reverse_hits(query, (visited - 1) as nat) + self.reverse_hits_in(
                self.reverse_row((visited - 1) as nat),
                query,
            )
        }
    }

    /// Where a reverse search for `query` stops: at the first position it
    /// may stop at, or at the second if `skip_current` is set; at the cursor
    /// if there is no such position. Every row is visited once.
    pub open spec fn find_reverse(self, query: Seq<char>, skip_current: bool) -> (nat, nat) {
        let hits = self.reverse_hits(query, self.lines.len());
        let skipped: int = if skip_current { 1 } else { 0 };
        if skipped < hits.len() {
            hits[skipped]
        } else {
            (self.cursor_row, self.cursor_col)
        }
    }

    /// What a forward search has found after `k` rows it still has after
    /// more rows.
    pub proof fn lemma_forward_hits_grow(self, query: Seq<char>, k: nat, m: nat)
        requires
            k <= m,
        ensures
            self.forward_hits(query, k).len() <= self.forward_hits(query, m).len(),
            forall|i: int|
                0 <= i < self.forward_hits(query, k).len() ==> self.forward_hits(query, m)[i]
                    == self.forward_hits(query, k)[i],
        decreases m - k,
    {
        if k < m {
            self.lemma_forward_hits_grow(query, k, (m - 1) as nat);
        }
    }

    /// What a reverse search has found after `k` rows it still has after
    /// more rows.
    pub proof fn lemma_reverse_hits_grow(self, query: Seq<char>, k: nat, m: nat)
        requires
            k <= m,
        ensures
            self.reverse_hits(query, k).len() <= self.reverse_hits(query, m).len(),
            forall|i: int|
                0 <= i < self.reverse_hits(query, k).len() ==> self.reverse_hits(query, m)[i]
                    == self.reverse_hits(query, k)[i],
        decreases m - k,
    {
        if k < m {
            self.lemma_reverse_hits_grow(query, k, (m - 1) as nat);
        }
    }

    /// The document after typing `ch` at the cursor.
    pub open spec fn insert_char(self, ch: char) -> BufferView {
        let opened = if self.cursor_row == self.lines.len() {
            self.insert_row(self.cursor_row, Seq::empty())
        } else {
            self
        };
        BufferView {
            lines: opened.lines.update(
                self.cursor_row as int,
                opened.lines[self.cursor_row as int].insert(self.cursor_col as int, ch),
            ),
            cursor_col: self.cursor_col + 1,
            dirty: true,
            ..self
        }
    }
}

impl BufferView {
    /// The document after `times` motions to the right.
    pub open spec fn move_right(self, times: nat, rows: nat, cols: nat) -> BufferView
        decreases times,
    {
        if times == 0 {
            self
        } else {
            self.move_right((times - 1) as nat, rows, cols).move_cursor(Motion::Right, rows, cols)
        }
    }

    /// Typing a character and deleting it again restores the rows and the
    /// cursor, wherever the cursor is on a row of the document. Only the
    /// dirty mark stays.
    pub proof fn lemma_insert_then_delete(self, ch: char)
        requires
            self.well_formed(),
            self.cursor_row < self.lines.len(),
        ensures
            self.insert_char(ch).delete_char() == (BufferView { dirty: true, ..self }),
    {
        let row = self.cursor_row as int;
        let col = self.cursor_col as int;
        let typed = self.insert_char(ch);
        assert(self.lines[row].insert(col, ch).remove(col) =~= self.lines[row]);
        assert(typed.delete_char().lines =~= self.lines);
    }

    /// Breaking a row at the cursor and deleting at the start of the new row
    /// joins the two again: the rows and the cursor are restored, wherever
    /// the cursor is on a row of the document. Only the dirty mark stays.
    pub proof fn lemma_split_then_merge(self)
        requires
            self.well_formed(),
            self.cursor_row < self.lines.len(),
        ensures
            self.insert_new_line().delete_char() == (BufferView { dirty: true, ..self }),
    {
        let row = self.cursor_row as int;
        let col = self.cursor_col as int;
        let broken = self.insert_new_line();
        assert(broken.lines[row] + broken.lines[row + 1] =~= self.lines[row]);
        assert(broken.delete_char().lines =~= self.lines);
    }

    /// On the last row, moving right any number of times leaves the cursor
    /// on that row and takes it towards the end of the row, never past it.
    pub proof fn lemma_move_right_on_last_row(self, times: nat, rows: nat, cols: nat)
        requires
            self.well_formed(),
            self.lines.len() > 0,
            self.cursor_row == self.lines.len() - 1,
        ensures
            self.move_right(times, rows, cols) == (BufferView {
                cursor_col: if self.cursor_col + times <= self.line_len(self.cursor_row) {
                    self.cursor_col + times
                } else {
                    self.line_len(self.cursor_row)
                },
                ..self
            }),
            self.move_right(times, rows, cols).cursor_col <= self.line_len(self.cursor_row),
            self.move_right(times, rows, cols).cursor_row == self.lines.len() - 1,
        decreases times,
    {
        if times > 0 {
            self.lemma_move_right_on_last_row((times - 1) as nat, rows, cols);
        }
    }

    /// Whether `col` is where a match of `query` starts in row `row`: the
    /// logical column of a rendered column at which the query occurs in the
    /// rendered row.
    pub open spec fn is_match(self, query: Seq<char>, row: nat, col: nat) -> bool {
        &&& row < self.lines.len()
        &&& col <= self.lines[row as int].len()
        &&& exists|rx: nat| #[trigger]
            occurs_at(expand_tabs(self.lines[row as int]), query, rx) && col
                == render_to_cursor_position(self.lines[row as int], rx)
    }

    /// The columns of the matches in a row are where matches start.
    pub proof fn lemma_row_matches_are_matches(self, query: Seq<char>, row: nat)
        requires
            row < self.lines.len(),
        ensures
            forall|i: int|
                0 <= i < self.row_matches(row, query).len() ==> self.is_match(
                    query,
                    row,
                    #[trigger] self.row_matches(row, query)[i],
                ),
    {
        let line = self.lines[row as int];
        let found = match_positions(expand_tabs(line), query);
        lemma_matches_are_occurrences(expand_tabs(line), query, 0);
        assert forall|i: int| 0 <= i < self.row_matches(row, query).len() implies self.is_match(
            query,
            row,
            #[trigger] self.row_matches(row, query)[i],
        ) by {
            crate::text::lemma_render_to_cursor_position(line, found[i]);
        }
    }

    /// What a forward search may stop at within the rows it visits are
    /// starts of matches.
    pub proof fn lemma_forward_hits_are_matches(self, query: Seq<char>, visited: nat)
        requires
            self.cursor_row <= self.lines.len(),
            visited <= self.lines.len(),
        ensures
            forall|i: int|
                0 <= i < self.forward_hits(query, visited).len() ==> self.is_match(
                    query,
                    (#[trigger] self.forward_hits(query, visited)[i]).0,
                    self.forward_hits(query, visited)[i].1,
                ),
        decreases visited,
    {
        if visited > 0 {
            let before = self.forward_hits(query, (visited - 1) as nat);
            let row = self.forward_row((visited - 1) as nat);
            let kept = self.row_matches(row, query).filter(self.forward_stop(row));
            self.lemma_forward_hits_are_matches(query, (visited - 1) as nat);
            self.lemma_row_matches_are_matches(query, row);
            assert forall|i: int| 0 <= i < self.forward_hits(query, visited).len() implies self.is_match(
                query,
                (#[trigger] self.forward_hits(query, visited)[i]).0,
                self.forward_hits(query, visited)[i].1,
            ) by {
                if i >= before.len() {
                    let col = kept[i - before.len()];
                    self.row_matches(row, query).lemma_filter_contains_rev(
                        self.forward_stop(row),
                        col,
                    );
                }
            }
        }
    }

    /// What a reverse search may stop at within the rows it visits are
    /// starts of matches.
    pub proof fn lemma_reverse_hits_are_matches(self, query: Seq<char>, visited: nat)
        requires
            self.cursor_row <= self.lines.len(),
            visited <= self.lines.len(),
        ensures
            forall|i: int|
                0 <= i < self.reverse_hits(query, visited).len() ==> self.is_match(
                    query,
                    (#[trigger] self.reverse_hits(query, visited)[i]).0,
                    self.reverse_hits(query, visited)[i].1,
                ),
        decreases visited,
    {
        if visited > 0 {
            let before = self.reverse_hits(query, (visited - 1) as nat);
            let row = self.reverse_row((visited - 1) as nat);
            let all = self.row_matches(row, query);
            let kept = all.reverse().filter(self.reverse_stop(row));
            self.lemma_reverse_hits_are_matches(query, (visited - 1) as nat);
            self.lemma_row_matches_are_matches(query, row);
            assert forall|i: int| 0 <= i < self.reverse_hits(query, visited).len() implies self.is_match(
                query,
                (#[trigger] self.reverse_hits(query, visited)[i]).0,
                self.reverse_hits(query, visited)[i].1,
            ) by {
                if i >= before.len() {
                    let col = kept[i - before.len()];
                    all.reverse().lemma_filter_contains_rev(self.reverse_stop(row), col);
                    let j = choose|j: int| 0 <= j < all.reverse().len() && all.reverse()[j] == col;
                    assert(all[all.len() - 1 - j] == col);
                }
            }
        }
    }

    /// A search stops at the start of a match, or leaves the cursor where it
    /// is; either way at a position on the document.
    pub proof fn lemma_search_finds_a_match(self, query: Seq<char>, skip_current: bool)
        requires
            self.well_formed(),
        ensures
            self.find_forward(query, skip_current) == (self.cursor_row, self.cursor_col)
                || self.is_match(
                query,
                self.find_forward(query, skip_current).0,
                self.find_forward(query, skip_current).1,
            ),
            self.find_reverse(query, skip_current) == (self.cursor_row, self.cursor_col)
                || self.is_match(
                query,
                self.find_reverse(query, skip_current).0,
                self.find_reverse(query, skip_current).1,
            ),
            self.find_forward(query, skip_current).0 <= self.lines.len(),
            self.find_forward(query, skip_current).1 <= self.line_len(
                self.find_forward(query, skip_current).0,
            ),
            self.find_reverse(query, skip_current).0 <= self.lines.len(),
            self.find_reverse(query, skip_current).1 <= self.line_len(
                self.find_reverse(query, skip_current).0,
            ),
    {
        self.lemma_forward_hits_are_matches(query, self.lines.len());
        self.lemma_reverse_hits_are_matches(query, self.lines.len());
    }

    /// Below the document a frame line is the placeholder and the line end,
    /// whatever the viewport's offsets and width. On the document it shows
    /// no more than `cols` characters of the rendered row.
    pub proof fn lemma_frame_row(self, row: nat, cols: nat)
        ensures
            row >= self.lines.len() ==> self.frame_row(row, cols) == "~"@ + "\x1b[K\r\n"@,
            row < self.lines.len() ==> self.frame_row(row, cols) == Self::visible(
                expand_tabs(self.lines[row as int]),
                self.col_offset,
                cols,
            ) + "\x1b[K\r\n"@ && Self::visible(
                expand_tabs(self.lines[row as int]),
                self.col_offset,
                cols,
            ).len() <= cols,
    {
    }

    /// A search visits rows of the document, and no row twice: the rows it
    /// visits in its first steps, as many as there are rows, are all
    /// different, forwards and backwards.
    pub proof fn lemma_search_visits_each_row_once(self, j: nat, k: nat)
        requires
            self.cursor_row <= self.lines.len(),
            j < k < self.lines.len(),
        ensures
            self.forward_row(j) < self.lines.len(),
            self.forward_row(k) < self.lines.len(),
            self.forward_row(j) != self.forward_row(k),
            self.reverse_row(j) < self.lines.len(),
            self.reverse_row(k) < self.lines.len(),
            self.reverse_row(j) != self.reverse_row(k),
    {
    }

    /// A search begins in the cursor's row.
    pub proof fn lemma_search_begins_at_cursor(self)
        requires
            self.cursor_row < self.lines.len(),
        ensures
            self.forward_row(0) == self.cursor_row,
            self.reverse_row(0) == self.cursor_row,
    {
    }

    /// Every operation on the cursor and the text keeps the cursor on the
    /// document.
    pub proof fn lemma_operations_keep_well_formed(self, motion: Motion, rows: nat, cols: nat, ch: char)
        requires
            self.well_formed(),
        ensures
            self.move_cursor(motion, rows, cols).well_formed(),
            self.scroll(rows, cols).well_formed(),
            self.insert_char(ch).well_formed(),
            self.insert_new_line().well_formed(),
            self.delete_char().well_formed(),
    {
    }

    /// After a scroll the cursor is inside a viewport of at least one row
    /// and one column, and a cursor that was inside leaves the viewport
    /// where it was.
    pub proof fn lemma_scroll_shows_cursor(self, rows: nat, cols: nat)
        requires
            rows >= 1,
            cols >= 1,
        ensures
            Self::shows(self.scroll(rows, cols).row_offset, rows, self.cursor_row),
            Self::shows(self.scroll(rows, cols).col_offset, cols, self.cursor_render_col()),
            Self::shows(self.row_offset, rows, self.cursor_row) ==> self.scroll(rows, cols).row_offset
                == self.row_offset,
            Self::shows(self.col_offset, cols, self.cursor_render_col()) ==> self.scroll(
                rows,
                cols,
            ).col_offset == self.col_offset,
    {
    }
}

} // verus!
