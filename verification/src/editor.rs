//! What the editor decides: what a key does to the document, how a search
//! prompt goes on, and what the screen shows.

use crate::buffer::{Buffer, Cursor};
use crate::model::BufferView;
use crate::terminal::{Failure, Key, Motion};
use crate::text::blanks;
use vstd::prelude::*;
use vstd::string::{StrSliceExecFns, StringExecFns};

verus! {

/// The digit `d` as a character.
pub open spec fn digit_char(d: nat) -> char {
    ('0' as u8 + d) as char
}

/// The decimal numeral of `n`, without leading zeros.
pub open spec fn decimal_text(n: nat) -> Seq<char>
    decreases n,
{
    if n < 10 {
        seq![digit_char(n)]
    } else {
        decimal_text(n / 10).push(digit_char(n % 10))
    }
}

/// The decimal numeral of `n`.
pub fn decimal(n: u128) -> (text: String)
    ensures
        text@ == decimal_text(n as nat),
    decreases n,
{
    let digit: u8 = (n % 10) as u8;
    let mut text = if n < 10 {
        String::new()
    } else {
        decimal(n / 10)
    };
    text.push((0x30 + digit) as char);
    text
}

/// The screen lines below the text: the status bar and the message bar.
pub const STATUS_HEIGHT: usize = 2;

/// How often the quit key has to be pressed to leave a changed document.
pub const TOTAL_QUIT_COUNT: usize = 4;

/// How many characters of the file name the status bar shows.
pub const FILE_NAME_WIDTH: usize = 20;

/// The direction of a search.
#[derive(Clone, Copy, Debug, PartialEq, Eq, Structural)]
pub enum SearchDirection {
    Forward,
    Reverse,
}

/// What is left for the caller to do after a key was processed.
#[derive(Clone, Copy, Debug, PartialEq, Eq, Structural)]
pub enum Command {
    /// Nothing.
    Proceed,
    /// Save the document.
    Save,
    /// Run a search prompt in this direction.
    Find(SearchDirection),
}

/// For how many seconds a status message is shown.
pub const MESSAGE_SECONDS: u64 = 5;

/// The editor as a mathematical value.
pub struct EditorView {
    /// The document.
    pub buffer: BufferView,
    /// The status message.
    pub status: Seq<char>,
    /// When the status message was set, in seconds of the caller's clock.
    pub status_at: nat,
    /// How often the quit key still has to be pressed; the editor ends at 0.
    pub quit_count: nat,
}

impl EditorView {
    /// The document after `key` did its work on it.
    ///
    /// A motion moves the cursor. A printable character and a tab are
    /// typed, Newline breaks the row, Backspace and Ctrl-H delete before the
    /// cursor, Delete deletes at the cursor. Every other key leaves the
    /// document as it is.
    pub open spec fn edit(self, key: Key, rows: nat, cols: nat) -> BufferView {
        match key {
            Key::Move(motion) => self.buffer.move_cursor(motion, rows, cols),
            Key::Printable(ch) => self.buffer.insert_char(ch),
            Key::Tab => self.buffer.insert_char('\t'),
            Key::Newline => self.buffer.insert_new_line(),
            Key::Backspace => self.buffer.delete_char(),
            Key::Control(c) => if c == 'H' {
                self.buffer.delete_char()
            } else {
                self.buffer
            },
            Key::Delete => self.buffer.move_cursor(Motion::Right, rows, cols).delete_char(),
            Key::Escape => self.buffer,
        }
    }

    /// The editor with `message` as its status message, set at `now`.
    pub open spec fn with_status(self, message: Seq<char>, now: nat) -> EditorView {
        EditorView { status: message, status_at: now, ..self }
    }

    /// Whether the status message is still to be shown at `now`: for
    /// [`MESSAGE_SECONDS`] seconds from when it was set.
    pub open spec fn status_fresh(self, now: nat) -> bool {
        now < self.status_at + MESSAGE_SECONDS
    }

    /// What is left for the caller to do after `key`.
    pub open spec fn command(self, key: Key) -> Command {
        if key == Key::Control('S') {
            Command::Save
        } else if key == Key::Control('F') {
            Command::Find(SearchDirection::Forward)
        } else if key == Key::Control('G') {
            Command::Find(SearchDirection::Reverse)
        } else {
            Command::Proceed
        }
    }

    /// The editor after `key` was processed in a viewport of `rows` rows
    /// and `cols` columns.
    ///
    /// The quit key ends the editor at once if the document is unchanged;
    /// if it is changed, each press counts down and leaves a warning as the
    /// status message, and the editor ends when the count is used up. Any
    /// other key starts the count afresh.
    pub open spec fn process_keypress(self, key: Key, rows: nat, cols: nat, now: nat) -> EditorView {
        if key == Key::Control('Q') {
            if self.buffer.dirty && self.quit_count > 0 {
                (EditorView { quit_count: (self.quit_count - 1) as nat, ..self }).with_status(
                    quit_warning_text((self.quit_count - 1) as nat),
                    now,
                )
            } else {
                EditorView { quit_count: 0, ..self }
            }
        } else {
            EditorView {
                buffer: self.edit(key, rows, cols),
                quit_count: TOTAL_QUIT_COUNT as nat,
                ..self
            }
        }
    }

    /// The status message as the message bar shows it on a screen `cols`
    /// columns wide: cut to the width.
    pub open spec fn cut_status(self, cols: nat) -> Seq<char> {
        if self.status.len() <= cols {
            self.status
        } else {
            self.status.take(cols as int)
        }
    }

    /// The editor after the message bar was drawn at `now` on a screen
    /// `cols` columns wide: a message that is shown stays cut to the width.
    pub open spec fn draw_message_bar(self, cols: nat, now: nat) -> EditorView {
        if self.status_fresh(now) {
            EditorView { status: self.cut_status(cols), ..self }
        } else {
            self
        }
    }

    /// The message bar at `now` on a screen `cols` columns wide: the status
    /// message, cut to the width, as long as it is fresh.
    pub open spec fn message_bar(self, cols: nat, now: nat) -> Seq<char> {
        "\x1b[K"@ + (if self.status_fresh(now) {
            self.cut_status(cols)
        } else {
            Seq::empty()
        })
    }

    /// The text part of the screen: the home screen for an empty document,
    /// the frame of the document otherwise.
    pub open spec fn content(self, rows: nat, cols: nat) -> Seq<char> {
        if self.buffer.lines.len() == 0 {
            crate::home_screen_rows(rows, rows, cols)
        } else {
            self.buffer.frame_content(rows, cols)
        }
    }

    /// The editor after the screen was drawn: the viewport has followed the
    /// cursor, and the message bar was drawn.
    pub open spec fn refresh_screen(self, rows: nat, cols: nat, now: nat) -> EditorView {
        (EditorView { buffer: self.buffer.scroll(rows, cols), ..self }).draw_message_bar(cols, now)
    }

    /// The whole screen at `now`, for `rows` rows of text and `cols`
    /// columns, of an editor whose viewport holds the cursor: the cursor is
    /// hidden and sent home, then come the text, the status bar and the
    /// message bar, and the cursor is put where it belongs and shown again.
    pub open spec fn screen(self, rows: nat, cols: nat, now: nat) -> Seq<char> {
        "\x1b[?25l"@ + "\x1b[H"@ + self.content(rows, cols) + status_bar(self.buffer, cols)
            + self.message_bar(cols, now) + cursor_to(
            (self.buffer.cursor_row - self.buffer.row_offset + 1) as nat,
            (self.buffer.render_col - self.buffer.col_offset + 1) as nat,
        ) + "\x1b[?25h"@
    }

    /// Where one step of a search prompt puts the cursor: an arrow up or
    /// left searches backwards for the next match, an arrow down or right
    /// forwards; anything else searches in `direction` from the cursor.
    pub open spec fn search_target(
        self,
        query: Seq<char>,
        key: Option<Key>,
        direction: SearchDirection,
    ) -> (nat, nat) {
        if key == Some(Key::Move(Motion::Up)) || key == Some(Key::Move(Motion::Left)) {
            self.buffer.find_reverse(query, true)
        } else if key == Some(Key::Move(Motion::Down)) || key == Some(Key::Move(Motion::Right)) {
            self.buffer.find_forward(query, true)
        } else {
            match direction {
                SearchDirection::Forward => self.buffer.find_forward(query, false),
                SearchDirection::Reverse => self.buffer.find_reverse(query, false),
            }
        }
    }
}

/// The input of a prompt after `key`: a printable character is added at
/// the end, Escape empties it, Delete, Backspace and Ctrl-H take the last
/// character away, and every other key leaves it as it is.
pub open spec fn prompt_input(input: Seq<char>, key: Key) -> Seq<char> {
    match key {
        Key::Printable(ch) => input.push(ch),
        Key::Escape => Seq::empty(),
        Key::Delete | Key::Backspace => if input.len() > 0 {
            input.drop_last()
        } else {
            input
        },
        Key::Control(c) => if c == 'H' && input.len() > 0 {
            input.drop_last()
        } else {
            input
        },
        _ => input,
    }
}

/// Whether `key` ends a prompt: Newline accepts the input, Escape gives it
/// up.
pub open spec fn prompt_finished(key: Key) -> bool {
    key == Key::Newline || key == Key::Escape
}

/// The key that a prompt hands on to its caller: any key that the prompt
/// does not use itself.
pub open spec fn prompt_pending(key: Key) -> Option<Key> {
    match key {
        Key::Printable(_) | Key::Newline | Key::Escape | Key::Delete | Key::Backspace => None,
        Key::Control(c) => if c == 'H' {
            None
        } else {
            Some(key)
        },
        _ => Some(key),
    }
}

/// The left part of the status bar: the file name, cut to
/// [`FILE_NAME_WIDTH`] characters, the number of rows, and a mark if the
/// document is changed.
pub open spec fn status_left(buffer: BufferView) -> Seq<char> {
    let name = match buffer.filename {
        Some(name) => if name.len() <= FILE_NAME_WIDTH {
            name
        } else {
            name.take(FILE_NAME_WIDTH as int)
        },
        None => "[No Name]"@,
    };
    let mark = if buffer.dirty { "(modified)"@ } else { Seq::empty() };
    name + " - "@ + decimal_text(buffer.lines.len()) + " lines "@ + mark
}

/// The right part of the status bar: the cursor's row, counted from 1, and
/// the number of rows.
pub open spec fn status_right(buffer: BufferView) -> Seq<char> {
    decimal_text(buffer.cursor_row + 1) + "/"@ + decimal_text(buffer.lines.len())
}

/// The status bar for a screen `cols` columns wide, in reverse video: the
/// left part, blanks that push the right part to the margin (at least
/// one), and the right part.
pub open spec fn status_bar(buffer: BufferView, cols: nat) -> Seq<char> {
    let left = status_left(buffer);
    let right = status_right(buffer);
    let gap = if cols > left.len() + right.len() {
        (cols - left.len() - right.len()) as nat
    } else {
        1
    };
    "\x1b[7m"@ + left + blanks(gap) + right + "\x1b[m\r\n"@
}

/// The sequence that puts the terminal's cursor at `row` and `col`, both
/// counted from 1.
pub open spec fn cursor_to(row: nat, col: nat) -> Seq<char> {
    "\x1b["@ + decimal_text(row) + ";"@ + decimal_text(col) + "H"@
}

/// The warning shown when the quit key is pressed on a changed document.
pub open spec fn quit_warning_text(remaining: nat) -> Seq<char> {
    "WARNING!!! Press Ctrl-Q "@ + decimal_text(remaining)
        + " more times to quit. File has unsaved changes."@
}

/// The message shown after the document was saved.
pub open spec fn saved_text(bytes: nat) -> Seq<char> {
    decimal_text(bytes) + " bytes written to disk"@
}

/// The warning shown when the quit key is pressed on a changed document
/// and has to be pressed `remaining` more times.
pub fn quit_warning(remaining: usize) -> (text: String)
    ensures
        text@ == quit_warning_text(remaining as nat),
{
    let mut text = String::from_str("WARNING!!! Press Ctrl-Q ");
    text.append(decimal(remaining as u128).as_str());
    text.append(" more times to quit. File has unsaved changes.");
    text
}

/// The message shown after `bytes` bytes of the document were written.
pub fn saved_message(bytes: usize) -> (text: String)
    ensures
        text@ == saved_text(bytes as nat),
{
    let mut text = decimal(bytes as u128);
    text.append(" bytes written to disk");
    text
}

/// What a finished prompt gives its caller: the input, or nothing if the
/// input is empty.
pub fn prompt_reply(input: String) -> (reply: Option<String>)
    ensures
        reply.is_some() == (input@.len() > 0),
        reply.is_some() ==> reply.unwrap()@ == input@,
{
    if input.as_str().is_empty() {
        None
    } else {
        Some(input)
    }
}

/// The message shown when a document without a name is to be saved.
pub const NO_FILENAME: &'static str = "Filename not set!!!";

/// The message shown when the document could not be written; `reason` says
/// what went wrong.
pub open spec fn save_failed_text(reason: Seq<char>) -> Seq<char> {
    "Can't save! I/O error: "@ + reason
}

/// The message shown after a failure that the editor survives; `reason`
/// says what went wrong.
pub open spec fn failure_text(reason: Seq<char>) -> Seq<char> {
    "I/O error: "@ + reason
}

/// The editor: the document, the status message, and the count of the quit
/// key. Time comes from the caller, as seconds of a clock of its own.
pub struct Editor {
    buffer: Buffer,
    status_msg: String,
    status_msg_at: u64,
    quit_count: usize,
}

impl View for Editor {
    type V = EditorView;

    closed spec fn view(&self) -> EditorView {
        EditorView {
            buffer: self.buffer@,
            status: self.status_msg@,
            status_at: self.status_msg_at as nat,
            quit_count: self.quit_count as nat,
        }
    }
}

impl Editor {
    /// An editor with an empty document and no status message.
    pub fn new() -> (editor: Self)
        ensures
            editor@ == (EditorView {
                buffer: BufferView::empty(),
                status: Seq::empty(),
                status_at: 0,
                quit_count: TOTAL_QUIT_COUNT as nat,
            }),
            editor@.buffer.well_formed(),
    {
        Editor {
            buffer: Buffer::new(),
            status_msg: String::new(),
            status_msg_at: 0,
            quit_count: TOTAL_QUIT_COUNT,
        }
    }

    /// The document.
    pub fn buffer(&self) -> (buffer: &Buffer)
        ensures
            buffer@ == self@.buffer,
    {
        &self.buffer
    }

    /// The status message.
    pub fn status(&self) -> (message: &str)
        ensures
            message@ == self@.status,
    {
        self.status_msg.as_str()
    }

    /// The rows of text on a screen of `screen_rows` rows: all but the
    /// status bar and the message bar.
    pub fn rows(screen_rows: usize) -> (rows: usize)
        ensures
            rows == (if screen_rows >= STATUS_HEIGHT {
                screen_rows - STATUS_HEIGHT
            } else {
                0
            }),
    {
        if screen_rows >= STATUS_HEIGHT {
            screen_rows - STATUS_HEIGHT
        } else {
            0
        }
    }

    /// Whether the editor goes on: it ends when the count of the quit key is
    /// used up.
    pub fn keep_alive(&self) -> (alive: bool)
        ensures
            alive == (self@.quit_count > 0),
    {
        self.quit_count > 0
    }

    /// Makes `msg` the status message, set at `now`.
    pub fn set_status(&mut self, msg: String, now: u64)
        ensures
            final(self)@ == old(self)@.with_status(msg@, now as nat),
    {
        self.status_msg = msg;
        self.status_msg_at = now;
    }

    /// Does what `key` asks for at `now`, in a viewport of `rows` rows and
    /// `cols` columns, and returns what is left for the caller to do.
    pub fn process_keypress(
        &mut self,
        key: Key,
        rows: usize,
        cols: usize,
        now: u64,
    ) -> (command: Command)
        requires
            old(self)@.buffer.well_formed(),
        ensures
            final(self)@ == old(self)@.process_keypress(key, rows as nat, cols as nat, now as nat),
            command == old(self)@.command(key),
            final(self)@.buffer.well_formed(),
    {
        match key {
            Key::Control('Q') => {
                if self.buffer.is_dirty() && self.quit_count > 0 {
                    self.quit_count -= 1;
                    self.set_status(quit_warning(self.quit_count), now);
                } else {
                    self.quit_count = 0;
                }
                return Command::Proceed;
            },
            _ => {},
        }
        let command = match key {
            Key::Control('S') => Command::Save,
            Key::Control('F') => Command::Find(SearchDirection::Forward),
            Key::Control('G') => Command::Find(SearchDirection::Reverse),
            Key::Move(motion) => {
                self.buffer.move_cursor(motion, rows, cols);
                Command::Proceed
            },
            Key::Printable(ch) => {
                self.buffer.insert_char(ch);
                Command::Proceed
            },
            Key::Tab => {
                self.buffer.insert_char('\t');
                Command::Proceed
            },
            Key::Newline => {
                self.buffer.insert_new_line();
                Command::Proceed
            },
            Key::Backspace | Key::Control('H') => {
                self.buffer.delete_char();
                Command::Proceed
            },
            Key::Delete => {
                self.buffer.move_cursor(Motion::Right, rows, cols);
                self.buffer.delete_char();
                Command::Proceed
            },
            _ => Command::Proceed,
        };
        self.quit_count = TOTAL_QUIT_COUNT;
        command
    }

    /// Takes over the rows of a file: with a file name, the document gets
    /// the name and `lines` as further rows. The document is clean
    /// afterwards.
    pub fn open(&mut self, file: Option<String>, lines: Vec<String>)
        ensures
            final(self)@ == (EditorView {
                buffer: match file {
                    Some(name) => BufferView {
                        filename: Some(name@),
                        lines: old(self)@.buffer.lines + lines@.map_values(|line: String| line@),
                        dirty: false,
                        ..old(self)@.buffer
                    },
                    None => BufferView { dirty: false, ..old(self)@.buffer },
                },
                ..old(self)@
            }),
            old(self)@.buffer.well_formed() ==> final(self)@.buffer.well_formed(),
    {
        if let Some(name) = file {
            self.buffer.set_filename(Some(name));
            let ghost rows = lines@.map_values(|line: String| line@);
            let mut i: usize = 0;
            while i < lines.len()
                invariant
                    i <= lines@.len(),
                    rows == lines@.map_values(|line: String| line@),
                    self@.buffer.lines == old(self)@.buffer.lines + rows.take(i as int),
                    self@ == (EditorView {
                        buffer: BufferView {
                            filename: Some(name@),
                            lines: self@.buffer.lines,
                            dirty: self@.buffer.dirty,
                            ..old(self)@.buffer
                        },
                        ..old(self)@
                    }),
                    old(self)@.buffer.well_formed() ==> self@.buffer.well_formed(),
                decreases lines@.len() - i,
            {
                self.buffer.append_row(lines[i].clone());
                i += 1;
            }
            assert(rows.take(lines@.len() as int) == rows);
        }
        self.buffer.not_dirty();
    }

    /// Names the file the document belongs to, or makes it unnamed.
    pub fn set_filename(&mut self, filename: Option<String>)
        ensures
            final(self)@ == (EditorView {
                buffer: BufferView {
                    filename: match filename {
                        Some(name) => Some(name@),
                        None => None,
                    },
                    ..old(self)@.buffer
                },
                ..old(self)@
            }),
    {
        self.buffer.set_filename(filename);
    }

    /// What is to be written to save the document: the file name and the
    /// text. For a document without a name there is nothing to write, and
    /// the status message says so.
    pub fn save_request(&mut self, now: u64) -> (request: Option<(String, String)>)
        ensures
            request.is_some() == old(self)@.buffer.filename.is_some(),
            request.is_some() ==> request.unwrap().0@ == old(self)@.buffer.filename.unwrap()
                && request.unwrap().1@ == old(self)@.buffer.rows_to_string() && final(self)@ == old(
                self,
            )@,
            request.is_none() ==> final(self)@ == old(self)@.with_status(NO_FILENAME@, now as nat),
    {
        match self.buffer.filename() {
            Some(name) => Some((name.clone(), self.buffer.rows_to_string())),
            None => {
                self.set_status(String::from_str(NO_FILENAME), now);
                None
            },
        }
    }

    /// Takes note at `now` that the document was saved in `bytes` bytes: the
    /// document is clean, and the status message tells the size.
    pub fn saved(&mut self, bytes: usize, now: u64)
        ensures
            final(self)@ == (EditorView {
                buffer: BufferView { dirty: false, ..old(self)@.buffer },
                ..old(self)@
            }).with_status(saved_text(bytes as nat), now as nat),
    {
        self.set_status(saved_message(bytes), now);
        self.buffer.not_dirty();
    }

    /// Takes note at `now` that the document could not be written, for what
    /// `reason` says: the status message tells it, and the document stays
    /// as it is.
    pub fn save_failed(&mut self, reason: &str, now: u64)
        ensures
            final(self)@ == old(self)@.with_status(save_failed_text(reason@), now as nat),
    {
        let mut message = String::from_str("Can't save! I/O error: ");
        message.append(reason);
        self.set_status(message, now);
    }

    /// Takes note at `now` of a failure, for what `reason` says, and returns
    /// whether the editor goes on. It does after a failed read or write,
    /// which the status message reports; it does not without its terminal.
    pub fn report_failure(&mut self, failure: Failure, reason: &str, now: u64) -> (go_on: bool)
        ensures
            go_on == (failure == Failure::IoFailure),
            final(self)@ == (if failure == Failure::IoFailure {
                old(self)@.with_status(failure_text(reason@), now as nat)
            } else {
                old(self)@
            }),
    {
        if failure.is_fatal() {
            return false;
        }
        let mut message = String::from_str("I/O error: ");
        message.append(reason);
        self.set_status(message, now);
        true
    }

    /// Shows a prompt at `now`: the status message becomes `prompt`
    /// followed by the input so far.
    pub fn prompt_status(&mut self, prompt: &str, input: &str, now: u64)
        ensures
            final(self)@ == old(self)@.with_status(prompt@ + input@, now as nat),
    {
        let mut message = String::from_str(prompt);
        message.append(input);
        self.set_status(message, now);
    }

    /// Takes `key` into the input of a prompt at `now`. Returns whether the
    /// prompt is finished, and the key if it is one for the prompt's
    /// caller. A prompt that is finished leaves no status message.
    pub fn prompt_step(
        &mut self,
        input: &mut String,
        key: Key,
        now: u64,
    ) -> (step: (bool, Option<Key>))
        ensures
            final(input)@ == prompt_input(old(input)@, key),
            step.0 == prompt_finished(key),
            step.1 == prompt_pending(key),
            final(self)@ == (if prompt_finished(key) {
                old(self)@.with_status(Seq::empty(), now as nat)
            } else {
                old(self)@
            }),
    {
        match key {
            Key::Printable(ch) => {
                input.push(ch);
                (false, None)
            },
            Key::Newline => {
                self.set_status(String::new(), now);
                (true, None)
            },
            Key::Escape => {
                *input = String::new();
                self.set_status(String::new(), now);
                (true, None)
            },
            Key::Delete | Key::Backspace | Key::Control('H') => {
                let len = input.as_str().unicode_len();
                if len > 0 {
                    let kept = String::from_str(input.as_str().substring_char(0, len - 1));
                    *input = kept;
                }
                (false, None)
            },
            other => (false, Some(other)),
        }
    }

    /// One step of a search prompt: searches for `query` as `key`, the key
    /// that the prompt handed on, and `direction` say, and puts the cursor
    /// on what was found.
    pub fn search_step(&mut self, query: &str, key: Option<Key>, direction: SearchDirection)
        requires
            old(self)@.buffer.well_formed(),
        ensures
            final(self)@ == (EditorView {
                buffer: BufferView {
                    cursor_row: old(self)@.search_target(query@, key, direction).0,
                    cursor_col: old(self)@.search_target(query@, key, direction).1,
                    row_offset: old(self)@.buffer.lines.len(),
                    ..old(self)@.buffer
                },
                ..old(self)@
            }),
            final(self)@.buffer.well_formed(),
    {
        let found = match key {
            Some(Key::Move(Motion::Up)) | Some(Key::Move(Motion::Left)) => self.buffer.find_reverse(
                query,
                true,
            ),
            Some(Key::Move(Motion::Down)) | Some(Key::Move(Motion::Right)) => {
                self.buffer.find_forward(query, true)
            },
            _ => match direction {
                SearchDirection::Forward => self.buffer.find_forward(query, false),
                SearchDirection::Reverse => self.buffer.find_reverse(query, false),
            },
        };
        self.buffer.place_cursor(found.0, found.1);
    }

    /// Ends a search prompt: if the query was given up, the cursor and the
    /// viewport go back to `saved`, where they were when the search began.
    /// A saved position that is not on the document is ignored.
    pub fn end_search(&mut self, query: &str, saved: Cursor)
        requires
            old(self)@.buffer.well_formed(),
        ensures
            final(self)@ == (if query@.len() == 0 && saved.cursor_row <= old(self)@.buffer.lines.len()
                && saved.cursor_col <= old(self)@.buffer.line_len(saved.cursor_row as nat) {
                EditorView {
                    buffer: BufferView {
                        cursor_row: saved.cursor_row as nat,
                        cursor_col: saved.cursor_col as nat,
                        row_offset: saved.row_offset as nat,
                        col_offset: saved.col_offset as nat,
                        ..old(self)@.buffer
                    },
                    ..old(self)@
                }
            } else {
                old(self)@
            }),
            final(self)@.buffer.well_formed(),
    {
        if query.is_empty() && self.buffer.holds(saved.cursor_row, saved.cursor_col) {
            self.buffer.set_cursor_position(saved);
        }
    }

    /// The text part of the screen: the home screen for an empty document,
    /// the frame of the document otherwise.
    pub fn draw_content(&self, rows: usize, cols: usize) -> (content: String)
        ensures
            content@ == self@.content(rows as nat, cols as nat),
    {
        if self.buffer.is_empty() {
            crate::editor_home_screen(rows, cols)
        } else {
            self.buffer.frame_content(rows, cols)
        }
    }

    /// The status bar for a screen `cols` columns wide.
    pub fn draw_status_bar(&self, cols: usize) -> (bar: String)
        ensures
            bar@ == status_bar(self@.buffer, cols as nat),
    {
        let mut left = String::new();
        match self.buffer.filename() {
            Some(name) => {
                let len = name.as_str().unicode_len();
                let keep: usize = if len <= FILE_NAME_WIDTH {
                    len
                } else {
                    FILE_NAME_WIDTH
                };
                left.append(name.as_str().substring_char(0, keep));
            },
            None => {
                left.append("[No Name]");
            },
        }
        let count = self.buffer.line_count();
        left.append(" - ");
        left.append(decimal(count as u128).as_str());
        left.append(" lines ");
        if self.buffer.is_dirty() {
            left.append("(modified)");
        }
        let row = self.buffer.cursor_position().cursor_row;
        let mut right = decimal(row as u128 + 1);
        right.append("/");
        right.append(decimal(count as u128).as_str());
        let left_len = left.as_str().unicode_len();
        let right_len = right.as_str().unicode_len();
        let gap: usize = if cols > left_len && cols - left_len > right_len {
            cols - left_len - right_len
        } else {
            1
        };
        let mut bar = String::from_str("\x1b[7m");
        bar.append(left.as_str());
        let mut k: usize = 0;
        let ghost lead = bar@;
        while k < gap
            invariant
                k <= gap,
                bar@ == lead + blanks(k as nat),
            decreases gap - k,
        {
            bar.push(' ');
            k += 1;
        }
        bar.append(right.as_str());
        bar.append("\x1b[m\r\n");
        bar
    }

    /// The message bar at `now` for a screen `cols` columns wide: the
    /// status message, as long as it is fresh. A message that is shown is
    /// cut to the width, and stays so.
    pub fn draw_message_bar(&mut self, cols: usize, now: u64) -> (bar: String)
        ensures
            bar@ == old(self)@.message_bar(cols as nat, now as nat),
            final(self)@ == old(self)@.draw_message_bar(cols as nat, now as nat),
    {
        let mut bar = String::from_str("\x1b[K");
        let fresh = now < self.status_msg_at || now - self.status_msg_at < MESSAGE_SECONDS;
        if fresh {
            let len = self.status_msg.as_str().unicode_len();
            if len > cols {
                let cut = String::from_str(self.status_msg.as_str().substring_char(0, cols));
                self.status_msg = cut;
            }
            bar.append(self.status_msg.as_str());
        }
        bar
    }

    /// Draws the whole screen at `now`, for `rows` rows of text and `cols`
    /// columns, after the viewport followed the cursor.
    pub fn refresh_screen(&mut self, rows: usize, cols: usize, now: u64) -> (screen: String)
        requires
            rows >= 1,
            cols >= 1,
        ensures
            final(self)@ == old(self)@.refresh_screen(rows as nat, cols as nat, now as nat),
            screen@ == (EditorView {
                buffer: old(self)@.buffer.scroll(rows as nat, cols as nat),
                ..old(self)@
            }).screen(rows as nat, cols as nat, now as nat),
            old(self)@.buffer.well_formed() ==> final(self)@.buffer.well_formed(),
    {
        self.buffer.scroll(rows, cols);
        let mut screen = String::from_str("\x1b[?25l");
        screen.append("\x1b[H");
        screen.append(self.draw_content(rows, cols).as_str());
        screen.append(self.draw_status_bar(cols).as_str());
        screen.append(self.draw_message_bar(cols, now).as_str());
        let place = self.buffer.cursor_placement();
        let mut jump = String::from_str("\x1b[");
        jump.append(decimal(place.0 as u128).as_str());
        jump.append(";");
        jump.append(decimal(place.1 as u128).as_str());
        jump.append("H");
        screen.append(jump.as_str());
        screen.append("\x1b[?25h");
        screen
    }
}

} // verus!
