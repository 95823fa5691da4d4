use milo::buffer::Cursor;
use milo::editor::{
    decimal, prompt_reply, quit_warning, saved_message, Command, Editor, SearchDirection,
    FILE_NAME_WIDTH, MESSAGE_SECONDS, NO_FILENAME, STATUS_HEIGHT, TOTAL_QUIT_COUNT,
};
use milo::editor_home_screen;
use milo::terminal::{Failure, Key, Motion};

fn editor_with(rows: &[&str]) -> Editor {
    let mut editor = Editor::new();
    editor.open(
        Some("test.txt".to_string()),
        rows.iter().map(|row| row.to_string()).collect(),
    );
    editor
}

fn type_text(editor: &mut Editor, text: &str) {
    for ch in text.chars() {
        let key = match ch {
            '\n' => Key::Newline,
            '\t' => Key::Tab,
            ch => Key::Printable(ch),
        };
        assert_eq!(editor.process_keypress(key, 24, 80, 0), Command::Proceed);
    }
}

fn position(editor: &Editor) -> (usize, usize) {
    let cursor = editor.buffer().cursor_position();
    (cursor.cursor_row, cursor.cursor_col)
}

#[test]
fn decimal_numerals() {
    assert_eq!(decimal(0), "0");
    assert_eq!(decimal(7), "7");
    assert_eq!(decimal(10), "10");
    assert_eq!(decimal(409), "409");
    assert_eq!(decimal(1234567890), "1234567890");
    assert_eq!(decimal(u64::MAX as u128), u64::MAX.to_string());
    assert_eq!(decimal(u128::MAX), u128::MAX.to_string());
}

#[test]
fn constants_of_the_editor() {
    assert_eq!(STATUS_HEIGHT, 2);
    assert_eq!(TOTAL_QUIT_COUNT, 4);
    assert_eq!(FILE_NAME_WIDTH, 20);
    assert_eq!(MESSAGE_SECONDS, 5);
    assert_eq!(Editor::rows(24), 22);
    assert_eq!(Editor::rows(2), 0);
    assert_eq!(Editor::rows(1), 0);
    assert_eq!(Editor::rows(0), 0);
}

#[test]
fn messages() {
    assert_eq!(
        quit_warning(3),
        "WARNING!!! Press Ctrl-Q 3 more times to quit. File has unsaved changes."
    );
    assert_eq!(saved_message(1024), "1024 bytes written to disk");
    assert_eq!(saved_message(0), "0 bytes written to disk");
}

#[test]
fn new_editor_is_alive_and_empty() {
    let editor = Editor::new();
    assert!(editor.keep_alive());
    assert!(editor.buffer().is_empty());
    assert!(!editor.buffer().is_dirty());
    assert_eq!(editor.status(), "");
}

#[test]
fn open_takes_the_rows_and_leaves_the_document_clean() {
    let editor = editor_with(&["one", "two"]);
    assert_eq!(editor.buffer().line_count(), 2);
    assert!(!editor.buffer().is_dirty());
    assert_eq!(editor.buffer().filename(), &Some("test.txt".to_string()));
    assert_eq!(editor.buffer().rows_to_string(), "one\ntwo\n");

    let mut unnamed = Editor::new();
    unnamed.open(None, vec!["ignored".to_string()]);
    assert!(unnamed.buffer().is_empty());
    assert_eq!(unnamed.buffer().filename(), &None);
}

#[test]
fn typing_edits_the_document() {
    let mut editor = Editor::new();
    type_text(&mut editor, "ab\tc\nd");
    assert_eq!(editor.buffer().rows_to_string(), "ab\tc\nd\n");
    assert_eq!(position(&editor), (1, 1));
    assert!(editor.buffer().is_dirty());
}

#[test]
fn backspace_and_control_h_delete_before_the_cursor() {
    let mut editor = Editor::new();
    type_text(&mut editor, "abcd");
    assert_eq!(editor.process_keypress(Key::Backspace, 24, 80, 0), Command::Proceed);
    assert_eq!(editor.process_keypress(Key::Control('H'), 24, 80, 0), Command::Proceed);
    assert_eq!(editor.buffer().rows_to_string(), "ab\n");
    assert_eq!(position(&editor), (0, 2));
}

#[test]
fn delete_removes_the_character_at_the_cursor() {
    let mut editor = editor_with(&["abc", "def"]);
    editor.process_keypress(Key::Move(Motion::Right), 24, 80, 0);
    assert_eq!(editor.process_keypress(Key::Delete, 24, 80, 0), Command::Proceed);
    assert_eq!(editor.buffer().rows_to_string(), "ac\ndef\n");
    assert_eq!(position(&editor), (0, 1));
    editor.process_keypress(Key::Move(Motion::End), 24, 80, 0);
    editor.process_keypress(Key::Delete, 24, 80, 0);
    assert_eq!(editor.buffer().rows_to_string(), "acdef\n");
    assert_eq!(position(&editor), (0, 2));
}

#[test]
fn keys_without_an_effect_change_nothing() {
    let mut editor = editor_with(&["abc"]);
    for key in [Key::Escape, Key::Control('L'), Key::Control('X'), Key::Control('@')] {
        assert_eq!(editor.process_keypress(key, 24, 80, 0), Command::Proceed);
    }
    assert_eq!(editor.buffer().rows_to_string(), "abc\n");
    assert_eq!(position(&editor), (0, 0));
    assert!(!editor.buffer().is_dirty());
}

#[test]
fn commands_are_handed_to_the_caller() {
    let mut editor = editor_with(&["abc"]);
    assert_eq!(editor.process_keypress(Key::Control('S'), 24, 80, 0), Command::Save);
    assert_eq!(
        editor.process_keypress(Key::Control('F'), 24, 80, 0),
        Command::Find(SearchDirection::Forward)
    );
    assert_eq!(
        editor.process_keypress(Key::Control('G'), 24, 80, 0),
        Command::Find(SearchDirection::Reverse)
    );
    assert!(editor.keep_alive());
}

#[test]
fn quit_on_a_clean_document_ends_at_once() {
    let mut editor = editor_with(&["abc"]);
    assert_eq!(editor.process_keypress(Key::Control('Q'), 24, 80, 0), Command::Proceed);
    assert!(!editor.keep_alive());
}

#[test]
fn quit_on_a_changed_document_counts_down() {
    let mut editor = editor_with(&["abc"]);
    type_text(&mut editor, "x");
    for remaining in [3, 2, 1, 0] {
        assert!(editor.keep_alive());
        assert_eq!(editor.process_keypress(Key::Control('Q'), 24, 80, 7), Command::Proceed);
        assert_eq!(editor.status(), quit_warning(remaining));
    }
    assert!(!editor.keep_alive());
}

#[test]
fn another_key_starts_the_quit_count_afresh() {
    let mut editor = editor_with(&["abc"]);
    type_text(&mut editor, "x");
    editor.process_keypress(Key::Control('Q'), 24, 80, 0);
    editor.process_keypress(Key::Control('Q'), 24, 80, 0);
    assert_eq!(editor.status(), quit_warning(2));
    assert_eq!(editor.process_keypress(Key::Escape, 24, 80, 0), Command::Proceed);
    editor.process_keypress(Key::Control('Q'), 24, 80, 0);
    assert_eq!(editor.status(), quit_warning(3));
}

#[test]
fn saving_marks_the_document_clean() {
    let mut editor = editor_with(&["a", "b"]);
    type_text(&mut editor, "x");
    assert_eq!(
        editor.save_request(3),
        Some(("test.txt".to_string(), "xa\nb\n".to_string()))
    );
    assert!(editor.buffer().is_dirty());
    assert_eq!(editor.status(), "");
    editor.saved(5, 3);
    assert!(!editor.buffer().is_dirty());
    assert_eq!(editor.status(), "5 bytes written to disk");
}

#[test]
fn failed_save_leaves_the_document_changed() {
    let mut editor = editor_with(&["a"]);
    type_text(&mut editor, "x");
    editor.save_failed("disk full", 1);
    assert!(editor.buffer().is_dirty());
    assert_eq!(editor.status(), "Can't save! I/O error: disk full");
}

#[test]
fn unnamed_document_gets_its_name_before_it_is_saved() {
    let mut editor = Editor::new();
    type_text(&mut editor, "hello");
    assert_eq!(editor.save_request(0), None);
    assert_eq!(editor.status(), "Filename not set!!!");
    assert_eq!(editor.status(), NO_FILENAME);
    editor.set_filename(Some("new.txt".to_string()));
    assert_eq!(
        editor.save_request(0),
        Some(("new.txt".to_string(), "hello\n".to_string()))
    );
}

#[test]
fn prompt_collects_printable_characters() {
    let mut editor = Editor::new();
    let mut input = String::new();
    editor.prompt_status("Search: ", &input, 0);
    assert_eq!(editor.status(), "Search: ");
    assert_eq!(editor.prompt_step(&mut input, Key::Printable('a'), 0), (false, None));
    assert_eq!(editor.prompt_step(&mut input, Key::Printable('b'), 0), (false, None));
    assert_eq!(input, "ab");
    editor.prompt_status("Search: ", &input, 0);
    assert_eq!(editor.status(), "Search: ab");
    assert_eq!(editor.prompt_step(&mut input, Key::Newline, 0), (true, None));
    assert_eq!(input, "ab");
    assert_eq!(editor.status(), "");
}

#[test]
fn prompt_is_given_up_with_escape() {
    let mut editor = Editor::new();
    let mut input = "query".to_string();
    editor.prompt_status("Save as: ", &input, 0);
    assert_eq!(editor.prompt_step(&mut input, Key::Escape, 0), (true, None));
    assert_eq!(input, "");
    assert_eq!(editor.status(), "");
}

#[test]
fn prompt_deletes_the_last_character() {
    let mut editor = Editor::new();
    let mut input = "abé".to_string();
    assert_eq!(editor.prompt_step(&mut input, Key::Backspace, 0), (false, None));
    assert_eq!(input, "ab");
    assert_eq!(editor.prompt_step(&mut input, Key::Delete, 0), (false, None));
    assert_eq!(input, "a");
    assert_eq!(editor.prompt_step(&mut input, Key::Control('H'), 0), (false, None));
    assert_eq!(input, "");
    assert_eq!(editor.prompt_step(&mut input, Key::Backspace, 0), (false, None));
    assert_eq!(input, "");
}

#[test]
fn prompt_hands_other_keys_on() {
    let mut editor = Editor::new();
    editor.set_status("shown".to_string(), 0);
    let mut input = "ab".to_string();
    for key in [Key::Move(Motion::Down), Key::Tab, Key::Control('F'), Key::Move(Motion::PgUp)] {
        assert_eq!(editor.prompt_step(&mut input, key, 0), (false, Some(key)));
        assert_eq!(input, "ab");
    }
    assert_eq!(editor.status(), "shown");
}

#[test]
fn search_steps_through_the_matches() {
    let mut editor = editor_with(&["needle", "hay", "a needle", "hay", "needles"]);
    editor.search_step("needle", None, SearchDirection::Forward);
    assert_eq!(position(&editor), (0, 0));
    editor.search_step("needle", Some(Key::Move(Motion::Down)), SearchDirection::Forward);
    assert_eq!(position(&editor), (2, 2));
    editor.search_step("needle", Some(Key::Move(Motion::Right)), SearchDirection::Forward);
    assert_eq!(position(&editor), (4, 0));
    editor.search_step("needle", Some(Key::Move(Motion::Right)), SearchDirection::Forward);
    assert_eq!(position(&editor), (0, 0));
    editor.search_step("needle", Some(Key::Move(Motion::Up)), SearchDirection::Forward);
    assert_eq!(position(&editor), (4, 0));
    editor.search_step("needle", Some(Key::Move(Motion::Left)), SearchDirection::Forward);
    assert_eq!(position(&editor), (2, 2));
    editor.search_step("needle", Some(Key::Tab), SearchDirection::Reverse);
    assert_eq!(position(&editor), (2, 2));
    assert_eq!(editor.buffer().cursor_position().row_offset, 5);
}

#[test]
fn search_in_the_given_direction() {
    let mut editor = editor_with(&["x", "target", "x", "target", "x"]);
    editor.process_keypress(Key::Move(Motion::Down), 24, 80, 0);
    editor.process_keypress(Key::Move(Motion::Down), 24, 80, 0);
    let start = editor.buffer().cursor_position();
    editor.search_step("target", None, SearchDirection::Forward);
    assert_eq!(position(&editor), (3, 0));
    editor.end_search("", start);
    assert_eq!(position(&editor), (2, 0));
    editor.search_step("target", None, SearchDirection::Reverse);
    assert_eq!(position(&editor), (1, 0));
}

#[test]
fn search_that_is_given_up_restores_the_cursor() {
    let mut editor = editor_with(&["one", "two", "three"]);
    editor.process_keypress(Key::Move(Motion::Down), 24, 80, 0);
    editor.process_keypress(Key::Move(Motion::Right), 24, 80, 0);
    let saved = editor.buffer().cursor_position();
    editor.search_step("three", None, SearchDirection::Forward);
    assert_eq!(position(&editor), (2, 0));
    editor.end_search("three", saved);
    assert_eq!(position(&editor), (2, 0));
    editor.end_search("", saved);
    assert_eq!(editor.buffer().cursor_position(), saved);
}

#[test]
fn search_end_ignores_a_position_off_the_document() {
    let mut editor = editor_with(&["one"]);
    let before = editor.buffer().cursor_position();
    editor.end_search("", Cursor { cursor_row: 5, cursor_col: 0, row_offset: 0, col_offset: 0 });
    assert_eq!(editor.buffer().cursor_position(), before);
    editor.end_search("", Cursor { cursor_row: 0, cursor_col: 4, row_offset: 0, col_offset: 0 });
    assert_eq!(editor.buffer().cursor_position(), before);
}

#[test]
fn home_screen_shows_the_banner_a_third_of_the_way_down() {
    let screen = editor_home_screen(6, 41);
    let lines: Vec<&str> = screen.split("\x1b[K\r\n").collect();
    assert_eq!(lines.len(), 7);
    assert_eq!(lines[6], "");
    for (n, line) in lines[..6].iter().enumerate() {
        if n == 2 {
            assert_eq!(*line, "~         milo -- version 0.1.0");
        } else {
            assert_eq!(*line, "~");
        }
    }
}

#[test]
fn home_screen_on_a_narrow_screen_cuts_the_banner() {
    assert_eq!(editor_home_screen(1, 4), "milo\x1b[K\r\n");
    assert_eq!(editor_home_screen(1, 21), "milo -- version 0.1.0\x1b[K\r\n");
    assert_eq!(editor_home_screen(1, 22), "milo -- version 0.1.0\x1b[K\r\n");
    assert_eq!(editor_home_screen(1, 23), "~milo -- version 0.1.0\x1b[K\r\n");
    assert_eq!(editor_home_screen(1, 25), "~ milo -- version 0.1.0\x1b[K\r\n");
    assert_eq!(editor_home_screen(1, 0), "\x1b[K\r\n");
    assert_eq!(editor_home_screen(0, 80), "");
    assert_eq!(editor_home_screen(2, 0), "\x1b[K\r\n~\x1b[K\r\n");
}

#[test]
fn content_is_the_home_screen_for_an_empty_document() {
    let editor = Editor::new();
    assert_eq!(editor.draw_content(5, 40), editor_home_screen(5, 40));
    let editor = editor_with(&["text"]);
    assert_eq!(editor.draw_content(2, 40), "text\x1b[K\r\n~\x1b[K\r\n");
}

#[test]
fn status_bar_shows_name_rows_and_position() {
    let editor = editor_with(&["a", "b", "c"]);
    let bar = editor.draw_status_bar(40);
    assert_eq!(
        bar,
        format!("\x1b[7m{}{}{}\x1b[m\r\n", "test.txt - 3 lines ", " ".repeat(18), "1/3")
    );
}

#[test]
fn status_bar_marks_a_changed_document() {
    let mut editor = editor_with(&["a", "b", "c"]);
    editor.process_keypress(Key::Move(Motion::Down), 24, 80, 0);
    type_text(&mut editor, "x");
    let bar = editor.draw_status_bar(40);
    assert_eq!(
        bar,
        format!("\x1b[7m{}{}{}\x1b[m\r\n", "test.txt - 3 lines (modified)", " ".repeat(8), "2/3")
    );
}

#[test]
fn status_bar_of_an_unnamed_document() {
    let editor = Editor::new();
    assert_eq!(
        editor.draw_status_bar(30),
        format!("\x1b[7m{}{}{}\x1b[m\r\n", "[No Name] - 0 lines ", " ".repeat(7), "1/0")
    );
}

#[test]
fn status_bar_cuts_a_long_file_name() {
    let mut editor = Editor::new();
    editor.set_filename(Some("a-very-long-file-name-indeed.txt".to_string()));
    assert_eq!(
        editor.draw_status_bar(40),
        format!("\x1b[7m{}{}{}\x1b[m\r\n", "a-very-long-file-nam - 0 lines ", " ".repeat(6), "1/0")
    );
}

#[test]
fn status_bar_on_a_narrow_screen_keeps_one_blank() {
    let editor = editor_with(&["a"]);
    for cols in [0usize, 5, 22, 23] {
        assert_eq!(editor.draw_status_bar(cols), "\x1b[7mtest.txt - 1 lines  1/1\x1b[m\r\n");
    }
    assert_eq!(editor.draw_status_bar(24), "\x1b[7mtest.txt - 1 lines   1/1\x1b[m\r\n");
}

#[test]
fn message_bar_shows_a_fresh_message() {
    let mut editor = Editor::new();
    editor.set_status("saved".to_string(), 100);
    assert_eq!(editor.draw_message_bar(80, 100), "\x1b[Ksaved");
    assert_eq!(editor.draw_message_bar(80, 104), "\x1b[Ksaved");
    assert_eq!(editor.draw_message_bar(80, 105), "\x1b[K");
    assert_eq!(editor.draw_message_bar(80, 1000), "\x1b[K");
    assert_eq!(editor.draw_message_bar(80, 99), "\x1b[Ksaved");
    assert_eq!(editor.status(), "saved");
}

#[test]
fn message_bar_cuts_the_message_to_the_width() {
    let mut editor = Editor::new();
    editor.set_status("saved".to_string(), 0);
    assert_eq!(editor.draw_message_bar(3, 9), "\x1b[K");
    assert_eq!(editor.status(), "saved");
    assert_eq!(editor.draw_message_bar(3, 0), "\x1b[Ksav");
    assert_eq!(editor.status(), "sav");
    assert_eq!(editor.draw_message_bar(80, 0), "\x1b[Ksav");
    assert_eq!(editor.draw_message_bar(0, 0), "\x1b[K");
    assert_eq!(editor.status(), "");
}

#[test]
fn screen_is_composed_of_its_parts() {
    let mut editor = editor_with(&["hello", "\tworld"]);
    editor.process_keypress(Key::Move(Motion::Down), 24, 80, 0);
    editor.process_keypress(Key::Move(Motion::Right), 24, 80, 0);
    editor.set_status("HELP".to_string(), 0);
    let screen = editor.refresh_screen(3, 30, 4);
    let expected = format!(
        "\x1b[?25l\x1b[H{}{}{}{}\x1b[?25h",
        "hello\x1b[K\r\n        world\x1b[K\r\n~\x1b[K\r\n",
        format!("\x1b[7m{}{}{}\x1b[m\r\n", "test.txt - 2 lines ", " ".repeat(8), "2/2"),
        "\x1b[KHELP",
        "\x1b[2;9H",
    );
    assert_eq!(screen, expected);
}

#[test]
fn refresh_scrolls_to_the_cursor() {
    let rows: Vec<String> = (0..50).map(|n| format!("row {}", n)).collect();
    let refs: Vec<&str> = rows.iter().map(|row| row.as_str()).collect();
    let mut editor = editor_with(&refs);
    editor.process_keypress(Key::Move(Motion::PgDn), 10, 80, 0);
    editor.process_keypress(Key::Move(Motion::PgDn), 10, 80, 0);
    let screen = editor.refresh_screen(10, 80, 0);
    assert_eq!(editor.buffer().cursor_position().row_offset, 11);
    assert!(screen.starts_with("\x1b[?25l\x1b[Hrow 11\x1b[K\r\n"));
    assert!(screen.ends_with("\x1b[K\x1b[10;1H\x1b[?25h"));
}

#[test]
fn failed_read_is_reported_and_the_editor_goes_on() {
    let mut editor = editor_with(&["a"]);
    assert!(editor.report_failure(Failure::IoFailure, "interrupted", 2));
    assert_eq!(editor.status(), "I/O error: interrupted");
    assert!(editor.keep_alive());
}

#[test]
fn editor_does_not_go_on_without_its_terminal() {
    let mut editor = editor_with(&["a"]);
    editor.set_status("before".to_string(), 0);
    assert!(!editor.report_failure(Failure::TerminalUnavailable, "gone", 2));
    assert_eq!(editor.status(), "before");
    assert!(Failure::TerminalUnavailable.is_fatal());
    assert!(!Failure::IoFailure.is_fatal());
}

#[test]
fn prompt_gives_its_input_unless_it_is_empty() {
    assert_eq!(prompt_reply("name.txt".to_string()), Some("name.txt".to_string()));
    assert_eq!(prompt_reply(" ".to_string()), Some(" ".to_string()));
    assert_eq!(prompt_reply(String::new()), None);
}
