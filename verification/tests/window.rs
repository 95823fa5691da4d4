use milo::window::{parse_cursor_report, size_from_query, REPORT_CURSOR, REPORT_END, TO_BOTTOM_RIGHT};

#[test]
fn report_gives_rows_and_columns() {
    assert_eq!(parse_cursor_report(b"\x1b[24;80"), Some((24, 80)));
    assert_eq!(parse_cursor_report(b"\x1b[1;1"), Some((1, 1)));
    assert_eq!(parse_cursor_report(b"\x1b[0;0"), Some((0, 0)));
    assert_eq!(parse_cursor_report(b"\x1b[007;0012"), Some((7, 12)));
    assert_eq!(parse_cursor_report(b"\x1b[999;1234567"), Some((999, 1234567)));
}

#[test]
fn report_with_other_than_two_numbers_is_refused() {
    assert_eq!(parse_cursor_report(b"\x1b["), None);
    assert_eq!(parse_cursor_report(b"\x1b[24"), None);
    assert_eq!(parse_cursor_report(b"\x1b[24;"), None);
    assert_eq!(parse_cursor_report(b"\x1b[;80"), None);
    assert_eq!(parse_cursor_report(b"\x1b[24;80;3"), None);
    assert_eq!(parse_cursor_report(b"\x1b[a;b"), None);
    assert_eq!(parse_cursor_report(b"\x1b[24;8o"), None);
    assert_eq!(parse_cursor_report(b"\x1b[2 4;80"), None);
    assert_eq!(parse_cursor_report(b"\x1b[-1;80"), None);
}

#[test]
fn report_that_is_too_short_is_refused() {
    assert_eq!(parse_cursor_report(b""), None);
    assert_eq!(parse_cursor_report(b"\x1b"), None);
}

#[test]
fn report_skips_fields_that_are_no_numbers() {
    assert_eq!(parse_cursor_report(b"\x1b[;24;;80"), Some((24, 80)));
    assert_eq!(parse_cursor_report(b"\x1b[x;24;80"), Some((24, 80)));
    assert_eq!(parse_cursor_report(b"\x1b[24;80;"), Some((24, 80)));
    assert_eq!(parse_cursor_report(b"\x1b[24;\xff;80"), Some((24, 80)));
}

#[test]
fn report_takes_a_plus_sign() {
    assert_eq!(parse_cursor_report(b"\x1b[+24;+80"), Some((24, 80)));
    assert_eq!(parse_cursor_report(b"\x1b[+;80"), None);
    assert_eq!(parse_cursor_report(b"\x1b[++1;80"), None);
    assert_eq!(parse_cursor_report(b"\x1b[1+;80"), None);
}

#[test]
fn report_ignores_what_its_first_two_bytes_are() {
    assert_eq!(parse_cursor_report(b"\r\n24;80"), Some((24, 80)));
    assert_eq!(parse_cursor_report(b"1224;80"), Some((24, 80)));
}

#[test]
fn report_refuses_numbers_that_do_not_fit() {
    let max = usize::MAX.to_string();
    let fits = format!("\x1b[{};1", max);
    assert_eq!(parse_cursor_report(fits.as_bytes()), Some((usize::MAX, 1)));
    let too_long = format!("\x1b[{}0;1", max);
    assert_eq!(parse_cursor_report(too_long.as_bytes()), None);
    let mut digits: Vec<u8> = max.into_bytes();
    let last = digits.len() - 1;
    if digits[last] < b'9' {
        digits[last] += 1;
        let mut reply = b"\x1b[".to_vec();
        reply.extend_from_slice(&digits);
        reply.extend_from_slice(b";1");
        assert_eq!(parse_cursor_report(&reply), None);
    }
}

#[test]
fn report_agrees_with_the_standard_number_parser() {
    for field in ["", "0", "12", "+3", "-3", "+", "1_0", " 1", "99999999999999999999999999", "٣"] {
        let reply = format!("\x1b[{};5", field);
        let expected = field.parse::<usize>().ok().map(|rows| (rows, 5));
        assert_eq!(parse_cursor_report(reply.as_bytes()), expected);
    }
}

#[test]
fn size_query_gives_the_size_unless_it_failed() {
    assert_eq!(size_from_query(0, 24, 80), Some((24, 80)));
    assert_eq!(size_from_query(0, 0, 80), Some((0, 80)));
    assert_eq!(size_from_query(-1, 24, 80), None);
    assert_eq!(size_from_query(0, 24, 0), None);
    assert_eq!(size_from_query(3, 50, 132), Some((50, 132)));
}

#[test]
fn control_sequences_of_the_fallback() {
    assert_eq!(TO_BOTTOM_RIGHT, "\x1b[999C\x1b[999B");
    assert_eq!(REPORT_CURSOR, "\x1b[6n\r\n");
    assert_eq!(REPORT_END, b'R');
}
