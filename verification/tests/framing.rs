use httpframe::next_line_break;

#[test]
fn finds_terminator_at_start() {
    assert_eq!(next_line_break(b"\r\nrest"), Some(0));
}

#[test]
fn finds_first_terminator_only() {
    assert_eq!(next_line_break(b"ab\r\ncd\r\n"), Some(2));
}

#[test]
fn finds_terminator_in_last_two_bytes_of_full_buffer() {
    let mut buf = vec![b'a'; 8192];
    buf[8190] = b'\r';
    buf[8191] = b'\n';
    assert_eq!(next_line_break(&buf), Some(8190));
}

#[test]
fn exact_two_byte_terminator_is_found() {
    assert_eq!(next_line_break(b"\r\n"), Some(0));
}

#[test]
fn empty_input_has_no_terminator() {
    assert_eq!(next_line_break(b""), None);
}

#[test]
fn single_byte_input_has_no_terminator() {
    assert_eq!(next_line_break(b"\r"), None);
}

#[test]
fn lone_carriage_return_at_end_is_not_a_terminator() {
    assert_eq!(next_line_break(b"abc\r"), None);
}

#[test]
fn reversed_pair_is_not_a_terminator() {
    assert_eq!(next_line_break(b"\n\r"), None);
}
