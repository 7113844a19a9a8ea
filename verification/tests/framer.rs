use request_framer::framer::read_header_lines;

#[test]
fn frames_simple_request() {
    let data = b"GET / HTTP/1.1\r\nHost: localhost\r\n\r\nBODYIGNORED";
    let h = read_header_lines(data).unwrap();
    assert_eq!(
        h.lines,
        vec!["GET / HTTP/1.1".to_string(), "Host: localhost".to_string()]
    );
    assert!(h.terminated);
    assert_eq!(h.consumed, data.len() - "BODYIGNORED".len());
}

#[test]
fn frames_empty_stream() {
    let h = read_header_lines(b"").unwrap();
    assert!(h.lines.is_empty());
    assert_eq!(h.consumed, 0);
    assert!(!h.terminated);
}

#[test]
fn stops_at_empty_line_ignoring_trailing_bytes() {
    let mut data: Vec<u8> = b"alpha\nbeta\n\n".to_vec();
    data.push(0xFF);
    data.push(0xFE);
    let h = read_header_lines(&data).unwrap();
    assert_eq!(h.lines, vec!["alpha".to_string(), "beta".to_string()]);
    assert!(h.terminated);
    assert_eq!(h.consumed, 12);
}

#[test]
fn returns_all_lines_at_end_of_stream() {
    let data = b"alpha\nbeta";
    let h = read_header_lines(data).unwrap();
    assert_eq!(h.lines, vec!["alpha".to_string(), "beta".to_string()]);
    assert!(!h.terminated);
    assert_eq!(h.consumed, data.len());
}

#[test]
fn decodes_multibyte_line() {
    // 0xC3 0xA9 is the two-byte encoding of one accented character
    let data: Vec<u8> = vec![0xC3, 0xA9, b'!', b'\n', b'\n', b'Z'];
    let h = read_header_lines(&data).unwrap();
    assert_eq!(h.lines.len(), 1);
    assert_eq!(h.lines[0].chars().count(), 2);
    assert_eq!(h.lines[0].as_bytes(), &[0xC3, 0xA9, b'!']);
    assert_eq!(h.consumed, 5);
    assert!(h.terminated);
}

#[test]
fn rejects_invalid_text() {
    let data: Vec<u8> = vec![b'a', 0xFF, b'\n', b'\n'];
    assert!(read_header_lines(&data).is_err());
}

#[test]
fn invalid_bytes_after_empty_line_are_no_error() {
    let data: Vec<u8> = vec![b'k', b'\n', b'\n', 0xFF, 0xFF];
    let h = read_header_lines(&data).unwrap();
    assert_eq!(h.lines, vec!["k".to_string()]);
    assert_eq!(h.consumed, 3);
    assert!(h.terminated);
}

#[test]
fn keeps_carriage_return_without_newline() {
    let data = b"tail\r";
    let h = read_header_lines(data).unwrap();
    assert_eq!(h.lines, vec!["tail\r".to_string()]);
    assert!(!h.terminated);
    assert_eq!(h.consumed, 5);
}

#[test]
fn empty_crlf_line_alone() {
    let h = read_header_lines(b"\r\nrest").unwrap();
    assert!(h.lines.is_empty());
    assert!(h.terminated);
    assert_eq!(h.consumed, 2);
}
