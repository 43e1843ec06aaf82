use http_library::{DecodeError, Request};

#[test]
fn decodes_request_line_headers_and_empty_body() {
    let req = Request::from_utf8(b"GET / HTTP/1.1\r\nHost: x\r\n\r\n").unwrap();
    assert_eq!(req.method, "GET");
    assert_eq!(req.path, "/");
    assert_eq!(req.headers.get("Host"), Some(&"x".to_owned()));
    assert_eq!(req.headers.len(), 1);
    assert_eq!(req.body, "");
}

#[test]
fn decoding_twice_yields_structurally_equal_requests() {
    let buf = b"POST /submit HTTP/1.1\r\nHost: a\r\nUser-Agent: t\r\n\r\npayload";
    let first = Request::from_utf8(buf).unwrap();
    let second = Request::from_utf8(buf).unwrap();
    assert_eq!(first, second);
}

#[test]
fn non_text_bytes_fail_with_a_decode_error() {
    let err = Request::from_utf8(&[0x47, 0x45, 0x54, 0xff, 0xfe]).unwrap_err();
    assert_eq!(err, DecodeError::InvalidEncoding);
}

#[test]
fn request_line_without_a_space_has_no_path() {
    let err = Request::from_utf8(b"GET\r\n\r\n").unwrap_err();
    assert_eq!(err, DecodeError::MissingPath);
}

#[test]
fn empty_text_has_no_path() {
    let err = Request::parse(String::new()).unwrap_err();
    assert_eq!(err, DecodeError::MissingPath);
}

#[test]
fn version_and_anything_beyond_it_are_ignored() {
    let req = Request::from_utf8(b"GET /p HTTP/1.1 extra\r\n\r\n").unwrap();
    assert_eq!(req.method, "GET");
    assert_eq!(req.path, "/p");
}

#[test]
fn two_spaces_make_an_empty_path() {
    let req = Request::from_utf8(b"GET  / HTTP/1.1\r\n\r\n").unwrap();
    assert_eq!(req.method, "GET");
    assert_eq!(req.path, "");
}

#[test]
fn header_lines_without_the_separator_are_silently_skipped() {
    let req = Request::from_utf8(b"GET / HTTP/1.1\r\nbogus line\r\nA: 1\r\n\r\n").unwrap();
    assert_eq!(req.headers.len(), 1);
    assert_eq!(req.headers.get("A"), Some(&"1".to_owned()));
    assert_eq!(req.headers.get("bogus line"), None);
}

#[test]
fn a_repeated_header_key_keeps_the_last_value() {
    let req = Request::from_utf8(b"GET / HTTP/1.1\r\nA: 1\r\nA: 2\r\n\r\n").unwrap();
    assert_eq!(req.headers.len(), 1);
    assert_eq!(req.headers.get("A"), Some(&"2".to_owned()));
}

#[test]
fn header_value_keeps_everything_after_the_first_separator() {
    let req = Request::from_utf8(b"GET / HTTP/1.1\r\nA: b: c\r\n\r\n").unwrap();
    assert_eq!(req.headers.get("A"), Some(&"b: c".to_owned()));
}

#[test]
fn body_is_everything_after_the_blank_line_verbatim() {
    let req = Request::from_utf8(b"POST /u HTTP/1.1\r\nA: 1\r\n\r\nline1\r\nline2").unwrap();
    assert_eq!(req.body, "line1\r\nline2");
    // Lines after the blank line never become headers, even with a `: `.
    let req = Request::from_utf8(b"POST /u HTTP/1.1\r\n\r\nB: 2").unwrap();
    assert_eq!(req.headers.len(), 0);
    assert_eq!(req.body, "B: 2");
}

#[test]
fn without_a_blank_line_the_body_is_empty() {
    let req = Request::from_utf8(b"GET / HTTP/1.1\r\nA: 1").unwrap();
    assert_eq!(req.body, "");
    assert_eq!(req.headers.get("A"), Some(&"1".to_owned()));
}

#[test]
fn trailing_nul_padding_is_stripped() {
    let req = Request::from_utf8(b"GET /p HTTP/1.1\r\n\r\nbody\0\0\0").unwrap();
    assert_eq!(req.body, "body");
}

#[test]
fn stripping_is_a_no_op_without_trailing_padding() {
    // A NUL inside the body is content, not padding, and is preserved.
    let req = Request::from_utf8(b"GET /p HTTP/1.1\r\n\r\na\0b").unwrap();
    assert_eq!(req.body, "a\0b");
}
