use http_library::Response;

#[test]
fn new_encodes_status_line_derived_headers_and_body() {
    let out = Response::new(200, "hi").encode();
    assert_eq!(
        out,
        "HTTP/1.1 200 OK\r\nContent-Type: text/plain\r\nContent-Length: 2\r\n\r\nhi\r\n"
    );
}

#[test]
fn an_empty_body_has_content_length_zero() {
    let out = Response::new(200, "").encode();
    assert_eq!(
        out,
        "HTTP/1.1 200 OK\r\nContent-Type: text/plain\r\nContent-Length: 0\r\n\r\n\r\n"
    );
}

#[test]
fn content_length_counts_bytes_of_the_body() {
    let out = Response::new(200, "0123456789abc").encode();
    assert!(out.contains("Content-Length: 13\r\n"));
}

#[test]
fn non_200_codes_get_a_space_placeholder_reason() {
    let out = Response::new(404, "page not found").encode();
    assert!(out.starts_with("HTTP/1.1 404  \r\n"));
    let out = Response::new(405, "method not allowed").encode();
    assert!(out.starts_with("HTTP/1.1 405  \r\n"));
}

#[test]
fn empty_response_has_no_headers_no_blank_line_and_no_body() {
    let out = Response::empty(201).encode();
    assert_eq!(out, "HTTP/1.1 201  \r\n\r\n");
}

#[test]
fn json_renders_pairs_as_an_object_with_its_content_type() {
    let out = Response::json(200, vec![("foo".to_owned(), "bar".to_owned())]).encode();
    assert_eq!(
        out,
        "HTTP/1.1 200 OK\r\nContent-Type: application/json\r\n\r\n{\"foo\": \"bar\"}\r\n"
    );
}

#[test]
fn json_separates_entries_with_commas_in_order() {
    let out = Response::json(
        200,
        vec![("a".to_owned(), "1".to_owned()), ("b".to_owned(), "2".to_owned())],
    )
    .encode();
    assert!(out.ends_with("{\"a\": \"1\",\"b\": \"2\"}\r\n"));
}

#[test]
fn json_of_no_pairs_is_an_empty_object() {
    let out = Response::json(200, vec![]).encode();
    assert!(out.ends_with("\r\n\r\n{}\r\n"));
}

#[test]
fn add_header_overrides_a_derived_header_in_place() {
    let out = Response::new(200, "x").add_header("Content-Type", "text/html").encode();
    assert!(out.contains("Content-Type: text/html\r\n"));
    assert!(!out.contains("text/plain"));
    // The overridden entry keeps its position before Content-Length.
    assert!(
        out.find("Content-Type").unwrap() < out.find("Content-Length").unwrap()
    );
}

#[test]
fn add_headers_appends_new_keys_in_insertion_order() {
    let mut res = Response::empty(200);
    res.add_headers("foo", "bar");
    res.add_headers("foo2", "bar2");
    let out = res.encode();
    assert_eq!(out, "HTTP/1.1 200 OK\r\nfoo: bar\r\nfoo2: bar2\r\n\r\n\r\n");
}

#[test]
fn code_reports_the_status_code() {
    assert_eq!(Response::new(503, "x").code(), 503);
    assert_eq!(Response::empty(200).code(), 200);
}

#[test]
fn with_text_sets_the_body_and_no_headers() {
    let out = Response::with_text(200, "page").add_header("Content-Type", "text/html").encode();
    assert_eq!(out, "HTTP/1.1 200 OK\r\nContent-Type: text/html\r\n\r\npage\r\n");
}
