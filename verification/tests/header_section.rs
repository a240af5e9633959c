use httpframe::error::HttpError;
use httpframe::method::Method;
use httpframe::parse::parse_header_section;
use httpframe::parse::parse_request_with_headers;

#[test]
fn collects_headers_up_to_blank_line() {
    let headers = parse_header_section(b"Host: a\r\nX-Key: y\r\n\r\ntrailing").unwrap();
    assert_eq!(headers.len(), 2);
    assert_eq!(headers.get(&"Host".to_string()), Some("a".to_string()));
    assert_eq!(headers.get(&"X-Key".to_string()), Some("y".to_string()));
}

#[test]
fn immediate_blank_line_means_no_headers() {
    let headers = parse_header_section(b"\r\n").unwrap();
    assert_eq!(headers.len(), 0);
}

#[test]
fn duplicate_header_name_keeps_last_value() {
    let headers = parse_header_section(b"Host: a\r\nHost: b\r\n\r\n").unwrap();
    assert_eq!(headers.len(), 1);
    assert_eq!(headers.get(&"Host".to_string()), Some("b".to_string()));
}

#[test]
fn missing_blank_line_rejects_section_as_too_large() {
    let err = parse_header_section(b"Host: a\r\n").unwrap_err();
    assert_eq!(err, HttpError::RequestTooLarge);
}

#[test]
fn header_line_without_colon_is_malformed_in_section() {
    let err = parse_header_section(b"nocolon\r\n\r\n").unwrap_err();
    assert_eq!(err, HttpError::MalformedHeader);
}

#[test]
fn full_request_with_headers_is_parsed() {
    let req = parse_request_with_headers(b"GET /p HTTP/1.1\r\nHost: h\r\n\r\n").unwrap();
    assert_eq!(req.method, Method::Get);
    assert_eq!(req.path, "/p".to_string());
    assert_eq!(req.headers.len(), 1);
    assert_eq!(req.headers.get(&"Host".to_string()), Some("h".to_string()));
}

#[test]
fn full_request_without_headers_is_parsed() {
    let req = parse_request_with_headers(b"GET /\r\n\r\n").unwrap();
    assert_eq!(req.method, Method::Get);
    assert_eq!(req.path, "/".to_string());
    assert_eq!(req.headers.len(), 0);
}

#[test]
fn full_request_missing_blank_line_is_too_large() {
    let err = parse_request_with_headers(b"GET / HTTP/1.1\r\nHost: h\r\n").unwrap_err();
    assert_eq!(err, HttpError::RequestTooLarge);
}

#[test]
fn full_request_with_bad_method_fails_before_headers() {
    let err = parse_request_with_headers(b"POST /\r\nHost: h\r\n\r\n").unwrap_err();
    assert_eq!(err, HttpError::UnsupportedMethod("POST".to_string()));
}
