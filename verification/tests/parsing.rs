use httpframe::error::HttpError;
use httpframe::method::Method;
use httpframe::parse::parse_header_line;
use httpframe::parse::parse_request_line;

#[test]
fn parses_simple_request_line() {
    let req = parse_request_line("GET /hello HTTP/1.1").unwrap();
    assert_eq!(req.method, Method::Get);
    assert_eq!(req.path, "/hello".to_string());
    assert_eq!(req.headers.len(), 0);
}

#[test]
fn parses_request_line_without_version() {
    let req = parse_request_line("GET /x").unwrap();
    assert_eq!(req.method, Method::Get);
    assert_eq!(req.path, "/x".to_string());
}

#[test]
fn parses_request_line_with_extra_whitespace() {
    let req = parse_request_line("  GET   /a/b  HTTP/1.1  ").unwrap();
    assert_eq!(req.method, Method::Get);
    assert_eq!(req.path, "/a/b".to_string());
}

#[test]
fn rejects_unsupported_method() {
    let err = parse_request_line("POST / HTTP/1.1").unwrap_err();
    assert_eq!(err, HttpError::UnsupportedMethod("POST".to_string()));
}

#[test]
fn rejects_unsupported_method_lowercase() {
    let err = parse_request_line("get / HTTP/1.1").unwrap_err();
    assert_eq!(err, HttpError::UnsupportedMethod("get".to_string()));
}

#[test]
fn rejects_unsupported_method_even_with_bad_path() {
    let err = parse_request_line("BREW").unwrap_err();
    assert_eq!(err, HttpError::UnsupportedMethod("BREW".to_string()));
}

#[test]
fn rejects_missing_path() {
    let err = parse_request_line("GET").unwrap_err();
    assert_eq!(err, HttpError::MissingPath);
}

#[test]
fn rejects_missing_path_with_trailing_whitespace() {
    let err = parse_request_line("GET   ").unwrap_err();
    assert_eq!(err, HttpError::MissingPath);
}

#[test]
fn rejects_empty_line() {
    let err = parse_request_line("").unwrap_err();
    assert_eq!(err, HttpError::MissingMethod);
}

#[test]
fn rejects_whitespace_only_line() {
    let err = parse_request_line(" \t ").unwrap_err();
    assert_eq!(err, HttpError::MissingMethod);
}

#[test]
fn method_try_from_accepts_get() {
    assert_eq!(Method::try_from("GET").unwrap(), Method::Get);
}

#[test]
fn method_try_from_rejects_other_tokens() {
    let err = Method::try_from("DELETE").unwrap_err();
    assert_eq!(err, HttpError::UnsupportedMethod("DELETE".to_string()));
}

#[test]
fn parses_header_line() {
    let (name, value) = parse_header_line("Host: example.com").unwrap();
    assert_eq!(name, "Host".to_string());
    assert_eq!(value, "example.com".to_string());
}

#[test]
fn header_value_is_trimmed_on_both_sides() {
    let (name, value) = parse_header_line("X-Key:  spaced out \t ").unwrap();
    assert_eq!(name, "X-Key".to_string());
    assert_eq!(value, "spaced out".to_string());
}

#[test]
fn header_name_is_kept_as_received() {
    let (name, value) = parse_header_line(" Host : v").unwrap();
    assert_eq!(name, " Host ".to_string());
    assert_eq!(value, "v".to_string());
}

#[test]
fn header_splits_on_first_colon_only() {
    let (name, value) = parse_header_line("Key: a:b:c").unwrap();
    assert_eq!(name, "Key".to_string());
    assert_eq!(value, "a:b:c".to_string());
}

#[test]
fn header_value_may_be_empty() {
    let (name, value) = parse_header_line("Empty:").unwrap();
    assert_eq!(name, "Empty".to_string());
    assert_eq!(value, "".to_string());
}

#[test]
fn header_without_colon_is_malformed() {
    let err = parse_header_line("no separator here").unwrap_err();
    assert_eq!(err, HttpError::MalformedHeader);
}
