use httpframe::conn::classify_read;
use httpframe::conn::classify_write;
use httpframe::conn::handle_request;
use httpframe::conn::IoEvent;
use httpframe::error::HttpError;
use httpframe::method::Method;
use httpframe::process_buffer;
use httpframe::request::Request;
use httpframe::response::Response;
use httpframe::status::Status;

#[test]
fn well_formed_request_yields_exact_response_bytes() {
    let out = process_buffer(b"GET /hello HTTP/1.1\r\n\r\n").unwrap();
    assert_eq!(out.as_bytes(), b"HTTP/1.1 200 OK\r\n\r\n");
}

#[test]
fn unsupported_method_closes_with_recorded_error() {
    let err = process_buffer(b"POST / HTTP/1.1\r\n\r\n").unwrap_err();
    assert_eq!(err, HttpError::UnsupportedMethod("POST".to_string()));
}

#[test]
fn oversized_request_line_is_rejected() {
    let buf = vec![b'a'; 8192];
    let err = process_buffer(&buf).unwrap_err();
    assert_eq!(err, HttpError::RequestTooLarge);
}

#[test]
fn non_utf8_request_line_is_rejected() {
    let err = process_buffer(b"\xff\xfe\r\n").unwrap_err();
    assert_eq!(err, HttpError::InvalidUtf8);
}

#[test]
fn zero_byte_read_is_closed_connection() {
    let r = classify_read(IoEvent::Completed(0));
    assert_eq!(r.unwrap_err(), HttpError::ConnectionClosed);
}

#[test]
fn positive_read_passes_its_count_through() {
    assert_eq!(classify_read(IoEvent::Completed(17)).unwrap(), 17);
}

#[test]
fn read_deadline_expiry_is_read_timeout() {
    let r = classify_read(IoEvent::DeadlineExpired);
    assert_eq!(r.unwrap_err(), HttpError::ReadTimeout);
}

#[test]
fn read_transport_failure_keeps_its_message() {
    let r = classify_read(IoEvent::Failed("boom".to_string()));
    assert_eq!(r.unwrap_err(), HttpError::IoError("boom".to_string()));
}

#[test]
fn write_deadline_expiry_is_write_timeout() {
    let r = classify_write(IoEvent::DeadlineExpired);
    assert_eq!(r.unwrap_err(), HttpError::WriteTimeout);
}

#[test]
fn completed_write_is_success() {
    assert_eq!(classify_write(IoEvent::Completed(19)).unwrap(), 19);
}

#[test]
fn handler_answers_success() {
    let req = Request::new(Method::Get, "/".to_string());
    let resp = handle_request(&req);
    assert_eq!(resp.status, Status::Okay);
    assert_eq!(resp.headers.len(), 0);
}

#[test]
fn statuses_serialize_to_distinct_lines() {
    let ok_line = Response::new(Status::Okay).serialize();
    let nf_line = Response::new(Status::NotFound).serialize();
    assert_eq!(ok_line, "HTTP/1.1 200 OK\r\n\r\n".to_string());
    assert_eq!(nf_line, "HTTP/1.1 404 Not Found\r\n\r\n".to_string());
    assert_ne!(ok_line, nf_line);
    assert_ne!(Status::Okay.text(), Status::NotFound.text());
}

#[test]
fn set_header_keeps_last_value_and_returns_previous() {
    let mut req = Request::new(Method::Get, "/".to_string());
    let first = req.set_header("Host".to_string(), "a".to_string());
    assert_eq!(first, None);
    let second = req.set_header("Host".to_string(), "b".to_string());
    assert_eq!(second, Some("a".to_string()));
    assert_eq!(req.headers.len(), 1);
    assert_eq!(req.headers.get(&"Host".to_string()), Some("b".to_string()));
}

#[test]
fn set_header_with_distinct_names_keeps_both() {
    let mut resp = Response::new(Status::Okay);
    assert_eq!(resp.set_header("A".to_string(), "1".to_string()), None);
    assert_eq!(resp.set_header("B".to_string(), "2".to_string()), None);
    assert_eq!(resp.headers.len(), 2);
    assert_eq!(resp.headers.get(&"A".to_string()), Some("1".to_string()));
    assert_eq!(resp.headers.get(&"B".to_string()), Some("2".to_string()));
}

#[test]
fn request_shorter_than_terminator_is_too_large() {
    let err = process_buffer(b"G").unwrap_err();
    assert_eq!(err, HttpError::RequestTooLarge);
}

#[test]
fn missing_path_is_reported_from_full_pipeline() {
    let err = process_buffer(b"GET\r\n\r\n").unwrap_err();
    assert_eq!(err, HttpError::MissingPath);
}

#[test]
fn empty_request_line_is_missing_method() {
    let err = process_buffer(b"\r\n\r\n").unwrap_err();
    assert_eq!(err, HttpError::MissingMethod);
}
