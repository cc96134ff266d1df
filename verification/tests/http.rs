use news::parser::plan_request;
use news::parser::Plan;
use news::parser::Status;
use news::response::index_response;
use news::response::rejection_response;
use news::response::static_file_response;

/// Drives one raw request through the pipeline the way the transport
/// does, with the given stand-ins for the index and the resolved file.
/// `None` means the pipeline never asked for that read or it failed.
fn full_response(raw: &[u8], index: Option<&[u8]>, file: Option<&[u8]>) -> Option<Vec<u8>> {
    match plan_request(raw) {
        Plan::Abort => None,
        Plan::Reject(status) => Some(rejection_response(status)),
        Plan::ServeIndex { head } => Some(index_response(index, head)),
        Plan::ServeFile { fs_path: _, css, head } => Some(static_file_response(file, css, head)),
    }
}

fn text(v: &[u8]) -> String {
    String::from_utf8(v.to_vec()).unwrap()
}

/* GET '/' */
#[test]
fn get_root_returns_200() {
    let index = b"<html>front page</html>";
    let response = full_response(b"GET / HTTP/1.1\r\nHost: localhost\r\n\r\n", Some(index), None)
        .unwrap();
    assert!(text(&response).starts_with("HTTP/1.1 200 OK"));
}

/* Method Rejection */
#[test]
fn post_is_rejected() {
    let response = full_response(b"POST / HTTP/1.1\r\nHost: localhost\r\n\r\n", None, None)
        .unwrap();
    assert!(text(&response).starts_with("HTTP/1.1 405"));
}

/* Over Sized Request Line */
#[test]
fn oversized_request_line_is_rejected() {
    let long_path = "A".repeat(2000);
    let request = format!("GET /{} HTTP/1.1\r\n\r\n", long_path);
    let response = full_response(request.as_bytes(), None, None).unwrap();
    assert!(text(&response).starts_with("HTTP/1.1 400"));
}

#[test]
fn root_get_carries_index_body() {
    let index = b"<html>front page</html>";
    let response = full_response(b"GET / HTTP/1.1\r\nHost: x\r\n\r\n", Some(index), None).unwrap();
    let s = text(&response);
    assert!(s.starts_with("HTTP/1.1 200 OK"));
    assert!(s.ends_with("<html>front page</html>"));
    assert!(s.contains("Content-Length: 23"));
    // the index is served under the default preset, not the static one
    assert!(s.contains("X-Frame-Options: DENY"));
    assert!(!s.contains("Cache-Control"));
}

#[test]
fn traversal_under_entries_is_not_found() {
    let response =
        full_response(b"GET /entries/../../etc/passwd.html HTTP/1.1\r\n\r\n", None, None).unwrap();
    assert!(text(&response).starts_with("HTTP/1.1 404"));
}

#[test]
fn stylesheet_gets_static_preset() {
    let raw = b"GET /style.css HTTP/1.1\r\n\r\n";
    let plan = plan_request(raw);
    match plan {
        Plan::ServeFile { fs_path, css, head } => {
            assert_eq!(fs_path, b"/opt/news/static/style.css".to_vec());
            assert!(css);
            assert!(!head);
        },
        _ => panic!("stylesheet request did not resolve to a file"),
    }
    let response = full_response(raw, None, Some(b"body { color: red }")).unwrap();
    let s = text(&response);
    assert!(s.starts_with("HTTP/1.1 200 OK"));
    assert!(s.contains("Content-Type: text/css"));
    assert!(s.contains("Cache-Control: no-store"));
    assert!(s.contains("X-Frame-Options: SAMEORIGIN"));
}

#[test]
fn empty_read_is_abandoned() {
    assert!(matches!(plan_request(b""), Plan::Abort));
    assert!(full_response(b"", None, None).is_none());
}

#[test]
fn capacity_filled_read_is_rejected() {
    let raw = vec![b'A'; news::config::MAX_REQUEST_SIZE];
    assert!(matches!(
        plan_request(&raw),
        Plan::Reject(Status::HeaderFieldsTooLarge)
    ));
    let response = full_response(&raw, None, None).unwrap();
    assert!(text(&response).starts_with("HTTP/1.1 431"));
}

#[test]
fn invalid_utf8_is_rejected() {
    let raw = b"GET / HTTP/1.1\r\nHost: \xff\xfe\r\n\r\n";
    let response = full_response(raw, None, None).unwrap();
    assert!(text(&response).starts_with("HTTP/1.1 400"));
}

#[test]
fn overlong_utf8_encoding_is_rejected() {
    // 0xC0 0x80 is an overlong encoding of NUL and never valid UTF-8.
    let raw = b"GET /\xc0\x80 HTTP/1.1\r\n\r\n";
    let response = full_response(raw, None, None).unwrap();
    assert!(text(&response).starts_with("HTTP/1.1 400"));
}

#[test]
fn multibyte_utf8_is_accepted() {
    let raw = "GET /caf\u{e9} HTTP/1.1\r\nX: na\u{ef}ve\r\n\r\n".as_bytes();
    // well-formed UTF-8, but not on the allow-list
    let response = full_response(raw, None, None).unwrap();
    assert!(text(&response).starts_with("HTTP/1.1 404"));
}

#[test]
fn too_many_header_lines_rejected() {
    let mut request = String::from("GET / HTTP/1.1\r\n");
    for i in 0..33 {
        request.push_str(&format!("X-H{}: v\r\n", i));
    }
    request.push_str("\r\n");
    let response = full_response(request.as_bytes(), Some(b"x"), None).unwrap();
    assert!(text(&response).starts_with("HTTP/1.1 431"));
}

#[test]
fn header_line_count_at_limit_is_served() {
    let mut request = String::from("GET / HTTP/1.1\r\n");
    for i in 0..32 {
        request.push_str(&format!("X-H{}: v\r\n", i));
    }
    request.push_str("\r\n");
    let response = full_response(request.as_bytes(), Some(b"x"), None).unwrap();
    assert!(text(&response).starts_with("HTTP/1.1 200 OK"));
}

#[test]
fn oversized_header_line_rejected() {
    let request = format!("GET / HTTP/1.1\r\nX-Long: {}\r\n\r\n", "v".repeat(1020));
    let response = full_response(request.as_bytes(), Some(b"x"), None).unwrap();
    assert!(text(&response).starts_with("HTTP/1.1 431"));
}

#[test]
fn header_line_at_length_limit_is_served() {
    // "X-Long: " plus the value is exactly 1024 bytes
    let request = format!("GET / HTTP/1.1\r\nX-Long: {}\r\n\r\n", "v".repeat(1016));
    let response = full_response(request.as_bytes(), Some(b"x"), None).unwrap();
    assert!(text(&response).starts_with("HTTP/1.1 200 OK"));
}

#[test]
fn header_limits_beat_method_check() {
    // a forbidden method with an oversized header block reports 431, not 405
    let mut request = String::from("POST / HTTP/1.1\r\n");
    for i in 0..40 {
        request.push_str(&format!("X-H{}: v\r\n", i));
    }
    request.push_str("\r\n");
    let response = full_response(request.as_bytes(), None, None).unwrap();
    assert!(text(&response).starts_with("HTTP/1.1 431"));
}

#[test]
fn oversized_path_is_rejected() {
    // the request line stays under its own limit, so the path length rules
    let request = format!("GET /{} HTTP/1.1\r\n\r\n", "a".repeat(300));
    let response = full_response(request.as_bytes(), None, None).unwrap();
    assert!(text(&response).starts_with("HTTP/1.1 400"));
}

#[test]
fn head_of_index_reports_length_without_body() {
    let index = b"<html>front page</html>";
    let get = full_response(b"GET / HTTP/1.1\r\nHost: x\r\n\r\n", Some(index), None).unwrap();
    let head = full_response(b"HEAD / HTTP/1.1\r\nHost: x\r\n\r\n", Some(index), None).unwrap();
    let head_text = text(&head);
    assert!(head_text.starts_with("HTTP/1.1 200 OK"));
    assert!(head_text.contains("Content-Length: 23"));
    assert!(!head_text.contains("front page"));
    // the GET response is exactly the HEAD response with the body appended
    let mut rebuilt = head.clone();
    rebuilt.extend_from_slice(index);
    assert_eq!(get, rebuilt);
}

#[test]
fn head_of_entry_reports_length_without_body() {
    let body = b"<html>entry</html>";
    let get = full_response(b"GET /entries/a.html HTTP/1.1\r\n\r\n", None, Some(body)).unwrap();
    let head = full_response(b"HEAD /entries/a.html HTTP/1.1\r\n\r\n", None, Some(body)).unwrap();
    let mut rebuilt = head.clone();
    rebuilt.extend_from_slice(body);
    assert_eq!(get, rebuilt);
    assert!(text(&head).contains("Content-Length: 18"));
}

#[test]
fn missing_index_is_server_error() {
    let response = full_response(b"GET / HTTP/1.1\r\n\r\n", None, None).unwrap();
    assert!(text(&response).starts_with("HTTP/1.1 500"));
}

#[test]
fn missing_entry_file_is_not_found() {
    let response = full_response(b"GET /entries/gone.html HTTP/1.1\r\n\r\n", None, None).unwrap();
    assert!(text(&response).starts_with("HTTP/1.1 404"));
}

#[test]
fn unknown_path_is_not_found() {
    let response = full_response(b"GET /secret HTTP/1.1\r\n\r\n", None, None).unwrap();
    assert!(text(&response).starts_with("HTTP/1.1 404"));
}

#[test]
fn missing_path_token_is_not_found() {
    // a request line with no second token leaves the path empty
    let response = full_response(b"GET\r\n\r\n", None, None).unwrap();
    assert!(text(&response).starts_with("HTTP/1.1 404"));
}

#[test]
fn repeated_spaces_between_tokens_are_fine() {
    let response = full_response(b"GET   /  HTTP/1.1\r\n\r\n", Some(b"x"), None).unwrap();
    assert!(text(&response).starts_with("HTTP/1.1 200 OK"));
}

#[test]
fn request_without_blank_line_is_served() {
    let response = full_response(b"GET / HTTP/1.1", Some(b"x"), None).unwrap();
    assert!(text(&response).starts_with("HTTP/1.1 200 OK"));
}

#[test]
fn lowercase_method_is_rejected() {
    let response = full_response(b"get / HTTP/1.1\r\n\r\n", None, None).unwrap();
    assert!(text(&response).starts_with("HTTP/1.1 405"));
}
