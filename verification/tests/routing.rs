use http_server::HTTPContentType;
use http_server::HTTPStatus;
use http_server::ParsedRequest;
use http_server::RequestHeaders;
use http_server::RouteOutcome;
use http_server::file_read_response;
use http_server::file_write_response;
use http_server::parse_failure_response;
use http_server::parse_filename_from_request_path;
use http_server::route_request;

fn request(method: &[u8], path: &[u8], user_agent: &[u8], body: Option<Vec<u8>>) -> ParsedRequest {
    ParsedRequest {
        headers: RequestHeaders {
            method: method.to_vec(),
            path: path.to_vec(),
            user_agent: user_agent.to_vec(),
            content_length: body.as_ref().map(|b| b.len()),
        },
        body,
    }
}

#[test]
fn echo_returns_payload_with_exact_length() {
    let req = request(b"GET", b"/echo/abc", b"", None);
    match route_request(&req) {
        RouteOutcome::Respond(resp) => {
            assert_eq!(
                resp.to_bytes(),
                b"HTTP/1.1 200 OK\r\nContent-Type: text/plain\r\nContent-Length: 3\r\n\r\nabc\r\n"
                    .to_vec()
            );
        }
        other => panic!("expected an immediate response, got {:?}", other),
    }
}

#[test]
fn echo_keeps_embedded_slashes() {
    let req = request(b"GET", b"/echo/a/b/c", b"", None);
    match route_request(&req) {
        RouteOutcome::Respond(resp) => {
            let body = resp.body.expect("echo carries a body");
            assert_eq!(body.body, b"a/b/c".to_vec());
            assert!(matches!(body.content_type, HTTPContentType::PlainText));
        }
        other => panic!("expected an immediate response, got {:?}", other),
    }
}

#[test]
fn echo_of_empty_payload() {
    let req = request(b"GET", b"/echo/", b"", None);
    match route_request(&req) {
        RouteOutcome::Respond(resp) => {
            assert_eq!(
                resp.to_bytes(),
                b"HTTP/1.1 200 OK\r\nContent-Type: text/plain\r\nContent-Length: 0\r\n\r\n\r\n"
                    .to_vec()
            );
        }
        other => panic!("expected an immediate response, got {:?}", other),
    }
}

#[test]
fn echo_of_arbitrary_bytes() {
    let mut path = b"/echo/".to_vec();
    path.extend_from_slice(&[0xFFu8, 0x00, 0xFE]);
    let req = request(b"GET", &path, b"", None);
    match route_request(&req) {
        RouteOutcome::Respond(resp) => {
            let body = resp.body.expect("echo carries a body");
            assert_eq!(body.body, vec![0xFFu8, 0x00, 0xFE]);
        }
        other => panic!("expected an immediate response, got {:?}", other),
    }
}

#[test]
fn absent_user_agent_is_empty_body() {
    let req = request(b"GET", b"/user-agent", b"", None);
    match route_request(&req) {
        RouteOutcome::Respond(resp) => {
            assert_eq!(
                resp.to_bytes(),
                b"HTTP/1.1 200 OK\r\nContent-Type: text/plain\r\nContent-Length: 0\r\n\r\n\r\n"
                    .to_vec()
            );
        }
        other => panic!("expected an immediate response, got {:?}", other),
    }
}

#[test]
fn root_returns_exact_bytes() {
    let req = request(b"GET", b"/", b"", None);
    match route_request(&req) {
        RouteOutcome::Respond(resp) => {
            assert_eq!(resp.to_bytes(), b"HTTP/1.1 200 OK\r\n\r\n".to_vec());
        }
        other => panic!("expected an immediate response, got {:?}", other),
    }
}

#[test]
fn user_agent_is_echoed() {
    let req = request(b"GET", b"/user-agent", b"X", None);
    match route_request(&req) {
        RouteOutcome::Respond(resp) => {
            assert!(matches!(resp.status, HTTPStatus::OK));
            let body = resp.body.expect("user-agent carries a body");
            assert_eq!(body.body, b"X".to_vec());
            assert!(matches!(body.content_type, HTTPContentType::PlainText));
        }
        other => panic!("expected an immediate response, got {:?}", other),
    }
}

#[test]
fn files_write_then_read_round_trip() {
    let contents = b"B".to_vec();
    let write = request(b"POST", b"/files/report.txt", b"", Some(contents.clone()));
    match route_request(&write) {
        RouteOutcome::WriteFile(name, data) => {
            assert_eq!(name, b"report.txt".to_vec());
            assert_eq!(data, contents);
            let resp = file_write_response(data, true);
            assert!(matches!(resp.status, HTTPStatus::Created));
            assert_eq!(resp.body.unwrap().body, contents);
        }
        other => panic!("expected a file write, got {:?}", other),
    }

    let read = request(b"GET", b"/files/report.txt", b"", None);
    match route_request(&read) {
        RouteOutcome::ReadFile(name) => {
            assert_eq!(name, b"report.txt".to_vec());
            let resp = file_read_response(Some(contents.clone()));
            assert!(matches!(resp.status, HTTPStatus::OK));
            let body = resp.body.expect("a successful read carries the bytes");
            assert_eq!(body.body, contents);
            assert!(matches!(body.content_type, HTTPContentType::File));
        }
        other => panic!("expected a file read, got {:?}", other),
    }
}

#[test]
fn traversal_is_rejected_before_any_file_access() {
    let req = request(b"GET", b"/files/../../etc/passwd", b"", None);
    match route_request(&req) {
        RouteOutcome::Respond(resp) => {
            assert!(matches!(resp.status, HTTPStatus::NotFound));
            assert!(resp.body.is_none());
        }
        other => panic!("the traversal guard must answer directly, got {:?}", other),
    }
}

#[test]
fn filename_extraction_applies_guard() {
    assert_eq!(
        parse_filename_from_request_path(b"/files/report.txt"),
        Some(b"report.txt".to_vec())
    );
    assert_eq!(parse_filename_from_request_path(b"/files/a/../b"), None);
    assert_eq!(parse_filename_from_request_path(b"/files/.."), None);
    assert_eq!(
        parse_filename_from_request_path(b"/files/..hidden"),
        Some(b"..hidden".to_vec())
    );
}

#[test]
fn missing_file_read_is_not_found() {
    let resp = file_read_response(None);
    assert!(matches!(resp.status, HTTPStatus::NotFound));
    assert!(resp.body.is_none());
}

#[test]
fn failed_file_write_is_server_error() {
    let resp = file_write_response(b"B".to_vec(), false);
    assert!(matches!(resp.status, HTTPStatus::InternalServerError));
    assert!(resp.body.is_none());
}

#[test]
fn other_method_on_files_is_bad_request() {
    let req = request(b"PUT", b"/files/report.txt", b"", None);
    match route_request(&req) {
        RouteOutcome::Respond(resp) => {
            assert!(matches!(resp.status, HTTPStatus::BadRequest));
            assert!(resp.body.is_none());
        }
        other => panic!("expected an immediate response, got {:?}", other),
    }
}

#[test]
fn unroutable_path_is_not_found() {
    let req = request(b"GET", b"/missing", b"", None);
    match route_request(&req) {
        RouteOutcome::Respond(resp) => {
            assert!(matches!(resp.status, HTTPStatus::NotFound));
            assert!(resp.body.is_none());
        }
        other => panic!("expected an immediate response, got {:?}", other),
    }
}

#[test]
fn parser_failure_maps_to_server_error() {
    let resp = parse_failure_response();
    assert!(matches!(resp.status, HTTPStatus::InternalServerError));
    assert!(resp.body.is_none());
    assert_eq!(
        resp.to_bytes(),
        b"HTTP/1.1 500 Internal Server Error\r\n\r\n".to_vec()
    );
}
