use http_server::ParseError;
use http_server::StreamParser;
use http_server::parse_request_headers;

#[test]
fn test_parse_get_request() {
    let headers = b"GET /home HTTP/1.1\r\nUser-Agent: TestAgent\r\n\r\n";
    let parsed = parse_request_headers(headers);
    assert_eq!(parsed.method, b"GET".to_vec());
    assert_eq!(parsed.path, b"/home".to_vec());
    assert_eq!(parsed.user_agent, b"TestAgent".to_vec());
    assert_eq!(parsed.content_length, None);
}

#[test]
fn test_parse_post_request_with_content_length() {
    let headers = b"POST /submit HTTP/1.1\r\nUser-Agent: TestAgent\r\nContent-Length: 15\r\n\r\n";
    let parsed = parse_request_headers(headers);
    assert_eq!(parsed.method, b"POST".to_vec());
    assert_eq!(parsed.path, b"/submit".to_vec());
    assert_eq!(parsed.user_agent, b"TestAgent".to_vec());
    assert_eq!(parsed.content_length, Some(15));
}

#[test]
fn test_parse_malformed_request() {
    let headers = b"INVALID REQUEST\r\n";
    let parsed = parse_request_headers(headers);
    assert_eq!(parsed.method, b"".to_vec());
    assert_eq!(parsed.path, b"".to_vec());
    assert_eq!(parsed.user_agent, b"".to_vec());
    assert_eq!(parsed.content_length, None);
}

#[test]
fn content_length_with_plus_sign_parses() {
    let headers = b"POST /x HTTP/1.1\r\nContent-Length: +15\r\n\r\n";
    let parsed = parse_request_headers(headers);
    assert_eq!(parsed.content_length, Some(15));
}

#[test]
fn content_length_unparsable_is_ignored() {
    let headers = b"POST /x HTTP/1.1\r\nContent-Length: abc\r\n\r\n";
    let parsed = parse_request_headers(headers);
    assert_eq!(parsed.content_length, None);
}

#[test]
fn content_length_overflow_is_ignored() {
    let headers = b"POST /x HTTP/1.1\r\nContent-Length: 99999999999999999999999999\r\n\r\n";
    let parsed = parse_request_headers(headers);
    assert_eq!(parsed.content_length, None);
}

#[test]
fn content_length_without_space_is_ignored() {
    let headers = b"POST /x HTTP/1.1\r\nContent-Length:15\r\n\r\n";
    let parsed = parse_request_headers(headers);
    assert_eq!(parsed.content_length, None);
}

#[test]
fn later_request_line_wins() {
    let headers = b"GET /a HTTP/1.1\r\nPOST /b HTTP/1.1\r\n\r\n";
    let parsed = parse_request_headers(headers);
    assert_eq!(parsed.method, b"POST".to_vec());
    assert_eq!(parsed.path, b"/b".to_vec());
}

#[test]
fn stream_parser_single_chunk() {
    let mut parser = StreamParser::new();
    parser.push_bytes(b"GET /home HTTP/1.1\r\nUser-Agent: A\r\n\r\n");
    assert!(parser.is_done());
    let request = parser.take_result().unwrap();
    assert_eq!(request.headers.method, b"GET".to_vec());
    assert_eq!(request.headers.path, b"/home".to_vec());
    assert_eq!(request.body, None);
}

#[test]
fn stream_parser_terminator_spans_chunks() {
    let mut parser = StreamParser::new();
    parser.push_bytes(b"GET / HTTP/1.1\r");
    assert!(!parser.is_done());
    parser.push_bytes(b"\n\r");
    assert!(!parser.is_done());
    parser.push_bytes(b"\n");
    assert!(parser.is_done());
    let request = parser.take_result().unwrap();
    assert_eq!(request.headers.path, b"/".to_vec());
}

#[test]
fn stream_parser_body_in_pieces() {
    let mut parser = StreamParser::new();
    parser.push_bytes(b"POST /submit HTTP/1.1\r\nContent-Length: 5\r\n\r\nab");
    assert!(!parser.is_done());
    parser.push_bytes(b"cde");
    assert!(parser.is_done());
    let request = parser.take_result().unwrap();
    assert_eq!(request.body, Some(b"abcde".to_vec()));
}

#[test]
fn stream_parser_surplus_beyond_body_is_ignored() {
    let mut parser = StreamParser::new();
    parser.push_bytes(b"POST /submit HTTP/1.1\r\nContent-Length: 2\r\n\r\nabEXTRA");
    assert!(parser.is_done());
    let request = parser.take_result().unwrap();
    assert_eq!(request.body, Some(b"ab".to_vec()));
}

#[test]
fn stream_parser_connection_closed() {
    let mut parser = StreamParser::new();
    parser.push_bytes(b"GET / HTTP/1.1\r\n");
    assert!(!parser.is_done());
    parser.push_bytes(b"");
    assert!(parser.is_done());
    assert_eq!(parser.take_result(), Err(ParseError::ConnectionClosed));
}

#[test]
fn stream_parser_incomplete_body() {
    let mut parser = StreamParser::new();
    parser.push_bytes(b"POST /x HTTP/1.1\r\nContent-Length: 5\r\n\r\nab");
    assert!(!parser.is_done());
    parser.push_bytes(b"");
    assert!(parser.is_done());
    assert_eq!(parser.take_result(), Err(ParseError::IncompleteBody));
}

#[test]
fn stream_parser_zero_length_body_is_absent() {
    let mut parser = StreamParser::new();
    parser.push_bytes(b"POST /x HTTP/1.1\r\nContent-Length: 0\r\n\r\n");
    assert!(parser.is_done());
    let request = parser.take_result().unwrap();
    assert_eq!(request.body, None);
}
