use http_server::HTTPBody;
use http_server::HTTPContentType;
use http_server::HTTPResponse;
use http_server::HTTPStatus;

#[test]
fn test_http_response_without_body() {
    let response = HTTPResponse {
        status: HTTPStatus::OK,
        body: None,
    };

    let expected_output = b"HTTP/1.1 200 OK\r\n\r\n".to_vec();
    assert_eq!(response.to_bytes(), expected_output);
}

#[test]
fn test_http_response_with_body() {
    let response = HTTPResponse {
        status: HTTPStatus::NotFound,
        body: Some(HTTPBody {
            body: b"Page not found".to_vec(),
            content_type: HTTPContentType::PlainText,
        }),
    };

    let expected_output =
        b"HTTP/1.1 404 Not Found\r\nContent-Type: text/plain\r\nContent-Length: 14\r\n\r\nPage not found\r\n"
            .to_vec();
    assert_eq!(response.to_bytes(), expected_output);
}

#[test]
fn response_with_octet_stream_body() {
    let response = HTTPResponse {
        status: HTTPStatus::Created,
        body: Some(HTTPBody {
            body: vec![0u8, 159, 146, 150],
            content_type: HTTPContentType::File,
        }),
    };

    let mut expected =
        b"HTTP/1.1 201 Created\r\nContent-Type: application/octet-stream\r\nContent-Length: 4\r\n\r\n"
            .to_vec();
    expected.extend_from_slice(&[0u8, 159, 146, 150]);
    expected.extend_from_slice(b"\r\n");
    assert_eq!(response.to_bytes(), expected);
}

#[test]
fn content_length_has_all_digits() {
    let response = HTTPResponse {
        status: HTTPStatus::OK,
        body: Some(HTTPBody {
            body: vec![97u8; 1024],
            content_type: HTTPContentType::PlainText,
        }),
    };

    let mut expected = b"HTTP/1.1 200 OK\r\nContent-Type: text/plain\r\nContent-Length: 1024\r\n\r\n".to_vec();
    expected.extend_from_slice(&[97u8; 1024]);
    expected.extend_from_slice(b"\r\n");
    assert_eq!(response.to_bytes(), expected);
}
