use http_server::HTTPContentType;
use http_server::HTTPStatus;

#[test]
fn test_http_status_code_and_phrase() {
    assert_eq!(HTTPStatus::OK.status_code(), 200);
    assert_eq!(HTTPStatus::OK.reason_phrase(), "OK");

    assert_eq!(HTTPStatus::Created.status_code(), 201);
    assert_eq!(HTTPStatus::Created.reason_phrase(), "Created");

    assert_eq!(HTTPStatus::BadRequest.status_code(), 400);
    assert_eq!(HTTPStatus::BadRequest.reason_phrase(), "Bad Request");

    assert_eq!(HTTPStatus::NotFound.status_code(), 404);
    assert_eq!(HTTPStatus::NotFound.reason_phrase(), "Not Found");

    assert_eq!(HTTPStatus::InternalServerError.status_code(), 500);
    assert_eq!(
        HTTPStatus::InternalServerError.reason_phrase(),
        "Internal Server Error"
    );
}

#[test]
fn http_status_display_format() {
    assert_eq!(HTTPStatus::OK.status_line(), "HTTP/1.1 200 OK");
    assert_eq!(HTTPStatus::Created.status_line(), "HTTP/1.1 201 Created");
    assert_eq!(
        HTTPStatus::BadRequest.status_line(),
        "HTTP/1.1 400 Bad Request"
    );
    assert_eq!(HTTPStatus::NotFound.status_line(), "HTTP/1.1 404 Not Found");
    assert_eq!(
        HTTPStatus::InternalServerError.status_line(),
        "HTTP/1.1 500 Internal Server Error"
    );
}

#[test]
fn test_http_content_type() {
    assert_eq!(
        HTTPContentType::File.content_type(),
        "application/octet-stream"
    );
    assert_eq!(HTTPContentType::PlainText.content_type(), "text/plain");
}

#[test]
fn test_http_content_display_format() {
    assert_eq!(
        HTTPContentType::File.content_type_line(),
        "Content-Type: application/octet-stream"
    );
    assert_eq!(
        HTTPContentType::PlainText.content_type_line(),
        "Content-Type: text/plain"
    );
}
