//! HTTP status codes, reason phrases and content types: the fixed lookup
//! tables the response serializer draws from.

use vstd::prelude::*;
use vstd::string::StringExecFns;

verus! {

/// The response statuses the server can produce.
#[derive(Debug, Clone, Copy, PartialEq, Eq)]
pub enum HTTPStatus {
    OK,
    Created,
    BadRequest,
    NotFound,
    InternalServerError,
}

impl HTTPStatus {
    /// The numeric status code.
    pub open spec fn spec_code(self) -> u16 {
        match self {
            HTTPStatus::OK => 200,
            HTTPStatus::Created => 201,
            HTTPStatus::BadRequest => 400,
            HTTPStatus::NotFound => 404,
            HTTPStatus::InternalServerError => 500,
        }
    }

    /// The reason phrase that accompanies the code on the status line.
    pub open spec fn spec_reason(self) -> Seq<char> {
        match self {
            HTTPStatus::OK => "OK"@,
            HTTPStatus::Created => "Created"@,
            HTTPStatus::BadRequest => "Bad Request"@,
            HTTPStatus::NotFound => "Not Found"@,
            HTTPStatus::InternalServerError => "Internal Server Error"@,
        }
    }

    /// The full status line, without the trailing line break.
    pub open spec fn spec_status_line(self) -> Seq<char> {
        match self {
            HTTPStatus::OK => "HTTP/1.1 200 OK"@,
            HTTPStatus::Created => "HTTP/1.1 201 Created"@,
            HTTPStatus::BadRequest => "HTTP/1.1 400 Bad Request"@,
            HTTPStatus::NotFound => "HTTP/1.1 404 Not Found"@,
            HTTPStatus::InternalServerError => "HTTP/1.1 500 Internal Server Error"@,
        }
    }

    pub fn status_code(&self) -> (c: u16)
        ensures
            c == self.spec_code(),
    {
        match self {
            HTTPStatus::OK => 200,
            HTTPStatus::Created => 201,
            HTTPStatus::BadRequest => 400,
            HTTPStatus::NotFound => 404,
            HTTPStatus::InternalServerError => 500,
        }
    }

    pub fn reason_phrase(&self) -> (r: &'static str)
        ensures
            r@ == self.spec_reason(),
    {
        match self {
            HTTPStatus::OK => "OK",
            HTTPStatus::Created => "Created",
            HTTPStatus::BadRequest => "Bad Request",
            HTTPStatus::NotFound => "Not Found",
            HTTPStatus::InternalServerError => "Internal Server Error",
        }
    }

    /// The status line as text, `HTTP/1.1 <code> <reason>`.
    pub fn status_line(&self) -> (r: String)
        ensures
            r@ == self.spec_status_line(),
    {
        String::from_str(self.status_line_str())
    }

    /// The status line as a borrowed string.
    pub fn status_line_str(&self) -> (r: &'static str)
        ensures
            r@ == self.spec_status_line(),
            r.is_ascii(),
    {
        let line = match self {
            HTTPStatus::OK => "HTTP/1.1 200 OK",
            HTTPStatus::Created => "HTTP/1.1 201 Created",
            HTTPStatus::BadRequest => "HTTP/1.1 400 Bad Request",
            HTTPStatus::NotFound => "HTTP/1.1 404 Not Found",
            HTTPStatus::InternalServerError => "HTTP/1.1 500 Internal Server Error",
        };
        proof {
            reveal_strlit("HTTP/1.1 200 OK");
            reveal_strlit("HTTP/1.1 201 Created");
            reveal_strlit("HTTP/1.1 400 Bad Request");
            reveal_strlit("HTTP/1.1 404 Not Found");
            reveal_strlit("HTTP/1.1 500 Internal Server Error");
            assert(line.is_ascii());
        }
        line
    }
}

/// The media kinds a response body can carry.
#[derive(Debug, Clone, Copy, PartialEq, Eq)]
pub enum HTTPContentType {
    PlainText,
    File,
}

impl HTTPContentType {
    /// The media-type string sent on the `Content-Type` header line.
    pub open spec fn spec_content_type(self) -> Seq<char> {
        match self {
            HTTPContentType::PlainText => "text/plain"@,
            HTTPContentType::File => "application/octet-stream"@,
        }
    }

    pub fn content_type(&self) -> (r: &'static str)
        ensures
            r@ == self.spec_content_type(),
            r.is_ascii(),
    {
        let s = match self {
            HTTPContentType::PlainText => "text/plain",
            HTTPContentType::File => "application/octet-stream",
        };
        proof {
            reveal_strlit("text/plain");
            reveal_strlit("application/octet-stream");
            assert(s.is_ascii());
        }
        s
    }

    /// The full header line, `Content-Type: <media>`, as text.
    pub fn content_type_line(&self) -> (r: String)
        ensures
            r@ == "Content-Type: "@ + self.spec_content_type(),
    {
        let line = match self {
            HTTPContentType::PlainText => "Content-Type: text/plain",
            HTTPContentType::File => "Content-Type: application/octet-stream",
        };
        proof {
            reveal_strlit("Content-Type: text/plain");
            reveal_strlit("Content-Type: application/octet-stream");
            reveal_strlit("Content-Type: ");
            reveal_strlit("text/plain");
            reveal_strlit("application/octet-stream");
            assert(line@ =~= "Content-Type: "@ + self.spec_content_type());
        }
        String::from_str(line)
    }
}

/// A response body: raw payload bytes and the media kind they are
/// declared with.
#[derive(Debug, PartialEq, Eq)]
pub struct HTTPBody {
    pub body: Vec<u8>,
    pub content_type: HTTPContentType,
}

} // verus!
