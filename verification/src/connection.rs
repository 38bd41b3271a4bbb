//! Routing: the pure mapping from a parsed request to either an
//! immediate response or a file action, and the responses that wrap up
//! each outcome of the surrounding connection handling.

use crate::bytes::ascii_bytes;
use crate::bytes::eq_ascii;
use crate::bytes::starts_with;
use crate::bytes::starts_with_ascii;
use crate::file::has_parent_component;
use crate::file::parse_filename_from_request_path;
use crate::http::HTTPBody;
use crate::http::HTTPContentType;
use crate::http::HTTPStatus;
use crate::bytes::dec_bytes;
use crate::request::ParsedRequest;
use crate::response::HTTPResponse;
use crate::response::crlf;
use vstd::prelude::*;

verus! {

/// What the router decides for one request: answer at once, or first
/// read or write the named file under the externally supplied base
/// directory.
#[derive(Debug, PartialEq, Eq)]
pub enum RouteOutcome {
    /// Answer with this response, touching no file.
    Respond(HTTPResponse),
    /// Read the named file; the response comes from [`file_read_response`].
    ReadFile(Vec<u8>),
    /// Write the given bytes to the named file; the response comes from
    /// [`file_write_response`].
    WriteFile(Vec<u8>, Vec<u8>),
}

/// An OK response carrying `payload` as plain text.
pub open spec fn is_plain_ok(r: RouteOutcome, payload: Seq<u8>) -> bool {
    &&& r matches RouteOutcome::Respond(resp)
    &&& resp.status == HTTPStatus::OK
    &&& resp.body matches Option::Some(b)
    &&& b.content_type == HTTPContentType::PlainText
    &&& b.body@ == payload
}

/// The request body's bytes, empty when the request carried none.
pub open spec fn spec_payload(req: ParsedRequest) -> Seq<u8> {
    match req.body {
        Option::Some(b) => b@,
        Option::None => Seq::<u8>::empty(),
    }
}

/// The routing table: `r` is what the router owes the request `req`.
pub open spec fn spec_route(req: ParsedRequest, r: RouteOutcome) -> bool {
    let path = req.headers.path@;
    let method = req.headers.method@;
    if path == ascii_bytes("/"@) {
        r == RouteOutcome::Respond(
            HTTPResponse { status: HTTPStatus::OK, body: Option::None },
        )
    } else if path == ascii_bytes("/user-agent"@) {
        is_plain_ok(r, req.headers.user_agent@)
    } else if starts_with(path, ascii_bytes("/echo/"@)) {
        is_plain_ok(r, path.skip(6))
    } else if starts_with(path, ascii_bytes("/files/"@)) {
        if has_parent_component(path.skip(7)) {
            r == RouteOutcome::Respond(
                HTTPResponse { status: HTTPStatus::NotFound, body: Option::None },
            )
        } else if method == ascii_bytes("GET"@) {
            r matches RouteOutcome::ReadFile(name) && name@ == path.skip(7)
        } else if method == ascii_bytes("POST"@) {
            r matches RouteOutcome::WriteFile(name, contents) && name@ == path.skip(7)
                && contents@ == spec_payload(req)
        } else {
            r == RouteOutcome::Respond(
                HTTPResponse { status: HTTPStatus::BadRequest, body: Option::None },
            )
        }
    } else {
        r == RouteOutcome::Respond(
            HTTPResponse { status: HTTPStatus::NotFound, body: Option::None },
        )
    }
}

/// Routes one parsed request. Pure: the decision depends on the request
/// alone, and a request for a file never passes the traversal guard with
/// a parent-directory component in its name.
pub fn route_request(req: &ParsedRequest) -> (r: RouteOutcome)
    ensures
        spec_route(*req, r),
{
    proof {
        reveal_strlit("/");
        reveal_strlit("/user-agent");
        reveal_strlit("/echo/");
        reveal_strlit("/files/");
        reveal_strlit("GET");
        reveal_strlit("POST");
    }
    let path = req.headers.path.as_slice();
    if eq_ascii(path, "/") {
        RouteOutcome::Respond(HTTPResponse { status: HTTPStatus::OK, body: Option::None })
    } else if eq_ascii(path, "/user-agent") {
        RouteOutcome::Respond(
            HTTPResponse {
                status: HTTPStatus::OK,
                body: Option::Some(
                    HTTPBody {
                        body: vstd::slice::slice_to_vec(req.headers.user_agent.as_slice()),
                        content_type: HTTPContentType::PlainText,
                    },
                ),
            },
        )
    } else if starts_with_ascii(path, "/echo/") {
        let payload = vstd::slice::slice_to_vec(
            vstd::slice::slice_subrange(path, 6, path.len()),
        );
        proof {
            assert(payload@ =~= req.headers.path@.skip(6));
        }
        RouteOutcome::Respond(
            HTTPResponse {
                status: HTTPStatus::OK,
                body: Option::Some(
                    HTTPBody { body: payload, content_type: HTTPContentType::PlainText },
                ),
            },
        )
    } else if starts_with_ascii(path, "/files/") {
        match parse_filename_from_request_path(path) {
            Option::None => RouteOutcome::Respond(
                HTTPResponse { status: HTTPStatus::NotFound, body: Option::None },
            ),
            Option::Some(name) => {
                let method = req.headers.method.as_slice();
                if eq_ascii(method, "GET") {
                    RouteOutcome::ReadFile(name)
                } else if eq_ascii(method, "POST") {
                    let contents = match &req.body {
                        Option::Some(b) => vstd::slice::slice_to_vec(b.as_slice()),
                        Option::None => Vec::new(),
                    };
                    RouteOutcome::WriteFile(name, contents)
                } else {
                    RouteOutcome::Respond(
                        HTTPResponse { status: HTTPStatus::BadRequest, body: Option::None },
                    )
                }
            },
        }
    } else {
        RouteOutcome::Respond(HTTPResponse { status: HTTPStatus::NotFound, body: Option::None })
    }
}

proof fn lemma_prefix_byte(path: Seq<u8>, p: Seq<u8>, i: int)
    requires
        starts_with(path, p),
        0 <= i < p.len(),
    ensures
        path.len() >= p.len(),
        path[i] == p[i],
{
    assert(path.take(p.len() as int)[i] == path[i]);
}

/// A path under `/files/` falls through the earlier routing branches.
proof fn lemma_files_path_branch(path: Seq<u8>)
    requires
        starts_with(path, ascii_bytes("/files/"@)),
    ensures
        path != ascii_bytes("/"@),
        path != ascii_bytes("/user-agent"@),
        !starts_with(path, ascii_bytes("/echo/"@)),
{
    reveal_strlit("/");
    reveal_strlit("/user-agent");
    reveal_strlit("/echo/");
    reveal_strlit("/files/");
    lemma_prefix_byte(path, ascii_bytes("/files/"@), 1);
    assert(path[1] == 102);
    assert(ascii_bytes("/"@).len() == 1);
    assert(ascii_bytes("/user-agent"@)[1] == 117);
    if starts_with(path, ascii_bytes("/echo/"@)) {
        lemma_prefix_byte(path, ascii_bytes("/echo/"@), 1);
    }
}

/// A path under `/echo/` falls through the earlier routing branches.
proof fn lemma_echo_path_branch(path: Seq<u8>)
    requires
        starts_with(path, ascii_bytes("/echo/"@)),
    ensures
        path != ascii_bytes("/"@),
        path != ascii_bytes("/user-agent"@),
{
    reveal_strlit("/");
    reveal_strlit("/user-agent");
    reveal_strlit("/echo/");
    lemma_prefix_byte(path, ascii_bytes("/echo/"@), 1);
    assert(path[1] == 101);
    assert(ascii_bytes("/"@).len() == 1);
    assert(ascii_bytes("/user-agent"@)[1] == 117);
}

/// For every byte sequence `s`, a request for `/echo/<s>` is routed to
/// an immediate `200 OK` answer whose plain-text body is exactly `s`,
/// and its wire form declares a `Content-Length` of exactly `s`'s
/// length: the serialized bytes are the status line, the two header
/// lines, a blank line, `s` itself, and a final line break.
pub proof fn lemma_echo_round_trip(req: ParsedRequest, r: RouteOutcome, payload: Seq<u8>)
    requires
        spec_route(req, r),
        req.headers.path@ == ascii_bytes("/echo/"@) + payload,
    ensures
        is_plain_ok(r, payload),
        r matches RouteOutcome::Respond(resp) && resp.spec_serialize() == ascii_bytes(
            "HTTP/1.1 200 OK"@,
        ) + crlf() + ascii_bytes("Content-Type: "@) + ascii_bytes("text/plain"@) + crlf()
            + ascii_bytes("Content-Length: "@) + dec_bytes(payload.len() as int) + crlf() + crlf()
            + payload + crlf(),
{
    let path = req.headers.path@;
    reveal_strlit("/echo/");
    assert(path.take(ascii_bytes("/echo/"@).len() as int) =~= ascii_bytes("/echo/"@));
    assert(starts_with(path, ascii_bytes("/echo/"@)));
    lemma_echo_path_branch(path);
    assert(path.skip(6) =~= payload);
    let resp = r->Respond_0;
    assert(resp.spec_serialize() =~= ascii_bytes("HTTP/1.1 200 OK"@) + crlf() + ascii_bytes(
        "Content-Type: "@,
    ) + ascii_bytes("text/plain"@) + crlf() + ascii_bytes("Content-Length: "@) + dec_bytes(
        payload.len() as int,
    ) + crlf() + crlf() + payload + crlf());
}

/// `GET /` is routed to a response whose wire form is exactly the bytes
/// `HTTP/1.1 200 OK\r\n\r\n`.
pub proof fn lemma_root_exact_bytes(req: ParsedRequest, r: RouteOutcome)
    requires
        spec_route(req, r),
        req.headers.path@ == ascii_bytes("/"@),
    ensures
        r matches RouteOutcome::Respond(resp) && resp.spec_serialize() == ascii_bytes(
            "HTTP/1.1 200 OK\r\n\r\n"@,
        ),
{
    let resp = r->Respond_0;
    reveal_strlit("HTTP/1.1 200 OK");
    reveal_strlit("HTTP/1.1 200 OK\r\n\r\n");
    assert(resp.spec_serialize() =~= ascii_bytes("HTTP/1.1 200 OK\r\n\r\n"@));
}

/// `GET /user-agent` is routed to a `200 OK` answer whose plain-text
/// body is exactly the request's `User-Agent` value.
pub proof fn lemma_user_agent_echoed(req: ParsedRequest, r: RouteOutcome)
    requires
        spec_route(req, r),
        req.headers.path@ == ascii_bytes("/user-agent"@),
    ensures
        is_plain_ok(r, req.headers.user_agent@),
{
    reveal_strlit("/");
    reveal_strlit("/user-agent");
    assert(ascii_bytes("/"@).len() == 1);
    assert(ascii_bytes("/user-agent"@).len() == 11);
}

/// A `POST /files/<name>` with body `B` and a later `GET /files/<name>`
/// are routed to a write of exactly `B` under `name` and a read of the
/// same `name`; and whatever bytes that read hands back come out as the
/// octet-stream body, so a faithful file collaborator returns exactly
/// `B` (see also [`file_read_response`]).
pub proof fn lemma_files_round_trip(
    wreq: ParsedRequest,
    w: RouteOutcome,
    rreq: ParsedRequest,
    r: RouteOutcome,
    name: Seq<u8>,
)
    requires
        spec_route(wreq, w),
        spec_route(rreq, r),
        wreq.headers.method@ == ascii_bytes("POST"@),
        rreq.headers.method@ == ascii_bytes("GET"@),
        wreq.headers.path@ == ascii_bytes("/files/"@) + name,
        rreq.headers.path@ == ascii_bytes("/files/"@) + name,
        !has_parent_component(name),
    ensures
        w matches RouteOutcome::WriteFile(n, c) && n@ == name && c@ == spec_payload(wreq),
        r matches RouteOutcome::ReadFile(n2) && n2@ == name,
{
    reveal_strlit("/files/");
    reveal_strlit("GET");
    reveal_strlit("POST");
    let wpath = wreq.headers.path@;
    let rpath = rreq.headers.path@;
    assert(wpath.take(ascii_bytes("/files/"@).len() as int) =~= ascii_bytes("/files/"@));
    assert(rpath.take(ascii_bytes("/files/"@).len() as int) =~= ascii_bytes("/files/"@));
    lemma_files_path_branch(wpath);
    lemma_files_path_branch(rpath);
    assert(wpath.skip(7) =~= name);
    assert(rpath.skip(7) =~= name);
    assert(ascii_bytes("GET"@)[0] == 71);
    assert(ascii_bytes("POST"@)[0] == 80);
}

/// A request for a file whose name holds a parent-directory component is
/// answered `404 Not Found` at once: no read and no write is ever asked
/// of the file collaborator.
pub proof fn lemma_traversal_guard(req: ParsedRequest, r: RouteOutcome)
    requires
        spec_route(req, r),
        starts_with(req.headers.path@, ascii_bytes("/files/"@)),
        has_parent_component(req.headers.path@.skip(7)),
    ensures
        r == RouteOutcome::Respond(
            HTTPResponse { status: HTTPStatus::NotFound, body: Option::None },
        ),
{
    lemma_files_path_branch(req.headers.path@);
}

/// Wraps up a file read's outcome as the `GET /files/` response: the
/// bytes as an octet-stream on success, `404 Not Found` on any failure.
pub fn file_read_response(content: Option<Vec<u8>>) -> (r: HTTPResponse)
    ensures
        content matches Option::Some(c) ==> {
            &&& r.status == HTTPStatus::OK
            &&& r.body matches Option::Some(b)
            &&& b.content_type == HTTPContentType::File
            &&& b.body@ == c@
        },
        content is None ==> r == (HTTPResponse { status: HTTPStatus::NotFound, body: Option::None }),
{
    match content {
        Option::Some(c) => HTTPResponse {
            status: HTTPStatus::OK,
            body: Option::Some(HTTPBody { body: c, content_type: HTTPContentType::File }),
        },
        Option::None => HTTPResponse { status: HTTPStatus::NotFound, body: Option::None },
    }
}

/// Wraps up a file write's outcome as the `POST /files/` response:
/// `201 Created` echoing what was written on success, `500` on failure.
pub fn file_write_response(written: Vec<u8>, ok: bool) -> (r: HTTPResponse)
    ensures
        ok ==> {
            &&& r.status == HTTPStatus::Created
            &&& r.body matches Option::Some(b)
            &&& b.content_type == HTTPContentType::File
            &&& b.body@ == written@
        },
        !ok ==> r == (HTTPResponse {
            status: HTTPStatus::InternalServerError,
            body: Option::None,
        }),
{
    if ok {
        HTTPResponse {
            status: HTTPStatus::Created,
            body: Option::Some(HTTPBody { body: written, content_type: HTTPContentType::File }),
        }
    } else {
        HTTPResponse { status: HTTPStatus::InternalServerError, body: Option::None }
    }
}

/// The response written when the request could not be parsed at all.
pub fn parse_failure_response() -> (r: HTTPResponse)
    ensures
        r == (HTTPResponse { status: HTTPStatus::InternalServerError, body: Option::None }),
{
    HTTPResponse { status: HTTPStatus::InternalServerError, body: Option::None }
}

} // verus!
