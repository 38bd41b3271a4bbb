//! Request parsing: turning the header block of a byte stream into a
//! structured request, and the incremental parser that assembles that
//! block (and the body after it) from arbitrarily chunked reads.

use crate::bytes::ascii_bytes;
use crate::bytes::find_terminator;
use crate::bytes::first_non_ws;
use crate::bytes::first_term;
use crate::bytes::first_ws;
use crate::bytes::has_term;
use crate::bytes::parse_usize;
use crate::bytes::scan_token;
use crate::bytes::skip_ws;
use crate::bytes::spec_parse_usize;
use crate::bytes::split2;
use crate::bytes::split_sep2;
use crate::bytes::starts_with;
use crate::bytes::starts_with_ascii;
use vstd::prelude::*;

verus! {

/// The selected request headers: the request line's method and path, the
/// `User-Agent` value, and the parsed `Content-Length`.
#[derive(Debug, PartialEq, Eq)]
pub struct RequestHeaders {
    pub method: Vec<u8>,
    pub path: Vec<u8>,
    pub user_agent: Vec<u8>,
    pub content_length: Option<usize>,
}

/// A fully parsed request: headers, and the body when a positive
/// `Content-Length` announced one.
#[derive(Debug, PartialEq, Eq)]
pub struct ParsedRequest {
    pub headers: RequestHeaders,
    pub body: Option<Vec<u8>>,
}

/// The header block's lines: the pieces between CRLF separators.
pub open spec fn spec_lines(s: Seq<u8>) -> Seq<Seq<u8>> {
    split_sep2(s, 13, 10)
}

/// A line the scan treats as the request line.
pub open spec fn is_request_line(l: Seq<u8>) -> bool {
    starts_with(l, ascii_bytes("GET"@)) || starts_with(l, ascii_bytes("POST"@))
}

pub open spec fn is_user_agent_line(l: Seq<u8>) -> bool {
    starts_with(l, ascii_bytes("User-Agent:"@))
}

pub open spec fn is_content_length_line(l: Seq<u8>) -> bool {
    starts_with(l, ascii_bytes("Content-Length:"@))
}

/// The last line that the scan takes for the request line; the scan walks
/// all lines and a later match overwrites an earlier one.
pub open spec fn last_request_line(lines: Seq<Seq<u8>>) -> Option<Seq<u8>>
    decreases lines.len(),
{
    if lines.len() == 0 {
        Option::None
    } else if is_request_line(lines.last()) {
        Option::Some(lines.last())
    } else {
        last_request_line(lines.drop_last())
    }
}

pub open spec fn last_user_agent_line(lines: Seq<Seq<u8>>) -> Option<Seq<u8>>
    decreases lines.len(),
{
    if lines.len() == 0 {
        Option::None
    } else if is_user_agent_line(lines.last()) {
        Option::Some(lines.last())
    } else {
        last_user_agent_line(lines.drop_last())
    }
}

pub open spec fn last_content_length_line(lines: Seq<Seq<u8>>) -> Option<Seq<u8>>
    decreases lines.len(),
{
    if lines.len() == 0 {
        Option::None
    } else if is_content_length_line(lines.last()) {
        Option::Some(lines.last())
    } else {
        last_content_length_line(lines.drop_last())
    }
}

/// The first whitespace-delimited token of `l`; empty when `l` is all
/// whitespace.
pub open spec fn spec_token0(l: Seq<u8>) -> Seq<u8> {
    let st = first_non_ws(l);
    if st < l.len() {
        l.subrange(st, st + first_ws(l.skip(st)))
    } else {
        Seq::<u8>::empty()
    }
}

/// The second whitespace-delimited token of `l`; empty when there is none.
pub open spec fn spec_token1(l: Seq<u8>) -> Seq<u8> {
    let st = first_non_ws(l);
    if st < l.len() {
        let e0 = st + first_ws(l.skip(st));
        let st1 = e0 + first_non_ws(l.skip(e0));
        if st1 < l.len() {
            l.subrange(st1, st1 + first_ws(l.skip(st1)))
        } else {
            Seq::<u8>::empty()
        }
    } else {
        Seq::<u8>::empty()
    }
}

/// The value segment of a header line: the piece after the first `": "`,
/// up to the next `": "` or the end; empty when the line has no `": "`.
pub open spec fn spec_header_value(l: Seq<u8>) -> Seq<u8> {
    let parts = split_sep2(l, 58, 32);
    if parts.len() >= 2 {
        parts[1]
    } else {
        Seq::<u8>::empty()
    }
}

/// The `Content-Length` a header line announces: the parse of its value
/// segment, absent when the segment is missing or unparsable.
pub open spec fn spec_length_of_line(l: Seq<u8>) -> Option<usize> {
    let parts = split_sep2(l, 58, 32);
    if parts.len() >= 2 {
        spec_parse_usize(parts[1])
    } else {
        Option::None
    }
}

/// The method of the header block `s`: the first token of its request
/// line; empty when no line is a request line.
pub open spec fn spec_method(s: Seq<u8>) -> Seq<u8> {
    match last_request_line(spec_lines(s)) {
        Option::None => Seq::<u8>::empty(),
        Option::Some(l) => spec_token0(l),
    }
}

/// The path of the header block `s`: the second token of its request
/// line; empty when no line is a request line.
pub open spec fn spec_path(s: Seq<u8>) -> Seq<u8> {
    match last_request_line(spec_lines(s)) {
        Option::None => Seq::<u8>::empty(),
        Option::Some(l) => spec_token1(l),
    }
}

/// The `User-Agent` value of the header block `s`; empty when absent.
pub open spec fn spec_user_agent(s: Seq<u8>) -> Seq<u8> {
    match last_user_agent_line(spec_lines(s)) {
        Option::None => Seq::<u8>::empty(),
        Option::Some(l) => spec_header_value(l),
    }
}

/// The `Content-Length` of the header block `s`; absent when no line
/// announces a parsable one.
pub open spec fn spec_content_length(s: Seq<u8>) -> Option<usize> {
    match last_content_length_line(spec_lines(s)) {
        Option::None => Option::None,
        Option::Some(l) => spec_length_of_line(l),
    }
}

/// All four header fields of `h` are those of the header block `hb`.
pub open spec fn headers_match(h: RequestHeaders, hb: Seq<u8>) -> bool {
    &&& h.method@ == spec_method(hb)
    &&& h.path@ == spec_path(hb)
    &&& h.user_agent@ == spec_user_agent(hb)
    &&& h.content_length == spec_content_length(hb)
}

proof fn lemma_last_request_line_push(lines: Seq<Seq<u8>>, l: Seq<u8>)
    ensures
        last_request_line(lines.push(l)) == (if is_request_line(l) {
            Option::Some(l)
        } else {
            last_request_line(lines)
        }),
{
    assert(lines.push(l).last() == l);
    assert(lines.push(l).drop_last() =~= lines);
}

proof fn lemma_last_user_agent_line_push(lines: Seq<Seq<u8>>, l: Seq<u8>)
    ensures
        last_user_agent_line(lines.push(l)) == (if is_user_agent_line(l) {
            Option::Some(l)
        } else {
            last_user_agent_line(lines)
        }),
{
    assert(lines.push(l).last() == l);
    assert(lines.push(l).drop_last() =~= lines);
}

proof fn lemma_last_content_length_line_push(lines: Seq<Seq<u8>>, l: Seq<u8>)
    ensures
        last_content_length_line(lines.push(l)) == (if is_content_length_line(l) {
            Option::Some(l)
        } else {
            last_content_length_line(lines)
        }),
{
    assert(lines.push(l).last() == l);
    assert(lines.push(l).drop_last() =~= lines);
}

proof fn lemma_prefix_first_byte(l: Seq<u8>, p: Seq<u8>)
    requires
        starts_with(l, p),
        p.len() >= 1,
    ensures
        l.len() >= 1 && l[0] == p[0],
{
    assert(l.take(p.len() as int)[0] == l[0]);
}

/// A line is of at most one of the three recognized kinds: their
/// prefixes already differ in the first byte.
proof fn lemma_line_kinds_disjoint(l: Seq<u8>)
    ensures
        is_request_line(l) ==> !is_user_agent_line(l) && !is_content_length_line(l),
        is_user_agent_line(l) ==> !is_content_length_line(l),
{
    reveal_strlit("GET");
    reveal_strlit("POST");
    reveal_strlit("User-Agent:");
    reveal_strlit("Content-Length:");
    if starts_with(l, ascii_bytes("GET"@)) {
        lemma_prefix_first_byte(l, ascii_bytes("GET"@));
    }
    if starts_with(l, ascii_bytes("POST"@)) {
        lemma_prefix_first_byte(l, ascii_bytes("POST"@));
    }
    if starts_with(l, ascii_bytes("User-Agent:"@)) {
        lemma_prefix_first_byte(l, ascii_bytes("User-Agent:"@));
    }
    if starts_with(l, ascii_bytes("Content-Length:"@)) {
        lemma_prefix_first_byte(l, ascii_bytes("Content-Length:"@));
    }
}

/// Extracts the first two whitespace-delimited tokens of `line`.
fn first_two_tokens(line: &[u8]) -> (r: (Vec<u8>, Vec<u8>))
    ensures
        r.0@ == spec_token0(line@),
        r.1@ == spec_token1(line@),
{
    let n = line.len();
    let st = skip_ws(line, 0);
    proof {
        assert(line@.skip(0) =~= line@);
    }
    if st == n {
        proof {
            assert(spec_token0(line@) =~= Seq::<u8>::empty());
            assert(spec_token1(line@) =~= Seq::<u8>::empty());
        }
        return (Vec::new(), Vec::new());
    }
    let e0 = scan_token(line, st);
    let tok0 = vstd::slice::slice_to_vec(vstd::slice::slice_subrange(line, st, e0));
    let st1 = skip_ws(line, e0);
    if st1 == n {
        proof {
            assert(spec_token1(line@) =~= Seq::<u8>::empty());
        }
        return (tok0, Vec::new());
    }
    let e1 = scan_token(line, st1);
    let tok1 = vstd::slice::slice_to_vec(vstd::slice::slice_subrange(line, st1, e1));
    (tok0, tok1)
}

/// Scans the header block for the request line, the `User-Agent` line and
/// the `Content-Length` line, leniently: lines that match no pattern are
/// ignored, and a block with no request line yields an empty method and
/// path rather than failing.
pub fn parse_request_headers(headers: &[u8]) -> (r: RequestHeaders)
    ensures
        headers_match(r, headers@),
{
    proof {
        reveal_strlit("GET");
        reveal_strlit("POST");
        reveal_strlit("User-Agent:");
        reveal_strlit("Content-Length:");
    }
    let lines = split2(headers, 13, 10);
    let mut method: Vec<u8> = Vec::new();
    let mut path: Vec<u8> = Vec::new();
    let mut user_agent: Vec<u8> = Vec::new();
    let mut content_length: Option<usize> = Option::None;
    let n = lines.len();
    let mut k: usize = 0;
    proof {
        assert(lines.deep_view().take(0) =~= Seq::<Seq<u8>>::empty());
    }
    while k < n
        invariant
            k <= n,
            n == lines@.len(),
            lines.deep_view() == spec_lines(headers@),
            method@ == (match last_request_line(lines.deep_view().take(k as int)) {
                Option::None => Seq::<u8>::empty(),
                Option::Some(l) => spec_token0(l),
            }),
            path@ == (match last_request_line(lines.deep_view().take(k as int)) {
                Option::None => Seq::<u8>::empty(),
                Option::Some(l) => spec_token1(l),
            }),
            user_agent@ == (match last_user_agent_line(lines.deep_view().take(k as int)) {
                Option::None => Seq::<u8>::empty(),
                Option::Some(l) => spec_header_value(l),
            }),
            content_length == (match last_content_length_line(lines.deep_view().take(k as int)) {
                Option::None => Option::<usize>::None,
                Option::Some(l) => spec_length_of_line(l),
            }),
        decreases n - k,
    {
        proof {
            reveal_strlit("GET");
            reveal_strlit("POST");
            reveal_strlit("User-Agent:");
            reveal_strlit("Content-Length:");
        }
        let line = &lines[k];
        let ghost lv = lines.deep_view()[k as int];
        proof {
            assert(lv == line@);
            assert(lines.deep_view().take(k + 1) =~= lines.deep_view().take(k as int).push(lv));
            lemma_last_request_line_push(lines.deep_view().take(k as int), lv);
            lemma_last_user_agent_line_push(lines.deep_view().take(k as int), lv);
            lemma_last_content_length_line_push(lines.deep_view().take(k as int), lv);
            lemma_line_kinds_disjoint(lv);
        }
        if starts_with_ascii(line.as_slice(), "GET") || starts_with_ascii(line.as_slice(), "POST") {
            let (tok0, tok1) = first_two_tokens(line.as_slice());
            method = tok0;
            path = tok1;
        } else if starts_with_ascii(line.as_slice(), "User-Agent:") {
            let parts = split2(line.as_slice(), 58, 32);
            if parts.len() >= 2 {
                user_agent = vstd::slice::slice_to_vec(parts[1].as_slice());
                proof {
                    assert(parts.deep_view()[1] == parts@[1]@);
                }
            } else {
                user_agent = Vec::new();
            }
        } else if starts_with_ascii(line.as_slice(), "Content-Length:") {
            let parts = split2(line.as_slice(), 58, 32);
            if parts.len() >= 2 {
                content_length = parse_usize(parts[1].as_slice());
                proof {
                    assert(parts.deep_view()[1] == parts@[1]@);
                }
            } else {
                content_length = Option::None;
            }
        }
        k = k + 1;
    }
    proof {
        assert(lines.deep_view().take(n as int) =~= lines.deep_view());
    }
    RequestHeaders { method, path, user_agent, content_length }
}

proof fn lemma_last_request_line_none(lines: Seq<Seq<u8>>)
    requires
        forall|k: int| 0 <= k < lines.len() ==> !is_request_line(#[trigger] lines[k]),
    ensures
        last_request_line(lines) is None,
    decreases lines.len(),
{
    if lines.len() > 0 {
        assert(!is_request_line(lines.last()));
        assert(forall|k: int|
            0 <= k < lines.len() - 1 ==> #[trigger] lines.drop_last()[k] == lines[k]);
        lemma_last_request_line_none(lines.drop_last());
    }
}

/// Leniency: a header block none of whose lines is recognizable as a
/// request line parses to an empty method and an empty path — it is not
/// rejected.
pub proof fn lemma_lenient_without_request_line(s: Seq<u8>)
    requires
        forall|k: int|
            0 <= k < spec_lines(s).len() ==> !is_request_line(#[trigger] spec_lines(s)[k]),
    ensures
        spec_method(s) == Seq::<u8>::empty(),
        spec_path(s) == Seq::<u8>::empty(),
{
    lemma_last_request_line_none(spec_lines(s));
}

/// Why a request could not be completed.
#[derive(Debug, Clone, Copy, PartialEq, Eq)]
pub enum ParseError {
    /// The peer closed the connection before the header terminator arrived.
    ConnectionClosed,
    /// The peer closed the connection before `Content-Length` bytes of
    /// body arrived.
    IncompleteBody,
}

/// Where the header block ends in the byte stream `s`: just past the
/// first terminator. Meaningful when `has_term(s)`.
pub open spec fn spec_headers_end(s: Seq<u8>) -> int {
    first_term(s) + 4
}

/// How many body bytes the header block of `s` demands.
pub open spec fn spec_need(s: Seq<u8>) -> int {
    match spec_content_length(s.take(spec_headers_end(s))) {
        Option::None => 0,
        Option::Some(n) => n as int,
    }
}

/// The stream `s` holds a complete request: a terminated header block
/// and all the body bytes it demands.
pub open spec fn spec_stream_complete(s: Seq<u8>) -> bool {
    has_term(s) && s.len() >= spec_headers_end(s) + spec_need(s)
}

/// The body a complete stream `s` carries: present exactly when the
/// demanded length is positive.
pub open spec fn spec_stream_body(s: Seq<u8>) -> Option<Seq<u8>> {
    if spec_need(s) > 0 {
        Option::Some(s.subrange(spec_headers_end(s), spec_headers_end(s) + spec_need(s)))
    } else {
        Option::None
    }
}

/// `r` is the request the byte stream `s` carries.
pub open spec fn request_matches(r: ParsedRequest, s: Seq<u8>) -> bool {
    &&& headers_match(r.headers, s.take(spec_headers_end(s)))
    &&& match spec_stream_body(s) {
        Option::None => r.body is None,
        Option::Some(bs) => r.body is Some && r.body.unwrap()@ == bs,
    }
}

#[derive(Clone, Copy, PartialEq, Eq, Debug)]
enum Phase {
    Headers,
    Body,
    Done,
    Failed,
}

/// An incremental request parser. Feed it each chunk the connection
/// yields, in order, an empty chunk standing for end of stream; once
/// [`StreamParser::is_done`] holds, [`StreamParser::take_result`] is the
/// request the whole stream carried, or the error that ended it.
///
/// The terminator is sought in the accumulated stream, so one spanning a
/// chunk boundary is found, and bytes that arrive in the same chunk as
/// the terminator count toward the body.
pub struct StreamParser {
    log: Ghost<Seq<u8>>,
    phase: Phase,
    buf: Vec<u8>,
    headers: Option<RequestHeaders>,
    need: usize,
    body: Vec<u8>,
    error: Option<ParseError>,
}

impl StreamParser {
    /// Every byte fed so far, in order.
    pub closed spec fn fed(self) -> Seq<u8> {
        self.log@
    }

    /// The parser has a result: a complete request, or a failure.
    pub closed spec fn done(self) -> bool {
        self.phase is Done || self.phase is Failed
    }

    /// The parser's internal state agrees with the bytes fed so far.
    pub closed spec fn wf(self) -> bool {
        match self.phase {
            Phase::Headers => {
                &&& !has_term(self.log@)
                &&& self.buf@ == self.log@
            },
            Phase::Body => {
                &&& has_term(self.log@)
                &&& !spec_stream_complete(self.log@)
                &&& self.headers is Some
                &&& headers_match(
                    self.headers.unwrap(),
                    self.log@.take(spec_headers_end(self.log@)),
                )
                &&& self.need == spec_need(self.log@)
                &&& self.body@ == self.log@.skip(spec_headers_end(self.log@))
            },
            Phase::Done => {
                &&& spec_stream_complete(self.log@)
                &&& self.headers is Some
                &&& headers_match(
                    self.headers.unwrap(),
                    self.log@.take(spec_headers_end(self.log@)),
                )
                &&& self.need == spec_need(self.log@)
                &&& self.body@ == self.log@.subrange(
                    spec_headers_end(self.log@),
                    spec_headers_end(self.log@) + spec_need(self.log@),
                )
            },
            Phase::Failed => {
                &&& !spec_stream_complete(self.log@)
                &&& self.error == Option::Some(
                    if has_term(self.log@) {
                        ParseError::IncompleteBody
                    } else {
                        ParseError::ConnectionClosed
                    },
                )
            },
        }
    }

    pub fn new() -> (p: StreamParser)
        ensures
            p.wf(),
            p.fed() == Seq::<u8>::empty(),
            !p.done(),
    {
        StreamParser {
            log: Ghost(Seq::empty()),
            phase: Phase::Headers,
            buf: Vec::new(),
            headers: Option::None,
            need: 0,
            body: Vec::new(),
            error: Option::None,
        }
    }

    pub fn is_done(&self) -> (r: bool)
        ensures
            r == self.done(),
    {
        match self.phase {
            Phase::Done => true,
            Phase::Failed => true,
            _ => false,
        }
    }

    /// Feeds the next chunk read from the connection; an empty chunk
    /// means the peer closed the stream.
    pub fn push_bytes(&mut self, chunk: &[u8])
        requires
            old(self).wf(),
            !old(self).done(),
        ensures
            final(self).wf(),
            final(self).fed() == old(self).fed() + chunk@,
            final(self).done() <==> (chunk@.len() == 0 || spec_stream_complete(
                old(self).fed() + chunk@,
            )),
    {
        let ghost oldlog = self.log@;
        let ghost newlog = oldlog + chunk@;
        self.log = Ghost(newlog);
        if chunk.len() == 0 {
            proof {
                assert(newlog =~= oldlog);
            }
            match self.phase {
                Phase::Headers => {
                    self.error = Option::Some(ParseError::ConnectionClosed);
                },
                Phase::Body => {
                    self.error = Option::Some(ParseError::IncompleteBody);
                },
                _ => {
                    proof {
                        assert(false);
                    }
                },
            }
            self.phase = Phase::Failed;
            return;
        }
        match self.phase {
            Phase::Headers => {
                self.buf.extend_from_slice(chunk);
                proof {
                    assert(self.buf@ =~= newlog);
                }
                let t = find_terminator(self.buf.as_slice());
                let blen = self.buf.len();
                if blen - t >= 4 {
                    let end = t + 4;
                    let head = vstd::slice::slice_subrange(self.buf.as_slice(), 0, end);
                    proof {
                        assert(head@ =~= newlog.take(end as int));
                    }
                    let hdrs = parse_request_headers(head);
                    let cl = match hdrs.content_length {
                        Option::Some(c) => c,
                        Option::None => 0,
                    };
                    let rest = vstd::slice::slice_to_vec(
                        vstd::slice::slice_subrange(self.buf.as_slice(), end, blen),
                    );
                    proof {
                        assert(rest@ =~= newlog.skip(end as int));
                    }
                    self.headers = Option::Some(hdrs);
                    self.need = cl;
                    self.body = rest;
                    self.buf = Vec::new();
                    if self.body.len() >= self.need {
                        self.body.truncate(self.need);
                        self.phase = Phase::Done;
                        proof {
                            assert(self.body@ =~= newlog.subrange(
                                spec_headers_end(newlog),
                                spec_headers_end(newlog) + spec_need(newlog),
                            ));
                        }
                    } else {
                        self.phase = Phase::Body;
                    }
                }
            },
            Phase::Body => {
                let ghost end = spec_headers_end(oldlog);
                proof {
                    assert(has_term(oldlog));
                    crate::bytes::lemma_first_term(oldlog);
                    crate::bytes::lemma_first_term_prefix(oldlog, chunk@);
                    assert(0 <= end <= oldlog.len());
                    assert(spec_headers_end(newlog) == end);
                    assert forall|i: int| 0 <= i < end implies newlog.take(end)[i] == oldlog.take(
                        end,
                    )[i] by {
                        assert(newlog[i] == oldlog[i]);
                    }
                    assert(newlog.take(end) =~= oldlog.take(end));
                    assert(spec_need(newlog) == self.need);
                }
                self.body.extend_from_slice(chunk);
                proof {
                    let ghost tail = oldlog.skip(end) + chunk@;
                    assert(self.body@.len() == tail.len());
                    assert forall|i: int| 0 <= i < self.body@.len() implies self.body@[i]
                        == tail[i] by {
                        if i < oldlog.len() - end {
                            assert(self.body@[i] == old(self).body@[i]);
                        } else {
                            assert(vstd::pervasive::cloned::<u8>(
                                chunk@[i - (oldlog.len() - end)],
                                self.body@[i],
                            ));
                        }
                    }
                    assert(self.body@ =~= tail);
                    assert forall|i: int| 0 <= i < newlog.skip(end).len() implies newlog.skip(
                        end,
                    )[i] == tail[i] by {
                        assert(newlog.skip(end)[i] == newlog[end + i]);
                    }
                    assert(newlog.skip(end) =~= tail);
                }
                if self.body.len() >= self.need {
                    self.body.truncate(self.need);
                    self.phase = Phase::Done;
                    proof {
                        assert(end + spec_need(newlog) <= newlog.len());
                        assert(self.body@ =~= newlog.subrange(end, end + spec_need(newlog)));
                    }
                }
            },
            _ => {
                proof {
                    assert(false);
                }
            },
        }
    }

    /// The outcome, once the parser is done: the parsed request when the
    /// stream carried a complete one, otherwise which failure ended it.
    pub fn take_result(self) -> (r: Result<ParsedRequest, ParseError>)
        requires
            self.wf(),
            self.done(),
        ensures
            spec_stream_complete(self.fed()) ==> r is Ok && request_matches(
                r.unwrap(),
                self.fed(),
            ),
            !spec_stream_complete(self.fed()) ==> r == Result::<ParsedRequest, ParseError>::Err(
                if has_term(self.fed()) {
                    ParseError::IncompleteBody
                } else {
                    ParseError::ConnectionClosed
                },
            ),
    {
        match self.phase {
            Phase::Done => {
                let headers = match self.headers {
                    Option::Some(h) => h,
                    Option::None => vstd::pervasive::unreached(),
                };
                let body = if self.need > 0 {
                    Option::Some(self.body)
                } else {
                    Option::None
                };
                Result::Ok(ParsedRequest { headers, body })
            },
            Phase::Failed => {
                let e = match self.error {
                    Option::Some(e) => e,
                    Option::None => vstd::pervasive::unreached(),
                };
                Result::Err(e)
            },
            _ => vstd::pervasive::unreached(),
        }
    }
}

} // verus!
