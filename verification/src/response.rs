//! Response serialization: a response descriptor and the exact wire bytes
//! it turns into.

use crate::bytes::ascii_bytes;
use crate::bytes::dec_bytes;
use crate::bytes::push_ascii;
use crate::bytes::push_decimal;
use crate::http::HTTPBody;
use crate::http::HTTPStatus;
use vstd::prelude::*;

verus! {

/// The two-byte line separator of the wire format.
pub open spec fn crlf() -> Seq<u8> {
    seq![13u8, 10u8]
}

/// A response descriptor: a status and, optionally, a typed body.
#[derive(Debug, PartialEq, Eq)]
pub struct HTTPResponse {
    pub status: HTTPStatus,
    pub body: Option<HTTPBody>,
}

impl HTTPResponse {
    /// The exact serialized form: the status line, then — only with a
    /// body — the `Content-Type` and `Content-Length` header lines, a
    /// blank line and the payload; and a final line break either way.
    pub open spec fn spec_serialize(self) -> Seq<u8> {
        ascii_bytes(self.status.spec_status_line()) + crlf() + (match self.body {
            Option::None => Seq::<u8>::empty(),
            Option::Some(b) => ascii_bytes("Content-Type: "@) + ascii_bytes(
                b.content_type.spec_content_type(),
            ) + crlf() + ascii_bytes("Content-Length: "@) + dec_bytes(b.body@.len() as int)
                + crlf() + crlf() + b.body@,
        }) + crlf()
    }

    /// Serializes the response to wire bytes.
    pub fn to_bytes(&self) -> (r: Vec<u8>)
        ensures
            r@ == self.spec_serialize(),
    {
        let mut out: Vec<u8> = Vec::new();
        let line = self.status.status_line_str();
        push_ascii(&mut out, line);
        push_crlf(&mut out);
        let ghost head = ascii_bytes(self.status.spec_status_line()) + crlf();
        proof {
            assert(out@ =~= head);
        }
        match &self.body {
            Option::None => {
                push_crlf(&mut out);
                proof {
                    assert(out@ =~= self.spec_serialize());
                }
            },
            Option::Some(b) => {
                let label_type = "Content-Type: ";
                proof {
                    reveal_strlit("Content-Type: ");
                    assert(label_type.is_ascii());
                }
                push_ascii(&mut out, label_type);
                push_ascii(&mut out, b.content_type.content_type());
                push_crlf(&mut out);
                let label_len = "Content-Length: ";
                proof {
                    reveal_strlit("Content-Length: ");
                    assert(label_len.is_ascii());
                }
                push_ascii(&mut out, label_len);
                push_decimal(&mut out, b.body.len());
                push_crlf(&mut out);
                push_crlf(&mut out);
                out.extend_from_slice(b.body.as_slice());
                push_crlf(&mut out);
                proof {
                    assert(out@ =~= self.spec_serialize());
                }
            },
        }
        out
    }
}

/// Appends the line separator.
pub fn push_crlf(out: &mut Vec<u8>)
    ensures
        final(out)@ == old(out)@ + crlf(),
{
    out.push(13);
    out.push(10);
    proof {
        assert(out@ =~= old(out)@ + crlf());
    }
}

} // verus!
