//! Response serialization: a status code and an optional body become
//! wire text in the fixed format `HTTP/1.1 <code> <reason> \r\n\r\n<body>`.

use vstd::prelude::*;
use vstd::string::StringExecFns;
use vstd::utf8::encode_utf8;
use crate::status_code::{status_digits, status_reason, StatusCode};

verus! {

/// A response: a status code and an optional body, consumed by
/// serialization.
pub struct Response {
    status_code: StatusCode,
    body: Option<String>,
}

/// The mathematical model of a `Response`.
#[verifier::ext_equal]
pub struct ResponseModel {
    pub status_code: StatusCode,
    pub body: Option<Seq<char>>,
}

impl View for Response {
    type V = ResponseModel;

    closed spec fn view(&self) -> ResponseModel {
        ResponseModel {
            status_code: self.status_code,
            body: match self.body {
                Some(b) => Some(b@),
                None => None,
            },
        }
    }
}

/// The body as written on the wire: an absent body is the empty text.
pub open spec fn body_text(b: Option<Seq<char>>) -> Seq<char> {
    match b {
        Some(s) => s,
        None => Seq::empty(),
    }
}

/// The exact wire text of a response: the status line with the code's
/// digits and reason phrase, a trailing space, `\r\n\r\n`, and the body.
/// No headers are written.
pub open spec fn wire_format(r: ResponseModel) -> Seq<char> {
    "HTTP/1.1 "@ + status_digits(r.status_code) + " "@ + status_reason(r.status_code)
        + " \r\n\r\n"@ + body_text(r.body)
}

impl Response {
    /// A response with the given status code and body.
    pub fn new(status_code: StatusCode, body: Option<String>) -> (r: Response)
        ensures
            r@.status_code == status_code,
            r@.body == (match body {
                Some(b) => Some(b@),
                None => None::<Seq<char>>,
            }),
    {
        Response { status_code, body }
    }

    /// The status code of this response.
    pub fn status_code(&self) -> (r: StatusCode)
        ensures
            r == self@.status_code,
    {
        self.status_code
    }

    /// The exact wire text of this response.
    pub fn serialize(&self) -> (r: String)
        ensures
            r@ == wire_format(self@),
    {
        let mut out = String::new();
        out.append("HTTP/1.1 ");
        out.append(self.status_code.code_str());
        out.append(" ");
        out.append(self.status_code.reason_phrase());
        out.append(" \r\n\r\n");
        match &self.body {
            Some(b) => out.append(b.as_str()),
            None => (),
        }
        proof {
            assert(out@ =~= wire_format(self@));
        }
        out
    }

    /// Appends the wire bytes of this response to a byte sink.
    pub fn send(&self, sink: &mut Vec<u8>)
        ensures
            final(sink)@ == old(sink)@ + encode_utf8(wire_format(self@)),
    {
        let text = self.serialize();
        let bytes = text.as_str().as_bytes();
        sink.extend_from_slice(bytes);
        proof {
            assert(sink@ =~= old(sink)@ + encode_utf8(wire_format(self@)));
        }
    }
}

} // verus!
