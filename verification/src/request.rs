//! Request parsing: a raw byte buffer is decoded as UTF-8 and read
//! against the fixed request-line grammar `<METHOD> <TARGET>
//! <VERSION>\r...`, yielding the method, the path and the optional
//! query component, or one of four parse errors.

use vstd::prelude::*;
use vstd::utf8::{decode_utf8, encode_utf8, valid_utf8};
use crate::method::{method_name, method_of, Method};
use crate::text::{find2, find_char2, lemma_find2_at, lemma_find2_none, lemma_find2_spec, str_eq};

verus! {

/// Why a buffer failed to parse as a request.
#[derive(Clone, Copy, PartialEq, Eq, Structural, Debug)]
pub enum ParseError {
    InvalidRequestError,
    InvalidEncodingError,
    InvalidProtocolError,
    InvalidMethodError,
}

/// The fixed message of each parse error.
pub open spec fn message_of(e: ParseError) -> Seq<char> {
    match e {
        ParseError::InvalidRequestError => "Invalid Request"@,
        ParseError::InvalidEncodingError => "Invalid Encoding"@,
        ParseError::InvalidProtocolError => "Invalid Protocol"@,
        ParseError::InvalidMethodError => "Invalid Method"@,
    }
}

impl ParseError {
    /// The fixed, human-readable message of this error.
    pub fn message(&self) -> (r: &'static str)
        ensures
            r@ == message_of(*self),
    {
        match self {
            ParseError::InvalidRequestError => "Invalid Request",
            ParseError::InvalidEncodingError => "Invalid Encoding",
            ParseError::InvalidProtocolError => "Invalid Protocol",
            ParseError::InvalidMethodError => "Invalid Method",
        }
    }
}

/// A parsed request: the path, the raw query component if the target
/// held one, and the method. Immutable once constructed; it owns its
/// strings, independent of the read buffer.
#[derive(Debug)]
pub struct Request {
    path: String,
    query_string: Option<String>,
    method: Method,
}

/// The mathematical model of a `Request`.
#[verifier::ext_equal]
pub struct RequestModel {
    pub path: Seq<char>,
    pub query_string: Option<Seq<char>>,
    pub method: Method,
}

impl View for Request {
    type V = RequestModel;

    closed spec fn view(&self) -> RequestModel {
        RequestModel {
            path: self.path@,
            query_string: match self.query_string {
                Some(q) => Some(q@),
                None => None,
            },
            method: self.method,
        }
    }
}

/// The first token of `s` and the remainder: the token ends at the
/// first space or carriage return, which itself belongs to neither
/// part. `None` when no such delimiter occurs.
pub open spec fn next_word(s: Seq<char>) -> Option<(Seq<char>, Seq<char>)> {
    let i = find2(s, ' ', '\r');
    if i < 0 {
        None
    } else {
        Some((s.subrange(0, i), s.subrange(i + 1, s.len() as int)))
    }
}

/// Splits a request target at its first `?`: the path before it, the
/// query component after it. Without `?` the whole target is the path
/// and there is no query component.
pub open spec fn split_target(t: Seq<char>) -> (Seq<char>, Option<Seq<char>>) {
    let i = find2(t, '?', '?');
    if i < 0 {
        (t, None)
    } else {
        (t.subrange(0, i), Some(t.subrange(i + 1, t.len() as int)))
    }
}

/// Parses decoded request text: three whitespace-delimited tokens
/// (method, target, protocol), the protocol checked to be exactly
/// `HTTP/1.1`, the method checked against the nine verbs, and the
/// target split at its first `?`.
pub open spec fn parse_request_chars(s: Seq<char>) -> Result<RequestModel, ParseError> {
    match next_word(s) {
        None => Err(ParseError::InvalidRequestError),
        Some((method_tok, rest1)) => match next_word(rest1) {
            None => Err(ParseError::InvalidRequestError),
            Some((target, rest2)) => match next_word(rest2) {
                None => Err(ParseError::InvalidRequestError),
                Some((protocol, _)) => if protocol != "HTTP/1.1"@ {
                    Err(ParseError::InvalidProtocolError)
                } else {
                    match method_of(method_tok) {
                        None => Err(ParseError::InvalidMethodError),
                        Some(m) => Ok(
                            RequestModel {
                                path: split_target(target).0,
                                query_string: split_target(target).1,
                                method: m,
                            },
                        ),
                    }
                },
            },
        },
    }
}

/// Parses a raw byte buffer: bytes that are not valid UTF-8 fail with
/// the encoding error before any token is read; otherwise the decoded
/// text is parsed.
pub open spec fn parse_request_bytes(bytes: Seq<u8>) -> Result<RequestModel, ParseError> {
    if valid_utf8(bytes) {
        parse_request_chars(decode_utf8(bytes))
    } else {
        Err(ParseError::InvalidEncodingError)
    }
}

/// Relies on core::str::from_utf8: it returns Ok exactly when the
/// bytes are valid UTF-8, and the resulting text is their decoding.
#[verifier::external_body]
fn bytes_to_str(buffer: &[u8]) -> (r: Option<&str>)
    ensures
        r is Some <==> valid_utf8(buffer@),
        r matches Some(s) ==> s@ == decode_utf8(buffer@),
{
    core::str::from_utf8(buffer).ok()
}

/// Takes the first space- or carriage-return-delimited token off the
/// front of `request`, handing back the token and the remainder.
pub fn get_next_word<'a>(request: &'a str) -> (r: Option<(&'a str, &'a str)>)
    ensures
        match r {
            Some(pair) => next_word(request@) == Some((pair.0@, pair.1@)),
            None => next_word(request@) is None,
        },
{
    match find_char2(request, ' ', '\r') {
        Some(i) => {
            proof {
                lemma_find2_spec(request@, ' ', '\r');
            }
            let n = request.unicode_len();
            let word = request.substring_char(0, i);
            let rest = request.substring_char(i + 1, n);
            Some((word, rest))
        },
        None => None,
    }
}

impl Request {
    /// Parses a raw byte buffer into a request, exactly as
    /// `parse_request_bytes` says, with each malformed input mapped to
    /// its parse error.
    pub fn try_from(buffer: &[u8]) -> (r: Result<Request, ParseError>)
        ensures
            match r {
                Ok(req) => parse_request_bytes(buffer@) == Ok::<RequestModel, ParseError>(req@),
                Err(e) => parse_request_bytes(buffer@) == Err::<RequestModel, ParseError>(e),
            },
    {
        let request: &str = match bytes_to_str(buffer) {
            Some(s) => s,
            None => {
                return Err(ParseError::InvalidEncodingError);
            },
        };
        let (method_tok, request) = match get_next_word(request) {
            Some(pair) => pair,
            None => {
                return Err(ParseError::InvalidRequestError);
            },
        };
        let (target, request) = match get_next_word(request) {
            Some(pair) => pair,
            None => {
                return Err(ParseError::InvalidRequestError);
            },
        };
        let (protocol, _rest) = match get_next_word(request) {
            Some(pair) => pair,
            None => {
                return Err(ParseError::InvalidRequestError);
            },
        };
        if !str_eq(protocol, "HTTP/1.1") {
            return Err(ParseError::InvalidProtocolError);
        }
        let method = match Method::from_str(method_tok) {
            Ok(m) => m,
            Err(_) => {
                return Err(ParseError::InvalidMethodError);
            },
        };
        let n = target.unicode_len();
        let (path, query_string) = match find_char2(target, '?', '?') {
            Some(i) => {
                proof {
                    lemma_find2_spec(target@, '?', '?');
                }
                (target.substring_char(0, i), Some(target.substring_char(i + 1, n).to_owned()))
            },
            None => (target, None),
        };
        Ok(Request { path: path.to_owned(), query_string, method })
    }

    /// The path component of the target.
    pub fn path(&self) -> (r: &str)
        ensures
            r@ == self@.path,
    {
        self.path.as_str()
    }

    /// The raw query component, when the target held one.
    pub fn query_string(&self) -> (r: &Option<String>)
        ensures
            match r {
                Some(q) => self@.query_string == Some(q@),
                None => self@.query_string is None,
            },
    {
        &self.query_string
    }

    /// The request method.
    pub fn method(&self) -> (r: Method)
        ensures
            r == self@.method,
    {
        self.method
    }
}

/// The target as written on the wire: the path, then `?` and the query
/// component when there is one.
pub open spec fn spec_target(path: Seq<char>, query: Option<Seq<char>>) -> Seq<char> {
    match query {
        Some(q) => path + seq!['?'] + q,
        None => path,
    }
}

/// A well-formed request line: method token, target and `HTTP/1.1`,
/// separated by single spaces and ended by a carriage return, with
/// anything at all after it.
pub open spec fn request_line(
    m: Method,
    path: Seq<char>,
    query: Option<Seq<char>>,
    tail: Seq<char>,
) -> Seq<char> {
    method_name(m) + seq![' '] + spec_target(path, query) + seq![' '] + "HTTP/1.1"@ + seq!['\r']
        + tail
}

/// A delimiter preceded only by non-delimiters splits exactly there.
proof fn lemma_next_word_concat(a: Seq<char>, d: char, b: Seq<char>)
    requires
        forall|i: int| 0 <= i < a.len() ==> a[i] != ' ' && a[i] != '\r',
        d == ' ' || d == '\r',
    ensures
        next_word(a + seq![d] + b) == Some((a, b)),
{
    let s = a + seq![d] + b;
    assert(s[a.len() as int] == d);
    assert forall|k: int| 0 <= k < a.len() implies s[k] != ' ' && s[k] != '\r' by {
        assert(s[k] == a[k]);
    }
    lemma_find2_at(s, ' ', '\r', a.len() as int);
    assert(s.subrange(0, a.len() as int) =~= a);
    assert(s.subrange(a.len() as int + 1, s.len() as int) =~= b);
}

/// Every well-formed request line parses successfully to its own
/// method, path and query component: for any method, any path free of
/// space, carriage return and `?`, any query component free of space
/// and carriage return, and anything following the carriage return,
/// both the text-level and the byte-level parse return exactly that
/// request.
pub proof fn lemma_request_line_parses(
    m: Method,
    path: Seq<char>,
    query: Option<Seq<char>>,
    tail: Seq<char>,
)
    requires
        forall|i: int| 0 <= i < path.len() ==> path[i] != ' ' && path[i] != '\r' && path[i] != '?',
        query matches Some(q) ==> forall|i: int| 0 <= i < q.len() ==> q[i] != ' ' && q[i] != '\r',
    ensures
        parse_request_chars(request_line(m, path, query, tail)) == Ok::<RequestModel, ParseError>(
            (RequestModel { path, query_string: query, method: m }),
        ),
        parse_request_bytes(encode_utf8(request_line(m, path, query, tail))) == Ok::<
            RequestModel,
            ParseError,
        >((RequestModel { path, query_string: query, method: m })),
{
    broadcast use vstd::utf8::encode_utf8_valid_utf8, vstd::utf8::encode_utf8_decode_utf8;

    crate::method::lemma_method_name(m);
    reveal_strlit("HTTP/1.1");
    assert("HTTP/1.1"@.len() == 8);
    let target = spec_target(path, query);
    let s = request_line(m, path, query, tail);
    let rest2 = "HTTP/1.1"@ + seq!['\r'] + tail;
    let rest1 = target + seq![' '] + rest2;
    assert forall|i: int| 0 <= i < target.len() implies target[i] != ' ' && target[i] != '\r' by {
        if query is Some && i > path.len() {
            let q = query->0;
            assert(target[i] == q[i - path.len() - 1]);
        }
    }
    assert(s =~= method_name(m) + seq![' '] + rest1);
    lemma_next_word_concat(method_name(m), ' ', rest1);
    lemma_next_word_concat(target, ' ', rest2);
    assert(rest2 =~= "HTTP/1.1"@ + seq!['\r'] + tail);
    assert forall|i: int| 0 <= i < "HTTP/1.1"@.len() implies "HTTP/1.1"@[i] != ' '
        && "HTTP/1.1"@[i] != '\r' by {}
    lemma_next_word_concat("HTTP/1.1"@, '\r', tail);
    match query {
        Some(q) => {
            assert(target[path.len() as int] == '?');
            assert forall|k: int| 0 <= k < path.len() implies target[k] != '?' by {
                assert(target[k] == path[k]);
            }
            lemma_find2_at(target, '?', '?', path.len() as int);
            assert(target.subrange(0, path.len() as int) =~= path);
            assert(target.subrange(path.len() as int + 1, target.len() as int) =~= q);
        },
        None => {
            lemma_find2_none(target, '?', '?');
        },
    }
}

} // verus!

