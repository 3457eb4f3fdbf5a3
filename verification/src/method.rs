//! Request methods: a closed set of nine verbs, constructed only by an
//! exact, case-sensitive string match.

use vstd::prelude::*;
use crate::text::str_eq;

verus! {

/// A request method.
#[derive(Clone, Copy, PartialEq, Eq, Structural, Debug)]
pub enum Method {
    GET,
    PUT,
    POST,
    PATCH,
    DELETE,
    HEAD,
    OPTIONS,
    TRACE,
    CONNECT,
}

/// The error of a method token that matches none of the nine verbs.
pub struct MethodError;

/// The token that names a method on the wire.
pub open spec fn method_name(m: Method) -> Seq<char> {
    match m {
        Method::GET => "GET"@,
        Method::PUT => "PUT"@,
        Method::POST => "POST"@,
        Method::PATCH => "PATCH"@,
        Method::DELETE => "DELETE"@,
        Method::HEAD => "HEAD"@,
        Method::OPTIONS => "OPTIONS"@,
        Method::TRACE => "TRACE"@,
        Method::CONNECT => "CONNECT"@,
    }
}

/// The method named by a token, or `None` for any token that is not
/// exactly one of the nine verbs.
pub open spec fn method_of(s: Seq<char>) -> Option<Method> {
    if s == "GET"@ {
        Some(Method::GET)
    } else if s == "PUT"@ {
        Some(Method::PUT)
    } else if s == "POST"@ {
        Some(Method::POST)
    } else if s == "PATCH"@ {
        Some(Method::PATCH)
    } else if s == "DELETE"@ {
        Some(Method::DELETE)
    } else if s == "HEAD"@ {
        Some(Method::HEAD)
    } else if s == "OPTIONS"@ {
        Some(Method::OPTIONS)
    } else if s == "TRACE"@ {
        Some(Method::TRACE)
    } else if s == "CONNECT"@ {
        Some(Method::CONNECT)
    } else {
        None
    }
}

impl Method {
    /// Converts an exact-case token to a method; fails on any other
    /// string, including lowercase or unknown verbs.
    pub fn from_str(s: &str) -> (r: Result<Method, MethodError>)
        ensures
            match r {
                Ok(m) => method_of(s@) == Some(m),
                Err(_) => method_of(s@) is None,
            },
    {
        if str_eq(s, "GET") {
            Ok(Method::GET)
        } else if str_eq(s, "PUT") {
            Ok(Method::PUT)
        } else if str_eq(s, "POST") {
            Ok(Method::POST)
        } else if str_eq(s, "PATCH") {
            Ok(Method::PATCH)
        } else if str_eq(s, "DELETE") {
            Ok(Method::DELETE)
        } else if str_eq(s, "HEAD") {
            Ok(Method::HEAD)
        } else if str_eq(s, "OPTIONS") {
            Ok(Method::OPTIONS)
        } else if str_eq(s, "TRACE") {
            Ok(Method::TRACE)
        } else if str_eq(s, "CONNECT") {
            Ok(Method::CONNECT)
        } else {
            Err(MethodError)
        }
    }
}

/// Each verb's wire token names that verb and no other, holds no space,
/// carriage return or question mark, and is not empty.
pub proof fn lemma_method_name(m: Method)
    ensures
        method_of(method_name(m)) == Some(m),
        forall|i: int|
            0 <= i < method_name(m).len() ==> method_name(m)[i] != ' ' && method_name(m)[i] != '\r'
                && method_name(m)[i] != '?',
        method_name(m).len() > 0,
{
    reveal_strlit("GET");
    reveal_strlit("PUT");
    reveal_strlit("POST");
    reveal_strlit("PATCH");
    reveal_strlit("DELETE");
    reveal_strlit("HEAD");
    reveal_strlit("OPTIONS");
    reveal_strlit("TRACE");
    reveal_strlit("CONNECT");
    assert("GET"@.len() == 3 && "PUT"@.len() == 3 && "POST"@.len() == 4 && "PATCH"@.len() == 5
        && "DELETE"@.len() == 6 && "HEAD"@.len() == 4 && "OPTIONS"@.len() == 7 && "TRACE"@.len()
        == 5 && "CONNECT"@.len() == 7);
    assert("GET"@[0] == 'G' && "PUT"@[0] == 'P' && "POST"@[0] == 'P' && "PATCH"@[0] == 'P'
        && "DELETE"@[0] == 'D' && "HEAD"@[0] == 'H' && "OPTIONS"@[0] == 'O' && "TRACE"@[0] == 'T'
        && "CONNECT"@[0] == 'C');
    assert("PUT"@[1] == 'U' && "POST"@[1] == 'O' && "HEAD"@[1] == 'E' && "PATCH"@[1] == 'A'
        && "TRACE"@[1] == 'R' && "OPTIONS"@[1] == 'P' && "CONNECT"@[1] == 'O');
}

} // verus!
