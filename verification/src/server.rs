//! The handler contract between the protocol layer and application
//! logic, and the server value that holds the address to listen on.
//! The connection loop itself (accept, read, write) is a collaborator
//! outside this library.

use vstd::prelude::*;
use crate::request::{ParseError, Request};
use crate::response::Response;
use crate::status_code::StatusCode;

verus! {

/// A server: the address it is to listen on. The accept/read/write
/// loop around it belongs to the caller.
pub struct Server {
    addr: String,
}

impl View for Server {
    type V = Seq<char>;

    closed spec fn view(&self) -> Seq<char> {
        self.addr@
    }
}

impl Server {
    /// A server that will listen on the given address.
    pub fn new(addr: String) -> (r: Server)
        ensures
            r@ == addr@,
    {
        Server { addr }
    }

    /// The address this server listens on.
    pub fn addr(&self) -> (r: &str)
        ensures
            r@ == self@,
    {
        self.addr.as_str()
    }
}

/// The capability the connection loop dispatches to: one operation for
/// a parsed request, one for a parse failure. Both have overridable
/// defaults; the defaults answer 200 with a fixed placeholder body and
/// 400 with no body.
pub trait Handler {
    /// Produces the response to a successfully parsed request.
    fn handle_request(&mut self, request: &Request) -> (r: Response)
        default_ensures
            r@.status_code == StatusCode::Okay,
            r@.body == Some("<h1>Test</h1>"@),
    {
        Response::new(StatusCode::Okay, Some("<h1>Test</h1>".to_owned()))
    }

    /// Produces the response to a buffer that failed to parse.
    fn handle_bad_request(&mut self, error: &ParseError) -> (r: Response)
        default_ensures
            r@.status_code == StatusCode::BadRequest,
            r@.body is None,
    {
        Response::new(StatusCode::BadRequest, None)
    }
}

} // verus!
