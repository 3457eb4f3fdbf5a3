//! A minimal HTTP/1.1 wire-protocol library.
//!
//! The library parses a raw byte buffer into a structured request
//! (method, path, optional query string), parses query strings into a
//! multi-valued key/value mapping, and serializes structured responses
//! back into wire text. Every function carries a contract that pins its
//! behaviour down over sequence models of the data.

pub mod method;
pub mod query_string;
pub mod request;
pub mod response;
pub mod server;
pub mod status_code;
pub mod text;
