//! Response status codes: a closed set of four codes, each with a fixed
//! numeric value and reason phrase.

use vstd::prelude::*;

verus! {

/// A response status code.
#[derive(Clone, Copy, PartialEq, Eq, Structural, Debug)]
pub enum StatusCode {
    Okay,
    BadRequest,
    NotFound,
    InternalServerError,
}

/// The numeric value of a status code.
pub open spec fn status_value(sc: StatusCode) -> u16 {
    match sc {
        StatusCode::Okay => 200,
        StatusCode::BadRequest => 400,
        StatusCode::NotFound => 404,
        StatusCode::InternalServerError => 500,
    }
}

/// The decimal digits of a status code, as written on the wire.
pub open spec fn status_digits(sc: StatusCode) -> Seq<char> {
    match sc {
        StatusCode::Okay => "200"@,
        StatusCode::BadRequest => "400"@,
        StatusCode::NotFound => "404"@,
        StatusCode::InternalServerError => "500"@,
    }
}

/// The reason phrase paired with a status code.
pub open spec fn status_reason(sc: StatusCode) -> Seq<char> {
    match sc {
        StatusCode::Okay => "Ok"@,
        StatusCode::BadRequest => "Bad Request"@,
        StatusCode::NotFound => "Not Found"@,
        StatusCode::InternalServerError => "Internal Server Error"@,
    }
}

impl StatusCode {
    /// The numeric value of this status code.
    pub fn code(&self) -> (r: u16)
        ensures
            r == status_value(*self),
    {
        match self {
            StatusCode::Okay => 200,
            StatusCode::BadRequest => 400,
            StatusCode::NotFound => 404,
            StatusCode::InternalServerError => 500,
        }
    }

    /// The decimal digits of this status code, as written on the wire.
    pub fn code_str(&self) -> (r: &'static str)
        ensures
            r@ == status_digits(*self),
    {
        match self {
            StatusCode::Okay => "200",
            StatusCode::BadRequest => "400",
            StatusCode::NotFound => "404",
            StatusCode::InternalServerError => "500",
        }
    }

    /// The reason phrase paired with this status code.
    pub fn reason_phrase(&self) -> (r: &'static str)
        ensures
            r@ == status_reason(*self),
    {
        match self {
            StatusCode::Okay => "Ok",
            StatusCode::BadRequest => "Bad Request",
            StatusCode::NotFound => "Not Found",
            StatusCode::InternalServerError => "Internal Server Error",
        }
    }
}

} // verus!
