//! The HTTP status codes the response layer speaks of, with their numeric
//! codes and canonical reason phrases.

use vstd::prelude::*;
use vstd::string::StringExecFns;

verus! {

/// A response status.
#[derive(Clone, Copy, Debug, PartialEq, Eq, Structural, Hash)]
pub enum HttpStatus {
    Okay,
    Created,
    BadRequest,
    Unauthorized,
    NotFound,
    InternalServerError,
}

impl HttpStatus {
    /// The numeric status code.
    pub open spec fn spec_code(self) -> u16 {
        match self {
            HttpStatus::Okay => 200,
            HttpStatus::Created => 201,
            HttpStatus::BadRequest => 400,
            HttpStatus::Unauthorized => 401,
            HttpStatus::NotFound => 404,
            HttpStatus::InternalServerError => 500,
        }
    }

    pub fn code(&self) -> (c: u16)
        ensures
            c == self.spec_code(),
    {
        match self {
            HttpStatus::Okay => 200,
            HttpStatus::Created => 201,
            HttpStatus::BadRequest => 400,
            HttpStatus::Unauthorized => 401,
            HttpStatus::NotFound => 404,
            HttpStatus::InternalServerError => 500,
        }
    }

    /// The canonical reason phrase.
    pub open spec fn spec_reason(self) -> Seq<char> {
        match self {
            HttpStatus::Okay => "OK"@,
            HttpStatus::Created => "Created"@,
            HttpStatus::BadRequest => "Bad Request"@,
            HttpStatus::Unauthorized => "Unauthorized"@,
            HttpStatus::NotFound => "Not Found"@,
            HttpStatus::InternalServerError => "Internal Server Error"@,
        }
    }

    pub fn reason(&self) -> (r: String)
        ensures
            r@ == self.spec_reason(),
    {
        match self {
            HttpStatus::Okay => String::from_str("OK"),
            HttpStatus::Created => String::from_str("Created"),
            HttpStatus::BadRequest => String::from_str("Bad Request"),
            HttpStatus::Unauthorized => String::from_str("Unauthorized"),
            HttpStatus::NotFound => String::from_str("Not Found"),
            HttpStatus::InternalServerError => String::from_str("Internal Server Error"),
        }
    }
}

} // verus!
