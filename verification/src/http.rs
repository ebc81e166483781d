//! The few words of HTTP that the request logic speaks.

use vstd::prelude::*;

verus! {

/// The status of an answer.
#[derive(Clone, Copy, Debug, PartialEq, Eq, Structural)]
pub enum StatusCode {
    Success,
    BadRequest,
    NotFound,
    InternalServerError,
}

impl StatusCode {
    /// The number that stands for this status on the wire.
    pub open spec fn code(self) -> u16 {
        match self {
            StatusCode::Success => 200,
            StatusCode::BadRequest => 400,
            StatusCode::NotFound => 404,
            StatusCode::InternalServerError => 500,
        }
    }

    /// The number that stands for this status on the wire.
    pub fn as_u16(&self) -> (number: u16)
        ensures
            number == self.code(),
    {
        match self {
            StatusCode::Success => 200,
            StatusCode::BadRequest => 400,
            StatusCode::NotFound => 404,
            StatusCode::InternalServerError => 500,
        }
    }
}

/// A request that is turned down: the status, and a message for the reader.
#[derive(Debug)]
pub struct Rejection {
    pub status: StatusCode,
    pub message: String,
}

} // verus!
