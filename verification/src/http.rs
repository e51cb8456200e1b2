//! What the endpoints answer when they cannot do what was asked, and where the
//! helper listens.

use crate::text::{decimal, decimal_text, joined};
use vstd::prelude::*;
use vstd::string::*;

verus! {

/// The port that the helper listens on.
pub const PORT: u16 = 17891;

/// The largest engine that `POST /init` takes, in bytes.
pub const MAX_ENGINE_BYTES: usize = 52_428_800;

/// The HTTP statuses that the helper answers with, besides plain success.
#[derive(Debug, Clone, Copy, PartialEq, Eq, Structural)]
pub enum Status {
    Accepted,
    BadRequest,
    NotFound,
    PreconditionFailed,
    InternalServerError,
}

impl Status {
    /// The status as a number.
    pub open spec fn number(self) -> u16 {
        match self {
            Status::Accepted => 202,
            Status::BadRequest => 400,
            Status::NotFound => 404,
            Status::PreconditionFailed => 412,
            Status::InternalServerError => 500,
        }
    }

    /// The status as a number.
    pub fn code(&self) -> (r: u16)
        ensures
            r == self.number(),
    {
        match self {
            Status::Accepted => 202,
            Status::BadRequest => 400,
            Status::NotFound => 404,
            Status::PreconditionFailed => 412,
            Status::InternalServerError => 500,
        }
    }
}

/// A refusal: a status, and a message for its body.
#[derive(Debug)]
pub struct HttpError {
    pub status: Status,
    pub message: String,
}

impl View for HttpError {
    type V = (Status, Seq<char>);

    open spec fn view(&self) -> (Status, Seq<char>) {
        (self.status, self.message@)
    }
}

/// What is answered when a step of the helper's own work fails: what it was
/// doing, a colon, and the error.
pub fn internal_error(doing: &str, error: &str) -> (r: HttpError)
    ensures
        r@ == (Status::InternalServerError, doing@ + ": "@ + error@),
{
    let message = joined(joined(doing, ": ").as_str(), error);
    HttpError { status: Status::InternalServerError, message }
}

/// The local address with the given port.
pub fn listen_address(port: u16) -> (r: String)
    ensures
        r@ == "127.0.0.1:"@ + decimal(port as nat),
{
    joined("127.0.0.1:", decimal_text(port as u128).as_str())
}

/// A refusal stands for its own status and its own message.
pub proof fn law_refusal_is_its_status_and_message(error: HttpError)
    ensures
        error@.0 == error.status,
        error@.1 == error.message@,
{
}

/// Each status has its number in HTTP, and no two have the same.
pub proof fn law_statuses_are_those_of_http(a: Status, b: Status)
    ensures
        a.number() == b.number() <==> a == b,
        a == Status::Accepted <==> a.number() == 202,
        a == Status::BadRequest <==> a.number() == 400,
        a == Status::NotFound <==> a.number() == 404,
        a == Status::PreconditionFailed <==> a.number() == 412,
        a == Status::InternalServerError <==> a.number() == 500,
{
}

} // verus!
