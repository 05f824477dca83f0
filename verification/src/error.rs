//! The Docker API error kinds and their HTTP status codes.
use vstd::prelude::*;
use crate::text;

verus! {

/// A Docker API failure, carrying its message.
#[derive(Clone, Debug)]
pub enum DockerApiError {
    NotFound(String),
    Conflict(String),
    BadRequest(String),
    Internal(String),
}

impl DockerApiError {
    /// The HTTP status code that answers this error.
    pub fn status_code(&self) -> (r: u16)
        ensures
            self is NotFound ==> r == 404,
            self is Conflict ==> r == 409,
            self is BadRequest ==> r == 400,
            self is Internal ==> r == 500,
    {
        match self {
            DockerApiError::NotFound(_) => 404,
            DockerApiError::Conflict(_) => 409,
            DockerApiError::BadRequest(_) => 400,
            DockerApiError::Internal(_) => 500,
        }
    }

    /// The human-readable text of the error, prefixed with its kind.
    pub fn message(&self) -> (r: String)
        ensures
            self matches DockerApiError::NotFound(m) ==> r@ == "not found: "@ + m@,
            self matches DockerApiError::Conflict(m) ==> r@ == "conflict: "@ + m@,
            self matches DockerApiError::BadRequest(m) ==> r@ == "bad request: "@ + m@,
            self matches DockerApiError::Internal(m) ==> r@ == "internal error: "@ + m@,
    {
        match self {
            DockerApiError::NotFound(m) => text::concat2("not found: ", m.as_str()),
            DockerApiError::Conflict(m) => text::concat2("conflict: ", m.as_str()),
            DockerApiError::BadRequest(m) => text::concat2("bad request: ", m.as_str()),
            DockerApiError::Internal(m) => text::concat2("internal error: ", m.as_str()),
        }
    }
}

/// Whether `e` is a bad request carrying exactly the message `m`.
pub open spec fn is_bad_request(e: DockerApiError, m: Seq<char>) -> bool {
    e matches DockerApiError::BadRequest(x) && x@ == m
}

} // verus!
