//! The BuildKit client's error and the endpoint through which it reaches
//! `buildkitd` over a Unix socket.
use vstd::prelude::*;
use crate::text;

verus! {

/// A failure talking to BuildKit.
#[derive(Clone, Debug, PartialEq, Eq)]
pub enum Error {
    Buildkit(String),
}

impl Error {
    /// The human-readable text of the error.
    pub fn message(&self) -> (r: String)
        ensures
            self matches Error::Buildkit(m) ==> r@ == "BuildKit client error: "@ + m@,
    {
        match self {
            Error::Buildkit(m) => text::concat2("BuildKit client error: ", m.as_str()),
        }
    }
}

/// The URI under which the gRPC channel addresses the socket at `path`; the
/// connector ignores it and dials the socket itself.
pub fn endpoint_uri(path: &str) -> (r: String)
    ensures
        r@ == "http://"@ + path@ + "/"@,
{
    text::concat3("http://", path, "/")
}

} // verus!
