//! The CLI's client of the Speck Docker API socket: where it connects and the
//! URI of each request.
use vstd::prelude::*;
use crate::text;

verus! {

/// A Docker API client bound to one Unix socket.
#[derive(Clone, Debug)]
pub struct DockerClient {
    sock_path: String,
}

impl DockerClient {
    /// The socket this client talks to.
    pub closed spec fn socket(&self) -> Seq<char> {
        self.sock_path@
    }

    /// A client of the socket at `sock_path`.
    pub fn new(sock_path: &str) -> (r: Self)
        ensures
            r.socket() == sock_path@,
    {
        DockerClient { sock_path: text::string_of(sock_path) }
    }

    /// The socket path.
    pub fn sock_path(&self) -> (r: &str)
        ensures
            r@ == self.socket(),
    {
        self.sock_path.as_str()
    }

    /// The URI of a request for `path`: the HTTP host is a placeholder, the
    /// connection goes to the socket.
    pub fn request_uri(&self, path: &str) -> (r: String)
        ensures
            r@ == "http://localhost"@ + path@,
    {
        text::concat2("http://localhost", path)
    }
}

} // verus!
