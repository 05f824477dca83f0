//! Queries of the host that the logic makes in passing: whether a path
//! exists, and the wall-clock time. Nothing is known of their answers.
use vstd::prelude::*;

verus! {

/// Whether a file or directory exists at `path` (`std::path::Path::exists`).
/// The answer depends on the disk, so nothing is stated of it.
#[verifier::external_body]
pub(crate) fn path_exists(path: &str) -> bool {
    std::path::Path::new(path).exists()
}

/// Nanoseconds since the Unix epoch, or 0 when the clock reads earlier
/// (`UNIX_EPOCH.elapsed()`, that is `SystemTime::elapsed`). The clock is
/// read, so nothing is stated of it.
#[verifier::external_body]
pub(crate) fn now_nanos() -> u128 {
    match std::time::UNIX_EPOCH.elapsed() {
        Ok(d) => d.as_nanos(),
        Err(_) => 0,
    }
}

} // verus!
