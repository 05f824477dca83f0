//! The guest log relay protocol: the one-line requests the host sends over
//! vsock, the checks on what comes back, and the accumulation of log windows
//! until both streams are caught up.
use vstd::prelude::*;
use crate::text;

verus! {

/// Largest log window, in bytes, accepted from one relay read.
pub const MAX_RELAY_LOG_READ: usize = 16777216;

/// Log bytes of a container's two output streams.
#[derive(Clone, Debug)]
pub struct RelayLogs {
    pub stdout: Vec<u8>,
    pub stderr: Vec<u8>,
}

/// Why a relay exchange failed.
#[derive(Clone, Copy, Debug, PartialEq, Eq, Structural)]
pub enum RelayError {
    /// A read announced more than `MAX_RELAY_LOG_READ` bytes.
    ResponseTooLarge,
    /// The relay answered something other than `OK`.
    NotAcknowledged,
}

impl RelayError {
    /// The human-readable text of the error.
    pub fn message(&self) -> (r: String)
        ensures
            *self is ResponseTooLarge ==> r@ == "log relay response too large"@,
            *self is NotAcknowledged ==> r@ == "log relay returned error acknowledgment"@,
    {
        match self {
            RelayError::ResponseTooLarge => text::string_of("log relay response too large"),
            RelayError::NotAcknowledged => text::string_of("log relay returned error acknowledgment"),
        }
    }
}

/// The UTF-8 bytes of `s`.
fn utf8_bytes(s: &String) -> (r: Vec<u8>)
    ensures
        r@ == vstd::utf8::encode_utf8(s@),
{
    vstd::slice::slice_to_vec(s.as_str().as_bytes())
}

/// The request that sets up relaying for a container: `CREATE:<id>` and a
/// newline.
pub fn create_request(container_id: &str) -> (r: Vec<u8>)
    ensures
        r@ == vstd::utf8::encode_utf8("CREATE:"@ + container_id@ + "\n"@),
{
    let line = text::concat3("CREATE:", container_id, "\n");
    utf8_bytes(&line)
}

/// The request that ends relaying for a container: `CLOSE:<id>` and a
/// newline.
pub fn close_request(container_id: &str) -> (r: Vec<u8>)
    ensures
        r@ == vstd::utf8::encode_utf8("CLOSE:"@ + container_id@ + "\n"@),
{
    let line = text::concat3("CLOSE:", container_id, "\n");
    utf8_bytes(&line)
}

/// The request for the bytes of `stream` from `offset` on:
/// `READ:<stream>:<id>:<offset>` and a newline.
pub fn read_request(stream: &str, container_id: &str, offset: usize) -> (r: Vec<u8>)
    ensures
        r@ == vstd::utf8::encode_utf8(
            "READ:"@ + stream@ + ":"@ + container_id@ + ":"@ + text::decimal_text(offset as nat)
                + "\n"@,
        ),
{
    let mut line = text::concat3("READ:", stream, ":");
    text::push_str(&mut line, container_id);
    text::push_str(&mut line, ":");
    text::push_decimal(&mut line, offset as u64);
    text::push_str(&mut line, "\n");
    utf8_bytes(&line)
}

/// Checks the three-byte acknowledgment of a create or close request.
pub fn check_ack(ack: &[u8; 3]) -> (r: Result<(), RelayError>)
    ensures
        r is Ok <==> ack@ == seq![79u8, 75u8, 10u8],
        r matches Err(e) ==> e is NotAcknowledged,
{
    if ack[0] == 79 && ack[1] == 75 && ack[2] == 10 {
        assert(ack@ =~= seq![79u8, 75u8, 10u8]);
        Ok(())
    } else {
        Err(RelayError::NotAcknowledged)
    }
}

/// The payload length announced by a read response's big-endian prefix,
/// refused when it exceeds `MAX_RELAY_LOG_READ`.
pub fn response_len(prefix: &[u8; 4]) -> (r: Result<usize, RelayError>)
    ensures
        ({
            let n = prefix@[0] as int * 0x1000000 + prefix@[1] as int * 0x10000 + prefix@[2] as int
                * 0x100 + prefix@[3] as int;
            if n > MAX_RELAY_LOG_READ {
                r == Err::<usize, RelayError>(RelayError::ResponseTooLarge)
            } else {
                r == Ok::<usize, RelayError>(n as usize)
            }
        }),
{
    let n: u64 = (prefix[0] as u64) * 0x1000000 + (prefix[1] as u64) * 0x10000 + (prefix[2] as u64)
        * 0x100 + (prefix[3] as u64);
    if n > MAX_RELAY_LOG_READ as u64 {
        Err(RelayError::ResponseTooLarge)
    } else {
        Ok(n as usize)
    }
}

/// The logs gathered so far by a windowed read, with the offset of the next
/// window of each stream.
pub struct LogWindows {
    pub stdout: Vec<u8>,
    pub stderr: Vec<u8>,
    pub stdout_offset: usize,
    pub stderr_offset: usize,
}

impl LogWindows {
    /// Each offset is the number of bytes gathered from its stream.
    pub open spec fn wf(&self) -> bool {
        self.stdout_offset == self.stdout@.len() && self.stderr_offset == self.stderr@.len()
    }

    /// Nothing gathered yet; both windows start at offset 0.
    pub fn new() -> (r: Self)
        ensures
            r.wf(),
            r.stdout@.len() == 0 && r.stderr@.len() == 0,
    {
        LogWindows { stdout: Vec::new(), stderr: Vec::new(), stdout_offset: 0, stderr_offset: 0 }
    }

    /// Appends one window of each stream and moves the offsets past it.
    /// Returns whether both streams are caught up: each window came back
    /// shorter than `window` bytes.
    pub fn absorb(&mut self, chunk: RelayLogs, window: usize) -> (done: bool)
        requires
            old(self).wf(),
            old(self).stdout@.len() + chunk.stdout@.len() <= usize::MAX,
            old(self).stderr@.len() + chunk.stderr@.len() <= usize::MAX,
        ensures
            final(self).wf(),
            final(self).stdout@ == old(self).stdout@ + chunk.stdout@,
            final(self).stderr@ == old(self).stderr@ + chunk.stderr@,
            done == (chunk.stdout@.len() < window && chunk.stderr@.len() < window),
    {
        let stdout_done = chunk.stdout.len() < window;
        let stderr_done = chunk.stderr.len() < window;
        self.stdout_offset = self.stdout_offset + chunk.stdout.len();
        self.stderr_offset = self.stderr_offset + chunk.stderr.len();
        let mut out = chunk.stdout;
        let mut err = chunk.stderr;
        self.stdout.append(&mut out);
        self.stderr.append(&mut err);
        stdout_done && stderr_done
    }

    /// The gathered logs.
    pub fn into_logs(self) -> (r: RelayLogs)
        ensures
            r.stdout@ == self.stdout@,
            r.stderr@ == self.stderr@,
    {
        RelayLogs { stdout: self.stdout, stderr: self.stderr }
    }
}

/// Appends one window read with the relay's ceiling `MAX_RELAY_LOG_READ`;
/// returns whether both streams are caught up.
pub fn absorb_relay_window(windows: &mut LogWindows, chunk: RelayLogs) -> (done: bool)
    requires
        old(windows).wf(),
        old(windows).stdout@.len() + chunk.stdout@.len() <= usize::MAX,
        old(windows).stderr@.len() + chunk.stderr@.len() <= usize::MAX,
    ensures
        final(windows).wf(),
        final(windows).stdout@ == old(windows).stdout@ + chunk.stdout@,
        final(windows).stderr@ == old(windows).stderr@ + chunk.stderr@,
        done == (chunk.stdout@.len() < MAX_RELAY_LOG_READ && chunk.stderr@.len()
            < MAX_RELAY_LOG_READ),
{
    windows.absorb(chunk, MAX_RELAY_LOG_READ)
}

} // verus!
