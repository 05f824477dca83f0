//! Container output endpoints: the logs and attach streams, which report the
//! container's task status, and the archive endpoints.
use vstd::prelude::*;
use crate::codec;
use crate::containerd::{self, TaskInfo};
use crate::stream;
use crate::text;

verus! {

/// The query of `POST /containers/<id>/attach`.
#[derive(Clone, Copy, Debug, PartialEq, Eq, Structural)]
pub struct AttachQuery {
    pub logs: bool,
    pub stream: bool,
    pub stdin: bool,
    pub stdout: bool,
    pub stderr: bool,
    pub tty: bool,
}

/// The query of `GET /containers/<id>/logs`.
#[derive(Clone, Debug)]
pub struct LogsQuery {
    pub stdout: bool,
    pub stderr: bool,
    pub follow: bool,
    pub timestamps: bool,
    pub tail: Option<String>,
}

/// The query of the archive endpoints.
#[derive(Clone, Debug)]
pub struct ArchiveQuery {
    pub path: String,
}

/// The timestamp put before log lines when timestamps are asked for.
pub const EPOCH_TIMESTAMP: &'static str = "1970-01-01T00:00:00Z";

/// The log line of a task: its status line, after the epoch timestamp and a
/// space when timestamps are asked for.
pub open spec fn log_line(task: TaskInfo, timestamps: bool) -> Seq<char> {
    let line = "container "@ + task.container_id@ + " status "@ + containerd::status_name(
        task.status,
    ) + "\n"@;
    if timestamps {
        EPOCH_TIMESTAMP@ + " "@ + line
    } else {
        line
    }
}

/// The frames of a logs response: the log line on stdout unless only stderr
/// is asked for, and an empty stderr frame when stderr is asked for.
pub open spec fn log_frames(task: TaskInfo, query: LogsQuery) -> Seq<Seq<u8>> {
    let line = vstd::utf8::encode_utf8(log_line(task, query.timestamps));
    (if query.stdout || !query.stderr {
        seq![stream::frame_header(1, (line.len() % 0x1_0000_0000) as u32) + line]
    } else {
        Seq::empty()
    }) + (if query.stderr {
        seq![stream::frame_header(2, 0)]
    } else {
        Seq::empty()
    })
}

/// The views of a vector of byte vectors.
pub open spec fn byte_views(v: Seq<Vec<u8>>) -> Seq<Seq<u8>> {
    v.map_values(|b: Vec<u8>| b@)
}

fn utf8_bytes(s: &String) -> (r: Vec<u8>)
    ensures
        r@ == vstd::utf8::encode_utf8(s@),
{
    vstd::slice::slice_to_vec(s.as_str().as_bytes())
}

/// Renders the frames of a logs response for a container's task.
pub fn log_response_frames(task: &TaskInfo, query: &LogsQuery) -> (r: Vec<Vec<u8>>)
    ensures
        byte_views(r@) == log_frames(*task, *query),
{
    let status = containerd::task_log_line(task);
    let line = if query.timestamps {
        let mut l = text::concat2(EPOCH_TIMESTAMP, " ");
        text::push_str(&mut l, status.as_str());
        l
    } else {
        status
    };
    let bytes = utf8_bytes(&line);
    let mut frames: Vec<Vec<u8>> = Vec::new();
    if query.stdout || !query.stderr {
        frames.push(stream::encode_frame(1, bytes.as_slice()));
    }
    let ghost first = byte_views(frames@);
    if query.stderr {
        let empty: Vec<u8> = Vec::new();
        let e = stream::encode_frame(2, empty.as_slice());
        assert(e@ =~= stream::frame_header(2, 0));
        frames.push(e);
    }
    assert(byte_views(frames@) =~= log_frames(*task, *query));
    frames
}

/// What an attach stream writes first: the task's status line, raw with a
/// terminal, else framed on stderr when only stderr is attached and on
/// stdout otherwise.
pub open spec fn attach_banner(task: TaskInfo, query: AttachQuery) -> Seq<u8> {
    let line = vstd::utf8::encode_utf8(log_line(task, false));
    if query.tty {
        line
    } else {
        stream::frame_header(
            if query.stderr && !query.stdout {
                2
            } else {
                1
            },
            (line.len() % 0x1_0000_0000) as u32,
        ) + line
    }
}

/// Renders the first bytes of an attach stream.
pub fn attach_banner_bytes(task: &TaskInfo, query: &AttachQuery) -> (r: Vec<u8>)
    ensures
        r@ == attach_banner(*task, *query),
{
    let line = containerd::task_log_line(task);
    let bytes = utf8_bytes(&line);
    if query.tty {
        bytes
    } else {
        let stream_type: u8 = if query.stderr && !query.stdout {
            2
        } else {
            1
        };
        stream::encode_frame(stream_type, bytes.as_slice())
    }
}

/// The stat of an archive path, as the JSON object of the
/// `X-Docker-Container-Path-Stat` header: an empty entry of that name.
pub open spec fn archive_stat(path: Seq<char>) -> Seq<char> {
    "{\"linkTarget\":\"\",\"mode\":0,\"mtime\":\"1970-01-01T00:00:00Z\",\"name\":"@
        + codec::json_string_literal(path) + ",\"size\":0}"@
}

/// The `X-Docker-Container-Path-Stat` header of an archive request: the stat
/// JSON in standard base64; `None` only when that would not fit in memory.
pub fn archive_stat_header(path: &str) -> (r: Option<String>)
    ensures
        ({
            let bytes = vstd::utf8::encode_utf8(archive_stat(path@));
            if codec::base64_fits(bytes.len()) {
                r matches Some(t) && t@ == codec::base64_standard_encoding(bytes)
            } else {
                r is None
            }
        }),
{
    let mut json = text::string_of(
        "{\"linkTarget\":\"\",\"mode\":0,\"mtime\":\"1970-01-01T00:00:00Z\",\"name\":",
    );
    text::push_str(&mut json, codec::json_string(path).as_str());
    text::push_str(&mut json, ",\"size\":0}");
    codec::base64_encode(json.as_str().as_bytes())
}

/// The body of an archive download: a line naming the container and path.
pub fn archive_body(id: &str, path: &str) -> (r: String)
    ensures
        r@ == "tar archive for "@ + id@ + ":"@ + path@ + "\n"@,
{
    let mut r = text::concat3("tar archive for ", id, ":");
    text::push_str(&mut r, path);
    text::push_str(&mut r, "\n");
    r
}

} // verus!
