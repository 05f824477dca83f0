use base64::Engine;
use speck::attach::{
    archive_body, archive_stat_header, attach_banner_bytes, log_response_frames, AttachQuery,
    LogsQuery,
};
use speck::containerd::{TaskInfo, TaskStatus};
use speck::buildkit::endpoint_uri;

fn task() -> TaskInfo {
    TaskInfo {
        container_id: "abc".to_string(),
        exec_id: String::new(),
        pid: 7,
        status: TaskStatus::Running,
        exit_status: 0,
    }
}

fn framed(stream: u8, payload: &[u8]) -> Vec<u8> {
    let mut v = vec![stream, 0, 0, 0];
    v.extend_from_slice(&(payload.len() as u32).to_be_bytes());
    v.extend_from_slice(payload);
    v
}

fn logs(stdout: bool, stderr: bool, timestamps: bool) -> LogsQuery {
    LogsQuery { stdout, stderr, follow: false, timestamps, tail: None }
}

#[test]
fn logs_frame_the_status_line_on_stdout() {
    let frames = log_response_frames(&task(), &logs(true, false, false));
    assert_eq!(frames, vec![framed(1, b"container abc status Running\n")]);
}

#[test]
fn logs_with_timestamps_and_stderr() {
    let frames = log_response_frames(&task(), &logs(true, true, true));
    assert_eq!(
        frames,
        vec![
            framed(1, b"1970-01-01T00:00:00Z container abc status Running\n"),
            framed(2, b""),
        ]
    );
}

#[test]
fn logs_of_stderr_only_carry_an_empty_stderr_frame() {
    let frames = log_response_frames(&task(), &logs(false, true, false));
    assert_eq!(frames, vec![framed(2, b"")]);
    let neither = log_response_frames(&task(), &logs(false, false, false));
    assert_eq!(neither, vec![framed(1, b"container abc status Running\n")]);
}

#[test]
fn attach_banner_is_raw_with_a_terminal() {
    let tty = AttachQuery { logs: false, stream: true, stdin: false, stdout: true, stderr: false, tty: true };
    assert_eq!(attach_banner_bytes(&task(), &tty), b"container abc status Running\n".to_vec());
    let err_only = AttachQuery { logs: false, stream: true, stdin: false, stdout: false, stderr: true, tty: false };
    assert_eq!(attach_banner_bytes(&task(), &err_only), framed(2, b"container abc status Running\n"));
    let both = AttachQuery { logs: false, stream: true, stdin: false, stdout: true, stderr: true, tty: false };
    assert_eq!(attach_banner_bytes(&task(), &both), framed(1, b"container abc status Running\n"));
}

#[test]
fn archive_stat_header_is_base64_json() {
    let header = archive_stat_header("/etc/hosts").unwrap();
    let expected = base64::engine::general_purpose::STANDARD.encode(
        "{\"linkTarget\":\"\",\"mode\":0,\"mtime\":\"1970-01-01T00:00:00Z\",\"name\":\"/etc/hosts\",\"size\":0}",
    );
    assert_eq!(header, expected);
}

#[test]
fn archive_body_names_container_and_path() {
    assert_eq!(archive_body("abc", "/tmp"), "tar archive for abc:/tmp\n");
}

#[test]
fn buildkit_endpoint_is_http_over_the_socket_path() {
    assert_eq!(endpoint_uri("/run/buildkit.sock"), "http:///run/buildkit.sock/");
}
