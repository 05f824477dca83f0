use speck::events::VmState;
use speck::middleware::{restart_check, strip_version_prefix, RestartGate};
use speck::stream::{decode_frame, decode_frame_header, encode_frame};

#[test]
fn encode_stdout_hello() {
    let frame = encode_frame(1, b"hello");
    assert_eq!(frame[0], 1);
    assert_eq!(&frame[1..4], &[0, 0, 0]);
    assert_eq!(&frame[4..8], &5_u32.to_be_bytes());
    assert_eq!(&frame[8..], b"hello");
}

#[test]
fn decode_round_trip_stdin() {
    let frame = encode_frame(0, b"cmd");
    assert_eq!(decode_frame(&frame), Some((0, b"cmd".to_vec())));
}

#[test]
fn decode_round_trip_stderr() {
    let frame = encode_frame(2, b"err message");
    assert_eq!(decode_frame(&frame), Some((2, b"err message".to_vec())));
}

#[test]
fn decode_frame_needs_whole_frame() {
    let frame = encode_frame(1, b"hello");
    assert_eq!(decode_frame(&frame[..7]), None);
    assert_eq!(decode_frame(&frame[..12]), None);
    let mut two = frame.clone();
    two.extend_from_slice(&encode_frame(2, b"x"));
    assert_eq!(decode_frame(&two), Some((1, b"hello".to_vec())));
    let header: [u8; 8] = [2, 0, 0, 0, 0, 1, 0, 3];
    assert_eq!(decode_frame_header(&header), (2, 65539));
}

#[test]
fn strips_minor_version() {
    assert_eq!(strip_version_prefix("/v1.44/info"), Some("/info"));
}

#[test]
fn strips_major_only_version() {
    assert_eq!(strip_version_prefix("/v1/containers/json"), Some("/containers/json"));
}

#[test]
fn strips_patch_version() {
    assert_eq!(strip_version_prefix("/v1.44.0/images/json"), Some("/images/json"));
}

#[test]
fn passes_through_unversioned() {
    assert_eq!(strip_version_prefix("/info"), None);
    assert_eq!(strip_version_prefix("/_ping"), None);
}

#[test]
fn does_not_strip_non_numeric() {
    assert_eq!(strip_version_prefix("/vbeta/info"), None);
    assert_eq!(strip_version_prefix("/v1.x/info"), None);
}

#[test]
fn preserves_trailing_path() {
    assert_eq!(
        strip_version_prefix("/v1.44/containers/abc123/json"),
        Some("/containers/abc123/json")
    );
}

#[test]
fn middleware_returns_503_when_restarting() {
    match restart_check(&VmState::Restarting) {
        RestartGate::Reject { status, .. } => assert_eq!(status, 503),
        RestartGate::PassThrough => panic!("a restarting VM must not pass requests"),
    }
}

#[test]
fn middleware_includes_retry_after_header() {
    assert_eq!(
        restart_check(&VmState::Restarting),
        RestartGate::Reject { status: 503, retry_after_secs: 5 }
    );
}

#[test]
fn middleware_passes_through_when_running() {
    assert_eq!(restart_check(&VmState::Running), RestartGate::PassThrough);
    assert_eq!(restart_check(&VmState::Stopped), RestartGate::PassThrough);
    assert_eq!(restart_check(&VmState::Error("x".into())), RestartGate::PassThrough);
}

/// A guest that hands out at most ten bytes of each stream per read.
struct SimulatedGuest {
    stdout: Vec<u8>,
    stderr: Vec<u8>,
}

impl SimulatedGuest {
    fn read(&self, so: usize, eo: usize) -> speck::log_relay::RelayLogs {
        let max_chunk = 10;
        speck::log_relay::RelayLogs {
            stdout: self.stdout[so..].iter().take(max_chunk).copied().collect(),
            stderr: self.stderr[eo..].iter().take(max_chunk).copied().collect(),
        }
    }
}

#[test]
fn test_read_logs_windowed_terminates() {
    let large_stdout: Vec<u8> = (0..25).map(|i| b'a' + i).collect();
    let large_stderr: Vec<u8> = (0..20).map(|i| b'A' + i).collect();
    let guest = SimulatedGuest { stdout: large_stdout.clone(), stderr: large_stderr.clone() };
    let mut windows = speck::log_relay::LogWindows::new();
    loop {
        let chunk = guest.read(windows.stdout_offset, windows.stderr_offset);
        if windows.absorb(chunk, 10) {
            break;
        }
    }
    let logs = windows.into_logs();
    assert_eq!(logs.stdout.len(), 25, "should have collected all stdout bytes");
    assert_eq!(logs.stderr.len(), 20, "should have collected all stderr bytes");
    assert_eq!(logs.stdout, large_stdout);
    assert_eq!(logs.stderr, large_stderr);
}

#[test]
fn test_read_logs_windowed_small_read_no_loop() {
    let guest = SimulatedGuest { stdout: b"hello world".to_vec(), stderr: Vec::new() };
    let mut windows = speck::log_relay::LogWindows::new();
    let mut rounds = 0;
    loop {
        let chunk = guest.read(windows.stdout_offset, windows.stderr_offset);
        rounds += 1;
        if windows.absorb(chunk, 10) {
            break;
        }
    }
    let logs = windows.into_logs();
    assert_eq!(logs.stdout.len(), 11, "should have collected all 11 bytes");
    assert_eq!(rounds, 2);
}
