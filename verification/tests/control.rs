use speck::control::{
    control_step, lease_expired, parse_control_command, parse_pid, ping_request,
    prepare_restart_request, restart_acknowledged, ControlCommand, RESTART_LEASE_SECS,
};
use speck::events::VmState;
use speck::middleware::{restart_check, RestartGate};

#[test]
fn control_socket_handles_prepare_restart() {
    let cmd = parse_control_command(&prepare_restart_request());
    assert_eq!(cmd, ControlCommand::PrepareRestart);
    let out = control_step(VmState::Running, cmd);
    assert_eq!(out.state, VmState::Restarting);
    assert_eq!(out.reply, b"OK\n".to_vec());
}

#[test]
fn restarting_state_has_timeout_lease() {
    let out = control_step(VmState::Running, ControlCommand::PrepareRestart);
    assert_eq!(out.lease_secs, Some(60));
    assert_eq!(RESTART_LEASE_SECS, 60);
    assert_eq!(lease_expired(VmState::Restarting), VmState::Running);
    assert_eq!(lease_expired(VmState::Stopping), VmState::Stopping);
}

#[test]
fn restart_sends_prepare_restart() {
    assert_eq!(prepare_restart_request(), b"PREPARE_RESTART\n".to_vec());
}

#[test]
fn restart_acknowledges_ok_response() {
    assert!(restart_acknowledged(b"OK\n"));
    assert!(restart_acknowledged(b"OK"));
    assert!(!restart_acknowledged(b"PONG\n"));
    assert!(!restart_acknowledged(b""));
    assert!(!restart_acknowledged(&[0xff, b'O', b'K']));
}

#[test]
fn status_probe_writes_ping_before_read() {
    assert_eq!(ping_request(), b"PING\n".to_vec());
    let cmd = parse_control_command(&ping_request());
    assert_eq!(cmd, ControlCommand::Other);
    let out = control_step(VmState::Running, cmd);
    assert_eq!(out.reply, b"PONG\n".to_vec());
    assert_eq!(out.state, VmState::Running);
    assert_eq!(out.lease_secs, None);
}

#[test]
fn control_commands_are_trimmed_and_exact() {
    assert_eq!(parse_control_command(b"  PREPARE_RESTART \r\n"), ControlCommand::PrepareRestart);
    assert_eq!(parse_control_command(b"PREPARE_RESTART_NOW\n"), ControlCommand::Other);
    assert_eq!(parse_control_command(b"prepare_restart\n"), ControlCommand::Other);
    assert_eq!(parse_control_command(&[0xc3, 0x28]), ControlCommand::Other);
    assert_eq!(parse_control_command(b""), ControlCommand::Other);
}

#[test]
fn restart_announcement_closes_api_until_lease_ends() {
    let out = control_step(VmState::Running, ControlCommand::PrepareRestart);
    assert_eq!(
        restart_check(&out.state),
        RestartGate::Reject { status: 503, retry_after_secs: 5 }
    );
    assert_eq!(restart_check(&lease_expired(out.state)), RestartGate::PassThrough);
}

#[test]
fn status_reads_pid_from_run_directory() {
    assert_eq!(parse_pid("4242\n"), Some(4242));
    assert_eq!(parse_pid("  17  "), Some(17));
    assert_eq!(parse_pid("4294967296\n"), None);
    assert_eq!(parse_pid("abc"), None);
    assert_eq!(parse_pid(""), None);
}
