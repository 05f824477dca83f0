use speck::lifecycle::{runtime_paths, API_SOCKET_MODE, NO_PARENT_MESSAGE, RUNTIME_DIR_MODE};
use speck::lifecycle::{
    bootout_args, check_restart_step, container_stop_paths, control_socket_path, first_stop_method,
    invalid_pid_message, kill_args, kill_failed_message, kill_outcome, needs_pid_fallback,
    parse_pid_contents, pid_file_missing_message, pid_file_path, restart_up_args,
    shutdown_cleanup_paths, stop_wait_step, KillOutcome, RestartStep, StopMethod, StopWait,
    CONTROL_SOCKET, CONTROL_SOCKET_MODE, LIVENESS_TIMEOUT_SECS, STOP_POLL_MS, STOP_WAIT_SECS,
};
use speck::up::{launchd_domain, launchd_plist_path};

#[test]
fn down_connects_to_control_socket() {
    assert_eq!(control_socket_path("/Users/me/.speck"), "/Users/me/.speck/run/control.sock");
    assert_eq!(first_stop_method(true), StopMethod::Bootout);
}

#[test]
fn down_uses_launchctl_bootout() {
    let domain = launchd_domain(b"501\n").unwrap();
    assert_eq!(domain, "gui/501");
    assert_eq!(bootout_args(&domain), vec!["bootout".to_string(), "gui/501/io.speck.vm".to_string()]);
}

#[test]
fn down_has_pid_file_fallback() {
    assert_eq!(pid_file_path("/h"), "/h/run/speck.pid");
    assert!(needs_pid_fallback(false));
    assert!(!needs_pid_fallback(true));
    assert_eq!(kill_args("4242"), vec!["-TERM".to_string(), "4242".to_string()]);
}

#[test]
fn down_removes_plist_on_shutdown() {
    assert_eq!(
        launchd_plist_path("/Users/me"),
        "/Users/me/Library/LaunchAgents/io.speck.vm.plist"
    );
}

#[test]
fn down_polls_for_socket_disappearance() {
    assert_eq!(STOP_WAIT_SECS, 30);
    assert_eq!(STOP_POLL_MS, 200);
    assert_eq!(stop_wait_step(false, 0), StopWait::Stopped);
    assert_eq!(stop_wait_step(true, 29_999), StopWait::Poll);
    assert_eq!(stop_wait_step(true, 30_000), StopWait::TimedOut);
}

#[test]
fn kill_via_pid_file_handles_esrch() {
    assert_eq!(kill_outcome(true, ""), KillOutcome::Sent);
    assert_eq!(kill_outcome(false, "kill: (4242) - No such process"), KillOutcome::StalePid);
    assert_eq!(kill_outcome(false, "kill: (1) - Operation not permitted"), KillOutcome::Failed);
    assert_eq!(kill_failed_message("1"), "kill -TERM 1 failed");
}

#[test]
fn down_handles_control_socket_gone() {
    assert_eq!(first_stop_method(false), StopMethod::PidFile);
}

#[test]
fn pid_file_contents_are_trimmed_and_checked() {
    assert_eq!(parse_pid_contents(" 4242\n"), Some("4242".to_string()));
    assert_eq!(parse_pid_contents("abc"), None);
    assert_eq!(parse_pid_contents("4294967296"), None);
    assert_eq!(parse_pid_contents(""), None);
    assert_eq!(invalid_pid_message("/h/run/speck.pid", "abc"), "invalid pid in /h/run/speck.pid: \"abc\"");
    assert_eq!(
        pid_file_missing_message("/h/run/speck.pid"),
        "pid file not found at /h/run/speck.pid — cannot stop daemon"
    );
}

#[test]
fn restart_runs_down_then_up() {
    assert_eq!(
        restart_up_args(),
        vec!["up".to_string(), "--wait".to_string(), "120".to_string()]
    );
}

#[test]
fn restart_checks_down_exit_code() {
    assert_eq!(check_restart_step(RestartStep::Down, true), Ok(()));
    assert_eq!(check_restart_step(RestartStep::Down, false), Err("spk down failed".to_string()));
}

#[test]
fn restart_checks_up_exit_code() {
    assert_eq!(check_restart_step(RestartStep::Up, true), Ok(()));
    assert_eq!(check_restart_step(RestartStep::Up, false), Err("spk up failed".to_string()));
}

#[test]
fn restart_checks_daemon_alive() {
    assert_eq!(control_socket_path("/h"), "/h/run/control.sock");
    assert_eq!(LIVENESS_TIMEOUT_SECS, 2);
}

#[test]
fn run_up_binds_control_socket_with_0600() {
    assert_eq!(CONTROL_SOCKET, "run/control.sock");
    assert_eq!(CONTROL_SOCKET_MODE, 0o600);
}

#[test]
fn shutdown_gracefully_stops_containers_before_vm() {
    assert_eq!(
        container_stop_paths(&vec!["a1".to_string(), "b2".to_string()]),
        vec!["/containers/a1/stop".to_string(), "/containers/b2/stop".to_string()]
    );
}

#[test]
fn shutdown_gracefully_removes_control_sock() {
    assert_eq!(
        shutdown_cleanup_paths("/h", "/h/speck.sock"),
        vec![
            "/h/speck.sock".to_string(),
            "/h/run/speck.pid".to_string(),
            "/h/run/control.sock".to_string()
        ]
    );
}

#[test]
fn daemon_runtime_paths_sit_beside_the_socket() {
    assert_eq!(
        runtime_paths("/Users/me/.speck"),
        ("/Users/me/.speck/run".to_string(), "/Users/me/.speck/run/dockerd-proxy.sock".to_string())
    );
    assert_eq!(RUNTIME_DIR_MODE, 0o700);
    assert_eq!(API_SOCKET_MODE, 0o600);
    assert_eq!(NO_PARENT_MESSAGE, "sock_path has no parent directory");
}
