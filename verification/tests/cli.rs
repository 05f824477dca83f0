use speck::cli::{env_shell, should_daemonize, InitArgs};
use speck::shell::EnvShell;
use speck::cli::{logs_mode, LogsArgs, LogsMode};
use speck::config::EffectiveVmConfig;
use speck::theme::{GREEN, RESET, YELLOW};

#[test]
fn env_args_exposes_shell_flag_with_supported_values() {
    assert_eq!(env_shell("posix"), Ok(EnvShell::Posix));
    assert_eq!(env_shell("fish"), Ok(EnvShell::Fish));
    assert_eq!(
        env_shell("tcsh"),
        Err("error: unsupported shell `tcsh` (expected `posix` or `fish`)".to_string())
    );
}

#[test]
fn main_daemonizes_when_not_foreground() {
    assert!(should_daemonize(false, false));
    assert!(!should_daemonize(true, false));
    assert!(!should_daemonize(false, true));
}

#[test]
fn init_args_has_set_docker_host_flag() {
    let args = InitArgs { set_docker_host: true, shell: None };
    assert!(args.set_docker_host);
    let args = InitArgs { set_docker_host: false, shell: Some("zsh".to_string()) };
    assert!(!args.set_docker_host);
}

#[test]
fn init_requires_set_docker_host_flag() {
    let opted_in = InitArgs { set_docker_host: true, shell: Some("bash".to_string()) };
    let plain = InitArgs { set_docker_host: false, shell: None };
    assert!(opted_in.set_docker_host);
    assert!(!plain.set_docker_host);
}

#[test]
fn unknown_config_keys_warn_by_path() {
    assert_eq!(
        speck::cli::unknown_key_warning("vm.gpu"),
        "warning: unknown config key: vm.gpu"
    );
}

#[test]
fn logs_mode_prefers_tail_then_follow() {
    assert!(matches!(logs_mode(LogsArgs { tail: true, follow: true }), LogsMode::Tail));
    assert!(matches!(logs_mode(LogsArgs { tail: false, follow: true }), LogsMode::Follow));
    assert!(matches!(logs_mode(LogsArgs { tail: false, follow: false }), LogsMode::Full));
}

#[test]
fn tail_starts_twenty_lines_from_the_end() {
    assert_eq!(speck::cli::tail_start(5), 0);
    assert_eq!(speck::cli::tail_start(20), 0);
    assert_eq!(speck::cli::tail_start(25), 5);
}

#[test]
fn missing_log_points_at_start() {
    assert_eq!(
        speck::cli::missing_log_message("/x/speckd.log"),
        "no log file found at /x/speckd.log \u{2014} start Speck first"
    );
}

#[test]
fn status_report_lists_pid_and_resources() {
    let running = speck::cli::render_status(
        true,
        Some(42),
        Some(EffectiveVmConfig { cpus: 4, memory_mb: 8192, disk_gb: 64 }),
    );
    assert_eq!(
        running,
        format!(
            "Speck daemon: {GREEN}running{RESET}\n  PID: 42\n  CPUs: 4  Memory: 8192 MiB  Disk: 64 GiB\n"
        )
    );
    let stopped = speck::cli::render_status(false, None, None);
    assert_eq!(stopped, format!("Speck daemon: {YELLOW}stopped{RESET}\n"));
}
