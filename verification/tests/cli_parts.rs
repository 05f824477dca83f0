use speck::assets::{
    curl_flags, expected_checksum, initrd_url, kata_scratch_dir, kata_url, rootfs_urls,
    verify_rootfs_checksum, version_file_text,
};
use speck::commands::{
    exec_create_path, exec_start_path, no_containers_line, ps_header_line, ps_row_line,
    removed_line, stopped_line,
};
use speck::dashboard::{
    container_row, logs_path, on_key, on_list, row_cells, should_fetch_logs, status_bar_text,
    tail_lines, DashboardKey, Selection,
};
use speck::log_rotation::{rotation_moves, should_rotate, DAEMON_LOG_MAX_BYTES, DAEMON_LOG_MAX_FILES};
use speck::run::{
    container_path, detached_line, pull_path, run_env, run_ports, run_volume, tcp_port_key,
    PortError, VolumeError,
};

#[test]
fn asset_urls_name_the_pinned_releases() {
    let (image, sum) = rootfs_urls();
    assert_eq!(
        image,
        "https://github.com/wasilak/speck/releases/download/rootfs-0.2.0/speck-rootfs-0.2.0-moby-arm64.img.gz"
    );
    assert_eq!(
        sum,
        "https://github.com/wasilak/speck/releases/download/rootfs-0.2.0/speck-rootfs-0.2.0-moby-arm64.img.sha256"
    );
    assert_eq!(
        initrd_url(),
        "https://github.com/wasilak/speck/releases/download/initrd-0.1.0/speck-initrd-0.1.0-arm64.cpio.gz"
    );
    assert_eq!(
        kata_url(),
        "https://github.com/kata-containers/kata-containers/releases/download/3.32.0/kata-static-3.32.0-arm64.tar.zst"
    );
    assert_eq!(kata_scratch_dir(4242), "/tmp/speck-kata-assets-4242");
    assert_eq!(version_file_text("0.2.0"), "0.2.0\n");
}

#[test]
fn curl_is_quiet_without_a_terminal() {
    assert_eq!(curl_flags(true), vec!["-fL".to_string(), "--progress-bar".to_string()]);
    assert_eq!(curl_flags(false), vec!["-fsSL".to_string()]);
}

#[test]
fn checksum_file_gives_its_first_word() {
    assert_eq!(expected_checksum(b"abc123  speck-rootfs.img\n"), Some("abc123".to_string()));
    assert_eq!(expected_checksum(b"\n\t abc\n"), Some("abc".to_string()));
    assert_eq!(expected_checksum(b"   \n"), None);
    assert_eq!(expected_checksum(&[0xff, 0xfe]), None);
}

#[test]
fn rootfs_checksum_must_match() {
    assert_eq!(verify_rootfs_checksum(b"abc  f\n", "abc"), Ok(()));
    assert_eq!(
        verify_rootfs_checksum(b"abc  f\n", "def"),
        Err("rootfs SHA-256 mismatch (expected abc, got def)".to_string())
    );
    assert_eq!(verify_rootfs_checksum(b"", "abc"), Err("invalid checksum file".to_string()));
}

#[test]
fn dashboard_rows_shorten_ids_and_names() {
    let row = container_row("0123456789abcdef", Some("//web"), Some("nginx"), Some("running"), Some(7));
    assert_eq!(row.id, "0123456789ab");
    assert_eq!(row.name, "web");
    assert_eq!(row.image, "nginx");
    assert_eq!(row.status, "running");
    assert_eq!(row.created, 7);
    assert_eq!(
        row_cells(&row),
        vec!["0123456789ab".to_string(), "web".to_string(), "nginx".to_string(), "running".to_string()]
    );
    let bare = container_row("abc", None, None, None, None);
    assert_eq!(bare.name, "");
    assert_eq!(bare.created, 0);
}

#[test]
fn dashboard_keys_move_within_the_list() {
    let s = Selection { selected: 0, should_quit: false };
    assert_eq!(on_key(s, DashboardKey::Up, 3), s);
    let s1 = on_key(s, DashboardKey::Down, 3);
    assert_eq!(s1.selected, 1);
    let s2 = on_key(on_key(s1, DashboardKey::Down, 3), DashboardKey::Down, 3);
    assert_eq!(s2.selected, 2);
    assert_eq!(on_key(s, DashboardKey::Down, 0).selected, 0);
    assert!(on_key(s2, DashboardKey::Quit, 3).should_quit);
    assert_eq!(on_key(s2, DashboardKey::Other, 3), s2);
    assert_eq!(on_list(5, 2), 1);
    assert_eq!(on_list(5, 0), 5);
    assert_eq!(on_list(1, 2), 1);
}

#[test]
fn dashboard_log_tail_keeps_last_lines() {
    assert_eq!(tail_lines("a\r\nb\n"), vec!["a".to_string(), "b".to_string()]);
    assert_eq!(tail_lines(""), Vec::<String>::new());
    assert_eq!(tail_lines("a\n\nb"), vec!["a".to_string(), String::new(), "b".to_string()]);
    let many: String = (0..250).map(|i| format!("line{i}\n")).collect();
    let tail = tail_lines(&many);
    assert_eq!(tail.len(), 200);
    assert_eq!(tail[0], "line50");
    assert_eq!(tail[199], "line249");
}

#[test]
fn dashboard_text_and_paths() {
    assert_eq!(status_bar_text(3), " ↑↓ navigate  q quit  spk dashboard | 3 container(s)");
    assert_eq!(logs_path("abc"), "/containers/abc/logs?tail=50&stdout=true&stderr=true");
    assert!(should_fetch_logs("abc", ""));
    assert!(!should_fetch_logs("abc", "abc"));
    assert!(!should_fetch_logs("", "abc"));
}

#[test]
fn run_ports_parse_container_side() {
    let ports = run_ports(&vec!["8080:80".to_string(), "noport".to_string(), "9000:+090".to_string()]).unwrap();
    assert_eq!(ports, vec![(80, "8080".to_string()), (90, "9000".to_string())]);
    assert_eq!(run_ports(&vec!["8080:".to_string()]), Err(PortError::Empty));
    assert_eq!(run_ports(&vec!["8080:http".to_string()]), Err(PortError::InvalidDigit));
    assert_eq!(run_ports(&vec!["8080:70000".to_string()]), Err(PortError::TooLarge));
    assert_eq!(PortError::InvalidDigit.message(), "invalid digit found in string");
    assert_eq!(tcp_port_key(80), "80/tcp");
}

#[test]
fn run_volumes_are_checked() {
    assert_eq!(run_volume("/tmp:/data").unwrap(), Some("/tmp:/data".to_string()));
    assert_eq!(run_volume("novolume").unwrap(), None);
    match run_volume("/no/such/speck/dir:/data") {
        Err(e @ VolumeError::Missing(_)) => {
            assert_eq!(e.message(), "volume host path does not exist: /no/such/speck/dir")
        }
        other => panic!("unexpected {other:?}"),
    }
    match run_volume("/tmp/..:/data") {
        Err(e @ VolumeError::ParentReference(_)) => {
            assert_eq!(e.message(), "volume host path must not contain '..': /tmp/..")
        }
        other => panic!("unexpected {other:?}"),
    }
}

#[test]
fn run_request_text() {
    assert_eq!(pull_path("alpine"), "/images/create?fromImage=alpine");
    assert_eq!(
        run_env(&vec!["A=1".to_string()]),
        vec!["A=1".to_string(), "SPECK_CONTAINER=true".to_string()]
    );
    assert_eq!(container_path("abc", "/start"), "/containers/abc/start");
    assert_eq!(detached_line("0123456789abcdef"), "\x1b[38;2;0;255;255m0123456789ab\x1b[0m");
}

#[test]
fn ps_and_confirmation_text() {
    assert_eq!(no_containers_line(), "\x1b[38;2;0;255;255mNo containers\x1b[0m");
    assert!(ps_header_line().contains("CONTAINER ID"));
    assert_eq!(
        ps_row_line("abc", "nginx", "running", "now"),
        "\x1b[38;2;128;128;128mabc\x1b[0m  nginx  \x1b[38;2;0;255;0mrunning\x1b[0m  now"
    );
    assert_eq!(stopped_line("web"), "\x1b[38;2;0;255;255mContainer web stopped\x1b[0m");
    assert_eq!(removed_line("web"), "\x1b[38;2;0;255;255mContainer web removed\x1b[0m");
    assert_eq!(exec_create_path("web"), "/containers/web/exec");
    assert_eq!(exec_start_path("e1"), "/exec/e1/start");
}

#[test]
fn log_rotation_plan() {
    assert!(should_rotate(10, 5, 15));
    assert!(!should_rotate(10, 4, 15));
    assert!(should_rotate(u64::MAX, 1, 0));
    assert_eq!(DAEMON_LOG_MAX_BYTES, 10 * 1024 * 1024);
    assert_eq!(DAEMON_LOG_MAX_FILES, 5);
    let moves = rotation_moves("speck.log", 3);
    assert_eq!(
        moves,
        vec![
            ("speck.log.2".to_string(), "speck.log.3".to_string()),
            ("speck.log.1".to_string(), "speck.log.2".to_string()),
            ("speck.log".to_string(), "speck.log.1".to_string()),
        ]
    );
    assert_eq!(rotation_moves("x", 0), vec![("x".to_string(), "x.1".to_string())]);
}
