use speck::netconfig::NetworkConfig;
use speck::proxy::Ipv4;
use speck::containers::start_task_spec;
use speck::events::{EngineEvent, EventSink, LogLevel, NoopSink, VmState};
use speck::images::{image_ref_with_tag, registry_server, ImageRef};
use speck::theme::short_id;
use speck::theme::{format_header, format_id, format_status, GRAY, GREEN, NEON_VIOLET, RED, RESET, YELLOW};

#[test]
fn noop_sink_accepts_vm_state_changed() {
    let sink = NoopSink;
    sink.emit(EngineEvent::VmStateChanged { state: VmState::Running });
}

#[test]
fn noop_sink_used_as_trait_object() {
    fn accepts_sink(_sink: &dyn EventSink) {}
    let sink = NoopSink;
    accepts_sink(&sink);
}

#[test]
fn vm_state_partial_eq() {
    assert_eq!(VmState::Running, VmState::Running);
    assert_ne!(VmState::Error("x".into()), VmState::Running);
}

#[test]
fn log_variant_constructs() {
    let _event = EngineEvent::Log { level: LogLevel::Info, message: "hi".into() };
}

#[test]
fn test_image_ref_parse_with_tag() {
    let image = ImageRef::parse("alpine:3.20");
    assert_eq!(image.to_display_string(), "alpine:3.20");
}

#[test]
fn test_image_ref_parse_without_tag() {
    let image = ImageRef::parse("alpine");
    assert_eq!(image.to_display_string(), "alpine");
}

#[test]
fn image_tag_is_appended_only_when_absent() {
    assert_eq!(image_ref_with_tag("alpine", Some("3.20")), "alpine:3.20");
    assert_eq!(image_ref_with_tag("alpine:3.19", Some("3.20")), "alpine:3.19");
    assert_eq!(image_ref_with_tag("alpine", Some("")), "alpine");
    assert_eq!(image_ref_with_tag("alpine", None), "alpine");
}

#[test]
fn registry_server_defaults_to_docker_hub() {
    assert_eq!(registry_server("alpine"), "registry-1.docker.io");
    assert_eq!(registry_server("library/alpine:3"), "registry-1.docker.io");
    assert_eq!(registry_server("ghcr.io/org/app:1"), "ghcr.io");
    assert_eq!(registry_server("localhost:5000/app"), "localhost:5000");
    assert_eq!(registry_server("localhost/app"), "localhost");
}

#[test]
fn test_format_status_running() {
    let result = format_status("running");
    assert!(result.contains("running"));
    assert_eq!(result, format!("{GREEN}running{RESET}"));
}

#[test]
fn test_format_status_exited() {
    let result = format_status("exited");
    assert!(result.contains("exited"));
    assert_eq!(result, format!("{YELLOW}exited{RESET}"));
}

#[test]
fn format_status_colours_stopped_dead_and_leaves_others() {
    assert_eq!(format_status("stopped"), format!("{YELLOW}stopped{RESET}"));
    assert_eq!(format_status("dead"), format!("{RED}dead{RESET}"));
    assert_eq!(format_status("paused"), "paused");
    assert_eq!(format_header("ID"), format!("{NEON_VIOLET}ID{RESET}"));
}

#[test]
fn test_format_id_truncates() {
    let long_id = "abc123def456ghi789";
    let result = format_id(long_id);
    assert!(result.len() < long_id.len() + 30);
    assert_eq!(result, format!("{GRAY}abc123def456{RESET}"));
    assert_eq!(format_id("short"), format!("{GRAY}short{RESET}"));
}

#[test]
fn registry_auth_debug_masks_password() {
    let auth = speck::images::RegistryAuth {
        username: "user".into(),
        password: "secret".into(),
        server_address: "registry.example.com".into(),
    };

    let formatted = auth.debug_text();

    assert!(formatted.contains("[REDACTED]"));
    assert!(!formatted.contains("secret"));
}

#[test]
fn network_config_builder_falls_back_to_defaults() {
    let d = NetworkConfig::default();
    assert_eq!(d.subnet_prefix, 24);
    assert_eq!(d.gateway, Ipv4 { a: 172, b: 16, c: 0, d: 1 });
    assert_eq!(d.guest_ip, Ipv4 { a: 172, b: 16, c: 0, d: 2 });
    assert_eq!(d.mtu, 1500);
    assert_eq!(d.mac, [0x02, 0, 0, 0, 0, 0x01]);
    let c = NetworkConfig::builder().mtu(9000).guest_ip(Ipv4 { a: 10, b: 0, c: 0, d: 9 }).build();
    assert_eq!(c.mtu, 9000);
    assert_eq!(c.guest_ip, Ipv4 { a: 10, b: 0, c: 0, d: 9 });
    assert_eq!(c.gateway, d.gateway);
    assert_eq!(NetworkConfig::builder().mtu(576).build().mtu, 1500);
    let s = NetworkConfig::builder().subnet_prefix(16).mac([1, 2, 3, 4, 5, 6]).build();
    assert_eq!(s.subnet_prefix, 16);
    assert_eq!(s.mac, [1, 2, 3, 4, 5, 6]);
}

#[test]
fn start_task_spec_uses_tty_label_and_relay() {
    let labels = vec![("speck.tty".to_string(), "true".to_string())];
    let t = start_task_spec("abc", &labels, true);
    assert_eq!(t.container_id, "abc");
    assert!(t.terminal);
    assert_eq!(t.stdout_fifo, Some("/tmp/speck-logs/abc.stdout".to_string()));
    assert_eq!(t.stderr_fifo, Some("/tmp/speck-logs/abc.stderr".to_string()));
    let t = start_task_spec("abc", &vec![], false);
    assert!(!t.terminal);
    assert_eq!(t.stdout_fifo, None);
    assert_eq!(t.stderr_fifo, None);
}

#[test]
fn short_ids_keep_twelve_bytes() {
    assert_eq!(short_id("0123456789abcdef"), "0123456789ab");
    assert_eq!(short_id("abc"), "abc");
}
