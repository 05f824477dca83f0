use speck::containers::{
    container_id_for, exec_id_for, join_map_keys, parse_docker_bind, parse_signal,
    stopped_task, validate_container_name, validate_image_ref, DockerBind,
};
use speck::containers::{
    binds_from_label, binds_label, container_inspect_entry, container_list_entry,
    created_with_tty, kill_signal, listed, name_shape, plan_container_create, port_maps,
    relay_fifo_paths, running_ids, ContainerCreateBody, CreateQuery, HostConfig, KillQuery,
    ListQuery, NameProblem, PortBindingBody, RestartPolicy,
};
use speck::containerd::{ContainerInfo, TaskInfo, TaskStatus};
use speck::error::DockerApiError;

fn is_bad_request(err: &DockerApiError) -> bool {
    matches!(err, DockerApiError::BadRequest(_))
}

#[test]
fn test_containers_bind_rw_default() {
    let b = parse_docker_bind("/tmp:/app").expect("valid rw bind");
    assert_eq!(b.host_path, "/tmp");
    assert_eq!(b.container_path, "/app");
    assert!(!b.read_only, "no mode suffix → read-write");
}

#[test]
fn test_containers_bind_ro_explicit() {
    let b = parse_docker_bind("/tmp:/data:ro").expect("valid ro bind");
    assert!(b.read_only, ":ro suffix → read-only");
    assert_eq!(b.container_path, "/data");
}

#[test]
fn test_containers_bind_rw_explicit() {
    let b = parse_docker_bind("/tmp:/data:rw").expect("valid rw bind");
    assert!(!b.read_only, ":rw suffix → read-write");
}

#[test]
fn test_containers_bind_label_string_rw() {
    let b = DockerBind { host_path: "/tmp".into(), container_path: "/app".into(), read_only: false };
    assert_eq!(b.to_label_string(), "/tmp:/app");
}

#[test]
fn test_containers_bind_label_string_ro() {
    let b = DockerBind { host_path: "/tmp".into(), container_path: "/data".into(), read_only: true };
    assert_eq!(b.to_label_string(), "/tmp:/data:ro");
}

#[test]
fn test_containers_bind_empty_string_rejected() {
    let err = parse_docker_bind("").unwrap_err();
    assert!(is_bad_request(&err), "empty bind must be 400 bad request");
}

#[test]
fn test_containers_bind_empty_host_rejected() {
    let err = parse_docker_bind(":/app").unwrap_err();
    assert!(is_bad_request(&err), "empty host path must be 400 bad request");
}

#[test]
fn test_containers_bind_empty_container_rejected() {
    let err = parse_docker_bind("/tmp:").unwrap_err();
    assert!(is_bad_request(&err), "empty container path must be 400 bad request");
}

#[test]
fn test_containers_bind_relative_container_rejected() {
    let err = parse_docker_bind("/tmp:relative/path").unwrap_err();
    assert!(is_bad_request(&err), "relative container path must be 400 bad request");
}

#[test]
fn test_containers_bind_dotdot_container_rejected() {
    let err = parse_docker_bind("/tmp:/app/../etc").unwrap_err();
    assert!(is_bad_request(&err), "container path with .. must be 400 bad request");
}

#[test]
fn test_containers_bind_nonexistent_host_rejected() {
    let err = parse_docker_bind("/nonexistent/path/xyz:/app").unwrap_err();
    assert!(is_bad_request(&err), "non-existent host path must be 400 bad request");
}

#[test]
fn test_containers_bind_relative_existing_host_rejected() {
    let err = parse_docker_bind(".:/app").unwrap_err();
    assert!(is_bad_request(&err), "relative host path must be 400 bad request even when it exists");
}

#[test]
fn test_containers_bind_unknown_mode_rejected() {
    let err = parse_docker_bind("/tmp:/app:shared").unwrap_err();
    assert!(is_bad_request(&err), "unknown mount mode must be 400 bad request");
}

#[test]
fn test_containers_bind_volume_name_only_rejected() {
    let err = parse_docker_bind("myvolume:/app").unwrap_err();
    assert!(is_bad_request(&err), "anonymous volume (non-existent relative host) must be rejected");
}

#[test]
fn bind_errors_carry_exact_messages() {
    let msg = |s: &str| parse_docker_bind(s).unwrap_err().message();
    assert_eq!(msg(""), "bad request: bind mount must be in format 'host_path:container_path[:ro|:rw]'");
    assert_eq!(msg(":/app"), "bad request: bind host path cannot be empty");
    assert_eq!(msg("/tmp:"), "bad request: bind container path cannot be empty");
    assert_eq!(msg("/tmp:rel"), "bad request: bind container path must be absolute, got: rel");
    assert_eq!(msg("/tmp:/a/../b"), "bad request: bind container path must not contain '..': /a/../b");
    assert_eq!(msg("tmp:/a"), "bad request: bind host path must be absolute, got: tmp");
    assert_eq!(msg("/tmp:/a:shared"), "bad request: invalid bind mount mode 'shared'; expected 'ro' or 'rw'");
    assert_eq!(msg("/nonexistent/xyz:/a"), "bad request: bind host path does not exist: /nonexistent/xyz");
    assert_eq!(parse_docker_bind("").unwrap_err().status_code(), 400);
}

#[test]
fn test_binds_label_roundtrip_for_start_handler() {
    let raw = ["/tmp:/app", "/tmp:/data:ro"];
    let stored: String = raw
        .iter()
        .map(|s| parse_docker_bind(s).unwrap().to_label_string())
        .collect::<Vec<_>>()
        .join("\u{1f}");
    let reparsed: Vec<DockerBind> = stored
        .split('\u{1f}')
        .filter(|s| !s.is_empty())
        .filter_map(|s| parse_docker_bind(s).ok())
        .collect();
    assert_eq!(reparsed.len(), 2, "both binds must survive the round-trip");
    assert_eq!(reparsed[0].container_path, "/app");
    assert!(!reparsed[0].read_only, "first bind must be read-write");
    assert_eq!(reparsed[1].container_path, "/data");
    assert!(reparsed[1].read_only, "second bind must be read-only");
}

#[test]
fn container_names_follow_docker_rules() {
    assert!(validate_container_name("web-1.app_x").is_ok());
    assert_eq!(
        validate_container_name("").unwrap_err().message(),
        "bad request: container name cannot be empty"
    );
    assert_eq!(
        validate_container_name("-web").unwrap_err().message(),
        "bad request: container name must start with an ASCII letter or digit"
    );
    assert_eq!(
        validate_container_name("web/1").unwrap_err().message(),
        "bad request: container name contains invalid characters"
    );
}

#[test]
fn image_refs_refuse_blank_and_shell_metacharacters() {
    assert!(validate_image_ref("alpine:3.20").is_ok());
    assert_eq!(
        validate_image_ref("   ").unwrap_err().message(),
        "bad request: image reference cannot be empty"
    );
    assert_eq!(
        validate_image_ref("alpine;rm -rf /").unwrap_err().message(),
        "bad request: image reference contains shell metacharacters"
    );
}

#[test]
fn signals_map_to_numbers() {
    assert_eq!(parse_signal("SIGTERM").unwrap(), 15);
    assert_eq!(parse_signal(" term ").unwrap(), 15);
    assert_eq!(parse_signal("kill").unwrap(), 9);
    assert_eq!(parse_signal("2").unwrap(), 2);
    assert_eq!(
        parse_signal("hup").unwrap_err().message(),
        "bad request: unsupported signal HUP"
    );
}

#[test]
fn generated_ids_use_alnum_prefix_and_hex_time() {
    assert_eq!(container_id_for("docker.io/library/alpine:3.20", 255), "dockeriolibr-ff");
    assert_eq!(container_id_for("::", 16), "speck-10");
    assert_eq!(exec_id_for("abc", 4096), "abc-exec-1000");
}

#[test]
fn map_keys_join_with_commas() {
    assert_eq!(join_map_keys(&vec!["80/tcp".to_string(), "443/tcp".to_string()]), "80/tcp,443/tcp");
    assert_eq!(join_map_keys(&vec![]), "");
}

#[test]
fn stopped_task_is_stopped_with_zero_status() {
    let t = stopped_task("c1");
    assert_eq!(t.container_id, "c1");
    assert_eq!(t.status, TaskStatus::Stopped);
    assert_eq!(t.pid, 0);
    assert_eq!(t.exit_status, 0);
}

fn pair(k: &str, v: &str) -> (String, String) {
    (k.to_string(), v.to_string())
}

fn task(id: &str, status: TaskStatus) -> TaskInfo {
    TaskInfo { container_id: id.to_string(), exec_id: String::new(), pid: 9, status, exit_status: 3 }
}

fn body(image: &str) -> ContainerCreateBody {
    ContainerCreateBody {
        image: image.to_string(),
        cmd: Some(vec!["sleep".to_string(), "1".to_string()]),
        env: None,
        exposed_ports: Some(vec!["80/tcp".to_string(), "53/udp".to_string()]),
        host_config: Some(HostConfig {
            port_bindings: None,
            memory: Some(1024),
            cpu_shares: None,
            restart_policy: Some(RestartPolicy { name: Some("always".to_string()), maximum_retry_count: Some(3) }),
            binds: Some(vec!["/tmp:/data:ro".to_string()]),
        }),
        tty: Some(true),
    }
}

#[test]
fn create_plan_assembles_labels_and_settings() {
    let spec = plan_container_create(
        &CreateQuery { name: Some("web".to_string()) },
        &body("alpine"),
        Some("{\"80/tcp\":[]}".to_string()),
        "unused",
    )
    .ok()
    .unwrap();
    assert_eq!(spec.id, "web");
    assert_eq!(spec.image, "alpine");
    assert_eq!(spec.cmd, vec!["sleep".to_string(), "1".to_string()]);
    assert!(spec.env.is_empty());
    assert!(spec.tty);
    assert_eq!(spec.memory, Some(1024));
    assert_eq!(spec.cpu_shares, None);
    assert_eq!(spec.restart_policy, Some("always".to_string()));
    assert_eq!(spec.restart_maximum_retry_count, Some(3));
    assert_eq!(
        spec.labels,
        vec![
            pair("speck.docker.api_version", "1.44"),
            pair("speck.tty", "true"),
            pair("speck.exposed_ports", "80/tcp,53/udp"),
            pair("speck.port_bindings", "{\"80/tcp\":[]}"),
            pair("speck.binds", "/tmp:/data:ro"),
        ]
    );
}

#[test]
fn create_plan_uses_the_generated_id_and_refuses_bad_input() {
    let mut b = body("alpine");
    b.host_config = None;
    let spec = plan_container_create(&CreateQuery { name: None }, &b, None, "alpine-1f").ok().unwrap();
    assert_eq!(spec.id, "alpine-1f");
    assert_eq!(spec.labels.len(), 3);
    assert_eq!(spec.restart_policy, None);

    let err = plan_container_create(&CreateQuery { name: None }, &body(" "), None, "x").unwrap_err();
    assert_eq!(err.message(), "bad request: image reference cannot be empty");
    let err = plan_container_create(&CreateQuery { name: None }, &body("a;b"), None, "x").unwrap_err();
    assert_eq!(err.message(), "bad request: image reference contains shell metacharacters");
    let err = plan_container_create(&CreateQuery { name: Some("-bad".to_string()) }, &body("alpine"), None, "x")
        .unwrap_err();
    assert!(is_bad_request(&err));
    let mut bad_bind = body("alpine");
    bad_bind.host_config.as_mut().unwrap().binds = Some(vec!["relative:/x".to_string()]);
    assert!(is_bad_request(&plan_container_create(&CreateQuery { name: None }, &bad_bind, None, "x").unwrap_err()));
}

#[test]
fn container_list_filters_and_reports() {
    assert!(listed(ListQuery { all: false }, true));
    assert!(!listed(ListQuery { all: false }, false));
    assert!(listed(ListQuery { all: true }, false));
    let ids = running_ids(&vec![
        task("a", TaskStatus::Running),
        task("b", TaskStatus::Stopped),
        task("c", TaskStatus::Running),
    ]);
    assert_eq!(ids, vec!["a".to_string(), "c".to_string()]);
    let info = ContainerInfo {
        id: "a".to_string(),
        image: "alpine".to_string(),
        labels: vec![pair("speck.name", "web")],
        created_at_seconds: 12,
    };
    let e = container_list_entry(&info, true);
    assert_eq!(e.names, vec!["/web".to_string()]);
    assert_eq!((e.state.as_str(), e.status.as_str(), e.created), ("running", "Up", 12));
    let unnamed = ContainerInfo { labels: vec![], ..info };
    let e = container_list_entry(&unnamed, false);
    assert_eq!(e.names, vec!["/speck".to_string()]);
    assert_eq!((e.state.as_str(), e.status.as_str()), ("exited", "Exited"));
}

#[test]
fn container_inspect_shows_ports_with_default_host_ip() {
    let info = ContainerInfo { id: "a".to_string(), image: "alpine".to_string(), labels: vec![], created_at_seconds: 0 };
    let pb = Some(vec![(
        "80/tcp".to_string(),
        vec![
            PortBindingBody { host_ip: None, host_port: Some("8080".to_string()) },
            PortBindingBody { host_ip: Some("127.0.0.1".to_string()), host_port: None },
            PortBindingBody { host_ip: Some(String::new()), host_port: Some("1".to_string()) },
        ],
    )]);
    let e = container_inspect_entry(&info, &task("a", TaskStatus::Running), &pb);
    assert_eq!(e.name, "/speck");
    assert!(e.running);
    assert_eq!((e.status.as_str(), e.pid, e.exit_code), ("running", 9, 3));
    assert_eq!(
        e.ports,
        vec![(
            "80/tcp".to_string(),
            vec![
                pair("0.0.0.0", "8080"),
                pair("127.0.0.1", ""),
                pair("0.0.0.0", "1"),
            ]
        )]
    );
    let stopped = container_inspect_entry(&info, &task("a", TaskStatus::Stopped), &None);
    assert!(!stopped.running);
    assert_eq!(stopped.status, "exited");
    assert!(stopped.ports.is_empty());
}

#[test]
fn start_helpers_read_labels() {
    assert_eq!(
        relay_fifo_paths("c1"),
        ("/tmp/speck-logs/c1.stdout".to_string(), "/tmp/speck-logs/c1.stderr".to_string())
    );
    assert!(created_with_tty(&vec![pair("speck.tty", "true")]));
    assert!(!created_with_tty(&vec![pair("speck.tty", "false")]));
    assert!(!created_with_tty(&vec![]));
    let maps = port_maps(&vec![
        (
            "80/tcp".to_string(),
            vec![
                PortBindingBody { host_ip: None, host_port: Some("8080".to_string()) },
                PortBindingBody { host_ip: None, host_port: Some("x".to_string()) },
            ],
        ),
        ("bad/tcp".to_string(), vec![PortBindingBody { host_ip: None, host_port: Some("1".to_string()) }]),
        ("53".to_string(), vec![PortBindingBody { host_ip: None, host_port: Some("5353".to_string()) }]),
    ]);
    assert_eq!(maps, vec![(8080, 80), (5353, 53)]);
}

#[test]
fn binds_label_joins_and_rereads() {
    let label = binds_label(&vec!["/tmp:/app".to_string(), "/tmp:/data:ro".to_string()]).ok().unwrap();
    assert_eq!(label, "/tmp:/app\u{1f}/tmp:/data:ro");
    let binds = binds_from_label(&format!("{label}\u{1f}\u{1f}relative:/x"));
    assert_eq!(binds.len(), 2);
    assert_eq!((binds[0].host_path.as_str(), binds[0].container_path.as_str(), binds[0].read_only), ("/tmp", "/app", false));
    assert_eq!((binds[1].container_path.as_str(), binds[1].read_only), ("/data", true));
    assert!(binds_label(&vec!["/tmp:/app:xx".to_string()]).is_err());
}

#[test]
fn kill_defaults_to_sigterm() {
    assert_eq!(kill_signal(&KillQuery { signal: None }).ok(), Some(15));
    assert_eq!(kill_signal(&KillQuery { signal: Some(" sigkill ".to_string()) }).ok(), Some(9));
    assert!(is_bad_request(&kill_signal(&KillQuery { signal: Some("SIGFOO".to_string()) }).unwrap_err()));
}

#[test]
fn name_shapes() {
    assert!(name_shape("web-1").is_none());
    assert!(matches!(name_shape(""), Some(NameProblem::Empty)));
    assert!(matches!(name_shape("-x"), Some(NameProblem::BadStart)));
    assert!(matches!(name_shape("a b"), Some(NameProblem::BadChar)));
}
