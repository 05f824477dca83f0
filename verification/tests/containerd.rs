use speck::containerd::{
    container_labels, container_oci_spec, container_to_info, get_label, grpc_error,
    image_to_record, no_committed_snapshot_error, normalize_reference, parent_snapshot_key,
    process_env, process_to_task_info, status_from_code, task_log_line, top_committed_snapshot,
    ContainerCreateSpec, GrpcCode, SnapshotInfo, TaskStatus, DEFAULT_PATH_ENV, OCI_SPEC_HEAD,
    SNAPSHOT_KEY_LABEL,
};
use speck::error::DockerApiError;

fn pair(k: &str, v: &str) -> (String, String) {
    (k.to_string(), v.to_string())
}

fn snap(name: &str, parent: &str, committed: bool) -> SnapshotInfo {
    SnapshotInfo { name: name.to_string(), parent: parent.to_string(), committed }
}

fn spec() -> ContainerCreateSpec {
    ContainerCreateSpec {
        id: "c1".to_string(),
        image: "alpine".to_string(),
        cmd: vec!["sh".to_string(), "-c".to_string(), "echo hi".to_string()],
        env: vec!["A=1".to_string()],
        labels: vec![pair("app", "web")],
        restart_policy: Some("always".to_string()),
        restart_maximum_retry_count: None,
        memory: Some(-1),
        cpu_shares: Some(512),
        tty: true,
    }
}

#[test]
fn status_codes_map_to_task_states() {
    assert!(matches!(status_from_code(1), TaskStatus::Created));
    assert!(matches!(status_from_code(2), TaskStatus::Running));
    assert!(matches!(status_from_code(3), TaskStatus::Stopped));
    assert!(matches!(status_from_code(4), TaskStatus::Paused));
    assert!(matches!(status_from_code(5), TaskStatus::Paused));
    assert!(matches!(status_from_code(0), TaskStatus::Unknown));
    assert!(matches!(status_from_code(99), TaskStatus::Unknown));
}

#[test]
fn records_from_containerd_fields() {
    let t = process_to_task_info("c1".to_string(), "e1".to_string(), 42, 2, 7);
    assert_eq!(t.container_id, "c1");
    assert_eq!(t.exec_id, "e1");
    assert_eq!(t.pid, 42);
    assert!(matches!(t.status, TaskStatus::Running));
    assert_eq!(t.exit_status, 7);
    assert_eq!(task_log_line(&t), "container c1 status Running\n");

    let c = container_to_info("c1".to_string(), "alpine".to_string(), vec![], None);
    assert_eq!(c.created_at_seconds, 0);
    let c = container_to_info("c1".to_string(), "alpine".to_string(), vec![], Some(99));
    assert_eq!(c.created_at_seconds, 99);

    let i = image_to_record("alpine".to_string(), Some(("sha256:ab".to_string(), 10)), None, vec![]);
    assert_eq!(i.id, "sha256:ab");
    assert_eq!(i.size, 10);
    let i = image_to_record("alpine".to_string(), None, Some(5), vec![]);
    assert_eq!(i.id, "alpine");
    assert_eq!(i.size, 0);
    assert_eq!(i.created_at_seconds, 5);
}

#[test]
fn label_lookup_takes_the_last_assignment() {
    let labels = vec![pair("a", "1"), pair("b", "2"), pair("a", "3")];
    assert_eq!(get_label(&labels, "a"), Some(&"3".to_string()));
    assert_eq!(get_label(&labels, "b"), Some(&"2".to_string()));
    assert_eq!(get_label(&labels, "c"), None);
}

#[test]
fn stored_labels_follow_the_request() {
    let labels = container_labels(&spec());
    assert_eq!(
        labels,
        vec![
            pair("app", "web"),
            pair("speck.image", "alpine"),
            pair("speck.cmd", "sh\u{1f}-c\u{1f}echo hi"),
            pair("speck.env", "A=1"),
            pair("speck.restart_policy", "always"),
            pair("speck.memory", "-1"),
            pair("speck.cpu_shares", "512"),
        ]
    );
}

#[test]
fn process_env_adds_default_path_only_when_missing() {
    let env = process_env(&vec!["A=1".to_string()]);
    assert_eq!(env, vec![DEFAULT_PATH_ENV.to_string(), "A=1".to_string()]);
    let with_path = vec!["PATH=/x".to_string(), "B=2".to_string()];
    assert_eq!(process_env(&with_path), with_path);
}

#[test]
fn oci_spec_carries_args_env_and_tty() {
    let text = container_oci_spec(&spec());
    assert!(text.starts_with(OCI_SPEC_HEAD));
    assert!(text.contains("\"args\":[\"sh\",\"-c\",\"echo hi\"],\"capabilities\""));
    assert!(text.contains(&format!("\"env\":[\"{}\",\"A=1\"]", DEFAULT_PATH_ENV)));
    assert!(text.contains("\"terminal\":true,"));
    assert!(text.ends_with("\"root\":{\"path\":\"rootfs\",\"readonly\":false}}"));
}

#[test]
fn bare_references_are_docker_hub_library_images() {
    assert_eq!(normalize_reference("alpine:3"), "docker.io/library/alpine:3");
    assert_eq!(normalize_reference("ghcr.io/a/b:1"), "ghcr.io/a/b:1");
}

#[test]
fn top_committed_snapshot_is_the_unparented_one() {
    let snaps = vec![snap("s1", "", true), snap("s2", "s1", true), snap("s3", "s2", false)];
    assert_eq!(top_committed_snapshot(&snaps), Some(1));
    assert_eq!(top_committed_snapshot(&vec![snap("x", "", false)]), None);
    match no_committed_snapshot_error("alpine", 3) {
        DockerApiError::Internal(m) => {
            assert_eq!(m, "no committed snapshots found for alpine (3 total snapshots)")
        }
        _ => panic!("internal error expected"),
    }
}

#[test]
fn parent_snapshot_key_reads_the_label() {
    let labels = vec![pair(SNAPSHOT_KEY_LABEL, "sha256:key")];
    assert_eq!(parent_snapshot_key("alpine", &labels).ok(), Some("sha256:key".to_string()));
    match parent_snapshot_key("alpine", &vec![]) {
        Err(DockerApiError::Internal(m)) => assert_eq!(
            m,
            "image alpine has no unpacked snapshot key (was it pulled with unpack?)"
        ),
        _ => panic!("internal error expected"),
    }
}

#[test]
fn grpc_failures_map_to_api_errors() {
    assert!(matches!(grpc_error(GrpcCode::NotFound, "m", "full"), DockerApiError::NotFound(m) if m == "m"));
    assert!(matches!(grpc_error(GrpcCode::AlreadyExists, "m", "full"), DockerApiError::Conflict(m) if m == "m"));
    assert!(matches!(grpc_error(GrpcCode::FailedPrecondition, "m", "full"), DockerApiError::Conflict(m) if m == "m"));
    assert!(matches!(grpc_error(GrpcCode::InvalidArgument, "m", "full"), DockerApiError::BadRequest(m) if m == "m"));
    assert!(matches!(grpc_error(GrpcCode::Other, "m", "full"), DockerApiError::Internal(m) if m == "full"));
}
