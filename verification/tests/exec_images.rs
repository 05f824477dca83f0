use speck::containerd::ImageRecord;
use speck::error::DockerApiError;
use speck::exec::{exec_start_bytes, plan_exec_create, ExecCreateBody, ExecStore};
use speck::images::{
    image_inspect, image_summary, plan_image_pull, pull_progress, push_progress, ImageCreateQuery,
    RegistryAuth,
};
use base64::Engine;

fn exec_body(cmd: &[&str], tty: bool) -> ExecCreateBody {
    ExecCreateBody {
        cmd: cmd.iter().map(|s| s.to_string()).collect(),
        attach_stdin: false,
        attach_stdout: true,
        attach_stderr: true,
        tty,
        env: Some(vec!["A=1".to_string()]),
    }
}

#[test]
fn exec_create_records_a_session_not_yet_running() {
    let (spec, process) = plan_exec_create("c1", "c1-exec-ff".to_string(), exec_body(&["ls", "-l"], false))
        .ok()
        .unwrap();
    assert_eq!(spec.id, "c1-exec-ff");
    assert_eq!(spec.container_id, "c1");
    assert_eq!(spec.cmd, vec!["ls".to_string(), "-l".to_string()]);
    assert_eq!(spec.env, vec!["A=1".to_string()]);
    assert!(!spec.running);
    assert_eq!(spec.exit_code, None);
    assert_eq!(process.exec_id, "c1-exec-ff");
    assert_eq!(process.cmd, spec.cmd);
    assert!(!process.terminal);
    let started = spec.started();
    assert!(started.running);
    assert_eq!(started.id, spec.id);
    let err = plan_exec_create("c1", "x".to_string(), exec_body(&[], false)).unwrap_err();
    assert!(matches!(err, DockerApiError::BadRequest(m) if m == "exec Cmd cannot be empty"));
}

#[test]
fn exec_start_writes_empty_frames_unless_tty() {
    let (spec, _) = plan_exec_create("c1", "e".to_string(), exec_body(&["ls"], false)).ok().unwrap();
    assert_eq!(exec_start_bytes(&spec), vec![1, 0, 0, 0, 0, 0, 0, 0, 2, 0, 0, 0, 0, 0, 0, 0]);
    let (tty, _) = plan_exec_create("c1", "e".to_string(), exec_body(&["ls"], true)).ok().unwrap();
    assert!(exec_start_bytes(&tty).is_empty());
}

#[test]
fn exec_store_updates_in_place() {
    let mut store = ExecStore::new();
    let (spec, _) = plan_exec_create("c1", "e1".to_string(), exec_body(&["ls"], false)).ok().unwrap();
    store.insert("e1".to_string(), spec.duplicate());
    store.update("e1", spec.started());
    assert!(store.get("e1").unwrap().running);
    assert_eq!(store.len(), 1);
}

#[test]
fn image_pull_plan_applies_tag_and_registry() {
    let plan = plan_image_pull(&ImageCreateQuery { from_image: "library/alpine".to_string(), tag: Some("3.20".to_string()) })
        .ok()
        .unwrap();
    assert_eq!(plan.image, "library/alpine:3.20");
    assert_eq!(plan.server, "registry-1.docker.io");
    let plan = plan_image_pull(&ImageCreateQuery { from_image: "ghcr.io/o/app:1".to_string(), tag: Some("2".to_string()) })
        .ok()
        .unwrap();
    assert_eq!(plan.image, "ghcr.io/o/app:1");
    assert_eq!(plan.server, "ghcr.io");
    assert!(matches!(
        plan_image_pull(&ImageCreateQuery { from_image: "a|b".to_string(), tag: None }),
        Err(DockerApiError::BadRequest(_))
    ));
}

#[test]
fn image_progress_messages() {
    assert_eq!(
        pull_progress("alpine", None),
        ("Pulling from alpine".to_string(), "latest".to_string(), "Status: Downloaded newer image for alpine".to_string())
    );
    assert_eq!(pull_progress("alpine", Some("3")).1, "3");
    assert_eq!(push_progress("app:1"), "Pushed app:1");
}

#[test]
fn image_records_are_shown_with_their_name_as_tag() {
    let record = || ImageRecord {
        name: "alpine:3".to_string(),
        id: "sha256:ab".to_string(),
        size: 7,
        created_at_seconds: 11,
        labels: vec![],
    };
    let s = image_summary(record());
    assert_eq!((s.id.as_str(), s.repo_tags.clone(), s.size, s.created), ("sha256:ab", vec!["alpine:3".to_string()], 7, 11));
    let i = image_inspect(record());
    assert_eq!(i.architecture, "arm64");
    assert_eq!(i.repo_tags, vec!["alpine:3".to_string()]);
}

#[test]
fn registry_auth_header_is_base64_json() {
    let auth = RegistryAuth {
        username: "u".to_string(),
        password: "p\"w".to_string(),
        server_address: "ghcr.io".to_string(),
    };
    let json = "{\"username\":\"u\",\"password\":\"p\\\"w\",\"serveraddress\":\"ghcr.io\"}";
    assert_eq!(auth.to_json(), json);
    assert_eq!(auth.to_base64(), Some(base64::engine::general_purpose::STANDARD.encode(json)));
}
