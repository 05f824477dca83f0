use speck::networks::{default_networks, resolve_network_id, validate_network_name, NetworkStore, NetworkSummary};
use speck::networks::{
    connect_target, container_not_found, plan_network_create, remove_network, NetworkCreateBody,
};
use speck::volumes::{validate_archive_path, validate_volume_name, volume_mountpoint};
use speck::volumes::{plan_volume_create, volume_not_found, VolumeCreateBody};
use speck::error::DockerApiError;

fn network(id: &str, name: &str) -> NetworkSummary {
    NetworkSummary { id: id.into(), name: name.into(), driver: "bridge".into(), scope: "local".into() }
}

fn map_of(entries: &[(&str, &str)]) -> NetworkStore {
    let mut store = NetworkStore::new();
    for (id, name) in entries {
        store.insert((*id).to_owned(), network(id, name));
    }
    store
}

#[test]
fn test_networks_resolve_by_id() {
    let networks = map_of(&[("abc123", "mynet")]);
    assert_eq!(resolve_network_id(&networks, "abc123"), Some("abc123".to_owned()));
}

#[test]
fn test_networks_resolve_by_name() {
    let networks = map_of(&[("abc123", "mynet")]);
    assert_eq!(resolve_network_id(&networks, "mynet"), Some("abc123".to_owned()));
}

#[test]
fn test_networks_resolve_missing_returns_none() {
    let networks = map_of(&[("abc123", "mynet")]);
    assert_eq!(resolve_network_id(&networks, "ghost"), None);
}

#[test]
fn test_networks_resolve_empty_map_returns_none() {
    let networks = NetworkStore::new();
    assert_eq!(resolve_network_id(&networks, "anything"), None);
}

#[test]
fn test_networks_resolve_prefers_exact_id_over_name() {
    let networks = map_of(&[("bridge", "bridge"), ("other-id", "bridge")]);
    assert_eq!(resolve_network_id(&networks, "bridge"), Some("bridge".to_owned()));
}

#[test]
fn network_store_insert_get_remove() {
    let mut store = default_networks();
    assert_eq!(store.get("bridge").unwrap().scope, "local");
    store.insert("n1".into(), network("n1", "one"));
    store.insert("n1".into(), network("n1", "uno"));
    assert_eq!(store.entries().len(), 2);
    assert_eq!(store.get("n1").unwrap().name, "uno");
    let removed = store.remove("n1").unwrap();
    assert_eq!(removed.name, "uno");
    assert!(store.get("n1").is_none());
    assert!(store.remove("n1").is_none());
}

#[test]
fn network_names_refuse_blank_and_separators() {
    assert!(validate_network_name("my-net").is_ok());
    assert_eq!(validate_network_name("  ").unwrap_err().message(), "bad request: network name cannot be empty");
    assert_eq!(
        validate_network_name("a/b").unwrap_err().message(),
        "bad request: network name contains invalid characters"
    );
}

#[test]
fn volume_rules() {
    assert!(validate_volume_name("data_1").is_ok());
    assert_eq!(validate_volume_name("").unwrap_err().message(), "bad request: volume name cannot be empty");
    assert_eq!(
        validate_volume_name(".hidden").unwrap_err().message(),
        "bad request: volume name must start with an ASCII letter or digit"
    );
    assert_eq!(volume_mountpoint("data"), "/var/lib/speck/volumes/data");
    assert!(validate_archive_path("/etc/hosts").is_ok());
    assert!(validate_archive_path("/etc/../x").is_err());
    assert!(validate_archive_path("a\0b").is_err());
    assert!(validate_archive_path(" ").is_err());
}

#[test]
fn network_create_names_id_by_time() {
    let n = plan_network_create(&NetworkCreateBody { name: "front".to_string(), driver: None }, 255)
        .ok()
        .unwrap();
    assert_eq!(n.id, "front-ff");
    assert_eq!(n.name, "front");
    assert_eq!(n.driver, "bridge");
    assert_eq!(n.scope, "local");
    let n = plan_network_create(
        &NetworkCreateBody { name: "back".to_string(), driver: Some("overlay".to_string()) },
        0,
    )
    .ok()
    .unwrap();
    assert_eq!(n.driver, "overlay");
    let e = plan_network_create(&NetworkCreateBody { name: "  ".to_string(), driver: None }, 0).unwrap_err();
    assert_eq!(e.message(), "bad request: network name cannot be empty");
    let e = plan_network_create(&NetworkCreateBody { name: "a/b".to_string(), driver: None }, 0).unwrap_err();
    assert_eq!(e.message(), "bad request: network name contains invalid characters");
}

#[test]
fn connect_targets_resolve_by_id_or_name() {
    let store = map_of(&[("n1", "front")]);
    assert_eq!(connect_target(&store, "n1").ok(), Some("n1".to_string()));
    assert_eq!(connect_target(&store, "front").ok(), Some("n1".to_string()));
    match connect_target(&store, "back") {
        Err(DockerApiError::NotFound(m)) => assert_eq!(m, "network back not found"),
        _ => panic!("not found expected"),
    }
    assert!(matches!(connect_target(&store, "a;b"), Err(DockerApiError::BadRequest(_))));
    match container_not_found("c9") {
        DockerApiError::NotFound(m) => assert_eq!(m, "container c9 not found"),
        _ => panic!("not found expected"),
    }
}

#[test]
fn removing_a_network_by_name_drops_its_key() {
    let mut store = map_of(&[("n1", "front"), ("n2", "back")]);
    assert_eq!(remove_network(&mut store, "back"), Some("n2".to_string()));
    assert!(store.get("n2").is_none());
    assert!(store.get("n1").is_some());
    assert_eq!(remove_network(&mut store, "missing"), None);
    assert!(store.get("n1").is_some());
}

#[test]
fn volume_create_defaults_to_local_driver() {
    let v = plan_volume_create(&VolumeCreateBody { name: "data".to_string(), driver: None }).ok().unwrap();
    assert_eq!(v.name, "data");
    assert_eq!(v.driver, "local");
    assert_eq!(v.mountpoint, "/var/lib/speck/volumes/data");
    assert!(v.created_at.is_none());
    let v = plan_volume_create(&VolumeCreateBody { name: "d".to_string(), driver: Some("nfs".to_string()) })
        .ok()
        .unwrap();
    assert_eq!(v.driver, "nfs");
    assert!(matches!(
        plan_volume_create(&VolumeCreateBody { name: "-x".to_string(), driver: None }),
        Err(DockerApiError::BadRequest(_))
    ));
    match volume_not_found("data") {
        DockerApiError::NotFound(m) => assert_eq!(m, "volume data"),
        _ => panic!("not found expected"),
    }
}
