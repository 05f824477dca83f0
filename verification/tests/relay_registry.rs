use base64::Engine;
use speck::log_relay::{
    absorb_relay_window, check_ack, close_request, create_request, read_request, response_len,
    LogWindows, RelayError, RelayLogs, MAX_RELAY_LOG_READ,
};
use speck::registry_auth::{
    credentials_from_config_entry, credentials_from_header, decode_auth_header_bytes,
    docker_config_path, normalize_docker_hub_server, select_config_entry, DockerAuthEntry,
    HeaderAuth,
};

#[test]
fn relay_requests_are_single_lines() {
    assert_eq!(create_request("c1"), b"CREATE:c1\n".to_vec());
    assert_eq!(close_request("c1"), b"CLOSE:c1\n".to_vec());
    assert_eq!(read_request("stdout", "c1", 4096), b"READ:stdout:c1:4096\n".to_vec());
}

#[test]
fn relay_acks_and_lengths_are_checked() {
    assert_eq!(check_ack(b"OK\n"), Ok(()));
    assert_eq!(check_ack(b"NO\n"), Err(RelayError::NotAcknowledged));
    assert_eq!(response_len(&[0, 0, 1, 2]), Ok(258));
    assert_eq!(response_len(&[1, 0, 0, 0]), Ok(MAX_RELAY_LOG_READ));
    assert_eq!(response_len(&[1, 0, 0, 1]), Err(RelayError::ResponseTooLarge));
    assert_eq!(RelayError::ResponseTooLarge.message(), "log relay response too large");
}

#[test]
fn relay_windows_accumulate_until_short() {
    let mut w = LogWindows::new();
    let full = vec![1_u8; MAX_RELAY_LOG_READ];
    let done = absorb_relay_window(&mut w, RelayLogs { stdout: full, stderr: b"e".to_vec() });
    assert!(!done);
    let done = absorb_relay_window(&mut w, RelayLogs { stdout: b"tail".to_vec(), stderr: vec![] });
    assert!(done);
    let logs = w.into_logs();
    assert_eq!(logs.stdout.len(), MAX_RELAY_LOG_READ + 4);
    assert_eq!(&logs.stdout[MAX_RELAY_LOG_READ..], b"tail");
    assert_eq!(logs.stderr, b"e".to_vec());
}

#[test]
fn header_credentials_need_user_and_password() {
    let encoded = base64::engine::general_purpose::STANDARD.encode("{\"username\":\"u\"}");
    assert_eq!(decode_auth_header_bytes(&encoded), Some(b"{\"username\":\"u\"}".to_vec()));
    assert_eq!(decode_auth_header_bytes("%%%"), None);
    let c = credentials_from_header(HeaderAuth {
        username: "u".to_string(),
        password: "p".to_string(),
        server_address: "ghcr.io".to_string(),
    })
    .unwrap();
    assert_eq!((c.username.as_str(), c.password.as_str(), c.server.as_str()), ("u", "p", "ghcr.io"));
    assert!(credentials_from_header(HeaderAuth {
        username: "u".to_string(),
        password: String::new(),
        server_address: "ghcr.io".to_string(),
    })
    .is_none());
}

#[test]
fn docker_config_entries_are_found_by_server_or_hub_key() {
    assert_eq!(normalize_docker_hub_server("docker.io"), "https://index.docker.io/v1/");
    assert_eq!(normalize_docker_hub_server("registry-1.docker.io"), "https://index.docker.io/v1/");
    assert_eq!(normalize_docker_hub_server("ghcr.io"), "ghcr.io");
    assert_eq!(docker_config_path(Some("/home/u")), Some("/home/u/.docker/config.json".to_string()));
    assert_eq!(docker_config_path(None), None);
    let entry = |u: &str| DockerAuthEntry { auth: None, username: Some(u.to_string()), password: Some("p".to_string()) };
    let auths = vec![
        ("https://index.docker.io/v1/".to_string(), entry("hub")),
        ("ghcr.io".to_string(), entry("gh1")),
        ("ghcr.io".to_string(), entry("gh2")),
    ];
    assert_eq!(select_config_entry(&auths, "ghcr.io"), Some(2));
    assert_eq!(select_config_entry(&auths, "registry-1.docker.io"), Some(0));
    assert_eq!(select_config_entry(&auths, "quay.io"), None);
}

#[test]
fn config_entry_credentials_from_fields_or_token() {
    let both = DockerAuthEntry { auth: None, username: Some("u".to_string()), password: Some("p".to_string()) };
    let c = credentials_from_config_entry("ghcr.io", &both).unwrap();
    assert_eq!((c.username.as_str(), c.password.as_str(), c.server.as_str()), ("u", "p", "ghcr.io"));
    let token = base64::engine::general_purpose::STANDARD.encode("user:pa:ss");
    let tok = DockerAuthEntry { auth: Some(token), username: Some("ignored".to_string()), password: None };
    let c = credentials_from_config_entry("ghcr.io", &tok).unwrap();
    assert_eq!((c.username.as_str(), c.password.as_str()), ("user", "pa:ss"));
    let bad = base64::engine::general_purpose::STANDARD.encode(":nouser");
    assert!(credentials_from_config_entry("x", &DockerAuthEntry { auth: Some(bad), username: None, password: None }).is_none());
    assert!(credentials_from_config_entry("x", &DockerAuthEntry { auth: None, username: None, password: None }).is_none());
    assert!(credentials_from_config_entry("x", &DockerAuthEntry { auth: Some("***".to_string()), username: None, password: None }).is_none());
}
