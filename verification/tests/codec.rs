use speck::codec::{base64_decode, base64_encode, debug_string, json_array_of, json_string};
use speck::commands::build_path;
use speck::config::{default_config_version, CONFIG_VERSION};
use speck::docker_client::DockerClient;

#[test]
fn json_strings_are_quoted_and_escaped() {
    assert_eq!(json_string("plain"), "\"plain\"");
    assert_eq!(json_string("a\"b\\c\n"), "\"a\\\"b\\\\c\\n\"");
    assert_eq!(json_array_of(&vec![]), "[]");
    assert_eq!(
        json_array_of(&vec!["x".to_string(), "y z".to_string()]),
        "[\"x\",\"y z\"]"
    );
}

#[test]
fn base64_round_trips_standard_padding() {
    assert_eq!(base64_encode(b"hi"), Some("aGk=".to_string()));
    assert_eq!(base64_encode(b""), Some(String::new()));
    assert_eq!(base64_decode("aGk="), Some(b"hi".to_vec()));
    assert_eq!(base64_decode("not base64!"), None);
}

#[test]
fn debug_quotes_text() {
    assert_eq!(debug_string("a\"b"), "\"a\\\"b\"");
    assert_eq!(debug_string("tab\t"), "\"tab\\t\"");
}

#[test]
fn config_version_defaults_to_current() {
    assert_eq!(default_config_version(), Some(CONFIG_VERSION));
}

#[test]
fn build_request_path_joins_parameters() {
    assert_eq!(build_path(&None, &None, &None, false), "/build");
    assert_eq!(
        build_path(
            &Some("app:1".to_string()),
            &Some("Containerfile".to_string()),
            &Some("prod".to_string()),
            true
        ),
        "/build?t=app:1&dockerfile=Containerfile&target=prod&nocache=1"
    );
    assert_eq!(build_path(&None, &None, &None, true), "/build?nocache=1");
}

#[test]
fn client_requests_go_to_a_placeholder_host() {
    let client = DockerClient::new("/tmp/speck.sock");
    assert_eq!(client.request_uri("/_ping"), "http://localhost/_ping");
}
