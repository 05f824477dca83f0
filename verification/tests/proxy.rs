use speck::containers::PortBindingBody;
use speck::error::DockerApiError;
use speck::proxy::{
    bind_namespace_name, cleanup_remove_uri, cleanup_stop_uri, container_ip, extract_bind_mounts,
    extract_container_id, extract_port_maps, follow_up, forward_target_line, host_bind_mounts,
    identity_source, inspect_uri, needs_bind_namespace, parse_ipv4, parse_proxy_bind, proxy_uri,
    query_value, removal_settled, render_rewritten_bind, rewritten_binds, route_request,
    stop_settled, FollowUp, HttpMethod, Ipv4, PortMap, ProxyMount, ProxyRegistry, ProxyRoute,
};

fn bad_request(e: DockerApiError) -> String {
    match e {
        DockerApiError::BadRequest(m) => m,
        other => panic!("expected a bad request, got {other:?}"),
    }
}

#[test]
fn routes_container_create_with_and_without_version() {
    assert_eq!(route_request(HttpMethod::Post, "/containers/create"), ProxyRoute::InterceptCreate);
    assert_eq!(route_request(HttpMethod::Post, "/v1.44/containers/create"), ProxyRoute::InterceptCreate);
    assert_eq!(route_request(HttpMethod::Get, "/containers/create"), ProxyRoute::Forward);
}

#[test]
fn routes_start_stop_and_delete_by_id() {
    assert_eq!(
        route_request(HttpMethod::Post, "/v1.43/containers/abc/start"),
        ProxyRoute::InterceptStart("abc".to_string())
    );
    assert_eq!(
        route_request(HttpMethod::Post, "/containers/web/stop"),
        ProxyRoute::InterceptStop("web".to_string())
    );
    assert_eq!(
        route_request(HttpMethod::Delete, "/containers/abc"),
        ProxyRoute::InterceptDelete("abc".to_string())
    );
    assert_eq!(route_request(HttpMethod::Delete, "/containers/abc/json"), ProxyRoute::Forward);
    assert_eq!(route_request(HttpMethod::Post, "/containers//start"), ProxyRoute::Forward);
    assert_eq!(route_request(HttpMethod::Get, "/_ping"), ProxyRoute::Forward);
}

#[test]
fn container_id_between_prefix_and_suffix() {
    assert_eq!(extract_container_id("/containers/x1/start", "/containers/", "/start"), Some("x1".to_string()));
    assert_eq!(extract_container_id("/containers/a/b/start", "/containers/", "/start"), None);
    assert_eq!(extract_container_id("/images/x/start", "/containers/", "/start"), None);
    assert_eq!(extract_container_id("/containers/x1", "/containers/", ""), Some("x1".to_string()));
    assert_eq!(extract_container_id("/containers/", "/containers/", ""), None);
}

#[test]
fn query_value_takes_first_matching_pair() {
    assert_eq!(query_value(Some("name=web&x=1"), "name"), Some("web".to_string()));
    assert_eq!(query_value(Some("a=1&name=db&name=other"), "name"), Some("db".to_string()));
    assert_eq!(query_value(Some("name"), "name"), None);
    assert_eq!(query_value(Some("x=a=b"), "x"), Some("a=b".to_string()));
    assert_eq!(query_value(None, "name"), None);
}

#[test]
fn forwarded_uri_keeps_path_and_query() {
    assert_eq!(proxy_uri(Some("/v1.44/info?x=1")), "http://localhost/v1.44/info?x=1");
    assert_eq!(proxy_uri(None), "http://localhost/");
    assert_eq!(cleanup_remove_uri("abc"), "http://localhost/containers/abc?force=1");
    assert_eq!(cleanup_stop_uri("web"), "http://localhost/containers/web/stop?t=0");
    assert_eq!(inspect_uri("abc"), "http://localhost/containers/abc/json");
}

#[test]
fn cleanup_statuses_that_count_as_settled() {
    assert!(removal_settled(204));
    assert!(removal_settled(404));
    assert!(!removal_settled(409));
    assert!(stop_settled(304));
    assert!(stop_settled(404));
    assert!(stop_settled(204));
    assert!(!stop_settled(500));
}

#[test]
fn port_maps_use_host_port_and_container_port() {
    let bindings = Some(vec![
        (
            "80/tcp".to_string(),
            vec![
                PortBindingBody { host_ip: None, host_port: Some("8080".to_string()) },
                PortBindingBody { host_ip: None, host_port: Some("nope".to_string()) },
            ],
        ),
        ("bad/tcp".to_string(), vec![PortBindingBody { host_ip: None, host_port: Some("1".to_string()) }]),
    ]);
    let maps = extract_port_maps(&bindings);
    assert_eq!(maps, vec![PortMap { host_port: 8080, container_port: 80, target_ip: None }]);
    assert!(extract_port_maps(&None).is_empty());
}

#[test]
fn bind_entries_are_classified() {
    let host = "/tmp".to_string();
    match parse_proxy_bind(&format!("{host}:/data:ro,z")).unwrap() {
        ProxyMount::HostBind(b) => {
            assert_eq!(b.host_path, host);
            assert_eq!(b.container_path, "/data");
            assert_eq!(b.suffix, "ro,z");
            assert!(b.read_only);
        }
        other => panic!("expected a host bind, got {other:?}"),
    }
    match parse_proxy_bind(&format!("{host}:/data")).unwrap() {
        ProxyMount::HostBind(b) => {
            assert_eq!(b.suffix, "");
            assert!(!b.read_only);
        }
        other => panic!("expected a host bind, got {other:?}"),
    }
    match parse_proxy_bind("myvolume:/data").unwrap() {
        ProxyMount::Passthrough(s) => assert_eq!(s, "myvolume:/data"),
        other => panic!("expected passthrough, got {other:?}"),
    }
}

#[test]
fn bind_entry_errors() {
    assert_eq!(
        bad_request(parse_proxy_bind("nocolon").unwrap_err()),
        "bind mount must be in format 'host_path:container_path[:ro|:rw]'"
    );
    assert_eq!(bad_request(parse_proxy_bind(":/data").unwrap_err()), "bind mount paths cannot be empty");
    assert_eq!(
        bad_request(parse_proxy_bind("/tmp:data").unwrap_err()),
        "bind container path invalid: data"
    );
    assert_eq!(
        bad_request(parse_proxy_bind("/tmp:/a/../b").unwrap_err()),
        "bind container path invalid: /a/../b"
    );
    assert_eq!(
        bad_request(parse_proxy_bind("./rel:/data").unwrap_err()),
        "bind host path invalid: ./rel"
    );
    assert_eq!(
        bad_request(parse_proxy_bind("/no/such/speck/path:/data").unwrap_err()),
        "bind host path invalid: /no/such/speck/path"
    );
}

#[test]
fn bind_list_stops_at_first_error() {
    let binds = Some(vec!["vol:/a".to_string(), "x:y".to_string(), "nocolon".to_string()]);
    assert_eq!(
        bad_request(extract_bind_mounts(&binds).unwrap_err()),
        "bind container path invalid: y"
    );
    let ok = extract_bind_mounts(&Some(vec!["vol:/a".to_string()])).unwrap();
    assert_eq!(ok.len(), 1);
    assert!(!needs_bind_namespace(&ok));
    assert!(extract_bind_mounts(&None).unwrap().is_empty());
}

#[test]
fn host_binds_become_guest_mounts_in_one_namespace() {
    let host = "/tmp".to_string();
    let parsed = extract_bind_mounts(&Some(vec![
        "vol:/a".to_string(),
        format!("{host}:/b:ro"),
    ]))
    .unwrap();
    assert!(needs_bind_namespace(&parsed));
    let mounts = host_bind_mounts(&parsed, &Some("b1".to_string()));
    assert_eq!(mounts.len(), 1);
    assert_eq!(mounts[0].host_path, host);
    assert_eq!(mounts[0].container_path, "/b");
    assert!(mounts[0].read_only);
    assert_eq!(mounts[0].volume_name, None);
    assert_eq!(mounts[0].runtime_namespace, Some("b1".to_string()));
}

#[test]
fn bind_namespaces_are_hex_numbered() {
    assert_eq!(bind_namespace_name(1), "b1");
    assert_eq!(bind_namespace_name(255), "bff");
    let mut reg: ProxyRegistry<u16> = ProxyRegistry::new();
    assert_eq!(reg.allocate_bind_namespace(), "b1");
    assert_eq!(reg.allocate_bind_namespace(), "b2");
    reg.next_bind_namespace = u64::MAX;
    assert_eq!(reg.allocate_bind_namespace(), "bffffffffffffffff");
    assert_eq!(reg.next_bind_namespace, 0);
}

#[test]
fn identity_roots_are_matched_by_component() {
    assert_eq!(identity_source(Some("/Users/me/src".to_string())), Some("/Users/me/src".to_string()));
    assert_eq!(identity_source(Some("/Volumes".to_string())), Some("/Volumes".to_string()));
    assert_eq!(identity_source(Some("/private/tmp/x".to_string())), Some("/private/tmp/x".to_string()));
    assert_eq!(identity_source(Some("/Usersx/me".to_string())), None);
    assert_eq!(identity_source(Some("/opt/data".to_string())), None);
    assert_eq!(identity_source(None), None);
}

#[test]
fn rewritten_binds_keep_suffix_and_passthrough() {
    let host = "/tmp".to_string();
    let parsed = extract_bind_mounts(&Some(vec![
        format!("{host}:/b:ro"),
        format!("{host}:/c"),
        "vol:/a:rw".to_string(),
    ]))
    .unwrap();
    assert_eq!(render_rewritten_bind(&parsed[0], "/mnt/b1/b"), "/mnt/b1/b:/b:ro");
    let out = rewritten_binds(
        &parsed,
        &vec!["/g1".to_string(), "/g2".to_string(), String::new()],
    );
    assert_eq!(out, vec!["/g1:/b:ro".to_string(), "/g2:/c".to_string(), "vol:/a:rw".to_string()]);
}

#[test]
fn ipv4_parsing_follows_dotted_quad_rules() {
    assert_eq!(parse_ipv4("172.17.0.2"), Some(Ipv4 { a: 172, b: 17, c: 0, d: 2 }));
    assert_eq!(parse_ipv4("256.1.1.1"), None);
    assert_eq!(parse_ipv4("01.1.1.1"), None);
    assert_eq!(parse_ipv4("1.1.1"), None);
    assert_eq!(parse_ipv4("1.1.1.1.1"), None);
    assert_eq!(parse_ipv4(""), None);
    assert_eq!(parse_ipv4("+1.1.1.1"), None);
}

#[test]
fn container_ip_prefers_network_addresses() {
    let nets = vec![None, Some(String::new()), Some("10.0.0.5".to_string())];
    assert_eq!(container_ip(&nets, &Some("172.17.0.9".to_string())), Some(Ipv4 { a: 10, b: 0, c: 0, d: 5 }));
    assert_eq!(container_ip(&vec![Some("x".to_string())], &Some("172.17.0.9".to_string())), Some(Ipv4 { a: 172, b: 17, c: 0, d: 9 }));
    assert_eq!(container_ip(&vec![], &None), None);
}

#[test]
fn forward_target_line_names_address_and_port() {
    assert_eq!(forward_target_line(Ipv4 { a: 172, b: 17, c: 0, d: 2 }, 8080), "172.17.0.2:8080\n");
}

#[test]
fn follow_ups_by_route_and_status() {
    assert_eq!(follow_up(&ProxyRoute::InterceptCreate, 201, false, false), FollowUp::RecordCreated);
    assert_eq!(follow_up(&ProxyRoute::InterceptCreate, 400, true, true), FollowUp::Nothing);
    let start = ProxyRoute::InterceptStart("a".to_string());
    assert_eq!(follow_up(&start, 204, true, true), FollowUp::ActivatePorts);
    assert_eq!(follow_up(&start, 204, false, true), FollowUp::Nothing);
    assert_eq!(follow_up(&start, 204, true, false), FollowUp::Nothing);
    assert_eq!(follow_up(&start, 304, true, true), FollowUp::Nothing);
    assert_eq!(follow_up(&ProxyRoute::InterceptStop("a".to_string()), 204, true, true), FollowUp::StopForwards);
    assert_eq!(follow_up(&ProxyRoute::InterceptDelete("a".to_string()), 204, true, true), FollowUp::StopAndForget);
    assert_eq!(follow_up(&ProxyRoute::InterceptDelete("a".to_string()), 404, true, true), FollowUp::Nothing);
    assert_eq!(follow_up(&ProxyRoute::Forward, 200, true, true), FollowUp::Nothing);
}

#[test]
fn registry_resolves_ids_aliases_and_unique_prefixes() {
    let mut reg: ProxyRegistry<u16> = ProxyRegistry::new();
    let ports = vec![PortMap { host_port: 8080, container_port: 8080, target_ip: None }];
    reg.remember_published_ports("abc123".to_string(), Some("web".to_string()), ports.clone(), false);
    reg.remember_published_ports("abd999".to_string(), None, ports, false);
    assert_eq!(reg.published.resolve("abc123"), Some("abc123".to_string()));
    assert_eq!(reg.published.resolve("web"), Some("abc123".to_string()));
    assert_eq!(reg.published.resolve("abc"), Some("abc123".to_string()));
    assert_eq!(reg.published.resolve("ab"), None);
    assert_eq!(reg.published.resolve("zzz"), None);
    assert!(reg.has_published_ports("web"));
    assert!(!reg.has_published_ports("zzz"));
}

#[test]
fn activation_happens_once_until_stopped() {
    let mut reg: ProxyRegistry<u16> = ProxyRegistry::new();
    let ports = vec![
        PortMap { host_port: 8080, container_port: 8080, target_ip: None },
        PortMap { host_port: 9090, container_port: 9090, target_ip: None },
    ];
    reg.remember_published_ports("abc".to_string(), Some("web".to_string()), ports, false);
    let ip = Ipv4 { a: 172, b: 17, c: 0, d: 2 };
    let active = reg.activate_published_ports("web", ip);
    assert_eq!(active.len(), 2);
    assert!(active.iter().all(|p| p.target_ip == Some(ip)));
    assert_eq!(active[1].host_port, 9090);
    assert!(reg.activate_published_ports("abc", ip).is_empty());
    assert!(reg.register_host_port_forward("web", 8080).is_ok());
    assert!(reg.register_host_port_forward("web", 9090).is_ok());
    assert_eq!(reg.register_host_port_forward("nope", 1), Err(1));
    assert_eq!(reg.stop_host_port_forwards("abc"), vec![8080, 9090]);
    assert!(reg.stop_host_port_forwards("abc").is_empty());
    let ip2 = Ipv4 { a: 172, b: 17, c: 0, d: 3 };
    let again = reg.activate_published_ports("web", ip2);
    assert_eq!(again.len(), 2);
    assert_eq!(again[0].target_ip, Some(ip2));
}

#[test]
fn forgetting_drops_entry_and_aliases() {
    let mut reg: ProxyRegistry<u16> = ProxyRegistry::new();
    let ports = vec![PortMap { host_port: 8080, container_port: 80, target_ip: None }];
    reg.remember_published_ports("abc".to_string(), Some("web".to_string()), ports, false);
    let forgotten = reg.forget_published_ports("web");
    assert_eq!(forgotten.len(), 1);
    assert_eq!(reg.published.resolve("web"), None);
    assert_eq!(reg.published.resolve("abc"), None);
    assert!(reg.forget_published_ports("abc").is_empty());
}

#[test]
fn created_container_records_ports_and_binds() {
    let host = "/tmp".to_string();
    let parsed = extract_bind_mounts(&Some(vec![format!("{host}:/b")])).unwrap();
    let mut reg: ProxyRegistry<u16> = ProxyRegistry::new();
    let ns = reg.allocate_bind_namespace();
    let mounts = host_bind_mounts(&parsed, &Some(ns));
    reg.record_created(
        "abc".to_string(),
        Some("web".to_string()),
        vec![PortMap { host_port: 8080, container_port: 80, target_ip: None }],
        mounts,
    );
    assert!(reg.has_published_ports("web"));
    let removed = reg.forget_bind_mounts("web");
    assert_eq!(removed.len(), 1);
    assert_eq!(removed[0].runtime_namespace, Some("b1".to_string()));
    assert!(reg.forget_bind_mounts("web").is_empty());

    let mut empty: ProxyRegistry<u16> = ProxyRegistry::new();
    empty.record_created("x".to_string(), None, vec![], vec![]);
    assert!(!empty.has_published_ports("x"));
    assert_eq!(empty.published.resolve("x"), None);
}

#[test]
fn published_port_errors_name_the_container() {
    match speck::proxy::unresolved_target_error("web") {
        DockerApiError::Internal(m) => assert_eq!(m, "failed to resolve published-port target IP for started container web"),
        _ => panic!("internal error expected"),
    }
    match speck::proxy::expose_failed_error(8080, "web", "in use") {
        DockerApiError::Internal(m) => assert_eq!(m, "failed to expose published port 8080 for container web: in use"),
        _ => panic!("internal error expected"),
    }
    match speck::proxy::bind_registration_error("c1", "refused") {
        DockerApiError::Internal(m) => assert_eq!(m, "failed to register bind mounts for container c1: refused"),
        _ => panic!("internal error expected"),
    }
}
