use speck::build_context::{
    build_complete_stream, build_failed_message, build_frontend, build_frontend_attrs,
    build_session_id, build_tag, buildkit_unavailable_message, frontend_attrs_from_query,
    line_copies, parse_tar_size, staged_context_file_name, summarize_tar_entries,
    validate_tar_path, BuildContext, BuildQuery, MAX_BUILD_CONTEXT_BYTES,
};

fn test_tar(entries: &[(&str, &[u8])]) -> Vec<u8> {
    let mut tar = Vec::new();
    for (path, data) in entries {
        let mut header = [0_u8; 512];
        write_bytes(&mut header[0..100], path.as_bytes());
        write_octal(&mut header[100..108], 0o644);
        write_octal(&mut header[108..116], 0);
        write_octal(&mut header[116..124], 0);
        write_octal(&mut header[124..136], data.len() as u64);
        write_octal(&mut header[136..148], 0);
        for byte in &mut header[148..156] {
            *byte = b' ';
        }
        header[156] = b'0';
        write_bytes(&mut header[257..263], b"ustar\0");
        write_bytes(&mut header[263..265], b"00");
        let checksum: u32 = header.iter().map(|b| u32::from(*b)).sum();
        write_checksum(&mut header[148..156], checksum);

        tar.extend_from_slice(&header);
        tar.extend_from_slice(data);
        let padding = (512 - (data.len() % 512)) % 512;
        tar.extend(std::iter::repeat_n(0, padding));
    }
    tar.extend_from_slice(&[0_u8; 1024]);
    tar
}

fn write_bytes(dst: &mut [u8], src: &[u8]) {
    let len = src.len().min(dst.len());
    dst[..len].copy_from_slice(&src[..len]);
}

fn write_octal(dst: &mut [u8], value: u64) {
    let text = format!("{:0width$o}\0", value, width = dst.len() - 1);
    write_bytes(dst, text.as_bytes());
}

fn write_checksum(dst: &mut [u8], value: u32) {
    let text = format!("{:06o}\0 ", value);
    write_bytes(dst, text.as_bytes());
}

#[test]
fn build_context_rejects_inputs_over_explicit_limit() {
    let too_large = vec![0_u8; MAX_BUILD_CONTEXT_BYTES + 1];

    let err = match BuildContext::from_bytes(&too_large) {
        Ok(_) => panic!("oversized context rejected"),
        Err(e) => e,
    };

    assert!(err.contains("build context exceeds"));
}

#[test]
fn build_context_accepts_tar_with_copy_source() {
    let tar = test_tar(&[
        (
            "Dockerfile",
            b"FROM scratch\nCOPY hello.txt /hello.txt\n".as_slice(),
        ),
        ("hello.txt", b"hello from context\n".as_slice()),
    ]);

    let context = match BuildContext::from_bytes(&tar) {
        Ok(c) => c,
        Err(e) => panic!("valid context: {e}"),
    };

    assert!(context.has_copy_or_add_source("Dockerfile"));
    let staged = context.staged_at("/tmp/speck-build-context-1-0.tar".to_string());
    assert_eq!(staged.staged_tar_path(), "/tmp/speck-build-context-1-0.tar");
    assert!(staged.has_copy_or_add_source("Dockerfile"));
}

#[test]
fn frontend_attrs_preserve_existing_build_query_mapping() {
    let query = BuildQuery {
        dockerfile: Some("Containerfile".into()),
        t: Some("example:latest".into()),
        target: Some("prod".into()),
        platform: Some("linux/arm64".into()),
        nocache: Some(true),
        buildargs: Some(r#"{"FEATURE":"on"}"#.into()),
        labels: Some(r#"{"org.opencontainers.image.title":"speck"}"#.into()),
        cachefrom: Some("type=registry,ref=example/cache".into()),
        ..Default::default()
    };

    let attrs = frontend_attrs_from_query(&query);

    assert_eq!(attrs.get("filename"), Some(&"Containerfile".to_string()));
    assert_eq!(attrs.get("target"), Some(&"prod".to_string()));
    assert_eq!(attrs.get("platform"), Some(&"linux/arm64".to_string()));
    assert_eq!(attrs.get("no-cache"), Some(&String::new()));
    assert_eq!(attrs.get("build-arg:FEATURE"), Some(&"on".to_string()));
    assert_eq!(
        attrs.get("label:org.opencontainers.image.title"),
        Some(&"speck".to_string())
    );
    assert_eq!(
        attrs.get("cache-from"),
        Some(&"type=registry,ref=example/cache".to_string())
    );
}

#[test]
fn summarize_reads_paths_and_data_in_order() {
    let tar = test_tar(&[("a.txt", b"first".as_slice()), ("dir/b.txt", b"second".as_slice())]);
    let entries = match summarize_tar_entries(&tar) {
        Ok(es) => es,
        Err(e) => panic!("valid archive: {e}"),
    };
    assert_eq!(entries.len(), 2);
    assert_eq!(entries[0].path, "a.txt");
    assert_eq!(entries[0].data, b"first".to_vec());
    assert_eq!(entries[1].path, "dir/b.txt");
    assert_eq!(entries[1].data, b"second".to_vec());
}

#[test]
fn summarize_of_empty_input_has_no_entries() {
    let entries = summarize_tar_entries(&[]).ok().unwrap();
    assert!(entries.is_empty());
    let zeros = vec![0_u8; 1024];
    assert!(summarize_tar_entries(&zeros).ok().unwrap().is_empty());
}

#[test]
fn summarize_refuses_parent_directory_path() {
    let tar = test_tar(&[("../escape", b"x".as_slice())]);
    match summarize_tar_entries(&tar) {
        Ok(_) => panic!("unsafe path accepted"),
        Err(e) => assert_eq!(e, "build context tar contains unsafe path"),
    }
}

#[test]
fn summarize_refuses_absolute_path() {
    let tar = test_tar(&[("/etc/passwd", b"x".as_slice())]);
    match summarize_tar_entries(&tar) {
        Ok(_) => panic!("absolute path accepted"),
        Err(e) => assert_eq!(e, "build context tar contains unsafe path"),
    }
}

#[test]
fn summarize_refuses_entry_past_archive() {
    let mut tar = test_tar(&[("big", vec![7_u8; 600].as_slice())]);
    tar.truncate(512 + 100);
    match summarize_tar_entries(&tar) {
        Ok(_) => panic!("truncated entry accepted"),
        Err(e) => assert_eq!(e, "build context tar entry extends past archive"),
    }
}

#[test]
fn summarize_refuses_bad_size_field() {
    let mut tar = test_tar(&[("f", b"x".as_slice())]);
    tar[124] = b'9';
    match summarize_tar_entries(&tar) {
        Ok(_) => panic!("bad size accepted"),
        Err(e) => assert_eq!(e, "invalid tar size"),
    }
}

#[test]
fn summarize_refuses_non_utf8_path() {
    let mut tar = test_tar(&[("f", b"x".as_slice())]);
    tar[0] = 0xff;
    match summarize_tar_entries(&tar) {
        Ok(_) => panic!("bad path accepted"),
        Err(e) => assert_eq!(e, "build context tar path is not UTF-8"),
    }
}

#[test]
fn tar_size_reads_octal_with_padding() {
    let mut header = vec![0_u8; 512];
    header[124..136].copy_from_slice(b"00000001750\0");
    assert_eq!(parse_tar_size(&header), Ok(1000));
    header[124..136].copy_from_slice(b"+17\0        ");
    assert_eq!(parse_tar_size(&header), Ok(15));
    header[124..136].copy_from_slice(b"\0\0\0\0\0\0\0\0\0\0\0\0");
    assert_eq!(parse_tar_size(&header), Err("invalid tar size".to_string()));
}

#[test]
fn tar_paths_are_checked() {
    assert!(validate_tar_path("a/b/c").is_ok());
    assert!(validate_tar_path("a/..b/c").is_ok());
    assert!(validate_tar_path("a/../c").is_err());
    assert!(validate_tar_path("/abs").is_err());
}

#[test]
fn copy_lines_are_recognised() {
    assert!(line_copies("COPY a b"));
    assert!(line_copies("   ADD x /y"));
    assert!(line_copies("\tCOPY . /src"));
    assert!(!line_copies("RUN cp a b"));
    assert!(!line_copies("COPYa b"));
    assert!(!line_copies("# COPY a b"));
}

#[test]
fn copy_source_needs_the_named_dockerfile() {
    let tar = test_tar(&[
        ("Dockerfile", b"FROM scratch\nRUN true\n".as_slice()),
        ("Containerfile", b"FROM scratch\r\n  ADD a /a\r\n".as_slice()),
    ]);
    let context = BuildContext::from_bytes(&tar).ok().unwrap();
    assert!(!context.has_copy_or_add_source("Dockerfile"));
    assert!(context.has_copy_or_add_source("Containerfile"));
    assert!(!context.has_copy_or_add_source("Missing"));
}

#[test]
fn build_plan_defaults() {
    let query = BuildQuery::default();
    assert_eq!(build_tag(&query), "latest");
    assert_eq!(build_frontend(&query), "dockerfile.v0");
    let remote = BuildQuery {
        remote: Some("https://example.com/repo.git".into()),
        t: Some("app:1".into()),
        ..Default::default()
    };
    assert_eq!(build_tag(&remote), "app:1");
    assert_eq!(build_frontend(&remote), "gateway.v0");
}

#[test]
fn build_attrs_add_context_and_copy_flag() {
    let tar = test_tar(&[("Dockerfile", b"FROM scratch\nCOPY a /a\n".as_slice())]);
    let context = BuildContext::from_bytes(&tar)
        .ok()
        .unwrap()
        .staged_at("/tmp/ctx.tar".to_string());
    let attrs = build_frontend_attrs(&BuildQuery::default(), &context);
    assert_eq!(attrs.get("context:local"), Some(&"/tmp/ctx.tar".to_string()));
    assert_eq!(attrs.get("speck.context.has-copy-add"), Some(&"true".to_string()));
    assert_eq!(attrs.get("filename"), None);
}

#[test]
fn unparsable_build_args_are_ignored() {
    let query = BuildQuery {
        buildargs: Some("not json".into()),
        labels: Some(r#"{"a":"1","b":"2"}"#.into()),
        ..Default::default()
    };
    let attrs = frontend_attrs_from_query(&query);
    assert_eq!(attrs.len(), 2);
    assert_eq!(attrs.get("label:a"), Some(&"1".to_string()));
    assert_eq!(attrs.get("label:b"), Some(&"2".to_string()));
}

#[test]
fn build_messages() {
    assert_eq!(build_session_id(42, 7), "speck-build-42-7");
    assert_eq!(staged_context_file_name(42, 7), "speck-build-context-42-7.tar");
    assert_eq!(build_complete_stream("app:1"), "Build complete for app:1\n");
    assert_eq!(build_failed_message("boom"), "Build failed: boom");
    assert_eq!(buildkit_unavailable_message("down"), "BuildKit unavailable: down");
}
