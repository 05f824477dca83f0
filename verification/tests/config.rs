use speck::config::{
    check_config_version, collect_unknown_keys, parse_env_u64, resolve_effective_config_with_physical_cores,
    stage_ca_cert, validate_effective_vm_config_with_physical_cores, validate_log_level, AppConfig,
    CaCertError, ConfigError, ConfigKeys, EffectiveConfig, EffectiveVmConfig, EnvVar, FileVmConfig,
    SpeckEnv, UpOverrides,
};

fn no_env() -> SpeckEnv {
    SpeckEnv {
        vm_cpus: EnvVar::NotPresent,
        vm_memory_mb: EnvVar::NotPresent,
        vm_disk_gb: EnvVar::NotPresent,
        log_level: EnvVar::NotPresent,
    }
}

fn no_cli() -> UpOverrides {
    UpOverrides { cpus: None, memory: None, disk: None }
}

#[test]
fn rejects_cpu_count_above_physical_cores() {
    let config = EffectiveVmConfig { cpus: 9, memory_mb: 2048, disk_gb: 20 };
    let err = validate_effective_vm_config_with_physical_cores(&config, 8).unwrap_err().message();
    assert!(err.contains("physical core"));
    assert_eq!(err, "vm.cpus (9) exceeds host physical core count (8)");
}

#[test]
fn rejects_memory_below_512_mib() {
    let config = EffectiveVmConfig { cpus: 2, memory_mb: 511, disk_gb: 20 };
    let err = validate_effective_vm_config_with_physical_cores(&config, 8).unwrap_err().message();
    assert!(err.contains("512 MiB"));
}

#[test]
fn rejects_zero_cpus_and_zero_disk() {
    let zero_cpus = EffectiveVmConfig { cpus: 0, memory_mb: 2048, disk_gb: 20 };
    assert_eq!(
        validate_effective_vm_config_with_physical_cores(&zero_cpus, 8).unwrap_err().message(),
        "vm.cpus must be at least 1"
    );
    let zero_disk = EffectiveVmConfig { cpus: 2, memory_mb: 2048, disk_gb: 0 };
    assert_eq!(
        validate_effective_vm_config_with_physical_cores(&zero_disk, 8).unwrap_err().message(),
        "vm.disk_gb must be at least 1 GiB"
    );
    let ok = EffectiveVmConfig { cpus: 8, memory_mb: 512, disk_gb: 1 };
    assert!(validate_effective_vm_config_with_physical_cores(&ok, 8).is_ok());
}

#[test]
fn precedence_env_cli_file_default() {
    let mut env = no_env();
    env.vm_cpus = EnvVar::Present("8".to_string());
    let cli = UpOverrides { cpus: Some(2), memory: None, disk: None };
    let mut file = AppConfig::default();
    file.vm = FileVmConfig { cpus: Some(4), memory_mb: None, disk_gb: None };
    let effective = resolve_effective_config_with_physical_cores(file, &cli, &env, 16).unwrap();
    assert_eq!(effective.vm.cpus, 8);
    assert_eq!(effective.vm.memory_mb, 2048);
    assert_eq!(effective.vm.disk_gb, 20);
    assert_eq!(effective.log_level, "info");
}

#[test]
fn cli_overrides_file_which_overrides_default() {
    let cli = UpOverrides { cpus: None, memory: Some(4096), disk: None };
    let mut file = AppConfig::default();
    file.vm = FileVmConfig { cpus: Some(4), memory_mb: Some(1024), disk_gb: None };
    let effective = resolve_effective_config_with_physical_cores(file, &cli, &no_env(), 16).unwrap();
    assert_eq!(effective.vm, EffectiveVmConfig { cpus: 4, memory_mb: 4096, disk_gb: 20 });
}

#[test]
fn env_overrides_all_config_fields() {
    let env = SpeckEnv {
        vm_cpus: EnvVar::Present("6".to_string()),
        vm_memory_mb: EnvVar::Present("4096".to_string()),
        vm_disk_gb: EnvVar::Present("40".to_string()),
        log_level: EnvVar::Present("debug".to_string()),
    };
    let cli = UpOverrides { cpus: Some(2), memory: Some(2048), disk: Some(20) };
    let mut file = AppConfig::default();
    file.vm = FileVmConfig { cpus: Some(4), memory_mb: Some(3072), disk_gb: Some(30) };
    file.log_level = Some("info".to_string());
    let effective = resolve_effective_config_with_physical_cores(file, &cli, &env, 16).unwrap();
    assert_eq!(effective.vm.cpus, 6);
    assert_eq!(effective.vm.memory_mb, 4096);
    assert_eq!(effective.vm.disk_gb, 40);
    assert_eq!(effective.log_level, "debug");
}

#[test]
fn invalid_env_value_names_variable_and_unit() {
    let mut env = no_env();
    env.vm_memory_mb = EnvVar::Present("abc".to_string());
    let err = resolve_effective_config_with_physical_cores(AppConfig::default(), &no_cli(), &env, 16)
        .unwrap_err()
        .message();
    assert!(err.contains("SPECK_VM_MEMORY_MB"));
    assert!(err.contains("MiB"));
    assert_eq!(err, "SPECK_VM_MEMORY_MB must be an unsigned integer MiB; got `abc`");
}

#[test]
fn parse_env_u64_parses_exact_text_and_reports() {
    assert_eq!(parse_env_u64("SPECK_VM_CPUS", "vCPU count", &EnvVar::NotPresent).unwrap(), None);
    assert_eq!(
        parse_env_u64("SPECK_VM_CPUS", "vCPU count", &EnvVar::Present("12".to_string())).unwrap(),
        Some(12)
    );
    assert!(parse_env_u64("SPECK_VM_CPUS", "vCPU count", &EnvVar::Present(" 12 ".to_string())).is_err());
    let err = parse_env_u64("SPECK_VM_CPUS", "vCPU count", &EnvVar::Present("-1".to_string()))
        .unwrap_err();
    assert_eq!(err.message(), "SPECK_VM_CPUS must be an unsigned integer vCPU count; got `-1`");
    let err = parse_env_u64("SPECK_VM_DISK_GB", "GiB", &EnvVar::NotUnicode("\"\\xFF\"".to_string()))
        .unwrap_err();
    assert_eq!(err.message(), "SPECK_VM_DISK_GB must be valid UTF-8 GiB: \"\\xFF\"");
    let too_big = parse_env_u64("SPECK_VM_CPUS", "vCPU count", &EnvVar::Present("18446744073709551616".to_string()));
    assert!(too_big.is_err());
}

#[test]
fn invalid_log_level_names_env_var() {
    let mut env = no_env();
    env.log_level = EnvVar::Present("not a valid filter".to_string());
    let err = resolve_effective_config_with_physical_cores(AppConfig::default(), &no_cli(), &env, 16)
        .unwrap_err()
        .message();
    assert!(err.contains("SPECK_LOG_LEVEL"));
}

#[test]
fn invalid_file_log_level_names_config_key() {
    let mut file = AppConfig::default();
    file.log_level = Some("not a valid filter".to_string());
    let err = resolve_effective_config_with_physical_cores(file, &no_cli(), &no_env(), 16).unwrap_err();
    assert_eq!(err.message(), "log_level must be a valid tracing EnvFilter directive");
    assert!(validate_log_level("log_level", "debug,hyper=warn").is_ok());
}

#[test]
fn config_version_must_be_one() {
    assert!(check_config_version(Some(1)).is_ok());
    let err = check_config_version(Some(2)).unwrap_err();
    assert_eq!(err.message(), "unsupported config version Some(2); expected version 1");
    assert_eq!(
        check_config_version(None).unwrap_err().message(),
        "unsupported config version None; expected version 1"
    );
}

#[test]
fn defaults_are_two_cpus_two_gib_twenty_gib() {
    let c = EffectiveConfig::default();
    assert_eq!(c.vm, EffectiveVmConfig { cpus: 2, memory_mb: 2048, disk_gb: 20 });
    assert_eq!(c.log_level, "info");
    assert_eq!(AppConfig::default().version, Some(1));
}

#[test]
fn unknown_keys_warn_lenient_strict_rejects() {
    let keys = ConfigKeys {
        top: vec!["version".into(), "vm".into(), "unexpected".into()],
        vm: Some(vec!["cpus".into(), "typo".into()]),
        ca: None,
    };
    let warnings = collect_unknown_keys(&keys);
    assert!(warnings.iter().any(|w| w.path == "vm.typo"));
    assert!(warnings.iter().any(|w| w.path == "unexpected"));
    assert_eq!(warnings.len(), 2);
    let typo = warnings.iter().find(|w| w.path == "vm.typo").unwrap();
    assert_eq!(typo.message, "unknown config key `vm.typo` ignored");
}

const VALID_PEM: &[u8] = b"-----BEGIN CERTIFICATE-----\nMIIB\n-----END CERTIFICATE-----\n";

#[test]
fn missing_file_returns_err_file_not_found() {
    let mut seen = Vec::new();
    let err = stage_ca_cert("/h/ca-certs", "/nonexistent/ca.pem", None, &mut seen).unwrap_err();
    assert_eq!(err, CaCertError::FileNotFound("/nonexistent/ca.pem".to_string()));
    assert!(err.message().contains("not found"));
}

#[test]
fn non_pem_content_returns_err_not_valid_pem() {
    let mut seen = Vec::new();
    let err = stage_ca_cert("/h/ca-certs", "/x/bad.pem", Some(b"not a certificate"), &mut seen)
        .unwrap_err();
    assert_eq!(err.message(), "not valid PEM: /x/bad.pem");
    let err = stage_ca_cert("/h/ca-certs", "/x/bin.pem", Some(&[0xff, 0xfe]), &mut seen).unwrap_err();
    assert_eq!(err.message(), "not valid PEM: /x/bin.pem");
    assert!(seen.is_empty());
}

#[test]
fn two_identical_certs_deduplicate() {
    let mut seen = Vec::new();
    let first = stage_ca_cert("/h/ca-certs", "/x/a.pem", Some(VALID_PEM), &mut seen).unwrap();
    let second = stage_ca_cert("/h/ca-certs", "/x/b.pem", Some(VALID_PEM), &mut seen).unwrap();
    let dest = first.expect("first cert is staged");
    assert!(dest.starts_with("/h/ca-certs/"));
    assert!(dest.ends_with(".pem"));
    // 64 lower-case hex digits of the SHA-256 digest, then `.pem`.
    let name = dest.trim_start_matches("/h/ca-certs/").trim_end_matches(".pem");
    assert_eq!(name.len(), 64);
    assert!(name.chars().all(|c| c.is_ascii_hexdigit() && !c.is_ascii_uppercase()));
    assert_eq!(second, None);
    assert_eq!(seen.len(), 1);
}

#[test]
fn staged_name_is_sha256_of_contents() {
    let mut seen = Vec::new();
    let dest = stage_ca_cert("/h/ca-certs", "/x/abc.pem", Some(b"-----BEGIN X-----"), &mut seen)
        .unwrap()
        .unwrap();
    let digest = "e73e5a989d61fc9be79c8d63bab0136c50aaa499a2f0593b6a2746ae86b725a1";
    assert_eq!(seen, vec![digest.to_string()]);
    assert_eq!(dest, format!("/h/ca-certs/{digest}.pem"));
}
