use speck::up::{identity_mounts, other_holder_pids, pid_file_text, vm_paths};
use speck::config::EffectiveVmConfig;
use speck::up::{
    assets_to_fetch, check_asset_version_file, check_asset_versions, console_log_hint,
    ensure_no_active_vm_resource_mismatch, guest_memory_bytes, launchd_domain, launchd_plist_path,
    lsof_lists_other_holder, plan_assets, plan_data_disk, ready_deadline_passed,
    ready_timeout_error, render_launchd_plist, requested_disk_bytes, DiskPlan, UpError,
    INITRD_VERSION, LAUNCHD_LABEL, ROOTFS_VERSION,
};

const GIB: u64 = 1024 * 1024 * 1024;

#[test]
fn requested_disk_bytes_multiplies_gib() {
    assert_eq!(requested_disk_bytes(20).unwrap(), 20 * GIB);
    assert_eq!(requested_disk_bytes(0).unwrap(), 0);
    let err = requested_disk_bytes(u64::MAX / 1024).unwrap_err();
    assert_eq!(err.message(), "requested disk size overflows u64 bytes");
    assert!(requested_disk_bytes(17179869183).is_ok());
    assert!(requested_disk_bytes(17179869184).is_err());
}

#[test]
fn data_disk_reconcile_creates_requested_size() {
    assert_eq!(plan_data_disk(2, None).unwrap(), DiskPlan::Create { bytes: 2 * GIB });
}

#[test]
fn data_disk_reconcile_grows_existing_image() {
    assert_eq!(plan_data_disk(3, Some(GIB)).unwrap(), DiskPlan::Grow { bytes: 3 * GIB });
    assert_eq!(plan_data_disk(3, Some(3 * GIB)).unwrap(), DiskPlan::Keep);
}

#[test]
fn data_disk_reconcile_rejects_shrink() {
    let err = plan_data_disk(1, Some(2 * GIB)).unwrap_err();
    assert_eq!(
        err.message(),
        "disk shrink not supported: requested 1 GiB but current disk is 2 GiB"
    );
}

#[test]
fn run_up_no_longer_uses_fixed_512_mib_data_disk_creation() {
    assert_eq!(plan_data_disk(20, None).unwrap(), DiskPlan::Create { bytes: 20 * GIB });
    assert_ne!(plan_data_disk(20, None).unwrap(), DiskPlan::Create { bytes: 512 * 1024 * 1024 });
}

#[test]
fn check_asset_versions_allows_matching_version_files() {
    assert!(check_asset_versions("/h", Some("0.2.0\n"), Some("0.1.0\n")).is_ok());
    assert!(check_asset_versions("/h", None, None).is_ok());
    assert_eq!(ROOTFS_VERSION, "0.2.0");
    assert_eq!(INITRD_VERSION, "0.1.0");
}

#[test]
fn check_asset_versions_rejects_stale_rootfs_with_pull_hint() {
    let err = check_asset_versions("/h", Some("0.1.9\n"), Some("0.1.0")).unwrap_err().message();
    assert!(err.contains("stale rootfs asset version"));
    assert!(err.contains("found 0.1.9"));
    assert!(err.contains("required 0.2.0"));
    assert!(err.contains("spk up --pull"));
    assert_eq!(
        err,
        "stale rootfs asset version at /h/rootfs.version: found 0.1.9, required 0.2.0; run `spk up --pull` to refresh VM assets"
    );
}

#[test]
fn check_asset_versions_rejects_stale_initrd_with_pull_hint() {
    let err = check_asset_versions("/h", None, Some("0.0.1")).unwrap_err().message();
    assert!(err.contains("stale initrd asset version at /h/initrd/initrd.version"));
    assert!(err.contains("spk up --pull"));
    assert!(check_asset_version_file("/p", "x", "1", Some(" 1 ")).is_ok());
}

#[test]
fn run_up_checks_versions_unless_pull_or_full_overrides() {
    let normal = plan_assets(false, false);
    assert!(normal.check_versions && normal.ensure_assets && !normal.force_refresh);
    let pull = plan_assets(false, true);
    assert!(!pull.check_versions && pull.ensure_assets && pull.force_refresh);
    let overridden = plan_assets(true, false);
    assert!(!overridden.check_versions && !overridden.ensure_assets);
}

#[test]
fn ensure_assets_fetches_missing_or_forced() {
    let p = assets_to_fetch(false, true, true, true, true);
    assert!(!p.kata && !p.initrd && !p.rootfs);
    let p = assets_to_fetch(false, true, false, true, false);
    assert!(p.kata && !p.initrd && p.rootfs);
    let p = assets_to_fetch(true, true, true, true, true);
    assert!(p.kata && p.initrd && p.rootfs);
}

#[test]
fn resource_change_requires_restart_when_runtime_active() {
    let old = EffectiveVmConfig { cpus: 2, memory_mb: 2048, disk_gb: 20 };
    let new = EffectiveVmConfig { cpus: 4, memory_mb: 2048, disk_gb: 20 };
    let err = ensure_no_active_vm_resource_mismatch(true, Some(old), &new).unwrap_err();
    assert_eq!(
        err.message(),
        "VM resource change requires restart: old cpus=2 memory_mb=2048, new cpus=4 memory_mb=2048. Stop the VM and run spk up again."
    );
    assert!(ensure_no_active_vm_resource_mismatch(false, Some(old), &new).is_ok());
    assert!(ensure_no_active_vm_resource_mismatch(true, None, &new).is_ok());
    let disk_only = EffectiveVmConfig { cpus: 2, memory_mb: 2048, disk_gb: 40 };
    assert!(ensure_no_active_vm_resource_mismatch(true, Some(old), &disk_only).is_ok());
}

#[test]
fn lsof_output_names_other_holders() {
    assert!(!lsof_lists_other_holder(b"", 100));
    assert!(!lsof_lists_other_holder(b"100\n", 100));
    assert!(lsof_lists_other_holder(b"100\n2345\n", 100));
    assert!(lsof_lists_other_holder(b" 77 ", 100));
    assert!(!lsof_lists_other_holder(b"abc\n\n-5\n", 100));
    assert!(!lsof_lists_other_holder(b"99999999999\n", 100));
}

#[test]
fn run_up_applies_effective_cpu_and_memory_to_guest_config() {
    assert_eq!(guest_memory_bytes(2048), 2048 * 1024 * 1024);
    assert_eq!(guest_memory_bytes(512), 536870912);
}

#[test]
fn console_log_hint_includes_exact_speck_home_path() {
    assert_eq!(
        console_log_hint("/Users/me/.local/share/speck"),
        "check /Users/me/.local/share/speck/console.log for guest boot messages"
    );
}

#[test]
fn run_up_includes_console_log_hint_on_ready_timeout() {
    let hint = console_log_hint("/h");
    assert!(hint.contains("/h/console.log"));
}

#[test]
fn wait_for_socket_prints_timeout_message() {
    let err = ready_timeout_error(30, "/h/speck.sock");
    assert_eq!(
        err.message(),
        "timed out after 30s waiting for /h/speck.sock \u{2014} run `spk logs` for details"
    );
    assert!(matches!(err, UpError::ReadyTimeout { secs: 30, .. }));
    assert!(!ready_deadline_passed(29_999, 30));
    assert!(ready_deadline_passed(30_000, 30));
    assert!(!ready_deadline_passed(u64::MAX, u64::MAX));
}

#[test]
fn daemonize_writes_launchd_label_in_plist() {
    assert_eq!(LAUNCHD_LABEL, "io.speck.vm");
    let plist = render_launchd_plist("/usr/local/bin/spk");
    assert!(plist.contains("<string>io.speck.vm</string>"));
    assert!(plist.contains("<string>/usr/local/bin/spk</string>\n        <string>up</string>\n        <string>--foreground</string>"));
    assert_eq!(launchd_plist_path("/Users/me"), "/Users/me/Library/LaunchAgents/io.speck.vm.plist");
}

#[test]
fn daemonize_sets_speck_daemonized_env_var() {
    let plist = render_launchd_plist("/bin/spk");
    assert!(plist.contains("<key>SPECK_DAEMONIZED</key>\n        <string>1</string>"));
}

#[test]
fn daemonize_includes_homebrew_in_path() {
    let plist = render_launchd_plist("/bin/spk");
    assert!(plist.contains("/opt/homebrew/bin"));
}

#[test]
fn daemonize_keepalive_true_runataload_true() {
    let plist = render_launchd_plist("/bin/spk");
    assert!(plist.contains("<key>KeepAlive</key>\n    <true/>"));
    assert!(plist.contains("<key>RunAtLoad</key>\n    <true/>"));
    assert!(plist.starts_with("<?xml version=\"1.0\" encoding=\"UTF-8\"?>\n"));
    assert!(plist.ends_with("</plist>\n"));
}

#[test]
fn launchd_domain_uses_trimmed_uid() {
    assert_eq!(launchd_domain(b"501\n"), Some("gui/501".to_string()));
    assert_eq!(launchd_domain(&[0xff]), None);
}

#[test]
fn vm_paths_default_under_speck_home() {
    let p = vm_paths("/h", None, None, None, None, true, true);
    assert_eq!(p.kernel, "/h/kernel/vmlinux");
    assert_eq!(p.initrd, "/h/initrd/initrd.cpio.gz");
    assert_eq!(p.rootfs, "/h/rootfs.img");
    assert_eq!(p.data_disk, "/h/data.img");
    let p = vm_paths("/h", Some("/k".to_string()), None, Some("/r".to_string()), None, false, true);
    assert_eq!(p.kernel, "/k");
    assert_eq!(p.initrd, "/h/initrd/kata-alpine-3.22.initrd");
    assert_eq!(p.rootfs, "/r");
    let p = vm_paths("/h", None, None, None, None, false, false);
    assert_eq!(p.initrd, "");
    assert_eq!(identity_mounts(true, false), vec!["/Users".to_string(), "/Volumes".to_string()]);
    assert_eq!(pid_file_text(4242), "4242\n");
}

#[test]
fn lsof_pids_other_than_ours_are_collected() {
    assert_eq!(other_holder_pids(b"100\n2345\n 77 \nabc\n", 100), vec![2345, 77]);
    assert!(other_holder_pids(b"100\n", 100).is_empty());
    assert!(other_holder_pids(b"", 100).is_empty());
}
