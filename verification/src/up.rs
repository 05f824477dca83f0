//! Decisions taken while bringing the VM up: sizing the data disk, checking
//! the versions of downloaded assets, refusing a resource change while a VM
//! still runs, reading `lsof` output, and the launchd agent definition.
use vstd::prelude::*;
use crate::config::EffectiveVmConfig;
use crate::text;

verus! {

/// Version of the root filesystem image this build expects.
pub const ROOTFS_VERSION: &'static str = "0.2.0";

/// Version of the custom initrd this build expects.
pub const INITRD_VERSION: &'static str = "0.1.0";

/// The launchd label of the background agent.
pub const LAUNCHD_LABEL: &'static str = "io.speck.vm";

/// Bytes in one GiB.
pub const GIB: u64 = 1073741824;

/// Why bringing the VM up stopped.
#[derive(Clone, Debug)]
pub enum UpError {
    /// The requested disk size in bytes does not fit in a `u64`.
    DiskSizeOverflow,
    /// The requested disk is smaller than the existing one.
    DiskShrink { requested_gb: u64, current_gb: u64 },
    /// An asset's version file names another version than this build needs.
    StaleAsset { asset: String, path: String, found: String, required: String },
    /// The VM runs with other resources than those requested.
    ResourceChange { old: EffectiveVmConfig, new: EffectiveVmConfig },
    /// The Docker API socket did not answer in time.
    ReadyTimeout { secs: u64, socket: String },
}

impl UpError {
    /// The human-readable text of the error.
    pub fn message(&self) -> (r: String)
        ensures
            self is DiskSizeOverflow ==> r@ == "requested disk size overflows u64 bytes"@,
            self matches UpError::DiskShrink { requested_gb, current_gb } ==> r@
                == "disk shrink not supported: requested "@ + text::decimal_text(
                requested_gb as nat,
            ) + " GiB but current disk is "@ + text::decimal_text(current_gb as nat) + " GiB"@,
            self matches UpError::StaleAsset { asset, path, found, required } ==> r@ == "stale "@
                + asset@ + " asset version at "@ + path@ + ": found "@ + found@ + ", required "@
                + required@ + "; run `spk up --pull` to refresh VM assets"@,
            self matches UpError::ResourceChange { old, new } ==> r@
                == "VM resource change requires restart: old cpus="@ + text::decimal_text(
                old.cpus as nat,
            ) + " memory_mb="@ + text::decimal_text(old.memory_mb as nat) + ", new cpus="@
                + text::decimal_text(new.cpus as nat) + " memory_mb="@ + text::decimal_text(
                new.memory_mb as nat,
            ) + ". Stop the VM and run spk up again."@,
            self matches UpError::ReadyTimeout { secs, socket } ==> r@ == "timed out after "@
                + text::decimal_text(secs as nat) + "s waiting for "@ + socket@
                + " \u{2014} run `spk logs` for details"@,
    {
        match self {
            UpError::DiskSizeOverflow => text::string_of("requested disk size overflows u64 bytes"),
            UpError::DiskShrink { requested_gb, current_gb } => {
                let mut r = text::string_of("disk shrink not supported: requested ");
                text::push_decimal(&mut r, *requested_gb);
                text::push_str(&mut r, " GiB but current disk is ");
                text::push_decimal(&mut r, *current_gb);
                text::push_str(&mut r, " GiB");
                r
            },
            UpError::StaleAsset { asset, path, found, required } => {
                let mut r = text::string_of("stale ");
                text::push_str(&mut r, asset.as_str());
                text::push_str(&mut r, " asset version at ");
                text::push_str(&mut r, path.as_str());
                text::push_str(&mut r, ": found ");
                text::push_str(&mut r, found.as_str());
                text::push_str(&mut r, ", required ");
                text::push_str(&mut r, required.as_str());
                text::push_str(&mut r, "; run `spk up --pull` to refresh VM assets");
                r
            },
            UpError::ResourceChange { old, new } => {
                let mut r = text::string_of("VM resource change requires restart: old cpus=");
                text::push_decimal(&mut r, old.cpus);
                text::push_str(&mut r, " memory_mb=");
                text::push_decimal(&mut r, old.memory_mb);
                text::push_str(&mut r, ", new cpus=");
                text::push_decimal(&mut r, new.cpus);
                text::push_str(&mut r, " memory_mb=");
                text::push_decimal(&mut r, new.memory_mb);
                text::push_str(&mut r, ". Stop the VM and run spk up again.");
                r
            },
            UpError::ReadyTimeout { secs, socket } => {
                let mut r = text::string_of("timed out after ");
                text::push_decimal(&mut r, *secs);
                text::push_str(&mut r, "s waiting for ");
                text::push_str(&mut r, socket.as_str());
                text::push_str(&mut r, " \u{2014} run `spk logs` for details");
                r
            },
        }
    }
}

/// The size in bytes of a disk of `gb` GiB, when it fits in a `u64`.
pub open spec fn disk_bytes(gb: u64) -> Option<u64> {
    if gb * GIB <= u64::MAX {
        Some((gb * GIB) as u64)
    } else {
        None
    }
}

/// The size in bytes of a disk of `requested_gb` GiB; an error when it does
/// not fit in a `u64`.
pub fn requested_disk_bytes(requested_gb: u64) -> (r: Result<u64, UpError>)
    ensures
        match disk_bytes(requested_gb) {
            Some(b) => r == Ok::<u64, UpError>(b),
            None => r matches Err(UpError::DiskSizeOverflow),
        },
{
    let kib = requested_gb.checked_mul(1024);
    let mib = match kib {
        Some(k) => k.checked_mul(1024),
        None => None,
    };
    let bytes = match mib {
        Some(m) => m.checked_mul(1024),
        None => None,
    };
    assert(requested_gb * 1024 * 1024 * 1024 == requested_gb * GIB) by (nonlinear_arith);
    assert(requested_gb * 1024 <= requested_gb * 1024 * 1024 <= requested_gb * GIB) by (
    nonlinear_arith);
    match bytes {
        Some(b) => Ok(b),
        None => Err(UpError::DiskSizeOverflow),
    }
}

/// What to do with the data disk image.
#[derive(Clone, Copy, Debug, PartialEq, Eq, Structural)]
pub enum DiskPlan {
    /// No image exists: create one of `bytes` bytes.
    Create { bytes: u64 },
    /// The image is smaller than requested: grow it to `bytes` bytes.
    Grow { bytes: u64 },
    /// The image already has the requested size.
    Keep,
}

/// The plan for a data disk of `requested_gb` GiB when the current image has
/// `current` bytes (`None`: no image).
pub open spec fn disk_plan(requested_gb: u64, current: Option<u64>) -> Result<DiskPlan, UpError> {
    match disk_bytes(requested_gb) {
        None => Err(UpError::DiskSizeOverflow),
        Some(bytes) => match current {
            None => Ok(DiskPlan::Create { bytes }),
            Some(cur) => if bytes < cur {
                Err(UpError::DiskShrink { requested_gb, current_gb: cur / GIB })
            } else if bytes > cur {
                Ok(DiskPlan::Grow { bytes })
            } else {
                Ok(DiskPlan::Keep)
            },
        },
    }
}

/// Plans the data disk: create it at the requested size, grow it, or keep it;
/// shrinking is refused.
pub fn plan_data_disk(requested_gb: u64, current_bytes: Option<u64>) -> (r: Result<
    DiskPlan,
    UpError,
>)
    ensures
        r == disk_plan(requested_gb, current_bytes),
{
    let bytes = match requested_disk_bytes(requested_gb) {
        Ok(b) => b,
        Err(e) => return Err(e),
    };
    match current_bytes {
        None => Ok(DiskPlan::Create { bytes }),
        Some(cur) => {
            if bytes < cur {
                Err(UpError::DiskShrink { requested_gb, current_gb: cur / 1024 / 1024 / 1024 })
            } else if bytes > cur {
                Ok(DiskPlan::Grow { bytes })
            } else {
                Ok(DiskPlan::Keep)
            }
        },
    }
}

/// The size a disk image has after `plan` was carried out on an image of
/// `current` bytes.
pub open spec fn size_after(plan: DiskPlan, current: Option<u64>) -> Option<u64> {
    match plan {
        DiskPlan::Create { bytes } => Some(bytes),
        DiskPlan::Grow { bytes } => Some(bytes),
        DiskPlan::Keep => current,
    }
}

/// Reconciling the data disk reaches the requested size and never shrinks
/// it; once carried out, reconciling again with the same request keeps it.
pub proof fn lemma_disk_plan_reaches_request(requested_gb: u64, current: Option<u64>)
    ensures
        disk_plan(requested_gb, current) matches Ok(plan) ==> {
            &&& size_after(plan, current) == disk_bytes(requested_gb)
            &&& current matches Some(c) ==> c <= size_after(plan, current).unwrap()
            &&& disk_plan(requested_gb, size_after(plan, current)) == Ok::<DiskPlan, UpError>(
                DiskPlan::Keep,
            )
        },
{
}

/// Whether a version file with contents `on_disk` (`None`: no file) names
/// another version than `required`.
pub open spec fn stale(on_disk: Option<&str>, required: Seq<char>) -> bool {
    on_disk matches Some(c) && text::trim(c@) != required
}

/// Whether `e` reports asset `asset` stale at `path`, with `found` on disk
/// where `required` is needed.
pub open spec fn is_stale_error(
    e: UpError,
    asset: Seq<char>,
    path: Seq<char>,
    found: Seq<char>,
    required: Seq<char>,
) -> bool {
    e matches UpError::StaleAsset { asset: a, path: p, found: f, required: q } && a@ == asset
        && p@ == path && f@ == found && q@ == required
}

/// Checks one asset version file: a missing file (`on_disk` is `None`) passes;
/// otherwise its trimmed text must equal `required`.
pub fn check_asset_version_file(
    path: &str,
    asset_name: &str,
    required_version: &str,
    on_disk: Option<&str>,
) -> (r: Result<(), UpError>)
    ensures
        if stale(on_disk, required_version@) {
            r matches Err(e) && is_stale_error(
                e,
                asset_name@,
                path@,
                text::trim(on_disk.unwrap()@),
                required_version@,
            )
        } else {
            r is Ok
        },
{
    match on_disk {
        None => Ok(()),
        Some(c) => {
            let t = text::trimmed_chars(c);
            let want = text::chars_of(required_version);
            if text::chars_eq(t.as_slice(), want.as_slice()) {
                Ok(())
            } else {
                let found = text::string_from_chars(t.as_slice(), 0, t.len());
                proof {
                    assert(t@.subrange(0, t@.len() as int) =~= t@);
                }
                Err(
                    UpError::StaleAsset {
                        asset: text::string_of(asset_name),
                        path: text::string_of(path),
                        found,
                        required: text::string_of(required_version),
                    },
                )
            }
        },
    }
}

/// Checks the version files of the root filesystem (`rootfs.version`) and of
/// the custom initrd (`initrd/initrd.version`) under `speck_home`, in that
/// order; `rootfs` and `initrd` are the files' contents, `None` when absent.
pub fn check_asset_versions(speck_home: &str, rootfs: Option<&str>, initrd: Option<&str>) -> (r:
    Result<(), UpError>)
    ensures
        if stale(rootfs, ROOTFS_VERSION@) {
            r matches Err(e) && is_stale_error(
                e,
                "rootfs"@,
                text::path_join(speck_home@, "rootfs.version"@),
                text::trim(rootfs.unwrap()@),
                ROOTFS_VERSION@,
            )
        } else if stale(initrd, INITRD_VERSION@) {
            r matches Err(e) && is_stale_error(
                e,
                "initrd"@,
                text::path_join(speck_home@, "initrd/initrd.version"@),
                text::trim(initrd.unwrap()@),
                INITRD_VERSION@,
            )
        } else {
            r is Ok
        },
{
    let rootfs_path = text::join_path(speck_home, "rootfs.version");
    match check_asset_version_file(rootfs_path.as_str(), "rootfs", ROOTFS_VERSION, rootfs) {
        Ok(()) => {},
        Err(e) => return Err(e),
    }
    let initrd_path = text::join_path(speck_home, "initrd/initrd.version");
    check_asset_version_file(initrd_path.as_str(), "initrd", INITRD_VERSION, initrd)
}

/// The hint shown when the guest does not come up: where its console log is.
pub fn console_log_hint(speck_home: &str) -> (r: String)
    ensures
        r@ == "check "@ + text::path_join(speck_home@, "console.log"@)
            + " for guest boot messages"@,
{
    let log = text::join_path(speck_home, "console.log");
    let mut r = text::string_of("check ");
    text::push_str(&mut r, log.as_str());
    text::push_str(&mut r, " for guest boot messages");
    r
}

/// Refuses to start with other vCPU or memory settings than the VM that
/// still holds the disk images: `holders_exist` says whether another process
/// holds them, and `previous` is the resource snapshot the running VM wrote.
pub fn ensure_no_active_vm_resource_mismatch(
    holders_exist: bool,
    previous: Option<EffectiveVmConfig>,
    requested: &EffectiveVmConfig,
) -> (r: Result<(), UpError>)
    ensures
        r is Err <==> (holders_exist && (previous matches Some(p) && (p.cpus != requested.cpus
            || p.memory_mb != requested.memory_mb))),
        r matches Err(e) ==> (previous matches Some(p) && e == UpError::ResourceChange {
            old: p,
            new: *requested,
        }),
{
    if !holders_exist {
        return Ok(());
    }
    match previous {
        None => Ok(()),
        Some(p) => {
            if p.cpus != requested.cpus || p.memory_mb != requested.memory_mb {
                Err(UpError::ResourceChange { old: p, new: *requested })
            } else {
                Ok(())
            }
        },
    }
}

/// Whether `[a, e)` is one line of `b`: it starts at the beginning or after a
/// newline, ends at the end or at a newline, and holds no newline.
pub open spec fn is_line(b: Seq<u8>, a: int, e: int) -> bool {
    &&& 0 <= a <= e <= b.len()
    &&& (a == 0 || b[a - 1] == 10)
    &&& (e == b.len() || b[e] == 10)
    &&& forall|k: int| a <= k < e ==> b[k] != 10
}

/// The process id on one line of `lsof -t` output: the trimmed UTF-8 text as a
/// decimal `u32`.
pub open spec fn line_pid(line: Seq<u8>) -> Option<int> {
    if vstd::utf8::valid_utf8(line) {
        text::parse_unsigned(text::trim(vstd::utf8::decode_utf8(line)), u32::MAX as int)
    } else {
        None
    }
}

/// Whether a line names a process other than `my_pid`.
pub open spec fn names_other(line: Seq<u8>, my_pid: u32) -> bool {
    line_pid(line) matches Some(p) && p != my_pid
}

/// Whether some line of `lsof -t` output names a process other than `my_pid`.
pub open spec fn lists_other_holder(out: Seq<u8>, my_pid: u32) -> bool {
    exists|a: int, e: int| #[trigger] is_line(out, a, e) && names_other(out.subrange(a, e), my_pid)
}

fn line_names_other(line: &[u8], my_pid: u32) -> (r: bool)
    ensures
        r == names_other(line@, my_pid),
{
    match text::utf8_text(line) {
        Some(s) => {
            let t = text::trimmed_chars(s.as_str());
            match text::parse_unsigned_bounded(t.as_slice(), u32::MAX as u64) {
                Some(p) => p != my_pid as u64,
                None => false,
            }
        },
        None => false,
    }
}

proof fn lemma_line_unique(b: Seq<u8>, a: int, e: int, a2: int)
    requires
        is_line(b, a, e),
        is_line(b, a2, e),
    ensures
        a2 == a,
{
    if a2 < a {
        assert(b[a - 1] == 10);
    } else if a2 > a {
        assert(b[a2 - 1] == 10);
    }
}

/// Whether the output of `lsof -t <path>` lists a process other than
/// `my_pid` as holding the path.
pub fn lsof_lists_other_holder(out: &[u8], my_pid: u32) -> (r: bool)
    ensures
        r == lists_other_holder(out@, my_pid),
{
    let n = out.len();
    let mut start: usize = 0;
    let mut i: usize = 0;
    while i < n
        invariant
            n == out@.len(),
            start <= i <= n,
            start == 0 || out@[start - 1] == 10,
            forall|k: int| start <= k < i ==> out@[k] != 10,
            forall|a: int, e: int|
                #[trigger] is_line(out@, a, e) && e < start ==> !names_other(
                    out@.subrange(a, e),
                    my_pid,
                ),
        decreases n - i,
    {
        if out[i] == 10 {
            let line = vstd::slice::slice_subrange(out, start, i);
            if line_names_other(line, my_pid) {
                assert(is_line(out@, start as int, i as int));
                return true;
            }
            proof {
                assert forall|a: int, e: int|
                    #[trigger] is_line(out@, a, e) && e < i + 1 implies !names_other(
                    out@.subrange(a, e),
                    my_pid,
                ) by {
                    if e == i {
                        assert(is_line(out@, start as int, i as int));
                        lemma_line_unique(out@, start as int, e, a);
                    } else if e >= start {
                        assert(out@[e] == 10);
                    }
                }
            }
            start = i + 1;
        }
        i += 1;
    }
    let line = vstd::slice::slice_subrange(out, start, n);
    let last = line_names_other(line, my_pid);
    proof {
        assert(is_line(out@, start as int, n as int));
        if !last {
            assert forall|a: int, e: int| #[trigger]
                is_line(out@, a, e) implies !names_other(out@.subrange(a, e), my_pid) by {
                if e == n {
                    lemma_line_unique(out@, start as int, e, a);
                } else if e >= start {
                    assert(out@[e] == 10);
                }
            }
        }
    }
    last
}

fn line_other_pid(line: &[u8], my_pid: u32) -> (r: Option<u32>)
    ensures
        match r {
            Some(p) => line_pid(line@) == Some(p as int) && p != my_pid,
            None => !names_other(line@, my_pid),
        },
{
    match text::utf8_text(line) {
        Some(s) => {
            let t = text::trimmed_chars(s.as_str());
            match text::parse_unsigned_bounded(t.as_slice(), u32::MAX as u64) {
                Some(p) => if p != my_pid as u64 {
                    Some(p as u32)
                } else {
                    None
                },
                None => None,
            }
        },
        None => None,
    }
}

/// Every pid of `r` is another process named on some line of `out`.
pub open spec fn all_listed(out: Seq<u8>, my_pid: u32, r: Seq<u32>) -> bool {
    forall|j: int|
        0 <= j < r.len() ==> #[trigger] r[j] != my_pid && exists|a: int, e: int|
            #[trigger] is_line(out, a, e) && line_pid(out.subrange(a, e)) == Some(r[j] as int)
}

/// When line `[a, e)` of `out` names another process, its pid is in `r`.
pub open spec fn covers(out: Seq<u8>, my_pid: u32, r: Seq<u32>, a: int, e: int) -> bool {
    names_other(out.subrange(a, e), my_pid) ==> exists|j: int|
        0 <= j < r.len() && line_pid(out.subrange(a, e)) == Some(#[trigger] r[j] as int)
}

proof fn lemma_covers_grows(out: Seq<u8>, my_pid: u32, r: Seq<u32>, r2: Seq<u32>, a: int, e: int)
    requires
        covers(out, my_pid, r, a, e),
        r.len() <= r2.len(),
        forall|j: int| 0 <= j < r.len() ==> r2[j] == r[j],
    ensures
        covers(out, my_pid, r2, a, e),
{
    if names_other(out.subrange(a, e), my_pid) {
        let j = choose|j: int|
            0 <= j < r.len() && line_pid(out.subrange(a, e)) == Some(#[trigger] r[j] as int);
        assert(r2[j] == r[j]);
    }
}

fn note_line(out: &[u8], start: usize, end: usize, my_pid: u32, r: &mut Vec<u32>)
    requires
        is_line(out@, start as int, end as int),
        all_listed(out@, my_pid, old(r)@),
    ensures
        all_listed(out@, my_pid, final(r)@),
        covers(out@, my_pid, final(r)@, start as int, end as int),
        old(r)@.len() <= final(r)@.len(),
        forall|j: int| 0 <= j < old(r)@.len() ==> final(r)@[j] == old(r)@[j],
{
    let line = vstd::slice::slice_subrange(out, start, end);
    match line_other_pid(line, my_pid) {
        Some(p) => {
            let ghost before = r@;
            r.push(p);
            proof {
                assert(r@[r@.len() - 1] == p);
                assert forall|j: int| 0 <= j < r@.len() implies #[trigger] r@[j] != my_pid
                    && exists|a: int, e: int|
                    #[trigger] is_line(out@, a, e) && line_pid(out@.subrange(a, e)) == Some(
                        r@[j] as int,
                    ) by {
                    if j < before.len() {
                        assert(r@[j] == before[j]);
                    } else {
                        assert(is_line(out@, start as int, end as int));
                    }
                }
            }
        },
        None => {},
    }
}

/// The processes other than `my_pid` that the output of `lsof -t <path>`
/// lists, line by line: every pid returned is on some line, and every line
/// naming another process has its pid returned.
pub fn other_holder_pids(out: &[u8], my_pid: u32) -> (r: Vec<u32>)
    ensures
        all_listed(out@, my_pid, r@),
        forall|a: int, e: int| #[trigger] is_line(out@, a, e) ==> covers(out@, my_pid, r@, a, e),
{
    let n = out.len();
    let mut r: Vec<u32> = Vec::new();
    let mut start: usize = 0;
    let mut i: usize = 0;
    while i < n
        invariant
            n == out@.len(),
            start <= i <= n,
            start == 0 || out@[start - 1] == 10,
            forall|k: int| start <= k < i ==> out@[k] != 10,
            all_listed(out@, my_pid, r@),
            forall|a: int, e: int|
                #[trigger] is_line(out@, a, e) && e < start ==> covers(out@, my_pid, r@, a, e),
        decreases n - i,
    {
        if out[i] == 10 {
            assert(is_line(out@, start as int, i as int));
            let ghost before = r@;
            note_line(out, start, i, my_pid, &mut r);
            proof {
                assert forall|a: int, e: int|
                    #[trigger] is_line(out@, a, e) && e < i + 1 implies covers(
                    out@,
                    my_pid,
                    r@,
                    a,
                    e,
                ) by {
                    if e == i {
                        lemma_line_unique(out@, start as int, e, a);
                    } else if e >= start {
                        assert(out@[e] == 10);
                    } else {
                        lemma_covers_grows(out@, my_pid, before, r@, a, e);
                    }
                }
            }
            start = i + 1;
        }
        i += 1;
    }
    assert(is_line(out@, start as int, n as int));
    let ghost before = r@;
    note_line(out, start, n, my_pid, &mut r);
    proof {
        assert forall|a: int, e: int| #[trigger] is_line(out@, a, e) implies covers(
            out@,
            my_pid,
            r@,
            a,
            e,
        ) by {
            if e == n {
                lemma_line_unique(out@, start as int, e, a);
            } else if e >= start {
                assert(out@[e] == 10);
            } else {
                lemma_covers_grows(out@, my_pid, before, r@, a, e);
            }
        }
    }
    r
}

/// The assets to download before the VM can start.
#[derive(Clone, Copy, Debug, PartialEq, Eq, Structural)]
pub struct FetchPlan {
    /// The Kata kernel and its initrd.
    pub kata: bool,
    /// The custom initrd.
    pub initrd: bool,
    /// The root filesystem image.
    pub rootfs: bool,
}

/// Which assets to download: each one that is missing, or all of them when a
/// refresh is forced.
pub fn assets_to_fetch(
    force_refresh: bool,
    kernel_exists: bool,
    kata_initrd_exists: bool,
    custom_initrd_exists: bool,
    rootfs_exists: bool,
) -> (r: FetchPlan)
    ensures
        r.kata == (force_refresh || !kernel_exists || !kata_initrd_exists),
        r.initrd == (force_refresh || !custom_initrd_exists),
        r.rootfs == (force_refresh || !rootfs_exists),
{
    FetchPlan {
        kata: force_refresh || !kernel_exists || !kata_initrd_exists,
        initrd: force_refresh || !custom_initrd_exists,
        rootfs: force_refresh || !rootfs_exists,
    }
}

/// How `spk up` prepares the VM assets.
#[derive(Clone, Copy, Debug, PartialEq, Eq, Structural)]
pub struct AssetPlan {
    /// Check the version files of the assets on disk.
    pub check_versions: bool,
    /// Download what is missing and reconcile the data disk.
    pub ensure_assets: bool,
    /// Download every asset again.
    pub force_refresh: bool,
}

/// Asset preparation for `spk up`: nothing when the kernel, initrd, root
/// filesystem and data disk are all given on the command line; otherwise the
/// assets are ensured, and their versions checked unless `--pull` refreshes
/// them.
pub fn plan_assets(all_paths_overridden: bool, pull: bool) -> (r: AssetPlan)
    ensures
        r.ensure_assets == !all_paths_overridden,
        r.check_versions == (!all_paths_overridden && !pull),
        r.force_refresh == pull,
{
    AssetPlan {
        check_versions: !all_paths_overridden && !pull,
        ensure_assets: !all_paths_overridden,
        force_refresh: pull,
    }
}

/// The guest memory size in bytes for `memory_mb` MiB.
pub fn guest_memory_bytes(memory_mb: u64) -> (r: u64)
    requires
        memory_mb * 1048576 <= u64::MAX,
    ensures
        r == memory_mb * 1048576,
{
    memory_mb * 1024 * 1024
}

/// Whether the wait for the Docker API has run out: `elapsed_ms` since the
/// start against a limit of `timeout_secs` seconds.
pub fn ready_deadline_passed(elapsed_ms: u64, timeout_secs: u64) -> (r: bool)
    ensures
        r == (elapsed_ms >= timeout_secs * 1000),
{
    (elapsed_ms as u128) >= (timeout_secs as u128) * 1000
}

/// The error reported when the Docker API socket did not answer within
/// `timeout_secs` seconds.
pub fn ready_timeout_error(timeout_secs: u64, sock_path: &str) -> (r: UpError)
    ensures
        r matches UpError::ReadyTimeout { secs, socket } && secs == timeout_secs && socket@
            == sock_path@,
{
    UpError::ReadyTimeout { secs: timeout_secs, socket: text::string_of(sock_path) }
}

/// Where the launchd agent definition is written, under the user's home.
pub fn launchd_plist_path(home: &str) -> (r: String)
    ensures
        r@ == text::path_join(
            text::path_join(home@, "Library/LaunchAgents"@),
            LAUNCHD_LABEL@ + ".plist"@,
        ),
{
    let dir = text::join_path(home, "Library/LaunchAgents");
    let file = text::concat2(LAUNCHD_LABEL, ".plist");
    text::join_path(dir.as_str(), file.as_str())
}

/// The launchd domain of the user whose `id -u` printed `id_output`:
/// `gui/` and the trimmed id; `None` when the output is not UTF-8.
pub fn launchd_domain(id_output: &[u8]) -> (r: Option<String>)
    ensures
        r is Some <==> vstd::utf8::valid_utf8(id_output@),
        r matches Some(d) ==> d@ == "gui/"@ + text::trim(vstd::utf8::decode_utf8(id_output@)),
{
    match text::utf8_text(id_output) {
        Some(s) => {
            let t = text::trimmed_chars(s.as_str());
            let mut r = text::string_of("gui/");
            let mut i: usize = 0;
            while i < t.len()
                invariant
                    i <= t@.len(),
                    r@ == "gui/"@ + t@.subrange(0, i as int),
                decreases t@.len() - i,
            {
                text::push_char(&mut r, t[i]);
                i += 1;
                assert(r@ =~= "gui/"@ + t@.subrange(0, i as int));
            }
            assert(t@.subrange(0, t@.len() as int) =~= t@);
            Some(r)
        },
        None => None,
    }
}

/// The text of the launchd agent definition before the binary's path.
pub const PLIST_HEAD: &'static str = "<?xml version=\"1.0\" encoding=\"UTF-8\"?>
<!DOCTYPE plist PUBLIC \"-//Apple//DTD PLIST 1.0//EN\" \"http://www.apple.com/DTDs/PropertyList-1.0.dtd\">
<plist version=\"1.0\">
<dict>
    <key>Label</key>
    <string>io.speck.vm</string>
    <key>ProgramArguments</key>
    <array>
        <string>";

/// The text of the launchd agent definition after the binary's path.
pub const PLIST_TAIL: &'static str = "</string>
        <string>up</string>
        <string>--foreground</string>
    </array>
    <key>EnvironmentVariables</key>
    <dict>
        <key>SPECK_DAEMONIZED</key>
        <string>1</string>
        <key>PATH</key>
        <string>/opt/homebrew/bin:/usr/local/bin:/usr/bin:/bin:/usr/sbin:/sbin</string>
    </dict>
    <key>KeepAlive</key>
    <true/>
    <key>RunAtLoad</key>
    <true/>
</dict>
</plist>
";

/// The launchd agent that runs `binary up --foreground` at login and keeps it
/// alive, with `SPECK_DAEMONIZED=1` and a `PATH` that includes Homebrew.
pub fn render_launchd_plist(binary: &str) -> (r: String)
    ensures
        r@ == PLIST_HEAD@ + binary@ + PLIST_TAIL@,
{
    text::concat3(PLIST_HEAD, binary, PLIST_TAIL)
}

/// The kernel command line the guest boots with.
pub const GUEST_CMDLINE: &'static str = "console=hvc0 panic=-1 container_backend=dockerd docker_vsock_port=9003 ready_vsock_port=9000 dns_vsock_port=53 speck_guest_ip=172.16.0.2 speck_gateway=172.16.0.1 log_relay_vsock_port=9005";

/// The vsock port the guest signals readiness on.
pub const READY_VSOCK_PORT: u32 = 9000;

/// The vsock port of containerd in the guest.
pub const CONTAINERD_VSOCK_PORT: u32 = 9001;

/// The vsock port of buildkitd in the guest.
pub const BUILDKITD_VSOCK_PORT: u32 = 9002;

/// The vsock port of the guest's dockerd.
pub const DOCKER_VSOCK_PORT: u32 = 9003;

/// The vsock port of the guest's log relay.
pub const LOG_RELAY_VSOCK_PORT: u32 = 9005;

/// The vsock port of the guest's DNS forwarder.
pub const DNS_VSOCK_PORT: u32 = 53;

/// The files the VM boots from.
#[derive(Clone, Debug)]
pub struct VmPaths {
    pub kernel: String,
    pub initrd: String,
    pub rootfs: String,
    pub data_disk: String,
}

/// The file a path argument names, or the default under the Speck home.
pub open spec fn given_or(arg: Option<String>, speck_home: Seq<char>, rel: Seq<char>) -> Seq<char> {
    match arg {
        Some(p) => p@,
        None => text::path_join(speck_home, rel),
    }
}

/// The files the VM boots from: each one given on the command line, else
/// its place under the Speck home; the initrd falls back to the custom one,
/// then to the Kata one, when they exist, and is empty otherwise.
pub fn vm_paths(
    speck_home: &str,
    kernel: Option<String>,
    initrd: Option<String>,
    rootfs: Option<String>,
    data_disk: Option<String>,
    custom_initrd_exists: bool,
    kata_initrd_exists: bool,
) -> (r: VmPaths)
    ensures
        r.kernel@ == given_or(kernel, speck_home@, "kernel/vmlinux"@),
        r.rootfs@ == given_or(rootfs, speck_home@, "rootfs.img"@),
        r.data_disk@ == given_or(data_disk, speck_home@, "data.img"@),
        r.initrd@ == match initrd {
            Some(p) => p@,
            None => if custom_initrd_exists {
                text::path_join(speck_home@, "initrd/initrd.cpio.gz"@)
            } else if kata_initrd_exists {
                text::path_join(speck_home@, "initrd/"@ + crate::assets::KATA_INITRD_FILE@)
            } else {
                Seq::empty()
            },
        },
{
    let kernel = match kernel {
        Some(p) => p,
        None => text::join_path(speck_home, "kernel/vmlinux"),
    };
    let initrd = match initrd {
        Some(p) => p,
        None => if custom_initrd_exists {
            text::join_path(speck_home, "initrd/initrd.cpio.gz")
        } else if kata_initrd_exists {
            let rel = text::concat2("initrd/", crate::assets::KATA_INITRD_FILE);
            text::join_path(speck_home, rel.as_str())
        } else {
            String::new()
        },
    };
    let rootfs = match rootfs {
        Some(p) => p,
        None => text::join_path(speck_home, "rootfs.img"),
    };
    let data_disk = match data_disk {
        Some(p) => p,
        None => text::join_path(speck_home, "data.img"),
    };
    VmPaths { kernel, initrd, rootfs, data_disk }
}

/// The host trees shared with the guest at the same path: `/Users` always,
/// `/Volumes` and `/private/tmp` when they exist.
pub fn identity_mounts(volumes_exists: bool, private_tmp_exists: bool) -> (r: Vec<String>)
    ensures
        text::views_of(r@) == seq!["/Users"@] + (if volumes_exists {
            seq!["/Volumes"@]
        } else {
            Seq::empty()
        }) + (if private_tmp_exists {
            seq!["/private/tmp"@]
        } else {
            Seq::empty()
        }),
{
    let mut r: Vec<String> = Vec::new();
    r.push(text::string_of("/Users"));
    if volumes_exists {
        r.push(text::string_of("/Volumes"));
    }
    if private_tmp_exists {
        r.push(text::string_of("/private/tmp"));
    }
    assert(text::views_of(r@) =~= seq!["/Users"@] + (if volumes_exists {
        seq!["/Volumes"@]
    } else {
        Seq::empty()
    }) + (if private_tmp_exists {
        seq!["/private/tmp"@]
    } else {
        Seq::empty()
    }));
    r
}

/// The text of the pid file: the daemon's pid and a newline.
pub fn pid_file_text(pid: u32) -> (r: String)
    ensures
        r@ == text::decimal_text(pid as nat) + "\n"@,
{
    let mut r = String::new();
    text::push_decimal(&mut r, pid as u64);
    text::push_str(&mut r, "\n");
    r
}

} // verus!
