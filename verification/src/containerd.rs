//! The containerd-facing records of tasks, containers and images, and their
//! conversion from the fields that containerd reports.
use vstd::prelude::*;
use crate::codec;
use crate::error::DockerApiError;
use crate::text;

verus! {

/// Identifier of a task.
#[derive(Clone, Debug)]
pub struct TaskId(pub String);

/// What a task is created with.
#[derive(Clone, Debug)]
pub struct TaskSpec {
    pub container_id: String,
    pub terminal: bool,
    pub stdout_fifo: Option<String>,
    pub stderr_fifo: Option<String>,
}

/// Lifecycle state of a task.
#[derive(Clone, Copy, Debug, PartialEq, Eq, Structural)]
pub enum TaskStatus {
    Created,
    Running,
    Stopped,
    Paused,
    Unknown,
}

/// A task (the main process of a container, or an exec process).
#[derive(Clone, Debug)]
pub struct TaskInfo {
    pub container_id: String,
    pub exec_id: String,
    pub pid: u32,
    pub status: TaskStatus,
    pub exit_status: u32,
}

/// What a container is created with.
#[derive(Clone, Debug)]
pub struct ContainerCreateSpec {
    pub id: String,
    pub image: String,
    pub cmd: Vec<String>,
    pub env: Vec<String>,
    pub labels: Vec<(String, String)>,
    pub restart_policy: Option<String>,
    pub restart_maximum_retry_count: Option<i64>,
    pub memory: Option<i64>,
    pub cpu_shares: Option<i64>,
    pub tty: bool,
}

/// A container as containerd lists it.
#[derive(Clone, Debug)]
pub struct ContainerInfo {
    pub id: String,
    pub image: String,
    pub labels: Vec<(String, String)>,
    pub created_at_seconds: i64,
}

/// An exec process to start in a container.
#[derive(Clone, Debug)]
pub struct ExecProcessSpec {
    pub container_id: String,
    pub exec_id: String,
    pub cmd: Vec<String>,
    pub env: Vec<String>,
    pub terminal: bool,
}

/// An image as containerd lists it.
#[derive(Clone, Debug)]
pub struct ImageRecord {
    pub name: String,
    pub id: String,
    pub size: i64,
    pub created_at_seconds: i64,
    pub labels: Vec<(String, String)>,
}

/// The task status for a containerd status code: 1 created, 2 running,
/// 3 stopped, 4 paused and 5 pausing (both paused); 0 and every code that
/// containerd does not define are unknown.
pub open spec fn status_for_code(code: i32) -> TaskStatus {
    if code == 1 {
        TaskStatus::Created
    } else if code == 2 {
        TaskStatus::Running
    } else if code == 3 {
        TaskStatus::Stopped
    } else if code == 4 || code == 5 {
        TaskStatus::Paused
    } else {
        TaskStatus::Unknown
    }
}

/// Maps a containerd process status code to a task status.
pub fn status_from_code(code: i32) -> (r: TaskStatus)
    ensures
        r == status_for_code(code),
{
    match code {
        1 => TaskStatus::Created,
        2 => TaskStatus::Running,
        3 => TaskStatus::Stopped,
        4 | 5 => TaskStatus::Paused,
        _ => TaskStatus::Unknown,
    }
}

/// The task record for a containerd process.
pub fn process_to_task_info(
    container_id: String,
    id: String,
    pid: u32,
    status: i32,
    exit_status: u32,
) -> (r: TaskInfo)
    ensures
        r.container_id == container_id,
        r.exec_id == id,
        r.pid == pid,
        r.status == status_for_code(status),
        r.exit_status == exit_status,
{
    TaskInfo { container_id, exec_id: id, pid, status: status_from_code(status), exit_status }
}

/// The container record for a containerd container; a missing creation
/// timestamp counts as 0.
pub fn container_to_info(
    id: String,
    image: String,
    labels: Vec<(String, String)>,
    created_at_seconds: Option<i64>,
) -> (r: ContainerInfo)
    ensures
        r.id == id,
        r.image == image,
        r.labels == labels,
        r.created_at_seconds == match created_at_seconds {
            Some(s) => s,
            None => 0,
        },
{
    let created = match created_at_seconds {
        Some(s) => s,
        None => 0,
    };
    ContainerInfo { id, image, labels, created_at_seconds: created }
}

/// The image record for a containerd image: its id is the target digest
/// (the name when there is no target), its size the target's size (0 when
/// none), and a missing creation timestamp counts as 0.
pub fn image_to_record(
    name: String,
    target: Option<(String, i64)>,
    created_at_seconds: Option<i64>,
    labels: Vec<(String, String)>,
) -> (r: ImageRecord)
    ensures
        r.name == name,
        r.labels == labels,
        match target {
            Some((digest, size)) => r.id == digest && r.size == size,
            None => r.id@ == name@ && r.size == 0,
        },
        r.created_at_seconds == match created_at_seconds {
            Some(s) => s,
            None => 0,
        },
{
    let (id, size) = match target {
        Some((digest, size)) => (digest, size),
        None => (name.clone(), 0),
    };
    let created = match created_at_seconds {
        Some(s) => s,
        None => 0,
    };
    ImageRecord { name, id, size, created_at_seconds: created, labels }
}

/// The value of label `key`: the last assignment to it, as a map built from
/// the pairs in order keeps it.
pub open spec fn label_value(labels: Seq<(String, String)>, key: Seq<char>) -> Option<Seq<char>>
    decreases labels.len(),
{
    if labels.len() == 0 {
        None
    } else if labels.last().0@ == key {
        Some(labels.last().1@)
    } else {
        label_value(labels.drop_last(), key)
    }
}

/// Looks up label `key`.
pub fn get_label<'a>(labels: &'a Vec<(String, String)>, key: &str) -> (r: Option<&'a String>)
    ensures
        match label_value(labels@, key@) {
            Some(v) => r matches Some(x) && x@ == v,
            None => r is None,
        },
{
    let mut i = labels.len();
    assert(labels@.subrange(0, i as int) =~= labels@);
    while i > 0
        invariant
            i <= labels@.len(),
            label_value(labels@, key@) == label_value(labels@.subrange(0, i as int), key@),
        decreases i,
    {
        assert(labels@.subrange(0, i as int).drop_last() =~= labels@.subrange(0, i - 1));
        if text::str_eq(labels[i - 1].0.as_str(), key) {
            return Some(&labels[i - 1].1);
        }
        i -= 1;
    }
    None
}

/// The labels that containerd stores with a new container: those of the
/// request, then the image, the command and environment (each joined with
/// the unit separator U+001F), and the restart and resource settings that
/// were given.
pub open spec fn stored_labels(spec: ContainerCreateSpec) -> Seq<(Seq<char>, Seq<char>)> {
    spec.labels@.map_values(|p: (String, String)| (p.0@, p.1@)) + seq![
        ("speck.image"@, spec.image@),
        ("speck.cmd"@, text::joined_with(text::views_of(spec.cmd@), "\u{1f}"@)),
        ("speck.env"@, text::joined_with(text::views_of(spec.env@), "\u{1f}"@)),
    ] + match spec.restart_policy {
        Some(p) => seq![("speck.restart_policy"@, p@)],
        None => Seq::empty(),
    } + match spec.restart_maximum_retry_count {
        Some(n) => seq![("speck.restart_maximum_retry_count"@, text::signed_decimal_text(n as int))],
        None => Seq::empty(),
    } + match spec.memory {
        Some(n) => seq![("speck.memory"@, text::signed_decimal_text(n as int))],
        None => Seq::empty(),
    } + match spec.cpu_shares {
        Some(n) => seq![("speck.cpu_shares"@, text::signed_decimal_text(n as int))],
        None => Seq::empty(),
    }
}

/// The views of label pairs.
pub open spec fn label_views(labels: Seq<(String, String)>) -> Seq<(Seq<char>, Seq<char>)> {
    labels.map_values(|p: (String, String)| (p.0@, p.1@))
}

fn signed_text(n: i64) -> (r: String)
    ensures
        r@ == text::signed_decimal_text(n as int),
{
    let mut r = String::new();
    text::push_signed_decimal(&mut r, n);
    assert(r@ =~= text::signed_decimal_text(n as int));
    r
}

fn push_label(labels: &mut Vec<(String, String)>, key: &str, value: String)
    ensures
        label_views(final(labels)@) == label_views(old(labels)@).push((key@, value@)),
{
    labels.push((text::string_of(key), value));
    assert(label_views(labels@) =~= label_views(old(labels)@).push((key@, value@)));
}

/// Builds the labels stored with a new container.
pub fn container_labels(spec: &ContainerCreateSpec) -> (r: Vec<(String, String)>)
    ensures
        label_views(r@) == stored_labels(*spec),
{
    let mut labels: Vec<(String, String)> = Vec::new();
    let mut i: usize = 0;
    while i < spec.labels.len()
        invariant
            i <= spec.labels@.len(),
            labels@.len() == i,
            forall|j: int| 0 <= j < i ==> (#[trigger] labels@[j]) == spec.labels@[j],
        decreases spec.labels@.len() - i,
    {
        let k = spec.labels[i].0.clone();
        let v = spec.labels[i].1.clone();
        labels.push((k, v));
        i += 1;
    }
    assert(labels@ =~= spec.labels@);
    let ghost base = label_views(labels@);
    push_label(&mut labels, "speck.image", spec.image.clone());
    push_label(&mut labels, "speck.cmd", text::join_strings(&spec.cmd, "\u{1f}"));
    push_label(&mut labels, "speck.env", text::join_strings(&spec.env, "\u{1f}"));
    let ghost fixed = label_views(labels@);
    match &spec.restart_policy {
        Some(p) => push_label(&mut labels, "speck.restart_policy", p.clone()),
        None => {},
    }
    let ghost with_policy = label_views(labels@);
    match spec.restart_maximum_retry_count {
        Some(n) => push_label(&mut labels, "speck.restart_maximum_retry_count", signed_text(n)),
        None => {},
    }
    let ghost with_count = label_views(labels@);
    match spec.memory {
        Some(n) => push_label(&mut labels, "speck.memory", signed_text(n)),
        None => {},
    }
    let ghost with_memory = label_views(labels@);
    match spec.cpu_shares {
        Some(n) => push_label(&mut labels, "speck.cpu_shares", signed_text(n)),
        None => {},
    }
    assert(label_views(labels@) =~= stored_labels(*spec));
    labels
}

/// The default `PATH` of a container process.
pub const DEFAULT_PATH_ENV: &'static str = "PATH=/usr/local/sbin:/usr/local/bin:/usr/sbin:/usr/bin:/sbin:/bin";

/// Whether some entry of an environment sets `PATH`.
pub open spec fn sets_path(env: Seq<Seq<char>>) -> bool {
    exists|i: int| 0 <= i < env.len() && text::starts_with(#[trigger] env[i], "PATH="@)
}

/// The environment of a container's process: `env`, with the default `PATH`
/// put first when it sets none.
pub open spec fn env_with_path(env: Seq<Seq<char>>) -> Seq<Seq<char>> {
    if sets_path(env) {
        env
    } else {
        seq![DEFAULT_PATH_ENV@] + env
    }
}

/// The environment of a container's process: the requested one, with the
/// default `PATH` put first when it sets none.
pub fn process_env(env: &Vec<String>) -> (r: Vec<String>)
    ensures
        codec::views(r@) == env_with_path(codec::views(env@)),
{
    let prefix = text::chars_of("PATH=");
    let mut i: usize = 0;
    while i < env.len()
        invariant
            i <= env@.len(),
            prefix@ == "PATH="@,
            forall|j: int| 0 <= j < i ==> !text::starts_with((#[trigger] env@[j])@, "PATH="@),
        decreases env@.len() - i,
    {
        let cs = text::chars_of(env[i].as_str());
        if text::chars_start_with(cs.as_slice(), prefix.as_slice()) {
            assert(codec::views(env@)[i as int] == env@[i as int]@);
            return crate::exec::clone_strings(env);
        }
        i += 1;
    }
    assert(!sets_path(codec::views(env@))) by {
        assert forall|j: int| 0 <= j < env@.len() implies !text::starts_with(
            #[trigger] codec::views(env@)[j],
            "PATH="@,
        ) by {
            assert(codec::views(env@)[j] == env@[j]@);
        }
    }
    let mut r: Vec<String> = Vec::new();
    r.push(text::string_of(DEFAULT_PATH_ENV));
    let mut j: usize = 0;
    while j < env.len()
        invariant
            j <= env@.len(),
            r@.len() == j + 1,
            r@[0]@ == DEFAULT_PATH_ENV@,
            r@.drop_first() == env@.subrange(0, j as int),
        decreases env@.len() - j,
    {
        r.push(env[j].clone());
        j += 1;
        assert(r@.drop_first() =~= env@.subrange(0, j as int));
    }
    assert(env@.subrange(0, j as int) =~= env@);
    assert(codec::views(r@) =~= env_with_path(codec::views(env@))) by {
        assert forall|k: int| 0 <= k < r@.len() implies #[trigger] codec::views(r@)[k]
            == env_with_path(codec::views(env@))[k] by {
            if k > 0 {
                assert(r@[k] == r@.drop_first()[k - 1]);
            }
        }
    }
    r
}

/// The reference containerd's transfer service resolves for `raw`: a bare
/// name is a Docker Hub library image.
pub fn normalize_reference(raw: &str) -> (r: String)
    ensures
        raw@.contains('/') ==> r@ == raw@,
        !raw@.contains('/') ==> r@ == "docker.io/library/"@ + raw@,
{
    let cs = text::chars_of(raw);
    let n = cs.len();
    assert(cs@.subrange(0, n as int) =~= cs@);
    match text::find_char(cs.as_slice(), '/', 0, n) {
        Some(i) => {
            assert(raw@[i as int] == '/');
            text::string_of(raw)
        },
        None => {
            proof {
                text::lemma_index_of_none_absent(raw@, '/');
            }
            text::concat2("docker.io/library/", raw)
        },
    }
}

/// A snapshot as containerd lists it.
#[derive(Clone, Debug)]
pub struct SnapshotInfo {
    pub name: String,
    pub parent: String,
    pub committed: bool,
}

/// Whether the committed snapshot at index `i` is the top of its chain: no
/// other committed snapshot names it as parent.
pub open spec fn is_top_committed(snaps: Seq<SnapshotInfo>, i: int) -> bool {
    &&& 0 <= i < snaps.len()
    &&& snaps[i].committed
    &&& forall|j: int|
        0 <= j < snaps.len() && j != i && (#[trigger] snaps[j]).committed ==> snaps[j].parent@
            != snaps[i].name@
}

fn named_as_parent(snaps: &Vec<SnapshotInfo>, i: usize) -> (r: bool)
    requires
        i < snaps@.len(),
    ensures
        r == exists|j: int|
            0 <= j < snaps@.len() && j != i && (#[trigger] snaps@[j]).committed && snaps@[j].parent@
                == snaps@[i as int].name@,
{
    let n = snaps.len();
    let mut j: usize = 0;
    while j < n
        invariant
            n == snaps@.len(),
            i < n,
            j <= n,
            forall|k: int|
                0 <= k < j && k != i && (#[trigger] snaps@[k]).committed ==> snaps@[k].parent@
                    != snaps@[i as int].name@,
        decreases n - j,
    {
        if j != i && snaps[j].committed && text::str_eq(
            snaps[j].parent.as_str(),
            snaps[i].name.as_str(),
        ) {
            return true;
        }
        j += 1;
    }
    false
}

/// The first committed snapshot that tops an image's layer chain; its name
/// is the snapshot key containers are prepared from.
pub fn top_committed_snapshot(snaps: &Vec<SnapshotInfo>) -> (r: Option<usize>)
    ensures
        r matches Some(i) ==> is_top_committed(snaps@, i as int) && forall|k: int|
            0 <= k < i ==> !is_top_committed(snaps@, k),
        r is None ==> forall|k: int| !is_top_committed(snaps@, k),
{
    let n = snaps.len();
    let mut i: usize = 0;
    while i < n
        invariant
            n == snaps@.len(),
            i <= n,
            forall|k: int| 0 <= k < i ==> !is_top_committed(snaps@, k),
        decreases n - i,
    {
        if snaps[i].committed && !named_as_parent(snaps, i) {
            return Some(i);
        }
        i += 1;
    }
    None
}

/// The error when an image has no committed snapshot to start from.
pub fn no_committed_snapshot_error(image_ref: &str, total: usize) -> (r: DockerApiError)
    ensures
        r matches DockerApiError::Internal(m) && m@ == "no committed snapshots found for "@
            + image_ref@ + " ("@ + text::decimal_text(total as nat) + " total snapshots)"@,
{
    let mut m = text::concat3("no committed snapshots found for ", image_ref, " (");
    text::push_decimal(&mut m, total as u64);
    text::push_str(&mut m, " total snapshots)");
    DockerApiError::Internal(m)
}

/// The label under which an unpacked image records its snapshot key.
pub const SNAPSHOT_KEY_LABEL: &'static str = "containerd.io/snapshot/overlayfs.key";

/// The snapshot key a container of image `image_ref` is prepared from: the
/// image's snapshot-key label, or an internal error when it has none.
pub fn parent_snapshot_key(image_ref: &str, labels: &Vec<(String, String)>) -> (r: Result<
    String,
    DockerApiError,
>)
    ensures
        match label_value(labels@, SNAPSHOT_KEY_LABEL@) {
            Some(k) => r matches Ok(x) && x@ == k,
            None => r matches Err(DockerApiError::Internal(m)) && m@ == "image "@ + image_ref@
                + " has no unpacked snapshot key (was it pulled with unpack?)"@,
        },
{
    match get_label(labels, SNAPSHOT_KEY_LABEL) {
        Some(k) => Ok(k.clone()),
        None => Err(
            DockerApiError::Internal(
                text::concat3(
                    "image ",
                    image_ref,
                    " has no unpacked snapshot key (was it pulled with unpack?)",
                ),
            ),
        ),
    }
}

/// The gRPC status codes that decide how a containerd failure is reported.
#[derive(Clone, Copy, Debug, PartialEq, Eq, Structural)]
pub enum GrpcCode {
    NotFound,
    AlreadyExists,
    FailedPrecondition,
    InvalidArgument,
    Other,
}

/// The Docker API error for a failed containerd call: not found, conflict
/// (already exists, failed precondition), bad request (invalid argument)
/// carry the status message; anything else is internal and carries the
/// status's full text.
pub fn grpc_error(code: GrpcCode, message: &str, full_text: &str) -> (r: DockerApiError)
    ensures
        code is NotFound ==> (r matches DockerApiError::NotFound(m) && m@ == message@),
        (code is AlreadyExists || code is FailedPrecondition) ==> (r matches DockerApiError::Conflict(
            m,
        ) && m@ == message@),
        code is InvalidArgument ==> (r matches DockerApiError::BadRequest(m) && m@ == message@),
        code is Other ==> (r matches DockerApiError::Internal(m) && m@ == full_text@),
{
    match code {
        GrpcCode::NotFound => DockerApiError::NotFound(text::string_of(message)),
        GrpcCode::AlreadyExists | GrpcCode::FailedPrecondition => DockerApiError::Conflict(
            text::string_of(message),
        ),
        GrpcCode::InvalidArgument => DockerApiError::BadRequest(text::string_of(message)),
        GrpcCode::Other => DockerApiError::Internal(text::string_of(full_text)),
    }
}

/// The name a task status prints with `{:?}`.
pub open spec fn status_name(status: TaskStatus) -> Seq<char> {
    match status {
        TaskStatus::Created => "Created"@,
        TaskStatus::Running => "Running"@,
        TaskStatus::Stopped => "Stopped"@,
        TaskStatus::Paused => "Paused"@,
        TaskStatus::Unknown => "Unknown"@,
    }
}

fn status_text(status: TaskStatus) -> (r: &'static str)
    ensures
        r@ == status_name(status),
{
    match status {
        TaskStatus::Created => "Created",
        TaskStatus::Running => "Running",
        TaskStatus::Stopped => "Stopped",
        TaskStatus::Paused => "Paused",
        TaskStatus::Unknown => "Unknown",
    }
}

/// The diagnostic line that stands for a task's output:
/// `container <id> status <status>` and a newline.
pub fn task_log_line(task: &TaskInfo) -> (r: String)
    ensures
        r@ == "container "@ + task.container_id@ + " status "@ + status_name(task.status) + "\n"@,
{
    let mut r = text::concat2("container ", task.container_id.as_str());
    text::push_str(&mut r, " status ");
    text::push_str(&mut r, status_text(task.status));
    text::push_str(&mut r, "\n");
    r
}

/// The OCI runtime specification of a container process, up to its
/// arguments: the Linux masks, namespaces and device rule, the default
/// mounts, and the version.
pub const OCI_SPEC_HEAD: &'static str = "{\"linux\":{\"maskedPaths\":[\"/proc/acpi\",\"/proc/asound\",\"/proc/kcore\",\"/proc/keys\",\"/proc/latency_stats\",\"/proc/timer_list\",\"/proc/timer_stats\",\"/proc/sched_debug\",\"/sys/firmware\",\"/proc/scsi\"],\"namespaces\":[{\"type\":\"pid\"},{\"type\":\"ipc\"},{\"type\":\"uts\"},{\"type\":\"mount\"},{\"type\":\"cgroup\"},{\"type\":\"network\"}],\"readonlyPaths\":[\"/proc/bus\",\"/proc/fs\",\"/proc/irq\",\"/proc/sys\",\"/proc/sysrq-trigger\"],\"resources\":{\"devices\":[{\"access\":\"rwm\",\"allow\":false}]}},\"mounts\":[{\"destination\":\"/proc\",\"options\":[\"nosuid\",\"noexec\",\"nodev\"],\"source\":\"proc\",\"type\":\"proc\"},{\"destination\":\"/dev\",\"options\":[\"nosuid\",\"strictatime\",\"mode=755\",\"size=65536k\"],\"source\":\"tmpfs\",\"type\":\"tmpfs\"},{\"destination\":\"/dev/pts\",\"options\":[\"nosuid\",\"noexec\",\"newinstance\",\"ptmxmode=0666\",\"mode=0620\",\"gid=5\"],\"source\":\"devpts\",\"type\":\"devpts\"},{\"destination\":\"/dev/shm\",\"options\":[\"nosuid\",\"noexec\",\"nodev\",\"mode=1777\",\"size=65536k\"],\"source\":\"shm\",\"type\":\"tmpfs\"},{\"destination\":\"/dev/mqueue\",\"options\":[\"nosuid\",\"noexec\",\"nodev\"],\"source\":\"mqueue\",\"type\":\"mqueue\"},{\"destination\":\"/sys\",\"options\":[\"nosuid\",\"noexec\",\"nodev\",\"ro\"],\"source\":\"sysfs\",\"type\":\"sysfs\"},{\"destination\":\"/run\",\"options\":[\"nosuid\",\"strictatime\",\"mode=755\",\"size=65536k\"],\"source\":\"tmpfs\",\"type\":\"tmpfs\"}],\"ociVersion\":\"1.0.0\",\"process\":{\"args\":";

/// The OCI runtime specification between the arguments and the environment:
/// the capability sets and the working directory.
pub const OCI_SPEC_AFTER_ARGS: &'static str = ",\"capabilities\":{\"bounding\":[\"CAP_CHOWN\",\"CAP_DAC_OVERRIDE\",\"CAP_FSETID\",\"CAP_FOWNER\",\"CAP_MKNOD\",\"CAP_NET_RAW\",\"CAP_SETGID\",\"CAP_SETUID\",\"CAP_SETFCAP\",\"CAP_SETPCAP\",\"CAP_NET_BIND_SERVICE\",\"CAP_SYS_CHROOT\",\"CAP_KILL\",\"CAP_AUDIT_WRITE\"],\"effective\":[\"CAP_CHOWN\",\"CAP_DAC_OVERRIDE\",\"CAP_FSETID\",\"CAP_FOWNER\",\"CAP_MKNOD\",\"CAP_NET_RAW\",\"CAP_SETGID\",\"CAP_SETUID\",\"CAP_SETFCAP\",\"CAP_SETPCAP\",\"CAP_NET_BIND_SERVICE\",\"CAP_SYS_CHROOT\",\"CAP_KILL\",\"CAP_AUDIT_WRITE\"],\"permitted\":[\"CAP_CHOWN\",\"CAP_DAC_OVERRIDE\",\"CAP_FSETID\",\"CAP_FOWNER\",\"CAP_MKNOD\",\"CAP_NET_RAW\",\"CAP_SETGID\",\"CAP_SETUID\",\"CAP_SETFCAP\",\"CAP_SETPCAP\",\"CAP_NET_BIND_SERVICE\",\"CAP_SYS_CHROOT\",\"CAP_KILL\",\"CAP_AUDIT_WRITE\"]},\"cwd\":\"/\",\"env\":";

/// The OCI runtime specification between the environment and the terminal
/// flag: no new privileges and the open-file limit.
pub const OCI_SPEC_AFTER_ENV: &'static str = ",\"noNewPrivileges\":true,\"rlimits\":[{\"hard\":1024,\"soft\":1024,\"type\":\"RLIMIT_NOFILE\"}],\"terminal\":";

/// The end of the OCI runtime specification: root user and the root
/// filesystem.
pub const OCI_SPEC_TAIL: &'static str = ",\"user\":{\"gid\":0,\"uid\":0}},\"root\":{\"path\":\"rootfs\",\"readonly\":false}}";

/// The OCI runtime specification, as the JSON text that containerd receives,
/// of a process running `args` with environment `env`.
pub open spec fn oci_spec(tty: bool, args: Seq<Seq<char>>, env: Seq<Seq<char>>) -> Seq<char> {
    OCI_SPEC_HEAD@ + codec::json_string_array(args) + OCI_SPEC_AFTER_ARGS@
        + codec::json_string_array(env) + OCI_SPEC_AFTER_ENV@ + (if tty {
        "true"@
    } else {
        "false"@
    }) + OCI_SPEC_TAIL@
}

/// Writes the OCI runtime specification of a container process.
pub fn oci_spec_json(tty: bool, args: &Vec<String>, env: &Vec<String>) -> (r: String)
    ensures
        r@ == oci_spec(tty, codec::views(args@), codec::views(env@)),
{
    let mut r = text::string_of(OCI_SPEC_HEAD);
    text::push_str(&mut r, codec::json_array_of(args).as_str());
    text::push_str(&mut r, OCI_SPEC_AFTER_ARGS);
    text::push_str(&mut r, codec::json_array_of(env).as_str());
    text::push_str(&mut r, OCI_SPEC_AFTER_ENV);
    text::push_str(
        &mut r,
        if tty {
            "true"
        } else {
            "false"
        },
    );
    text::push_str(&mut r, OCI_SPEC_TAIL);
    r
}

/// The OCI runtime specification of a new container: its command, and its
/// environment with the default `PATH` when it sets none.
pub fn container_oci_spec(spec: &ContainerCreateSpec) -> (r: String)
    ensures
        r@ == oci_spec(spec.tty, codec::views(spec.cmd@), env_with_path(codec::views(spec.env@))),
{
    let env = process_env(&spec.env);
    oci_spec_json(spec.tty, &spec.cmd, &env)
}

/// The containerd runtime containers run with.
pub const RUNC_RUNTIME: &'static str = "io.containerd.runc.v2";

/// The type URL under which the OCI specification is sent.
pub const OCI_SPEC_TYPE_URL: &'static str = "types.containerd.io/opencontainers/runtime-spec/1/Spec";

/// The snapshotter of container root filesystems.
pub const SNAPSHOTTER: &'static str = "overlayfs";

} // verus!
