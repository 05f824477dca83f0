//! Stopping and restarting the daemon from the CLI: where its sockets and
//! pid file live, how it is stopped through launchd or a signal, how long
//! the CLI waits for it to go, and what the daemon removes on its way out.
use vstd::prelude::*;
use crate::codec;
use crate::text;
use crate::up::LAUNCHD_LABEL;

verus! {

/// The control socket, relative to the Speck home.
pub const CONTROL_SOCKET: &'static str = "run/control.sock";

/// The daemon's pid file, relative to the Speck home.
pub const PID_FILE: &'static str = "run/speck.pid";

/// Seconds the CLI waits for the control socket to disappear.
pub const STOP_WAIT_SECS: u64 = 30;

/// Milliseconds between two looks at the control socket.
pub const STOP_POLL_MS: u64 = 200;

/// Seconds the restart command gives the daemon to accept a connection.
pub const LIVENESS_TIMEOUT_SECS: u64 = 2;

/// The permission bits of the control socket: owner read and write only.
pub const CONTROL_SOCKET_MODE: u32 = 0o600;

/// Where the control socket of the daemon under `speck_home` lives.
pub fn control_socket_path(speck_home: &str) -> (r: String)
    ensures
        r@ == text::path_join(speck_home@, CONTROL_SOCKET@),
{
    text::join_path(speck_home, CONTROL_SOCKET)
}

/// Where the pid file of the daemon under `speck_home` lives.
pub fn pid_file_path(speck_home: &str) -> (r: String)
    ensures
        r@ == text::path_join(speck_home@, PID_FILE@),
{
    text::join_path(speck_home, PID_FILE)
}

/// The `launchctl` arguments that stop the daemon's agent in `domain`
/// (`gui/{uid}`): `bootout {domain}/io.speck.vm`.
pub fn bootout_args(domain: &str) -> (r: Vec<String>)
    ensures
        r@.len() == 2,
        r@[0]@ == "bootout"@,
        r@[1]@ == domain@ + "/"@ + LAUNCHD_LABEL@,
{
    let mut r: Vec<String> = Vec::new();
    r.push(text::string_of("bootout"));
    r.push(text::concat3(domain, "/", LAUNCHD_LABEL));
    r
}

/// How stopping the daemon starts: through launchd when it answers on its
/// control socket, through its pid file when it does not.
#[derive(Clone, Copy, Debug, PartialEq, Eq, Structural)]
pub enum StopMethod {
    Bootout,
    PidFile,
}

/// The first way to stop the daemon, by whether it answered.
pub fn first_stop_method(alive: bool) -> (r: StopMethod)
    ensures
        alive ==> r == StopMethod::Bootout,
        !alive ==> r == StopMethod::PidFile,
{
    if alive {
        StopMethod::Bootout
    } else {
        StopMethod::PidFile
    }
}

/// Whether a failed bootout (the daemon was not started by launchd) falls
/// back to the pid file.
pub fn needs_pid_fallback(bootout_succeeded: bool) -> (r: bool)
    ensures
        r == !bootout_succeeded,
{
    !bootout_succeeded
}

/// What the wait for the daemon to go does next.
#[derive(Clone, Copy, Debug, PartialEq, Eq, Structural)]
pub enum StopWait {
    /// The control socket is gone: the daemon stopped.
    Stopped,
    /// The limit passed with the socket still there.
    TimedOut,
    /// Look again after the poll interval.
    Poll,
}

/// The wait step when the socket does or does not exist `elapsed_ms` after
/// the wait began.
pub fn stop_wait_step(socket_exists: bool, elapsed_ms: u64) -> (r: StopWait)
    ensures
        !socket_exists ==> r == StopWait::Stopped,
        socket_exists && elapsed_ms >= STOP_WAIT_SECS * 1000 ==> r == StopWait::TimedOut,
        socket_exists && elapsed_ms < STOP_WAIT_SECS * 1000 ==> r == StopWait::Poll,
{
    if !socket_exists {
        StopWait::Stopped
    } else if elapsed_ms >= STOP_WAIT_SECS * 1000 {
        StopWait::TimedOut
    } else {
        StopWait::Poll
    }
}

/// The pid a pid file holds: its trimmed text, when that is a `u32`.
pub open spec fn pid_in(contents: Seq<char>) -> Option<Seq<char>> {
    let t = text::trim(contents);
    if text::parse_unsigned(t, u32::MAX as int) is Some {
        Some(t)
    } else {
        None
    }
}

/// Reads the pid out of a pid file's text.
pub fn parse_pid_contents(contents: &str) -> (r: Option<String>)
    ensures
        match pid_in(contents@) {
            Some(t) => r matches Some(x) && x@ == t,
            None => r is None,
        },
{
    let t = text::trimmed_chars(contents);
    match text::parse_unsigned_bounded(t.as_slice(), 4294967295) {
        Some(_) => Some(text::string_from_chars(t.as_slice(), 0, t.len())),
        None => {
            assert(t@.subrange(0, t@.len() as int) =~= t@);
            None
        },
    }
}

/// The error when there is no pid file to stop the daemon by.
pub fn pid_file_missing_message(pid_path: &str) -> (r: String)
    ensures
        r@ == "pid file not found at "@ + pid_path@ + " — cannot stop daemon"@,
{
    text::concat3("pid file not found at ", pid_path, " — cannot stop daemon")
}

/// The error when the pid file does not hold a pid: the trimmed text is
/// shown quoted, as `{:?}` prints it.
pub fn invalid_pid_message(pid_path: &str, pid_text: &str) -> (r: String)
    ensures
        r@ == "invalid pid in "@ + pid_path@ + ": "@ + codec::debug_quoted(pid_text@),
{
    let mut r = text::concat3("invalid pid in ", pid_path, ": ");
    let q = codec::debug_string(pid_text);
    text::push_str(&mut r, q.as_str());
    r
}

/// The `kill` arguments that ask process `pid` to terminate.
pub fn kill_args(pid: &str) -> (r: Vec<String>)
    ensures
        r@.len() == 2,
        r@[0]@ == "-TERM"@,
        r@[1]@ == pid@,
{
    let mut r: Vec<String> = Vec::new();
    r.push(text::string_of("-TERM"));
    r.push(text::string_of(pid));
    r
}

/// How signalling the daemon through its pid file ended.
#[derive(Clone, Copy, Debug, PartialEq, Eq, Structural)]
pub enum KillOutcome {
    /// The signal was delivered.
    Sent,
    /// No such process: the pid file is stale and is to be removed.
    StalePid,
    /// The signal could not be delivered for another reason.
    Failed,
}

/// The outcome of `kill`, by whether the first attempt succeeded and, when
/// it did not, what a second attempt wrote to stderr.
pub fn kill_outcome(first_succeeded: bool, retry_stderr: &str) -> (r: KillOutcome)
    ensures
        first_succeeded ==> r == KillOutcome::Sent,
        !first_succeeded && text::contains_seq(retry_stderr@, "No such process"@) ==> r
            == KillOutcome::StalePid,
        !first_succeeded && !text::contains_seq(retry_stderr@, "No such process"@) ==> r
            == KillOutcome::Failed,
{
    if first_succeeded {
        KillOutcome::Sent
    } else if text::str_contains(retry_stderr, "No such process") {
        KillOutcome::StalePid
    } else {
        KillOutcome::Failed
    }
}

/// The error when the signal could not be delivered.
pub fn kill_failed_message(pid: &str) -> (r: String)
    ensures
        r@ == "kill -TERM "@ + pid@ + " failed"@,
{
    text::concat3("kill -TERM ", pid, " failed")
}

/// The arguments of the `spk up` that a restart runs: wait up to two
/// minutes for the Docker API.
pub fn restart_up_args() -> (r: Vec<String>)
    ensures
        r@.len() == 3,
        r@[0]@ == "up"@,
        r@[1]@ == "--wait"@,
        r@[2]@ == "120"@,
{
    let mut r: Vec<String> = Vec::new();
    r.push(text::string_of("up"));
    r.push(text::string_of("--wait"));
    r.push(text::string_of("120"));
    r
}

/// The step of a restart that ran a child `spk`.
#[derive(Clone, Copy, Debug, PartialEq, Eq, Structural)]
pub enum RestartStep {
    Down,
    Up,
}

/// Checks how a child `spk` of a restart exited: a failure stops the
/// restart with the step's message.
pub fn check_restart_step(step: RestartStep, succeeded: bool) -> (r: Result<(), String>)
    ensures
        succeeded ==> r is Ok,
        !succeeded && step == RestartStep::Down ==> (r matches Err(m) && m@ == "spk down failed"@),
        !succeeded && step == RestartStep::Up ==> (r matches Err(m) && m@ == "spk up failed"@),
{
    if succeeded {
        Ok(())
    } else {
        match step {
            RestartStep::Down => Err(text::string_of("spk down failed")),
            RestartStep::Up => Err(text::string_of("spk up failed")),
        }
    }
}

/// The Docker API paths that stop each running container, in order.
pub fn container_stop_paths(ids: &Vec<String>) -> (r: Vec<String>)
    ensures
        r@.len() == ids@.len(),
        forall|i: int|
            0 <= i < r@.len() ==> (#[trigger] r@[i])@ == "/containers/"@ + ids@[i]@ + "/stop"@,
{
    let mut r: Vec<String> = Vec::new();
    let mut i: usize = 0;
    while i < ids.len()
        invariant
            i <= ids@.len(),
            r@.len() == i,
            forall|j: int|
                0 <= j < i ==> (#[trigger] r@[j])@ == "/containers/"@ + ids@[j]@ + "/stop"@,
        decreases ids@.len() - i,
    {
        r.push(text::concat3("/containers/", ids[i].as_str(), "/stop"));
        i += 1;
    }
    r
}

/// The files the daemon removes once the VM has stopped: the Docker API
/// socket, the pid file and the control socket.
pub fn shutdown_cleanup_paths(speck_home: &str, api_socket: &str) -> (r: Vec<String>)
    ensures
        r@.len() == 3,
        r@[0]@ == api_socket@,
        r@[1]@ == text::path_join(speck_home@, PID_FILE@),
        r@[2]@ == text::path_join(speck_home@, CONTROL_SOCKET@),
{
    let mut r: Vec<String> = Vec::new();
    r.push(text::string_of(api_socket));
    r.push(pid_file_path(speck_home));
    r.push(control_socket_path(speck_home));
    r
}

/// The permission bits of the daemon's runtime directory: owner only.
pub const RUNTIME_DIR_MODE: u32 = 0o700;

/// The permission bits of the Docker API sockets: owner read and write.
pub const API_SOCKET_MODE: u32 = 0o600;

/// The error when the Docker API socket path has no directory to hold the
/// runtime files.
pub const NO_PARENT_MESSAGE: &'static str = "sock_path has no parent directory";

/// The runtime directory under the directory of the Docker API socket, and
/// the socket inside it where the guest's dockerd is reached.
pub fn runtime_paths(socket_dir: &str) -> (r: (String, String))
    ensures
        r.0@ == text::path_join(socket_dir@, "run"@),
        r.1@ == text::path_join(text::path_join(socket_dir@, "run"@), "dockerd-proxy.sock"@),
{
    let run_dir = text::join_path(socket_dir, "run");
    let internal = text::join_path(run_dir.as_str(), "dockerd-proxy.sock");
    (run_dir, internal)
}

} // verus!
