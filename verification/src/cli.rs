//! The `spk` command line: the arguments of its subcommands and the small
//! decisions and texts of `spk env`, `spk logs`, `spk status` and the
//! dispatch of `spk up`.
use vstd::prelude::*;
use crate::config::EffectiveVmConfig;
use crate::shell::EnvShell;
use crate::text;
use crate::theme;

verus! {

/// Arguments of `spk logs`.
#[derive(Clone, Copy, Debug, PartialEq, Eq, Structural)]
pub struct LogsArgs {
    /// Show the last 20 lines of the daemon log.
    pub tail: bool,
    /// Follow new log entries as they are written.
    pub follow: bool,
}

/// Arguments of `spk doctor`.
#[derive(Clone, Debug)]
pub struct DoctorArgs {
    pub command: Option<DoctorSubcommand>,
}

/// Subcommands of `spk doctor`.
#[derive(Clone, Debug)]
pub enum DoctorSubcommand {
    /// Trace DNS resolution for a hostname through the guest DNS path.
    Dns { hostname: String },
}

/// Arguments of `spk init`.
#[derive(Clone, Debug)]
pub struct InitArgs {
    /// Persist the Speck environment block in the shell startup file.
    pub set_docker_host: bool,
    /// Override shell detection (bash, zsh, fish).
    pub shell: Option<String>,
}

/// The shell dialect `spk env --shell` names: `posix` or `fish`; anything
/// else is refused with the message to print.
pub fn env_shell(name: &str) -> (r: Result<EnvShell, String>)
    ensures
        name@ == "posix"@ ==> r == Ok::<EnvShell, String>(EnvShell::Posix),
        name@ == "fish"@ ==> r == Ok::<EnvShell, String>(EnvShell::Fish),
        name@ != "posix"@ && name@ != "fish"@ ==> (r matches Err(m) && m@
            == "error: unsupported shell `"@ + name@ + "` (expected `posix` or `fish`)"@),
{
    proof {
        reveal_strlit("posix");
        reveal_strlit("fish");
        assert("fish"@.len() == 4 && "posix"@.len() == 5);
    }
    if text::str_eq(name, "posix") {
        Ok(EnvShell::Posix)
    } else if text::str_eq(name, "fish") {
        Ok(EnvShell::Fish)
    } else {
        Err(text::concat3("error: unsupported shell `", name, "` (expected `posix` or `fish`)"))
    }
}

/// Whether `spk up` hands the VM to launchd: unless `--foreground` is given or
/// it already runs as the launchd agent (`SPECK_DAEMONIZED` is set).
pub fn should_daemonize(foreground: bool, daemonized_var_set: bool) -> (r: bool)
    ensures
        r == (!foreground && !daemonized_var_set),
{
    !foreground && !daemonized_var_set
}

/// The line printed for an unknown key of `config.yaml`.
pub fn unknown_key_warning(path: &str) -> (r: String)
    ensures
        r@ == "warning: unknown config key: "@ + path@,
{
    text::concat2("warning: unknown config key: ", path)
}

/// What `spk logs` prints.
#[derive(Clone, Copy, Debug, PartialEq, Eq, Structural)]
pub enum LogsMode {
    /// The last 20 lines.
    Tail,
    /// Everything, then each addition as it is written.
    Follow,
    /// Everything once.
    Full,
}

/// `--tail` wins over `--follow`; with neither the whole log is printed.
pub fn logs_mode(args: LogsArgs) -> (r: LogsMode)
    ensures
        args.tail ==> r == LogsMode::Tail,
        !args.tail && args.follow ==> r == LogsMode::Follow,
        !args.tail && !args.follow ==> r == LogsMode::Full,
{
    if args.tail {
        LogsMode::Tail
    } else if args.follow {
        LogsMode::Follow
    } else {
        LogsMode::Full
    }
}

/// The index of the first of the last 20 lines of a log of `line_count` lines.
pub fn tail_start(line_count: usize) -> (r: usize)
    ensures
        line_count <= 20 ==> r == 0,
        line_count > 20 ==> r == line_count - 20,
{
    if line_count > 20 {
        line_count - 20
    } else {
        0
    }
}

/// The error shown when the daemon log does not exist yet.
pub fn missing_log_message(log_path: &str) -> (r: String)
    ensures
        r@ == "no log file found at "@ + log_path@ + " \u{2014} start Speck first"@,
{
    text::concat3("no log file found at ", log_path, " \u{2014} start Speck first")
}

/// The report of `spk status`: the daemon state in its colour, then the
/// process id and the VM resources where they are known, one per line.
pub open spec fn status_report(
    running: bool,
    pid: Option<u32>,
    resources: Option<EffectiveVmConfig>,
) -> Seq<char> {
    let state: Seq<char> = if running {
        theme::GREEN@ + "running"@ + theme::RESET@
    } else {
        theme::YELLOW@ + "stopped"@ + theme::RESET@
    };
    "Speck daemon: "@ + state + "\n"@ + match pid {
        Some(p) => "  PID: "@ + text::decimal_text(p as nat) + "\n"@,
        None => Seq::empty(),
    } + match resources {
        Some(c) => "  CPUs: "@ + text::decimal_text(c.cpus as nat) + "  Memory: "@
            + text::decimal_text(c.memory_mb as nat) + " MiB  Disk: "@ + text::decimal_text(
            c.disk_gb as nat,
        ) + " GiB\n"@,
        None => Seq::empty(),
    }
}

/// Renders the `spk status` report.
pub fn render_status(running: bool, pid: Option<u32>, resources: Option<EffectiveVmConfig>) -> (r:
    String)
    ensures
        r@ == status_report(running, pid, resources),
{
    let status = if running {
        "running"
    } else {
        "stopped"
    };
    proof {
        reveal_strlit("running");
        reveal_strlit("stopped");
        reveal_strlit("exited");
        reveal_strlit("dead");
    }
    let coloured = theme::format_status(status);
    assert(status@ == "running"@ || status@ == "stopped"@);
    assert("stopped"@[0] == 's' && "running"@[0] == 'r' && "exited"@[0] == 'e');
    assert(coloured@ == (if running {
        theme::GREEN@ + "running"@ + theme::RESET@
    } else {
        theme::YELLOW@ + "stopped"@ + theme::RESET@
    }));
    let mut r = text::concat2("Speck daemon: ", coloured.as_str());
    text::push_str(&mut r, "\n");
    match pid {
        Some(p) => {
            text::push_str(&mut r, "  PID: ");
            text::push_decimal(&mut r, p as u64);
            text::push_str(&mut r, "\n");
        },
        None => {},
    }
    match resources {
        Some(c) => {
            text::push_str(&mut r, "  CPUs: ");
            text::push_decimal(&mut r, c.cpus);
            text::push_str(&mut r, "  Memory: ");
            text::push_decimal(&mut r, c.memory_mb);
            text::push_str(&mut r, " MiB  Disk: ");
            text::push_decimal(&mut r, c.disk_gb);
            text::push_str(&mut r, " GiB\n");
        },
        None => {},
    }
    assert(r@ =~= status_report(running, pid, resources));
    r
}

} // verus!
