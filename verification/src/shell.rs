//! Shell integration: the `spk env` exports, the `spk init` bootstrap block
//! and where it is written, and the idempotent splice of that block into an
//! existing startup file.
use vstd::prelude::*;
use crate::text;

verus! {

/// Shell dialect of the `spk env` exports.
#[derive(Clone, Copy, Debug, PartialEq, Eq, Structural)]
pub enum EnvShell {
    Posix,
    Fish,
}

/// Shell whose startup file `spk init` writes.
#[derive(Clone, Copy, PartialEq, Eq, Debug, Structural)]
pub enum ShellTarget {
    Bash,
    Zsh,
    Fish,
}

/// Sentinel line opening a Speck bootstrap block.
pub const BEGIN_MARKER: &'static str = "# BEGIN speck";

/// Sentinel line closing a Speck bootstrap block.
pub const END_MARKER: &'static str = "# END speck";

/// Errors of the `spk init` planning steps.
#[derive(Clone, Debug, PartialEq, Eq)]
pub enum InitError {
    /// `HOME` is unset (or not Unicode) where a home-relative path is needed.
    HomeNotSet,
    /// `--shell` named a shell other than bash, zsh or fish.
    UnsupportedShell(String),
}

impl InitError {
    /// The human-readable text of the error.
    pub fn message(&self) -> (r: String)
        ensures
            self is HomeNotSet ==> r@ == "HOME not set"@,
            self matches InitError::UnsupportedShell(s) ==> r@ == "unsupported shell `"@ + s@
                + "` (expected bash, zsh, or fish)"@,
    {
        match self {
            InitError::HomeNotSet => text::string_of("HOME not set"),
            InitError::UnsupportedShell(s) => text::concat3(
                "unsupported shell `",
                s.as_str(),
                "` (expected bash, zsh, or fish)",
            ),
        }
    }
}

/// The shell that a `$SHELL` value names: the first of `bash`, `fish`, `zsh`
/// that it contains, and zsh (the macOS default) when it names none or is unset.
pub open spec fn detected_shell(shell_var: Option<Seq<char>>) -> ShellTarget {
    match shell_var {
        Some(s) => if text::contains_seq(s, "bash"@) {
            ShellTarget::Bash
        } else if text::contains_seq(s, "fish"@) {
            ShellTarget::Fish
        } else {
            ShellTarget::Zsh
        },
        None => ShellTarget::Zsh,
    }
}

/// A `$SHELL` value with `bash` anywhere in it names bash, whatever
/// directory the shell lives in (`/bin/bash`, `/opt/homebrew/bin/bash`, …).
pub proof fn lemma_bash_anywhere_is_bash(s: Seq<char>, i: int)
    requires
        0 <= i,
        i + 4 <= s.len(),
        s.subrange(i, i + 4) == "bash"@,
    ensures
        detected_shell(Some(s)) == ShellTarget::Bash,
{
    reveal_strlit("bash");
    assert(text::occurs_at(s, "bash"@, i));
}

/// A `$SHELL` value with `fish` in it and no `bash` names fish; one with
/// neither names zsh.
pub proof fn lemma_fish_or_default(s: Seq<char>)
    requires
        forall|j: int| 0 <= j && j + 4 <= s.len() ==> #[trigger] s.subrange(j, j + 4) != "bash"@,
    ensures
        (exists|i: int| 0 <= i && i + 4 <= s.len() && #[trigger] s.subrange(i, i + 4) == "fish"@)
            ==> detected_shell(Some(s)) == ShellTarget::Fish,
        (forall|j: int| 0 <= j && j + 4 <= s.len() ==> #[trigger] s.subrange(j, j + 4) != "fish"@)
            ==> detected_shell(Some(s)) == ShellTarget::Zsh,
{
    reveal_strlit("bash");
    reveal_strlit("fish");
    assert(!text::contains_seq(s, "bash"@)) by {
        if text::contains_seq(s, "bash"@) {
            let i = choose|i: int| text::occurs_at(s, "bash"@, i);
            assert(s.subrange(i, i + 4) == "bash"@);
        }
    }
    if exists|i: int| 0 <= i && i + 4 <= s.len() && #[trigger] s.subrange(i, i + 4) == "fish"@ {
        let i = choose|i: int| 0 <= i && i + 4 <= s.len() && #[trigger] s.subrange(i, i + 4) == "fish"@;
        assert(text::occurs_at(s, "fish"@, i));
    }
    if forall|j: int| 0 <= j && j + 4 <= s.len() ==> #[trigger] s.subrange(j, j + 4) != "fish"@ {
        if text::contains_seq(s, "fish"@) {
            let i = choose|i: int| text::occurs_at(s, "fish"@, i);
            assert(s.subrange(i, i + 4) == "fish"@);
        }
    }
}

/// Detects the user's shell from the value of `$SHELL` (`None` when unset or
/// not Unicode).
pub fn detect_shell(shell_var: Option<&str>) -> (r: ShellTarget)
    ensures
        r == detected_shell(
            match shell_var {
                Some(s) => Some(s@),
                None => None,
            },
        ),
{
    match shell_var {
        Some(s) => {
            if text::str_contains(s, "bash") {
                ShellTarget::Bash
            } else if text::str_contains(s, "fish") {
                ShellTarget::Fish
            } else {
                ShellTarget::Zsh
            }
        },
        None => ShellTarget::Zsh,
    }
}

/// Resolves the `spk init` shell from the `--shell` override, falling back to
/// detection from `$SHELL`.
pub fn resolve_shell(override_shell: Option<&str>, shell_var: Option<&str>) -> (r: Result<
    ShellTarget,
    InitError,
>)
    ensures
        override_shell matches Some(o) ==> (if o@ == "bash"@ {
            r == Ok::<ShellTarget, InitError>(ShellTarget::Bash)
        } else if o@ == "zsh"@ {
            r == Ok::<ShellTarget, InitError>(ShellTarget::Zsh)
        } else if o@ == "fish"@ {
            r == Ok::<ShellTarget, InitError>(ShellTarget::Fish)
        } else {
            r matches Err(InitError::UnsupportedShell(s)) && s@ == o@
        }),
        override_shell is None ==> r == Ok::<ShellTarget, InitError>(
            detected_shell(
                match shell_var {
                    Some(s) => Some(s@),
                    None => None,
                },
            ),
        ),
{
    match override_shell {
        Some(o) => {
            if text::str_eq(o, "bash") {
                Ok(ShellTarget::Bash)
            } else if text::str_eq(o, "zsh") {
                Ok(ShellTarget::Zsh)
            } else if text::str_eq(o, "fish") {
                Ok(ShellTarget::Fish)
            } else {
                Err(InitError::UnsupportedShell(text::string_of(o)))
            }
        },
        None => Ok(detect_shell(shell_var)),
    }
}

/// The startup file that `spk init --set-docker-host` writes for `target`,
/// given `$HOME` and `$XDG_CONFIG_HOME`.
pub open spec fn target_file(target: ShellTarget, home: Seq<char>, xdg: Option<Seq<char>>) -> Seq<
    char,
> {
    match target {
        ShellTarget::Bash => text::path_join(home, ".bashrc"@),
        ShellTarget::Zsh => text::path_join(home, ".zshrc"@),
        ShellTarget::Fish => match xdg {
            Some(x) => text::path_join(x, "fish/conf.d/speck.fish"@),
            None => text::path_join(text::path_join(home, ".config"@), "fish/conf.d/speck.fish"@),
        },
    }
}

/// Resolves the startup file for `target`: `~/.bashrc`, `~/.zshrc`, or the
/// fish `conf.d/speck.fish` under `$XDG_CONFIG_HOME` (else `~/.config`).
/// `home` and `xdg_config_home` are the variables' values, `None` when unset.
pub fn resolve_target_file(target: ShellTarget, home: Option<&str>, xdg_config_home: Option<&str>) -> (r:
    Result<String, InitError>)
    ensures
        (target is Fish && xdg_config_home is Some) ==> (r matches Ok(p) && p@ == target_file(
            target,
            Seq::empty(),
            Some(xdg_config_home->0@),
        )),
        !(target is Fish && xdg_config_home is Some) ==> match home {
            Some(h) => r matches Ok(p) && p@ == target_file(target, h@, None),
            None => r == Err::<String, InitError>(InitError::HomeNotSet),
        },
{
    match target {
        ShellTarget::Bash => match home {
            Some(h) => Ok(text::join_path(h, ".bashrc")),
            None => Err(InitError::HomeNotSet),
        },
        ShellTarget::Zsh => match home {
            Some(h) => Ok(text::join_path(h, ".zshrc")),
            None => Err(InitError::HomeNotSet),
        },
        ShellTarget::Fish => {
            match xdg_config_home {
                Some(x) => Ok(text::join_path(x, "fish/conf.d/speck.fish")),
                None => match home {
                    Some(h) => {
                        let config = text::join_path(h, ".config");
                        Ok(text::join_path(config.as_str(), "fish/conf.d/speck.fish"))
                    },
                    None => Err(InitError::HomeNotSet),
                },
            }
        },
    }
}

/// Whether a `DOCKER_HOST` value points somewhere other than Speck's socket,
/// which `spk init` warns about.
pub fn docker_host_conflicts(docker_host: &str) -> (r: bool)
    ensures
        r == !text::contains_seq(docker_host@, "speck.sock"@),
{
    !text::str_contains(docker_host, "speck.sock")
}

/// The bootstrap block of `spk init` for each shell target.
pub open spec fn init_block(target: ShellTarget) -> Seq<char> {
    match target {
        ShellTarget::Fish => BEGIN_MARKER@ + "\nif command -q spk\n  spk env --shell fish | source\nend\n"@
            + END_MARKER@ + "\n"@,
        _ => BEGIN_MARKER@ + "\nif command -v spk >/dev/null 2>&1; then\n  eval \"$(spk env)\"\nfi\n"@
            + END_MARKER@ + "\n"@,
    }
}

/// Renders the idempotent bootstrap block, wrapped in the `# BEGIN speck` /
/// `# END speck` markers; bash and zsh share the POSIX form.
pub fn render_init_block(target: ShellTarget) -> (r: String)
    ensures
        r@ == init_block(target),
{
    let mut r = text::string_of(BEGIN_MARKER);
    match target {
        ShellTarget::Bash | ShellTarget::Zsh => {
            text::push_str(&mut r, "\nif command -v spk >/dev/null 2>&1; then\n  eval \"$(spk env)\"\nfi\n");
        },
        ShellTarget::Fish => {
            text::push_str(&mut r, "\nif command -q spk\n  spk env --shell fish | source\nend\n");
        },
    }
    text::push_str(&mut r, END_MARKER);
    text::push_str(&mut r, "\n");
    r
}

/// The `DOCKER_HOST` value for a Speck home: `unix://` and the socket path.
pub open spec fn docker_host_for(speck_home: Seq<char>) -> Seq<char> {
    "unix://"@ + text::path_join(speck_home, "speck.sock"@)
}

/// The `spk env` exports for a Speck home.
pub open spec fn env_exports(speck_home: Seq<char>, shell: EnvShell) -> Seq<char> {
    match shell {
        EnvShell::Posix => "export DOCKER_HOST="@ + docker_host_for(speck_home)
            + "\nexport TESTCONTAINERS_DOCKER_SOCKET_OVERRIDE=/var/run/docker.sock\n"@,
        EnvShell::Fish => "set -gx DOCKER_HOST "@ + docker_host_for(speck_home)
            + ";\nset -gx TESTCONTAINERS_DOCKER_SOCKET_OVERRIDE /var/run/docker.sock;\n"@,
    }
}

/// Renders the `DOCKER_HOST` and `TESTCONTAINERS_DOCKER_SOCKET_OVERRIDE`
/// statements for `speck_home` in the given shell dialect.
pub fn render_env(speck_home: &str, shell: EnvShell) -> (r: String)
    ensures
        r@ == env_exports(speck_home@, shell),
{
    let sock = text::join_path(speck_home, "speck.sock");
    let mut r = match shell {
        EnvShell::Posix => text::string_of("export DOCKER_HOST="),
        EnvShell::Fish => text::string_of("set -gx DOCKER_HOST "),
    };
    text::push_str(&mut r, "unix://");
    text::push_str(&mut r, sock.as_str());
    match shell {
        EnvShell::Posix => text::push_str(
            &mut r,
            "\nexport TESTCONTAINERS_DOCKER_SOCKET_OVERRIDE=/var/run/docker.sock\n",
        ),
        EnvShell::Fish => text::push_str(
            &mut r,
            ";\nset -gx TESTCONTAINERS_DOCKER_SOCKET_OVERRIDE /var/run/docker.sock;\n",
        ),
    }
    r
}

/// Renders the single `SPECK_HOME` statement in the given shell dialect.
pub fn render_speck_home(speck_home: &str, shell: EnvShell) -> (r: String)
    ensures
        shell is Posix ==> r@ == "export SPECK_HOME="@ + speck_home@ + "\n"@,
        shell is Fish ==> r@ == "set -gx SPECK_HOME "@ + speck_home@ + ";\n"@,
{
    match shell {
        EnvShell::Posix => text::concat3("export SPECK_HOME=", speck_home, "\n"),
        EnvShell::Fish => text::concat3("set -gx SPECK_HOME ", speck_home, ";\n"),
    }
}

/// `content` with `block` appended on a line of its own.
pub open spec fn appended_block(content: Seq<char>, block: Seq<char>) -> Seq<char> {
    if content.len() == 0 {
        block
    } else if content.last() == '\n' {
        content + block
    } else {
        content + seq!['\n'] + block
    }
}

/// `content` with its first `# BEGIN speck` … `# END speck` region replaced
/// by `block`, or `block` appended when no such region exists.
pub open spec fn spliced_block(content: Seq<char>, block: Seq<char>) -> Seq<char> {
    match text::find_from(content, BEGIN_MARKER@, 0) {
        Some(b) => match text::find_from(content, END_MARKER@, b) {
            Some(e) => content.subrange(0, b) + block + content.subrange(
                e + END_MARKER@.len(),
                content.len() as int,
            ),
            None => appended_block(content, block),
        },
        None => appended_block(content, block),
    }
}

/// Replaces the existing marker region of `content` with `block`, or appends
/// `block` when no marker region is present.
pub fn replace_or_append_block(content: &str, block: &str) -> (r: String)
    ensures
        r@ == spliced_block(content@, block@),
{
    let c = text::chars_of(content);
    let begin = text::chars_of(BEGIN_MARKER);
    let end = text::chars_of(END_MARKER);
    if let Some(b) = text::find_chars_from(c.as_slice(), begin.as_slice(), 0) {
        if let Some(e) = text::find_chars_from(c.as_slice(), end.as_slice(), b) {
            proof {
                text::lemma_find_from_some(c@, end@, b as int);
            }
            let cl = c.len();
            assert(e + end@.len() <= cl);
            let end_abs = e + end.len();
            let mut r = text::string_from_chars(c.as_slice(), 0, b);
            text::push_str(&mut r, block);
            let tail = text::string_from_chars(c.as_slice(), end_abs, c.len());
            text::push_str(&mut r, tail.as_str());
            return r;
        }
    }
    if c.len() == 0 {
        text::string_of(block)
    } else if c[c.len() - 1] == '\n' {
        text::concat2(content, block)
    } else {
        let mut r = text::string_of(content);
        text::push_char(&mut r, '\n');
        text::push_str(&mut r, block);
        r
    }
}

/// The Speck home directory: `$SPECK_HOME` when set, else
/// `$HOME/.local/share/speck` (with `.` standing in for an unset `$HOME`).
pub fn resolve_speck_home(speck_home_var: Option<&str>, home_var: Option<&str>) -> (r: String)
    ensures
        speck_home_var matches Some(s) ==> r@ == s@,
        speck_home_var is None ==> r@ == text::path_join(
            match home_var {
                Some(h) => h@,
                None => "."@,
            },
            ".local/share/speck"@,
        ),
{
    match speck_home_var {
        Some(s) => text::string_of(s),
        None => match home_var {
            Some(h) => text::join_path(h, ".local/share/speck"),
            None => text::join_path(".", ".local/share/speck"),
        },
    }
}

} // verus!

verus! {

/// The `config.yaml` that `spk init` writes when there is none: every key
/// commented out, with its default.
pub const DEFAULT_CONFIG_YAML: &'static str = "# Speck configuration \u{2014} config.yaml
# All keys are optional. Uncomment and edit to override defaults.

version: 1

vm:
  # vCPUs to allocate (default: 2, max: host physical cores)
  # cpus: 2

  # Memory in MiB (default: 2048, minimum: 512)
  # memory_mb: 2048

  # Data disk size in GiB (default: 20, minimum: 1)
  # disk_gb: 20

# Log level \u{2014} tracing EnvFilter directive (default: info)
# Levels: error, warn, info, debug, trace
# log_level: info

ca:
  # Paths to additional CA certificate PEM files to inject into the VM
  # (useful for corporate CAs and private registries)
  # extra_certs:
  #   - /path/to/corporate-ca.pem
";

/// The new contents of the startup file that `spk init --set-docker-host`
/// writes: bash and zsh files keep what they hold, with the block spliced
/// in; the fish file is Speck's own and holds the block alone.
pub fn init_file_contents(target: ShellTarget, existing: Option<&str>) -> (r: String)
    ensures
        target is Fish ==> r@ == init_block(target),
        !(target is Fish) ==> r@ == spliced_block(
            match existing {
                Some(e) => e@,
                None => Seq::empty(),
            },
            init_block(target),
        ),
{
    let block = render_init_block(target);
    match target {
        ShellTarget::Fish => block,
        _ => {
            let e: &str = match existing {
                Some(e) => e,
                None => "",
            };
            proof {
                reveal_strlit("");
            }
            assert(e@ == match existing {
                Some(x) => x@,
                None => Seq::<char>::empty(),
            });
            replace_or_append_block(e, block.as_str())
        },
    }
}

/// The warning `spk init` prints when `DOCKER_HOST` points elsewhere.
pub fn docker_host_warning(docker_host: &str) -> (r: String)
    ensures
        r@ == "Warning: DOCKER_HOST is currently set to `"@ + docker_host@
            + "` \u{2014} spk init will override it."@,
{
    text::concat3(
        "Warning: DOCKER_HOST is currently set to `",
        docker_host,
        "` \u{2014} spk init will override it.",
    )
}

/// What `spk init` says about `config.yaml`: created, or left as it was.
pub fn config_scaffold_message(config_path: &str, created: bool) -> (r: String)
    ensures
        created ==> r@ == "Created "@ + config_path@,
        !created ==> r@ == config_path@ + " already exists \u{2014} skipping (not overwriting)"@,
{
    if created {
        text::concat2("Created ", config_path)
    } else {
        text::concat2(config_path, " already exists \u{2014} skipping (not overwriting)")
    }
}

/// The confirmation once the block is written.
pub fn persisted_message(target_file: &str) -> (r: String)
    ensures
        r@ == "Speck environment persisted to "@ + target_file@,
{
    text::concat2("Speck environment persisted to ", target_file)
}

} // verus!

verus! {

proof fn lemma_block_shape(target: ShellTarget)
    ensures
        init_block(target).len() > BEGIN_MARKER@.len() + END_MARKER@.len() + 1,
        init_block(target).subrange(0, BEGIN_MARKER@.len() as int) == BEGIN_MARKER@,
        init_block(target).subrange(
            init_block(target).len() - END_MARKER@.len() - 1,
            init_block(target).len() - 1,
        ) == END_MARKER@,
        init_block(target)[init_block(target).len() - 1] == '\n',
        init_block(target)[2] == 'B',
        forall|k: int|
            0 < k < init_block(target).len() - END_MARKER@.len() - 1 ==> init_block(target)[k]
                != '#',
        BEGIN_MARKER@.len() == 13,
        END_MARKER@.len() == 11,
        BEGIN_MARKER@[0] == '#',
        END_MARKER@[0] == '#',
        END_MARKER@[2] == 'E',
        forall|k: int| 0 <= k < BEGIN_MARKER@.len() ==> BEGIN_MARKER@[k] != '\n',
{
    reveal_strlit("# BEGIN speck");
    reveal_strlit("# END speck");
    reveal_strlit("\n");
    reveal_strlit("\nif command -v spk >/dev/null 2>&1; then\n  eval \"$(spk env)\"\nfi\n");
    reveal_strlit("\nif command -q spk\n  spk env --shell fish | source\nend\n");
    let b = init_block(target);
    assert(b.subrange(0, BEGIN_MARKER@.len() as int) =~= BEGIN_MARKER@);
    assert(b.subrange(b.len() - END_MARKER@.len() - 1, b.len() - 1) =~= END_MARKER@);
}

/// Running `spk init --set-docker-host` a second time on a startup file that
/// had no Speck block before the first run leaves exactly the one block the
/// first run appended: the second run replaces it with itself, and only one
/// more line break follows it.
pub proof fn lemma_init_block_written_once(content: Seq<char>, target: ShellTarget)
    requires
        text::find_from(content, BEGIN_MARKER@, 0) is None,
    ensures
        spliced_block(spliced_block(content, init_block(target)), init_block(target)) == spliced_block(
            content,
            init_block(target),
        ) + "\n"@,
{
    let m = BEGIN_MARKER@;
    let e = END_MARKER@;
    let b = init_block(target);
    lemma_block_shape(target);
    reveal_strlit("\n");
    let c1 = if content.len() == 0 || content.last() == '\n' {
        content
    } else {
        content + seq!['\n']
    };
    assert(spliced_block(content, b) == appended_block(content, b));
    let s1 = c1 + b;
    assert(appended_block(content, b) == s1);
    let n = c1.len() as int;
    text::lemma_find_from_none(content, m, 0);
    // The marker occurs in s1 first where the block starts.
    assert(s1.subrange(n, n + m.len()) =~= b.subrange(0, m.len() as int));
    assert forall|j: int| 0 <= j < n implies !text::occurs_at(s1, m, j) by {
        if text::occurs_at(s1, m, j) {
            if j + m.len() <= content.len() {
                assert(s1.subrange(j, j + m.len()) =~= content.subrange(j, j + m.len()));
                assert(text::occurs_at(content, m, j));
            } else {
                let t = n - 1 - j;
                assert(0 <= t < m.len());
                assert(s1[n - 1] == '\n');
                assert(s1.subrange(j, j + m.len())[t] == s1[n - 1]);
            }
        }
    }
    text::lemma_find_from_first(s1, m, 0, n);
    // The end marker occurs first at the end of the block.
    let pe = b.len() - e.len() - 1;
    assert(s1.subrange(n + pe, n + pe + e.len()) =~= b.subrange(pe, pe + e.len()));
    assert forall|j: int| n <= j < n + pe implies !text::occurs_at(s1, e, j) by {
        if text::occurs_at(s1, e, j) {
            assert(s1.subrange(j, j + e.len())[0] == s1[j]);
            assert(s1[j] == b[j - n]);
            if j == n {
                assert(s1.subrange(j, j + e.len())[2] == b[2]);
            }
        }
    }
    text::lemma_find_from_first(s1, e, n, n + pe);
    let s2 = s1.subrange(0, n) + b + s1.subrange(n + pe + e.len(), s1.len() as int);
    assert(spliced_block(s1, b) == s2);
    assert(s1.subrange(0, n) =~= c1);
    assert(s1.subrange(n + pe + e.len(), s1.len() as int) =~= seq!['\n']);
    assert(s2 =~= s1 + "\n"@);
}

} // verus!
