//! Container request checks: bind-mount specifications, container names,
//! image references, signals, and generated identifiers.
use vstd::prelude::*;
use crate::containerd::{self, ContainerCreateSpec, ContainerInfo, TaskInfo, TaskSpec, TaskStatus};
use crate::error::{DockerApiError, is_bad_request};
use crate::host;
use crate::text;

verus! {

/// A validated `host:container[:mode]` bind mount.
#[derive(Clone, Debug)]
pub struct DockerBind {
    /// Absolute path on the host.
    pub host_path: String,
    /// Absolute mount path inside the container, free of `..`.
    pub container_path: String,
    pub read_only: bool,
}

/// The parts of `s.splitn(3, ':')` when there are at least two: host,
/// container, and the rest after a second `:`.
pub open spec fn bind_parts(s: Seq<char>) -> Option<(Seq<char>, Seq<char>, Option<Seq<char>>)> {
    match text::index_of(s, ':') {
        None => None,
        Some(i) => {
            let host = s.subrange(0, i);
            let rest = s.subrange(i + 1, s.len() as int);
            match text::index_of(rest, ':') {
                None => Some((host, rest, None)),
                Some(j) => Some(
                    (host, rest.subrange(0, j), Some(rest.subrange(j + 1, rest.len() as int))),
                ),
            }
        },
    }
}

/// The read-only flag that a bind mode gives, or the error message for an
/// unknown mode.
pub open spec fn bind_mode(mode: Option<Seq<char>>) -> Result<bool, Seq<char>> {
    match mode {
        None => Ok(false),
        Some(m) => if m == "ro"@ {
            Ok(true)
        } else if m == "rw"@ {
            Ok(false)
        } else {
            Err("invalid bind mount mode '"@ + m + "'; expected 'ro' or 'rw'"@)
        },
    }
}

/// The outcome of every check of a bind specification but the existence of
/// the host path: (host, container, read-only), or the error message.
pub open spec fn bind_syntax(s: Seq<char>) -> Result<(Seq<char>, Seq<char>, bool), Seq<char>> {
    match bind_parts(s) {
        None => Err("bind mount must be in format 'host_path:container_path[:ro|:rw]'"@),
        Some((h, c, m)) => match bind_mode(m) {
            Err(e) => Err(e),
            Ok(ro) => if h.len() == 0 {
                Err("bind host path cannot be empty"@)
            } else if c.len() == 0 {
                Err("bind container path cannot be empty"@)
            } else if c[0] != '/' {
                Err("bind container path must be absolute, got: "@ + c)
            } else if text::contains_seq(c, ".."@) {
                Err("bind container path must not contain '..': "@ + c)
            } else if h[0] != '/' {
                Err("bind host path must be absolute, got: "@ + h)
            } else {
                Ok((h, c, ro))
            },
        },
    }
}

/// Splits `cs` as `splitn(3, ':')` does when it yields at least two parts:
/// the end of the host part, and the end of the container part.
pub fn split_bind_at(cs: &[char]) -> (r: Option<(usize, Option<usize>)>)
    ensures
        match bind_parts(cs@) {
            None => r is None,
            Some((h, c, m)) => r matches Some((i, j)) && i < cs@.len() && h == cs@.subrange(0, i as int)
                && match j {
                None => c == cs@.subrange(i + 1, cs@.len() as int) && m is None,
                Some(j) => i < j < cs@.len() && c == cs@.subrange(i + 1, j as int) && m == Some(
                    cs@.subrange(j + 1, cs@.len() as int),
                ),
            },
        },
{
    let n = cs.len();
    assert(cs@.subrange(0, n as int) =~= cs@);
    match text::find_char(cs, ':', 0, n) {
        None => None,
        Some(i) => {
            let ghost rest = cs@.subrange(i + 1, n as int);
            match text::find_char(cs, ':', i + 1, n) {
                None => Some((i, None)),
                Some(j) => {
                    assert(rest.subrange(0, j - i - 1) =~= cs@.subrange(i + 1, j as int));
                    assert(rest.subrange(j - i, rest.len() as int) =~= cs@.subrange(
                        j + 1,
                        n as int,
                    ));
                    Some((i, Some(j)))
                },
            }
        },
    }
}

/// Parses and validates a `host:container[:ro|:rw]` bind mount. Every check
/// but the last is on the text alone; the last asks the host whether the
/// host path exists.
pub fn parse_docker_bind(s: &str) -> (r: Result<DockerBind, DockerApiError>)
    ensures
        match bind_syntax(s@) {
            Err(m) => r matches Err(e) && is_bad_request(e, m),
            Ok((h, c, ro)) => match r {
                Ok(b) => b.host_path@ == h && b.container_path@ == c && b.read_only == ro,
                Err(e) => is_bad_request(e, "bind host path does not exist: "@ + h),
            },
        },
{
    let cs = text::chars_of(s);
    let n = cs.len();
    let (i, j) = match split_bind_at(cs.as_slice()) {
        None => {
            return Err(
                DockerApiError::BadRequest(
                    text::string_of(
                        "bind mount must be in format 'host_path:container_path[:ro|:rw]'",
                    ),
                ),
            );
        },
        Some(p) => p,
    };
    let container_end = match j {
        Some(j) => j,
        None => n,
    };
    let read_only = match j {
        None => false,
        Some(j) => {
            let mode = text::string_from_chars(cs.as_slice(), j + 1, n);
            if text::str_eq(mode.as_str(), "ro") {
                true
            } else if text::str_eq(mode.as_str(), "rw") {
                false
            } else {
                return Err(
                    DockerApiError::BadRequest(
                        text::concat3(
                            "invalid bind mount mode '",
                            mode.as_str(),
                            "'; expected 'ro' or 'rw'",
                        ),
                    ),
                );
            }
        },
    };
    let host = text::string_from_chars(cs.as_slice(), 0, i);
    let container = text::string_from_chars(cs.as_slice(), i + 1, container_end);
    if i == 0 {
        return Err(DockerApiError::BadRequest(text::string_of("bind host path cannot be empty")));
    }
    if container_end == i + 1 {
        return Err(
            DockerApiError::BadRequest(text::string_of("bind container path cannot be empty")),
        );
    }
    if cs[i + 1] != '/' {
        return Err(
            DockerApiError::BadRequest(
                text::concat2("bind container path must be absolute, got: ", container.as_str()),
            ),
        );
    }
    if text::str_contains(container.as_str(), "..") {
        return Err(
            DockerApiError::BadRequest(
                text::concat2("bind container path must not contain '..': ", container.as_str()),
            ),
        );
    }
    if cs[0] != '/' {
        return Err(
            DockerApiError::BadRequest(
                text::concat2("bind host path must be absolute, got: ", host.as_str()),
            ),
        );
    }
    if !host::path_exists(host.as_str()) {
        return Err(
            DockerApiError::BadRequest(
                text::concat2("bind host path does not exist: ", host.as_str()),
            ),
        );
    }
    Ok(DockerBind { host_path: host, container_path: container, read_only })
}

/// The label form of a bind: `host:container`, or `host:container:ro`.
pub open spec fn bind_label(host: Seq<char>, container: Seq<char>, read_only: bool) -> Seq<char> {
    if read_only {
        host + ":"@ + container + ":ro"@
    } else {
        host + ":"@ + container
    }
}

/// A bind that passed the checks, written in its label form, reads back as
/// the same bind: the label a create stores is what a start re-reads.
pub proof fn lemma_bind_label_round_trip(s: Seq<char>)
    requires
        bind_syntax(s) is Ok,
    ensures
        match bind_syntax(s) {
            Ok((h, c, ro)) => bind_syntax(bind_label(h, c, ro)) == Ok::<
                (Seq<char>, Seq<char>, bool),
                Seq<char>,
            >((h, c, ro)),
            Err(_) => true,
        },
{
    let (h, c, m) = bind_parts(s)->0;
    let ro = bind_syntax(s)->Ok_0.2;
    text::lemma_index_of_some(s, ':');
    let i = text::index_of(s, ':')->0;
    let rest = s.subrange(i + 1, s.len() as int);
    assert forall|j: int| 0 <= j < h.len() implies h[j] != ':' by {
        assert(h[j] == s[j]);
    }
    match text::index_of(rest, ':') {
        Some(k) => {
            text::lemma_index_of_some(rest, ':');
            assert forall|j: int| 0 <= j < c.len() implies c[j] != ':' by {
                assert(c[j] == rest[j]);
            }
        },
        None => {
            text::lemma_index_of_none_absent(rest, ':');
            assert forall|j: int| 0 <= j < c.len() implies c[j] != ':' by {
                assert(c[j] == rest[j]);
                assert(rest.contains(rest[j]));
            }
        },
    }
    reveal_strlit("ro");
    reveal_strlit("rw");
    reveal_strlit(":ro");
    reveal_strlit(":");
    let label = bind_label(h, c, ro);
    let colon = ":"@;
    assert(label[h.len() as int] == ':');
    assert forall|j: int| 0 <= j < h.len() implies label[j] != ':' by {
        assert(label[j] == h[j]);
    }
    text::lemma_index_of_first(label, ':', h.len() as int);
    let rest2 = label.subrange(h.len() + 1int, label.len() as int);
    if ro {
        assert(rest2 =~= c + ":ro"@);
        assert(rest2[c.len() as int] == ':');
        assert forall|j: int| 0 <= j < c.len() implies rest2[j] != ':' by {
            assert(rest2[j] == c[j]);
        }
        text::lemma_index_of_first(rest2, ':', c.len() as int);
        assert(rest2.subrange(0, c.len() as int) =~= c);
        assert(rest2.subrange(c.len() + 1int, rest2.len() as int) =~= "ro"@);
        assert(label.subrange(0, h.len() as int) =~= h);
    } else {
        assert(rest2 =~= c);
        text::lemma_index_of_none(rest2, ':');
        assert(label.subrange(0, h.len() as int) =~= h);
    }
}

impl DockerBind {
    /// Serialises the bind back to the `host:container[:ro]` label form.
    pub fn to_label_string(&self) -> (r: String)
        ensures
            r@ == bind_label(self.host_path@, self.container_path@, self.read_only),
    {
        let mut r = text::concat3(self.host_path.as_str(), ":", self.container_path.as_str());
        if self.read_only {
            text::push_str(&mut r, ":ro");
        }
        r
    }
}

/// What is wrong with a container or volume name.
#[derive(Clone, Copy, Debug, PartialEq, Eq, Structural)]
pub enum NameProblem {
    /// The name is empty.
    Empty,
    /// The first character is not an ASCII letter or digit.
    BadStart,
    /// A later character is not an ASCII letter, digit, `_`, `.` or `-`.
    BadChar,
}

/// The first problem of a container or volume name, if any.
pub open spec fn name_problem(s: Seq<char>) -> Option<NameProblem> {
    if s.len() == 0 {
        Some(NameProblem::Empty)
    } else if !text::is_ascii_alnum(s[0]) {
        Some(NameProblem::BadStart)
    } else if exists|i: int|
        1 <= i < s.len() && !(text::is_ascii_alnum(#[trigger] s[i]) || s[i] == '_' || s[i] == '.'
            || s[i] == '-') {
        Some(NameProblem::BadChar)
    } else {
        None
    }
}

pub fn is_ascii_alnum_char(c: char) -> (r: bool)
    ensures
        r == text::is_ascii_alnum(c),
{
    ('0' <= c && c <= '9') || ('a' <= c && c <= 'z') || ('A' <= c && c <= 'Z')
}

/// Classifies a container or volume name as `name_problem` does.
pub fn name_shape(name: &str) -> (r: Option<NameProblem>)
    ensures
        r == name_problem(name@),
{
    let cs = text::chars_of(name);
    if cs.len() == 0 {
        return Some(NameProblem::Empty);
    }
    if !is_ascii_alnum_char(cs[0]) {
        return Some(NameProblem::BadStart);
    }
    let mut i: usize = 1;
    while i < cs.len()
        invariant
            1 <= i <= cs@.len(),
            cs@ == name@,
            text::is_ascii_alnum(cs@[0]),
            forall|j: int|
                1 <= j < i ==> (text::is_ascii_alnum(#[trigger] cs@[j]) || cs@[j] == '_' || cs@[j]
                    == '.' || cs@[j] == '-'),
        decreases cs@.len() - i,
    {
        let c = cs[i];
        if !(is_ascii_alnum_char(c) || c == '_' || c == '.' || c == '-') {
            assert(name@[i as int] == c);
            assert(exists|k: int|
                1 <= k < name@.len() && !(text::is_ascii_alnum(#[trigger] name@[k]) || name@[k]
                    == '_' || name@[k] == '.' || name@[k] == '-'));
            return Some(NameProblem::BadChar);
        }
        i += 1;
    }
    None
}

/// The message that refuses a container name with problem `p`.
pub open spec fn container_name_message(p: NameProblem) -> Seq<char> {
    match p {
        NameProblem::Empty => "container name cannot be empty"@,
        NameProblem::BadStart => "container name must start with an ASCII letter or digit"@,
        NameProblem::BadChar => "container name contains invalid characters"@,
    }
}

/// Validates a container name: an ASCII letter or digit, then ASCII letters,
/// digits, `_`, `.` or `-`.
pub fn validate_container_name(name: &str) -> (r: Result<(), DockerApiError>)
    ensures
        name_problem(name@) == Some(NameProblem::Empty) ==> (r matches Err(e) && is_bad_request(
            e,
            "container name cannot be empty"@,
        )),
        name_problem(name@) == Some(NameProblem::BadStart) ==> (r matches Err(e) && is_bad_request(
            e,
            "container name must start with an ASCII letter or digit"@,
        )),
        name_problem(name@) == Some(NameProblem::BadChar) ==> (r matches Err(e) && is_bad_request(
            e,
            "container name contains invalid characters"@,
        )),
        name_problem(name@) is None ==> r is Ok,
{
    match name_shape(name) {
        Some(NameProblem::Empty) => Err(
            DockerApiError::BadRequest(text::string_of("container name cannot be empty")),
        ),
        Some(NameProblem::BadStart) => Err(
            DockerApiError::BadRequest(
                text::string_of("container name must start with an ASCII letter or digit"),
            ),
        ),
        Some(NameProblem::BadChar) => Err(
            DockerApiError::BadRequest(text::string_of("container name contains invalid characters")),
        ),
        None => Ok(()),
    }
}

/// Whether `c` is a shell metacharacter refused in image references.
pub open spec fn is_shell_meta(c: char) -> bool {
    c == ';' || c == '&' || c == '|' || c == '`' || c == '$' || c == '<' || c == '>' || c == '\n'
        || c == '\r'
}

/// A set of characters that a name or reference may not hold.
#[derive(Clone, Copy, Debug, PartialEq, Eq, Structural)]
pub enum Forbidden {
    /// Shell metacharacters, refused in image references.
    ShellMeta,
    /// Shell metacharacters and path separators, refused in network names.
    ShellMetaOrSeparator,
}

/// Whether some character of `s` is in the set `kind`.
pub open spec fn has_char_of(s: Seq<char>, kind: Forbidden) -> bool {
    exists|i: int| 0 <= i < s.len() && char_of_kind(#[trigger] s[i], kind)
}

/// Whether `c` is in the set `kind`.
pub open spec fn char_of_kind(c: char, kind: Forbidden) -> bool {
    match kind {
        Forbidden::ShellMeta => is_shell_meta(c),
        Forbidden::ShellMetaOrSeparator => is_shell_meta(c) || c == '/' || c == '\\',
    }
}

fn is_char_of_kind(c: char, kind: Forbidden) -> (r: bool)
    ensures
        r == char_of_kind(c, kind),
{
    let meta = c == ';' || c == '&' || c == '|' || c == '`' || c == '$' || c == '<' || c == '>'
        || c == '\n' || c == '\r';
    match kind {
        Forbidden::ShellMeta => meta,
        Forbidden::ShellMetaOrSeparator => meta || c == '/' || c == '\\',
    }
}

/// Whether some character of `s` is in the set `kind`.
pub fn contains_char_of(s: &str, kind: Forbidden) -> (r: bool)
    ensures
        r == has_char_of(s@, kind),
{
    let cs = text::chars_of(s);
    let mut i: usize = 0;
    while i < cs.len()
        invariant
            i <= cs@.len(),
            cs@ == s@,
            forall|j: int| 0 <= j < i ==> !char_of_kind(#[trigger] cs@[j], kind),
        decreases cs@.len() - i,
    {
        if is_char_of_kind(cs[i], kind) {
            return true;
        }
        i += 1;
    }
    false
}

/// Validates an image reference: not blank, and free of shell metacharacters.
pub fn validate_image_ref(image: &str) -> (r: Result<(), DockerApiError>)
    ensures
        text::trim(image@).len() == 0 ==> (r matches Err(e) && is_bad_request(
            e,
            "image reference cannot be empty"@,
        )),
        text::trim(image@).len() != 0 && has_char_of(image@, Forbidden::ShellMeta) ==> (r matches Err(e)
            && is_bad_request(e, "image reference contains shell metacharacters"@)),
        text::trim(image@).len() != 0 && !has_char_of(image@, Forbidden::ShellMeta) ==> r is Ok,
{
    if text::trimmed_chars(image).len() == 0 {
        return Err(DockerApiError::BadRequest(text::string_of("image reference cannot be empty")));
    }
    if contains_char_of(image, Forbidden::ShellMeta) {
        return Err(
            DockerApiError::BadRequest(
                text::string_of("image reference contains shell metacharacters"),
            ),
        );
    }
    Ok(())
}

/// `c` with ASCII lower-case letters turned upper-case.
pub open spec fn ascii_upper(c: char) -> char {
    if 'a' <= c && c <= 'z' {
        ((c as u32) - 32) as char
    } else {
        c
    }
}

fn upper_char(c: char) -> (r: char)
    ensures
        r == ascii_upper(c),
{
    if 'a' <= c && c <= 'z' {
        ((c as u8) - 32) as char
    } else {
        c
    }
}

/// The signal number for a signal name: the trimmed, ASCII-upper-cased name
/// must be one of `SIGTERM`/`TERM`/`15`, `SIGKILL`/`KILL`/`9`, `SIGINT`/`INT`/`2`.
pub open spec fn signal_number(norm: Seq<char>) -> Option<u32> {
    if norm == "SIGTERM"@ || norm == "TERM"@ || norm == "15"@ {
        Some(15)
    } else if norm == "SIGKILL"@ || norm == "KILL"@ || norm == "9"@ {
        Some(9)
    } else if norm == "SIGINT"@ || norm == "INT"@ || norm == "2"@ {
        Some(2)
    } else {
        None
    }
}

/// The signal number that the text of a kill request's `signal` selects:
/// trimmed and upper-cased, then looked up.
pub open spec fn signal_of(s: Seq<char>) -> Option<u32> {
    signal_number(text::trim(s).map_values(|c: char| ascii_upper(c)))
}

/// A signal name means the same with or without its `SIG` prefix, in any
/// letter case: for every name `x` of ASCII letters that does not itself
/// begin with `SIG`, `SIG` followed by `x` selects what `x` selects.
pub proof fn lemma_sig_prefix_is_optional(x: Seq<char>)
    requires
        forall|i: int| 0 <= i < x.len() ==> ('a' <= #[trigger] x[i] <= 'z' || 'A' <= x[i] <= 'Z'),
        !(x.len() >= 3 && ascii_upper(x[0]) == 'S' && ascii_upper(x[1]) == 'I' && ascii_upper(x[2])
            == 'G'),
    ensures
        signal_of("SIG"@ + x) == signal_of(x),
{
    reveal_strlit("SIG");
    reveal_strlit("SIGTERM");
    reveal_strlit("TERM");
    reveal_strlit("15");
    reveal_strlit("SIGKILL");
    reveal_strlit("KILL");
    reveal_strlit("9");
    reveal_strlit("SIGINT");
    reveal_strlit("INT");
    reveal_strlit("2");
    let w = "SIG"@ + x;
    assert(w[0] == 'S');
    if x.len() > 0 {
        assert(x[0] == x[0]);
        assert(x[x.len() - 1] == x[x.len() - 1]);
        assert(w.last() == x.last());
    }
    text::lemma_trim_unchanged(x);
    text::lemma_trim_unchanged(w);
    let u = x.map_values(|c: char| ascii_upper(c));
    let v = w.map_values(|c: char| ascii_upper(c));
    assert(v =~= "SIG"@ + u);
    assert forall|i: int| 0 <= i < u.len() implies 'A' <= #[trigger] u[i] <= 'Z' by {
        assert(x[i] == x[i]);
    }
    // `v` begins with `S`, so it names no bare name or number.
    assert(v[0] == 'S');
    // `u` begins with a letter and not with `SIG`.
    if u.len() >= 3 {
        assert(!(u[0] == 'S' && u[1] == 'I' && u[2] == 'G'));
    }
    if u.len() > 0 {
        assert('A' <= u[0] <= 'Z');
    }
    assert((v == "SIGTERM"@) == (u == "TERM"@)) by {
        if v == "SIGTERM"@ {
            assert(u =~= v.subrange(3, v.len() as int));
            assert(u =~= "TERM"@);
        }
        if u == "TERM"@ {
            assert(v =~= "SIGTERM"@);
        }
    }
    assert((v == "SIGKILL"@) == (u == "KILL"@)) by {
        if v == "SIGKILL"@ {
            assert(u =~= v.subrange(3, v.len() as int));
            assert(u =~= "KILL"@);
        }
        if u == "KILL"@ {
            assert(v =~= "SIGKILL"@);
        }
    }
    assert((v == "SIGINT"@) == (u == "INT"@)) by {
        if v == "SIGINT"@ {
            assert(u =~= v.subrange(3, v.len() as int));
            assert(u =~= "INT"@);
        }
        if u == "INT"@ {
            assert(v =~= "SIGINT"@);
        }
    }
    assert(u != "SIGTERM"@ && u != "SIGKILL"@ && u != "SIGINT"@) by {
        if u == "SIGTERM"@ || u == "SIGKILL"@ || u == "SIGINT"@ {
            assert(u[0] == 'S' && u[1] == 'I' && u[2] == 'G');
        }
    }
    assert(u != "15"@ && u != "9"@ && u != "2"@) by {
        if u == "15"@ || u == "9"@ || u == "2"@ {
            assert(u[0] == u[0]);
        }
    }
    assert(v != "TERM"@ && v != "KILL"@ && v != "INT"@ && v != "15"@ && v != "9"@ && v != "2"@);
}

/// A signal selected by name is selected by its number too: whatever text
/// selects signal `n`, the decimal text of `n` selects `n`.
pub proof fn lemma_signal_number_round_trip(s: Seq<char>)
    ensures
        signal_of(s) matches Some(n) ==> signal_of(text::decimal_text(n as nat)) == Some(n),
{
    reveal_strlit("SIGTERM");
    reveal_strlit("TERM");
    reveal_strlit("15");
    reveal_strlit("SIGKILL");
    reveal_strlit("KILL");
    reveal_strlit("9");
    reveal_strlit("SIGINT");
    reveal_strlit("INT");
    reveal_strlit("2");
    if let Some(n) = signal_of(s) {
        let d = text::decimal_text(n as nat);
        if n == 15 {
            assert(text::decimal_text(15) =~= seq!['1', '5']) by {
                reveal_with_fuel(text::decimal_text, 3);
            }
            assert(d =~= "15"@);
        } else if n == 9 {
            assert(text::decimal_text(9) =~= seq!['9']);
            assert(d =~= "9"@);
        } else {
            assert(text::decimal_text(2) =~= seq!['2']);
            assert(d =~= "2"@);
        }
        text::lemma_trim_unchanged(d);
        assert(d.map_values(|c: char| ascii_upper(c)) =~= d);
    }
}

/// Parses a kill signal given by name or number.
pub fn parse_signal(signal: &str) -> (r: Result<u32, DockerApiError>)
    ensures
        ({
            let norm = text::trim(signal@).map_values(|c: char| ascii_upper(c));
            match signal_number(norm) {
                Some(n) => r == Ok::<u32, DockerApiError>(n),
                None => r matches Err(e) && is_bad_request(e, "unsupported signal "@ + norm),
            }
        }),
{
    let t = text::trimmed_chars(signal);
    let mut norm = String::new();
    let mut i: usize = 0;
    while i < t.len()
        invariant
            i <= t@.len(),
            t@ == text::trim(signal@),
            norm@ == t@.subrange(0, i as int).map_values(|c: char| ascii_upper(c)),
        decreases t@.len() - i,
    {
        text::push_char(&mut norm, upper_char(t[i]));
        i += 1;
        assert(norm@ =~= t@.subrange(0, i as int).map_values(|c: char| ascii_upper(c)));
    }
    assert(t@.subrange(0, i as int) =~= t@);
    let n = norm.as_str();
    if text::str_eq(n, "SIGTERM") || text::str_eq(n, "TERM") || text::str_eq(n, "15") {
        Ok(15)
    } else if text::str_eq(n, "SIGKILL") || text::str_eq(n, "KILL") || text::str_eq(n, "9") {
        Ok(9)
    } else if text::str_eq(n, "SIGINT") || text::str_eq(n, "INT") || text::str_eq(n, "2") {
        Ok(2)
    } else {
        Err(DockerApiError::BadRequest(text::concat2("unsupported signal ", n)))
    }
}

/// The ASCII letters and digits of `s`, in order.
pub open spec fn alnum_filter(s: Seq<char>) -> Seq<char>
    decreases s.len(),
{
    if s.len() == 0 {
        Seq::empty()
    } else if text::is_ascii_alnum(s.last()) {
        alnum_filter(s.drop_last()).push(s.last())
    } else {
        alnum_filter(s.drop_last())
    }
}

/// At most the first `n` elements of `s`.
pub open spec fn take_at_most(s: Seq<char>, n: int) -> Seq<char> {
    if s.len() <= n {
        s
    } else {
        s.subrange(0, n)
    }
}

/// A container id for `image` generated at time `nanos`: up to the first 12
/// ASCII letters and digits of the image (`speck` when it has none), a dash,
/// and the time in lower-case hex.
pub open spec fn container_id_text(image: Seq<char>, nanos: u128) -> Seq<char> {
    let safe = take_at_most(alnum_filter(image), 12);
    (if safe.len() == 0 {
        "speck"@
    } else {
        safe
    }) + "-"@ + text::hex_text(nanos as nat)
}

/// The container id for `image` at time `nanos`.
pub fn container_id_for(image: &str, nanos: u128) -> (r: String)
    ensures
        r@ == container_id_text(image@, nanos),
{
    let cs = text::chars_of(image);
    let mut safe = String::new();
    let mut count: usize = 0;
    let mut i: usize = 0;
    while i < cs.len()
        invariant
            i <= cs@.len(),
            cs@ == image@,
            count <= 12,
            count == safe@.len(),
            safe@ == take_at_most(alnum_filter(cs@.subrange(0, i as int)), 12),
        decreases cs@.len() - i,
    {
        let c = cs[i];
        let ghost pre = cs@.subrange(0, i as int);
        assert(cs@.subrange(0, i + 1).drop_last() =~= pre);
        if is_ascii_alnum_char(c) {
            if count < 12 {
                text::push_char(&mut safe, c);
                count += 1;
            }
        }
        proof {
            let post = cs@.subrange(0, i + 1);
            assert(post.last() == c);
            if text::is_ascii_alnum(c) {
                assert(alnum_filter(post) == alnum_filter(pre).push(c));
                if alnum_filter(pre).len() >= 12 {
                    assert(take_at_most(alnum_filter(post), 12) =~= take_at_most(
                        alnum_filter(pre),
                        12,
                    ));
                }
            }
        }
        i += 1;
    }
    assert(cs@.subrange(0, i as int) =~= cs@);
    let mut r = if count == 0 {
        text::string_of("speck")
    } else {
        safe
    };
    text::push_str(&mut r, "-");
    text::push_hex(&mut r, nanos);
    r
}

/// Generates a container id for `image` from the current time.
pub fn generated_container_id(image: &str) -> (r: String)
    ensures
        exists|nanos: u128| r@ == container_id_text(image@, nanos),
{
    let nanos = host::now_nanos();
    container_id_for(image, nanos)
}

/// An exec id for a container at time `nanos`: `{container}-exec-{hex}`.
pub fn exec_id_for(container_id: &str, nanos: u128) -> (r: String)
    ensures
        r@ == container_id@ + "-exec-"@ + text::hex_text(nanos as nat),
{
    let mut r = text::concat2(container_id, "-exec-");
    text::push_hex(&mut r, nanos);
    r
}

/// Generates an exec id for a container from the current time.
pub fn generated_exec_id(container_id: &str) -> (r: String)
    ensures
        exists|nanos: u128| r@ == container_id@ + "-exec-"@ + text::hex_text(nanos as nat),
{
    let nanos = host::now_nanos();
    exec_id_for(container_id, nanos)
}

/// Joins map keys with commas, as the `speck.exposed_ports` label stores
/// them.
pub fn join_map_keys(keys: &Vec<String>) -> (r: String)
    ensures
        r@ == text::joined_with(text::views_of(keys@), ","@),
{
    text::join_strings(keys, ",")
}

/// The task record of a container that has no running task.
pub fn stopped_task(id: &str) -> (r: TaskInfo)
    ensures
        r.container_id@ == id@,
        r.exec_id@.len() == 0,
        r.pid == 0,
        r.status == TaskStatus::Stopped,
        r.exit_status == 0,
{
    TaskInfo {
        container_id: text::string_of(id),
        exec_id: String::new(),
        pid: 0,
        status: TaskStatus::Stopped,
        exit_status: 0,
    }
}

/// The unit separator (U+001F) that joins bind labels in `speck.binds`.
pub const BINDS_SEPARATOR: &'static str = "\u{1f}";

/// The query of `POST /containers/create`.
#[derive(Clone, Debug)]
pub struct CreateQuery {
    pub name: Option<String>,
}

/// One host binding of a published port.
#[derive(Clone, Debug)]
pub struct PortBindingBody {
    pub host_ip: Option<String>,
    pub host_port: Option<String>,
}

/// The restart policy of a container.
#[derive(Clone, Debug)]
pub struct RestartPolicy {
    pub name: Option<String>,
    pub maximum_retry_count: Option<i64>,
}

/// The `HostConfig` of a create request.
#[derive(Clone, Debug)]
pub struct HostConfig {
    /// Host bindings by `port/proto`.
    pub port_bindings: Option<Vec<(String, Vec<PortBindingBody>)>>,
    pub memory: Option<i64>,
    pub cpu_shares: Option<i64>,
    pub restart_policy: Option<RestartPolicy>,
    pub binds: Option<Vec<String>>,
}

/// The body of `POST /containers/create`; of `ExposedPorts` only the keys
/// matter.
#[derive(Clone, Debug)]
pub struct ContainerCreateBody {
    pub image: String,
    pub cmd: Option<Vec<String>>,
    pub env: Option<Vec<String>>,
    pub exposed_ports: Option<Vec<String>>,
    pub host_config: Option<HostConfig>,
    pub tty: Option<bool>,
}

/// The query of `GET /containers/json`.
#[derive(Clone, Copy, Debug, PartialEq, Eq, Structural)]
pub struct ListQuery {
    pub all: bool,
}

/// The query of `POST /containers/<id>/kill`.
#[derive(Clone, Debug)]
pub struct KillQuery {
    pub signal: Option<String>,
}

/// The label form of a bind specification that passed the text checks.
pub open spec fn syntax_label(b: Seq<char>) -> Seq<char> {
    match bind_syntax(b) {
        Ok((h, c, ro)) => bind_label(h, c, ro),
        Err(_) => Seq::empty(),
    }
}

/// The value of the `speck.binds` label for binds that all pass the text
/// checks: their labels joined by the unit separator.
pub open spec fn binds_label_text(binds: Seq<Seq<char>>) -> Seq<char> {
    text::joined_with(binds.map_values(|b: Seq<char>| syntax_label(b)), BINDS_SEPARATOR@)
}

/// Validates every bind of a create request and joins their labels. The
/// first bind that fails is reported; a bind whose host path is missing
/// fails too.
pub fn binds_label(binds: &Vec<String>) -> (r: Result<String, DockerApiError>)
    ensures
        r matches Ok(l) ==> (forall|i: int|
            0 <= i < binds@.len() ==> bind_syntax((#[trigger] binds@[i])@) is Ok) && l@
            == binds_label_text(text::views_of(binds@)),
        (exists|i: int| 0 <= i < binds@.len() && bind_syntax((#[trigger] binds@[i])@) is Err)
            ==> r is Err,
        r matches Err(e) ==> e is BadRequest,
{
    let mut labels: Vec<String> = Vec::new();
    let mut i: usize = 0;
    while i < binds.len()
        invariant
            i <= binds@.len(),
            labels@.len() == i,
            forall|j: int| 0 <= j < i ==> bind_syntax((#[trigger] binds@[j])@) is Ok,
            forall|j: int| 0 <= j < i ==> (#[trigger] labels@[j])@ == syntax_label(binds@[j]@),
        decreases binds@.len() - i,
    {
        match parse_docker_bind(binds[i].as_str()) {
            Ok(b) => {
                let l = b.to_label_string();
                labels.push(l);
            },
            Err(e) => {
                return Err(e);
            },
        }
        i += 1;
    }
    assert(text::views_of(labels@) =~= text::views_of(binds@).map_values(
        |b: Seq<char>| syntax_label(b),
    ));
    Ok(text::join_strings(&labels, BINDS_SEPARATOR))
}

/// The labels the create handler sets: the API version, the terminal flag,
/// and where given the exposed ports (comma-joined), the port bindings as
/// JSON and the validated binds.
pub open spec fn create_labels(
    tty: bool,
    exposed: Option<Seq<Seq<char>>>,
    port_bindings_json: Option<Seq<char>>,
    binds: Option<Seq<char>>,
) -> Seq<(Seq<char>, Seq<char>)> {
    seq![
        ("speck.docker.api_version"@, "1.44"@),
        ("speck.tty"@, if tty {
            "true"@
        } else {
            "false"@
        }),
    ] + match exposed {
        Some(k) => seq![("speck.exposed_ports"@, text::joined_with(k, ","@))],
        None => Seq::empty(),
    } + match port_bindings_json {
        Some(j) => seq![("speck.port_bindings"@, j)],
        None => Seq::empty(),
    } + match binds {
        Some(l) => seq![("speck.binds"@, l)],
        None => Seq::empty(),
    }
}

/// Whether some bind of a create request fails the text checks.
pub open spec fn some_bind_invalid(binds: Option<Vec<String>>) -> bool {
    match binds {
        Some(b) => exists|i: int| 0 <= i < b@.len() && bind_syntax((#[trigger] b@[i])@) is Err,
        None => false,
    }
}

/// The reason a create request is refused on its image or name alone, if any.
pub open spec fn create_refusal(image: Seq<char>, id: Seq<char>) -> Option<Seq<char>> {
    if text::trim(image).len() == 0 {
        Some("image reference cannot be empty"@)
    } else if has_char_of(image, Forbidden::ShellMeta) {
        Some("image reference contains shell metacharacters"@)
    } else {
        match name_problem(id) {
            Some(p) => Some(container_name_message(p)),
            None => None,
        }
    }
}

fn opt_strings(v: &Option<Vec<String>>) -> (r: Vec<String>)
    ensures
        r@ == match v {
            Some(x) => x@,
            None => Seq::<String>::empty(),
        },
{
    match v {
        Some(x) => crate::exec::clone_strings(x),
        None => Vec::new(),
    }
}

/// What planning `POST /containers/create` gives: the create request for
/// containerd, or the refusal of the image, the name or a bind.
pub open spec fn create_outcome(
    query: CreateQuery,
    body: ContainerCreateBody,
    port_bindings_json: Option<String>,
    generated_id: Seq<char>,
    r: Result<ContainerCreateSpec, DockerApiError>,
) -> bool {
            let id = match query.name {
                Some(n) => n@,
                None => generated_id,
            };
            let binds = match body.host_config {
                Some(h) => h.binds,
                None => None,
            };
            match create_refusal(body.image@, id) {
                Some(m) => r matches Err(e) && is_bad_request(e, m),
                None => if some_bind_invalid(binds) {
                    r is Err
                } else {
                    match r {
                        Err(e) => e is BadRequest && binds is Some,
                        Ok(spec) => {
                            &&& spec.id@ == id
                            &&& spec.image@ == body.image@
                            &&& spec.cmd@ == match body.cmd {
                                Some(c) => c@,
                                None => Seq::empty(),
                            }
                            &&& spec.env@ == match body.env {
                                Some(e) => e@,
                                None => Seq::empty(),
                            }
                            &&& spec.tty == match body.tty {
                                Some(t) => t,
                                None => false,
                            }
                            &&& containerd::label_views(spec.labels@) == create_labels(
                                spec.tty,
                                match body.exposed_ports {
                                    Some(k) => Some(text::views_of(k@)),
                                    None => None,
                                },
                                match port_bindings_json {
                                    Some(j) => Some(j@),
                                    None => None,
                                },
                                match binds {
                                    Some(b) => Some(binds_label_text(text::views_of(b@))),
                                    None => None,
                                },
                            )
                            &&& match body.host_config {
                                Some(h) => spec.memory == h.memory && spec.cpu_shares
                                    == h.cpu_shares && match h.restart_policy {
                                    Some(p) => spec.restart_policy == p.name
                                        && spec.restart_maximum_retry_count
                                        == p.maximum_retry_count,
                                    None => spec.restart_policy is None
                                        && spec.restart_maximum_retry_count is None,
                                },
                                None => spec.memory is None && spec.cpu_shares is None
                                    && spec.restart_policy is None
                                    && spec.restart_maximum_retry_count is None,
                            }
                        },
                    }
                },
            }
        }

/// Plans `POST /containers/create` for a container named `query.name`, or
/// else `generated_id`: the image reference and the name are checked, the
/// binds validated, and the create request for containerd assembled with its
/// labels. `port_bindings_json` is the JSON text of the port bindings, when
/// there are any.
pub fn plan_container_create(
    query: &CreateQuery,
    body: &ContainerCreateBody,
    port_bindings_json: Option<String>,
    generated_id: &str,
) -> (r: Result<ContainerCreateSpec, DockerApiError>)
    ensures
        create_outcome(*query, *body, port_bindings_json, generated_id@, r),
{
    match validate_image_ref(body.image.as_str()) {
        Ok(()) => {},
        Err(e) => return Err(e),
    }
    let id = match &query.name {
        Some(n) => {
            match validate_container_name(n.as_str()) {
                Ok(()) => {},
                Err(e) => return Err(e),
            }
            n.clone()
        },
        None => text::string_of(generated_id),
    };
    match validate_container_name(id.as_str()) {
        Ok(()) => {},
        Err(e) => return Err(e),
    }
    let tty = match body.tty {
        Some(t) => t,
        None => false,
    };
    let mut labels: Vec<(String, String)> = Vec::new();
    labels.push((text::string_of("speck.docker.api_version"), text::string_of("1.44")));
    labels.push(
        (
            text::string_of("speck.tty"),
            text::string_of(
                if tty {
                    "true"
                } else {
                    "false"
                },
            ),
        ),
    );
    let ghost fixed = containerd::label_views(labels@);
    assert(fixed =~= seq![
        ("speck.docker.api_version"@, "1.44"@),
        ("speck.tty"@, if tty {
            "true"@
        } else {
            "false"@
        }),
    ]);
    match &body.exposed_ports {
        Some(keys) => {
            let ghost before = labels@;
            labels.push((text::string_of("speck.exposed_ports"), join_map_keys(keys)));
            assert(containerd::label_views(labels@) =~= containerd::label_views(before).push(
                ("speck.exposed_ports"@, text::joined_with(text::views_of(keys@), ","@)),
            ));
        },
        None => {},
    }
    let ghost with_exposed = containerd::label_views(labels@);
    match &port_bindings_json {
        Some(j) => {
            let ghost before = labels@;
            labels.push((text::string_of("speck.port_bindings"), j.clone()));
            assert(containerd::label_views(labels@) =~= containerd::label_views(before).push(
                ("speck.port_bindings"@, j@),
            ));
        },
        None => {},
    }
    let ghost with_bindings = containerd::label_views(labels@);
    let (memory, cpu_shares, restart_policy, retry) = match &body.host_config {
        Some(h) => {
            match &h.binds {
                Some(b) => {
                    let label = match binds_label(b) {
                        Ok(l) => l,
                        Err(e) => return Err(e),
                    };
                    let ghost before = labels@;
                    labels.push((text::string_of("speck.binds"), label));
                    assert(containerd::label_views(labels@) =~= containerd::label_views(
                        before,
                    ).push(("speck.binds"@, binds_label_text(text::views_of(b@)))));
                },
                None => {},
            }
            let (p, n) = match &h.restart_policy {
                Some(rp) => (rp.name.clone(), rp.maximum_retry_count),
                None => (None, None),
            };
            (h.memory, h.cpu_shares, p, n)
        },
        None => (None, None, None, None),
    };
    assert(containerd::label_views(labels@) =~= create_labels(
        tty,
        match body.exposed_ports {
            Some(k) => Some(text::views_of(k@)),
            None => None,
        },
        match port_bindings_json {
            Some(j) => Some(j@),
            None => None,
        },
        match body.host_config {
            Some(h) => match h.binds {
                Some(b) => Some(binds_label_text(text::views_of(b@))),
                None => None,
            },
            None => None,
        },
    ));
    Ok(
        ContainerCreateSpec {
            id,
            image: body.image.clone(),
            cmd: opt_strings(&body.cmd),
            env: opt_strings(&body.env),
            labels,
            restart_policy,
            restart_maximum_retry_count: retry,
            memory,
            cpu_shares,
            tty,
        },
    )
}

/// Plans `POST /containers/create`, naming the container, when the request
/// does not, from its image and the current time.
pub fn plan_container_create_now(
    query: &CreateQuery,
    body: &ContainerCreateBody,
    port_bindings_json: Option<String>,
) -> (r: Result<ContainerCreateSpec, DockerApiError>)
    ensures
        query.name is Some ==> create_outcome(*query, *body, port_bindings_json, Seq::empty(), r),
        query.name is None ==> exists|nanos: u128|
            create_outcome(
                *query,
                *body,
                port_bindings_json,
                #[trigger] container_id_text(body.image@, nanos),
                r,
            ),
{
    match &query.name {
        Some(_) => plan_container_create(query, body, port_bindings_json, ""),
        None => {
            let nanos = host::now_nanos();
            let generated = container_id_for(body.image.as_str(), nanos);
            let r = plan_container_create(query, body, port_bindings_json, generated.as_str());
            assert(create_outcome(
                *query,
                *body,
                port_bindings_json,
                container_id_text(body.image@, nanos),
                r,
            ));
            r
        },
    }
}

/// The signal a kill request sends: the `signal` query, `SIGTERM` when it is
/// absent.
pub fn kill_signal(query: &KillQuery) -> (r: Result<u32, DockerApiError>)
    ensures
        ({
            let given = match query.signal {
                Some(s) => s@,
                None => "SIGTERM"@,
            };
            let norm = text::trim(given).map_values(|c: char| ascii_upper(c));
            match signal_number(norm) {
                Some(n) => r == Ok::<u32, DockerApiError>(n),
                None => r matches Err(e) && is_bad_request(e, "unsupported signal "@ + norm),
            }
        }),
{
    match &query.signal {
        Some(s) => parse_signal(s.as_str()),
        None => parse_signal("SIGTERM"),
    }
}

/// Whether `GET /containers/json` lists a container: every container with
/// `all`, else only the running ones.
pub fn listed(query: ListQuery, running: bool) -> (r: bool)
    ensures
        r == (query.all || running),
{
    query.all || running
}

/// The container ids of the running tasks, in task order.
pub open spec fn running_container_ids(tasks: Seq<TaskInfo>) -> Seq<Seq<char>>
    decreases tasks.len(),
{
    if tasks.len() == 0 {
        Seq::empty()
    } else if tasks.last().status == TaskStatus::Running {
        running_container_ids(tasks.drop_last()).push(tasks.last().container_id@)
    } else {
        running_container_ids(tasks.drop_last())
    }
}

/// The ids of the running tasks, as the container list needs them.
pub fn running_ids(tasks: &Vec<TaskInfo>) -> (r: Vec<String>)
    ensures
        text::views_of(r@) == running_container_ids(tasks@),
{
    let mut r: Vec<String> = Vec::new();
    let mut i: usize = 0;
    while i < tasks.len()
        invariant
            i <= tasks@.len(),
            text::views_of(r@) == running_container_ids(tasks@.subrange(0, i as int)),
        decreases tasks@.len() - i,
    {
        assert(tasks@.subrange(0, i + 1).drop_last() =~= tasks@.subrange(0, i as int));
        if tasks[i].status == TaskStatus::Running {
            let ghost before = r@;
            r.push(tasks[i].container_id.clone());
            assert(text::views_of(r@) =~= text::views_of(before).push(tasks@[i as int].container_id@));
        }
        i += 1;
    }
    assert(tasks@.subrange(0, i as int) =~= tasks@);
    r
}

/// The container name shown by the API: `/` and its `speck.name` label,
/// `/speck` when it has none.
pub open spec fn display_name(labels: Seq<(String, String)>) -> Seq<char> {
    "/"@ + match containerd::label_value(labels, "speck.name"@) {
        Some(n) => n,
        None => "speck"@,
    }
}

/// What `GET /containers/json` reports of a container.
#[derive(Clone, Debug)]
pub struct ContainerListEntry {
    pub id: String,
    pub names: Vec<String>,
    pub image: String,
    pub state: String,
    pub status: String,
    pub created: i64,
}

fn display_name_of(labels: &Vec<(String, String)>) -> (r: String)
    ensures
        r@ == display_name(labels@),
{
    match containerd::get_label(labels, "speck.name") {
        Some(n) => text::concat2("/", n.as_str()),
        None => text::concat2("/", "speck"),
    }
}

/// A container as the list reports it: `running`/`Up` when its task runs,
/// `exited`/`Exited` otherwise.
pub fn container_list_entry(container: &ContainerInfo, running: bool) -> (r: ContainerListEntry)
    ensures
        r.id@ == container.id@,
        r.names@.len() == 1 && r.names@[0]@ == display_name(container.labels@),
        r.image@ == container.image@,
        r.state@ == (if running {
            "running"@
        } else {
            "exited"@
        }),
        r.status@ == (if running {
            "Up"@
        } else {
            "Exited"@
        }),
        r.created == container.created_at_seconds,
{
    let mut names: Vec<String> = Vec::new();
    names.push(display_name_of(&container.labels));
    ContainerListEntry {
        id: container.id.clone(),
        names,
        image: container.image.clone(),
        state: text::string_of(
            if running {
                "running"
            } else {
                "exited"
            },
        ),
        status: text::string_of(
            if running {
                "Up"
            } else {
                "Exited"
            },
        ),
        created: container.created_at_seconds,
    }
}

/// What `GET /containers/<id>/json` reports of a container.
#[derive(Clone, Debug)]
pub struct ContainerInspectEntry {
    pub id: String,
    pub name: String,
    pub image: String,
    pub status: String,
    pub running: bool,
    pub pid: u32,
    pub exit_code: u32,
    /// Host (address, port) pairs by `port/proto`.
    pub ports: Vec<(String, Vec<(String, String)>)>,
}

/// The host address a published port is shown with: its `HostIp`, or
/// `0.0.0.0` when that is missing or empty.
pub open spec fn shown_host_ip(ip: Option<String>) -> Seq<char> {
    match ip {
        Some(a) => if a@.len() == 0 {
            "0.0.0.0"@
        } else {
            a@
        },
        None => "0.0.0.0"@,
    }
}

/// The host (address, port) a published port is shown with; a missing host
/// port is shown empty.
pub open spec fn shown_binding(b: PortBindingBody) -> (Seq<char>, Seq<char>) {
    (
        shown_host_ip(b.host_ip),
        match b.host_port {
            Some(p) => p@,
            None => Seq::empty(),
        },
    )
}

fn show_bindings(bindings: &Vec<PortBindingBody>) -> (r: Vec<(String, String)>)
    ensures
        r@.len() == bindings@.len(),
        forall|k: int|
            0 <= k < r@.len() ==> ((#[trigger] r@[k]).0@, r@[k].1@) == shown_binding(bindings@[k]),
{
    let mut r: Vec<(String, String)> = Vec::new();
    let mut i: usize = 0;
    while i < bindings.len()
        invariant
            i <= bindings@.len(),
            r@.len() == i,
            forall|k: int|
                0 <= k < i ==> ((#[trigger] r@[k]).0@, r@[k].1@) == shown_binding(bindings@[k]),
        decreases bindings@.len() - i,
    {
        let b = &bindings[i];
        let ip = match &b.host_ip {
            Some(a) => if text::chars_of(a.as_str()).len() == 0 {
                text::string_of("0.0.0.0")
            } else {
                a.clone()
            },
            None => text::string_of("0.0.0.0"),
        };
        let port = match &b.host_port {
            Some(p) => p.clone(),
            None => String::new(),
        };
        r.push((ip, port));
        i += 1;
    }
    r
}

/// A container and its task as the inspection reports them, with its
/// published ports (`None`: none recorded).
pub fn container_inspect_entry(
    container: &ContainerInfo,
    task: &TaskInfo,
    port_bindings: &Option<Vec<(String, Vec<PortBindingBody>)>>,
) -> (r: ContainerInspectEntry)
    ensures
        r.id@ == container.id@,
        r.name@ == display_name(container.labels@),
        r.image@ == container.image@,
        r.running == (task.status == TaskStatus::Running),
        r.status@ == (if r.running {
            "running"@
        } else {
            "exited"@
        }),
        r.pid == task.pid,
        r.exit_code == task.exit_status,
        match port_bindings {
            None => r.ports@.len() == 0,
            Some(pb) => r.ports@.len() == pb@.len() && forall|k: int|
                0 <= k < pb@.len() ==> (#[trigger] r.ports@[k]).0@ == pb@[k].0@ && r.ports@[k].1@.len()
                    == pb@[k].1@.len() && forall|m: int|
                    0 <= m < pb@[k].1@.len() ==> ((#[trigger] r.ports@[k].1@[m]).0@,
                    r.ports@[k].1@[m].1@) == shown_binding(pb@[k].1@[m]),
        },
{
    let running = task.status == TaskStatus::Running;
    let mut ports: Vec<(String, Vec<(String, String)>)> = Vec::new();
    match port_bindings {
        Some(pb) => {
            let mut i: usize = 0;
            while i < pb.len()
                invariant
                    i <= pb@.len(),
                    ports@.len() == i,
                    forall|k: int|
                        0 <= k < i ==> (#[trigger] ports@[k]).0@ == pb@[k].0@ && ports@[k].1@.len()
                            == pb@[k].1@.len() && forall|m: int|
                            0 <= m < pb@[k].1@.len() ==> ((#[trigger] ports@[k].1@[m]).0@,
                            ports@[k].1@[m].1@) == shown_binding(pb@[k].1@[m]),
                decreases pb@.len() - i,
            {
                let shown = show_bindings(&pb[i].1);
                ports.push((pb[i].0.clone(), shown));
                i += 1;
            }
        },
        None => {},
    }
    ContainerInspectEntry {
        id: container.id.clone(),
        name: display_name_of(&container.labels),
        image: container.image.clone(),
        status: text::string_of(
            if running {
                "running"
            } else {
                "exited"
            },
        ),
        running,
        pid: task.pid,
        exit_code: task.exit_status,
        ports,
    }
}

/// The log relay FIFOs of a container's stdout and stderr in the guest.
pub fn relay_fifo_paths(id: &str) -> (r: (String, String))
    ensures
        r.0@ == "/tmp/speck-logs/"@ + id@ + ".stdout"@,
        r.1@ == "/tmp/speck-logs/"@ + id@ + ".stderr"@,
{
    (text::concat3("/tmp/speck-logs/", id, ".stdout"), text::concat3("/tmp/speck-logs/", id, ".stderr"))
}

/// Whether a container was created with a terminal: its `speck.tty` label
/// is `true`.
pub fn created_with_tty(labels: &Vec<(String, String)>) -> (r: bool)
    ensures
        r == (containerd::label_value(labels@, "speck.tty"@) == Some("true"@)),
{
    match containerd::get_label(labels, "speck.tty") {
        Some(v) => text::str_eq(v.as_str(), "true"),
        None => false,
    }
}

/// The task that starting container `id` creates: with a terminal when the
/// container was created with one, and with its output going to the log
/// relay FIFOs when the relay for it was set up.
pub fn start_task_spec(id: &str, labels: &Vec<(String, String)>, relay_created: bool) -> (r: TaskSpec)
    ensures
        r.container_id@ == id@,
        r.terminal == (containerd::label_value(labels@, "speck.tty"@) == Some("true"@)),
        relay_created ==> (r.stdout_fifo matches Some(o) && o@ == "/tmp/speck-logs/"@ + id@
            + ".stdout"@),
        relay_created ==> (r.stderr_fifo matches Some(e) && e@ == "/tmp/speck-logs/"@ + id@
            + ".stderr"@),
        !relay_created ==> r.stdout_fifo is None && r.stderr_fifo is None,
{
    let terminal = created_with_tty(labels);
    if relay_created {
        let (o, e) = relay_fifo_paths(id);
        TaskSpec { container_id: text::string_of(id), terminal, stdout_fifo: Some(o), stderr_fifo: Some(e) }
    } else {
        TaskSpec { container_id: text::string_of(id), terminal, stdout_fifo: None, stderr_fifo: None }
    }
}

/// The container port of a `port/proto` key: the number before the first
/// `/` (the whole key when there is none).
pub open spec fn container_port_of(port_proto: Seq<char>) -> Option<int> {
    let first = match text::index_of(port_proto, '/') {
        Some(i) => port_proto.subrange(0, i),
        None => port_proto,
    };
    text::parse_unsigned(first, 65535)
}

/// The (host, container) port maps of one container port's bindings: each
/// binding whose host port is a valid port number.
pub open spec fn binding_maps(cp: int, bindings: Seq<PortBindingBody>) -> Seq<(u16, u16)>
    decreases bindings.len(),
{
    if bindings.len() == 0 {
        Seq::empty()
    } else {
        let rest = binding_maps(cp, bindings.drop_last());
        match bindings.last().host_port {
            Some(hp) => match text::parse_unsigned(hp@, 65535) {
                Some(h) => rest.push((h as u16, cp as u16)),
                None => rest,
            },
            None => rest,
        }
    }
}

/// The (host, container) port maps that a container's recorded port
/// bindings ask for, skipping keys and host ports that are not port numbers.
pub open spec fn port_maps_of(bindings: Seq<(String, Vec<PortBindingBody>)>) -> Seq<(u16, u16)>
    decreases bindings.len(),
{
    if bindings.len() == 0 {
        Seq::empty()
    } else {
        let rest = port_maps_of(bindings.drop_last());
        match container_port_of(bindings.last().0@) {
            Some(cp) => rest + binding_maps(cp, bindings.last().1@),
            None => rest,
        }
    }
}

fn parse_port(s: &str) -> (r: Option<u16>)
    ensures
        match text::parse_unsigned(s@, 65535) {
            Some(n) => 0 <= n <= 65535 && r == Some(n as u16),
            None => r is None,
        },
{
    let cs = text::chars_of(s);
    match text::parse_unsigned_bounded(cs.as_slice(), 65535) {
        Some(n) => Some(n as u16),
        None => None,
    }
}

fn container_port(port_proto: &str) -> (r: Option<u16>)
    ensures
        match container_port_of(port_proto@) {
            Some(n) => 0 <= n <= 65535 && r == Some(n as u16),
            None => r is None,
        },
{
    let cs = text::chars_of(port_proto);
    let n = cs.len();
    assert(cs@.subrange(0, n as int) =~= cs@);
    let end = match text::find_char(cs.as_slice(), '/', 0, n) {
        Some(i) => i,
        None => n,
    };
    let first = text::string_from_chars(cs.as_slice(), 0, end);
    parse_port(first.as_str())
}

/// The port maps to install when a container starts.
pub fn port_maps(bindings: &Vec<(String, Vec<PortBindingBody>)>) -> (r: Vec<(u16, u16)>)
    ensures
        r@ == port_maps_of(bindings@),
{
    let mut r: Vec<(u16, u16)> = Vec::new();
    let mut i: usize = 0;
    while i < bindings.len()
        invariant
            i <= bindings@.len(),
            r@ == port_maps_of(bindings@.subrange(0, i as int)),
        decreases bindings@.len() - i,
    {
        assert(bindings@.subrange(0, i + 1).drop_last() =~= bindings@.subrange(0, i as int));
        match container_port(bindings[i].0.as_str()) {
            Some(cp) => {
                let hbs = &bindings[i].1;
                let ghost base = r@;
                let mut j: usize = 0;
                while j < hbs.len()
                    invariant
                        j <= hbs@.len(),
                        r@ == base + binding_maps(cp as int, hbs@.subrange(0, j as int)),
                    decreases hbs@.len() - j,
                {
                    assert(hbs@.subrange(0, j + 1).drop_last() =~= hbs@.subrange(0, j as int));
                    match &hbs[j].host_port {
                        Some(hp) => match parse_port(hp.as_str()) {
                            Some(h) => {
                                r.push((h, cp));
                                assert(r@ =~= base + binding_maps(
                                    cp as int,
                                    hbs@.subrange(0, j + 1),
                                ));
                            },
                            None => {},
                        },
                        None => {},
                    }
                    j += 1;
                }
                assert(hbs@.subrange(0, j as int) =~= hbs@);
                assert(bindings@.subrange(0, i + 1).last() == bindings@[i as int]);
            },
            None => {
                assert(bindings@.subrange(0, i + 1).last() == bindings@[i as int]);
            },
        }
        i += 1;
    }
    assert(bindings@.subrange(0, i as int) =~= bindings@);
    r
}

/// The binds kept from the label pieces: each non-empty piece that passes
/// the text checks and whose host path was found (`found[i]`).
pub open spec fn kept_binds(pieces: Seq<Seq<char>>, found: Seq<bool>) -> Seq<
    (Seq<char>, Seq<char>, bool),
>
    decreases pieces.len(),
{
    if pieces.len() == 0 || found.len() != pieces.len() {
        Seq::empty()
    } else {
        let rest = kept_binds(pieces.drop_last(), found.drop_last());
        if pieces.last().len() > 0 && found.last() {
            match bind_syntax(pieces.last()) {
                Ok(t) => rest.push(t),
                Err(_) => rest,
            }
        } else {
            rest
        }
    }
}

/// The (host, container, read-only) triples of binds.
pub open spec fn bind_triples(binds: Seq<DockerBind>) -> Seq<(Seq<char>, Seq<char>, bool)> {
    binds.map_values(|b: DockerBind| (b.host_path@, b.container_path@, b.read_only))
}

/// The bind mounts to apply when a container starts, re-read from its
/// `speck.binds` label: empty pieces and binds that no longer pass the
/// checks are skipped. Whether each host path still exists is asked of the
/// host; `found` stands for those answers.
pub fn binds_from_label(label: &str) -> (r: Vec<DockerBind>)
    ensures
        exists|found: Seq<bool>|
            found.len() == text::split_on(label@, '\u{1f}').len() && bind_triples(r@) == kept_binds(
                text::split_on(label@, '\u{1f}'),
                found,
            ),
{
    let pieces = text::split_chars(label, '\u{1f}');
    let ghost views = text::views_of(pieces@);
    let ghost mut found: Seq<bool> = Seq::empty();
    let mut r: Vec<DockerBind> = Vec::new();
    let mut i: usize = 0;
    while i < pieces.len()
        invariant
            i <= pieces@.len(),
            views == text::views_of(pieces@),
            found.len() == i,
            bind_triples(r@) == kept_binds(views.subrange(0, i as int), found),
        decreases pieces@.len() - i,
    {
        assert(views.subrange(0, i + 1).drop_last() =~= views.subrange(0, i as int));
        let piece = pieces[i].as_str();
        let ghost ok: bool = false;
        if text::chars_of(piece).len() > 0 {
            match parse_docker_bind(piece) {
                Ok(b) => {
                    let ghost before = r@;
                    r.push(b);
                    proof {
                        ok = true;
                    }
                    assert(bind_triples(r@) =~= bind_triples(before).push(
                        (r@.last().host_path@, r@.last().container_path@, r@.last().read_only),
                    ));
                },
                Err(_) => {},
            }
        }
        proof {
            let f2 = found.push(ok);
            assert(f2.drop_last() =~= found);
            found = f2;
        }
        i += 1;
    }
    assert(views.subrange(0, i as int) =~= views);
    r
}

} // verus!
