//! Request-path normalisation and the restart gate in front of the Docker API.
use vstd::prelude::*;
use vstd::string::StrSliceExecFns;
use crate::events::VmState;
use crate::text;

verus! {

/// Whether every `.`-separated segment of `s` is a non-empty run of ASCII
/// digits, as `s.split('.').all(..)` checks it.
pub open spec fn segments_numeric(s: Seq<char>) -> bool
    decreases s.len(),
{
    match text::index_of(s, '.') {
        Some(i) => if 0 < i < s.len() {
            text::all_digits(s.subrange(0, i)) && segments_numeric(s.subrange(i + 1, s.len() as int))
        } else {
            false
        },
        None => s.len() > 0 && text::all_digits(s),
    }
}

/// The request path with its leading `/v{version}` segment removed, where the
/// version is dot-separated digits; `None` for any other path.
pub open spec fn version_stripped(p: Seq<char>) -> Option<Seq<char>> {
    if p.len() >= 2 && p[0] == '/' && p[1] == 'v' {
        let rest = p.subrange(2, p.len() as int);
        match text::index_of(rest, '/') {
            Some(k) => if segments_numeric(rest.subrange(0, k)) {
                Some(rest.subrange(k, rest.len() as int))
            } else {
                None
            },
            None => None,
        }
    } else {
        None
    }
}

/// A numeric version holds no `/`.
pub proof fn lemma_numeric_version_has_no_slash(s: Seq<char>)
    requires
        segments_numeric(s),
    ensures
        !s.contains('/'),
    decreases s.len(),
{
    match text::index_of(s, '.') {
        Some(i) => {
            text::lemma_index_of_some(s, '.');
            let head = s.subrange(0, i);
            let tail = s.subrange(i + 1, s.len() as int);
            lemma_numeric_version_has_no_slash(tail);
            assert forall|j: int| 0 <= j < s.len() implies s[j] != '/' by {
                if j < i {
                    assert(s[j] == head[j]);
                    assert(text::is_ascii_digit(head[j]));
                } else if j > i {
                    assert(s[j] == tail[j - i - 1]);
                }
            }
        },
        None => {
            assert forall|j: int| 0 <= j < s.len() implies s[j] != '/' by {
                assert(text::is_ascii_digit(s[j]));
            }
        },
    }
}

/// `/v`, a numeric version, then a path that begins with `/`: stripping
/// the version gives back that path.
pub proof fn lemma_version_prefix_stripped(v: Seq<char>, p: Seq<char>)
    requires
        segments_numeric(v),
        p.len() > 0,
        p[0] == '/',
    ensures
        version_stripped("/v"@ + v + p) == Some(p),
{
    reveal_strlit("/v");
    lemma_numeric_version_has_no_slash(v);
    let whole = "/v"@ + v + p;
    let rest = whole.subrange(2, whole.len() as int);
    assert(rest =~= v + p);
    assert(rest[v.len() as int] == '/');
    assert forall|j: int| 0 <= j < v.len() implies rest[j] != '/' by {
        assert(rest[j] == v[j]);
    }
    text::lemma_index_of_first(rest, '/', v.len() as int);
    assert(rest.subrange(0, v.len() as int) =~= v);
    assert(rest.subrange(v.len() as int, rest.len() as int) =~= p);
}

fn all_digits_between(s: &[char], from: usize, to: usize) -> (r: bool)
    requires
        from <= to <= s@.len(),
    ensures
        r == text::all_digits(s@.subrange(from as int, to as int)),
{
    let mut i = from;
    while i < to
        invariant
            from <= i <= to <= s@.len(),
            forall|j: int| from <= j < i ==> text::is_ascii_digit(#[trigger] s@[j]),
        decreases to - i,
    {
        if !('0' <= s[i] && s[i] <= '9') {
            assert(s@.subrange(from as int, to as int)[i - from] == s@[i as int]);
            return false;
        }
        i += 1;
    }
    assert forall|j: int| 0 <= j < to - from implies text::is_ascii_digit(
        #[trigger] s@.subrange(from as int, to as int)[j],
    ) by {
        assert(s@.subrange(from as int, to as int)[j] == s@[from + j]);
    }
    true
}

/// Whether `s[from..to]` is dot-separated digit segments.
fn version_numeric(s: &[char], from: usize, to: usize) -> (r: bool)
    requires
        from <= to <= s@.len(),
    ensures
        r == segments_numeric(s@.subrange(from as int, to as int)),
{
    let mut pos = from;
    while pos <= to
        invariant
            from <= pos <= to,
            to <= s@.len(),
            segments_numeric(s@.subrange(from as int, to as int)) == segments_numeric(
                s@.subrange(pos as int, to as int),
            ),
        decreases to + 1 - pos,
    {
        let ghost t = s@.subrange(pos as int, to as int);
        match text::find_char(s, '.', pos, to) {
            Some(i) => {
                proof {
                    assert(t.subrange(0, i - pos) =~= s@.subrange(pos as int, i as int));
                    assert(t.subrange(i - pos + 1, t.len() as int) =~= s@.subrange(
                        i + 1,
                        to as int,
                    ));
                }
                if i == pos || !all_digits_between(s, pos, i) {
                    return false;
                }
                pos = i + 1;
            },
            None => {
                return pos < to && all_digits_between(s, pos, to);
            },
        }
    }
    false
}

/// Removes the Docker API version prefix (`/v1.44/`, `/v1/` …) from a request
/// path; `None` when the path carries no such prefix.
pub fn strip_version_prefix(path: &str) -> (r: Option<&str>)
    ensures
        match version_stripped(path@) {
            Some(t) => r matches Some(x) && x@ == t,
            None => r is None,
        },
{
    let p = text::chars_of(path);
    let n = p.len();
    if n < 2 || p[0] != '/' || p[1] != 'v' {
        return None;
    }
    let ghost rest = path@.subrange(2, n as int);
    match text::find_char(p.as_slice(), '/', 2, n) {
        Some(slash) => {
            proof {
                assert(rest.subrange(0, slash - 2) =~= p@.subrange(2, slash as int));
                assert(rest.subrange(slash - 2, rest.len() as int) =~= p@.subrange(
                    slash as int,
                    n as int,
                ));
            }
            if version_numeric(p.as_slice(), 2, slash) {
                Some(path.substring_char(slash, n))
            } else {
                None
            }
        },
        None => None,
    }
}

/// What the restart gate does with a request.
#[derive(Clone, Copy, Debug, PartialEq, Eq, Structural)]
pub enum RestartGate {
    /// Forward the request to the inner service.
    PassThrough,
    /// Answer at once with this status and `Retry-After` value in seconds.
    Reject { status: u16, retry_after_secs: u16 },
}

/// What happens to requests while the VM is in `state`: during a restart every
/// request is answered 503 with `Retry-After: 5`; otherwise it passes.
pub open spec fn gate_for(state: VmState) -> RestartGate {
    if state is Restarting {
        RestartGate::Reject { status: 503, retry_after_secs: 5 }
    } else {
        RestartGate::PassThrough
    }
}

/// Decides a request while the VM is in `state`.
pub fn restart_check(state: &VmState) -> (r: RestartGate)
    ensures
        r == gate_for(*state),
{
    match state {
        VmState::Restarting => RestartGate::Reject { status: 503, retry_after_secs: 5 },
        _ => RestartGate::PassThrough,
    }
}

} // verus!
