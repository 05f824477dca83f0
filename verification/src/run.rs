//! `spk run`: the container-create request it builds from its arguments, and
//! the Docker API paths it calls along the way.
use vstd::prelude::*;
use vstd::string::StringSliceAdditionalSpecFns;
use crate::host;
use crate::text;
use crate::theme;

verus! {

/// The arguments of `spk run`.
#[derive(Clone, Debug)]
pub struct RunArgs {
    pub image: String,
    pub cmd: Vec<String>,
    /// `host:container` port publications.
    pub port: Vec<String>,
    /// `host_path:container_path` volumes.
    pub volume: Vec<String>,
    /// `KEY=value` environment entries.
    pub env: Vec<String>,
    pub detach: bool,
}

/// Why a port number did not parse, as `u16::from_str` tells them apart.
#[derive(Clone, Copy, Debug, PartialEq, Eq, Structural)]
pub enum PortError {
    Empty,
    InvalidDigit,
    TooLarge,
}

impl PortError {
    /// The text `ParseIntError` shows for this kind.
    pub fn message(&self) -> (r: String)
        ensures
            *self == PortError::Empty ==> r@ == "cannot parse integer from empty string"@,
            *self == PortError::InvalidDigit ==> r@ == "invalid digit found in string"@,
            *self == PortError::TooLarge ==> r@ == "number too large to fit in target type"@,
    {
        match self {
            PortError::Empty => text::string_of("cannot parse integer from empty string"),
            PortError::InvalidDigit => text::string_of("invalid digit found in string"),
            PortError::TooLarge => text::string_of("number too large to fit in target type"),
        }
    }
}

/// What parsing a port number gives.
pub open spec fn port_parse(s: Seq<char>) -> Result<u16, PortError> {
    if s.len() == 0 {
        Err(PortError::Empty)
    } else {
        match text::unsigned_digits(s) {
            None => Err(PortError::InvalidDigit),
            Some(d) => if text::decimal_value(d) <= 65535 {
                Ok(text::decimal_value(d) as u16)
            } else {
                Err(PortError::TooLarge)
            },
        }
    }
}

fn parse_port(s: &str) -> (r: Result<u16, PortError>)
    ensures
        r == port_parse(s@),
{
    let cs = text::chars_of(s);
    if cs.len() == 0 {
        return Err(PortError::Empty);
    }
    if !digits_only(cs.as_slice()) {
        return Err(PortError::InvalidDigit);
    }
    match text::parse_unsigned_bounded(cs.as_slice(), 65535) {
        Some(v) => Ok(v as u16),
        None => Err(PortError::TooLarge),
    }
}

fn digits_only(cs: &[char]) -> (r: bool)
    ensures
        r == (text::unsigned_digits(cs@) is Some),
{
    let n = cs.len();
    let start: usize = if n > 0 && cs[0] == '+' {
        1
    } else {
        0
    };
    let ghost d = if cs@.len() > 0 && cs@[0] == '+' {
        cs@.drop_first()
    } else {
        cs@
    };
    assert(d =~= cs@.subrange(start as int, n as int));
    if start == n {
        return false;
    }
    let mut i = start;
    while i < n
        invariant
            start <= i <= n == cs@.len(),
            d == cs@.subrange(start as int, n as int),
            d == (if cs@.len() > 0 && cs@[0] == '+' {
                cs@.drop_first()
            } else {
                cs@
            }),
            forall|j: int| start <= j < i ==> text::is_ascii_digit(#[trigger] cs@[j]),
        decreases n - i,
    {
        if !('0' <= cs[i] && cs[i] <= '9') {
            assert(d[i - start] == cs@[i as int]);
            return false;
        }
        i += 1;
    }
    assert forall|j: int| 0 <= j < d.len() implies text::is_ascii_digit(#[trigger] d[j]) by {
        assert(d[j] == cs@[start + j]);
    }
    true
}

/// The (container port, host port) of each `host:container` publication,
/// split at its first `:`; entries without `:` are skipped.
pub open spec fn published_ports(specs: Seq<Seq<char>>) -> Result<Seq<(u16, Seq<char>)>, PortError>
    decreases specs.len(),
{
    if specs.len() == 0 {
        Ok(Seq::empty())
    } else {
        match published_ports(specs.drop_last()) {
            Err(e) => Err(e),
            Ok(rest) => {
                let s = specs.last();
                match text::index_of(s, ':') {
                    None => Ok(rest),
                    Some(i) => match port_parse(s.subrange(i + 1, s.len() as int)) {
                        Err(e) => Err(e),
                        Ok(cp) => Ok(rest.push((cp, s.subrange(0, i)))),
                    },
                }
            },
        }
    }
}

/// Every port number can be published: `h:n`, for any host part `h`
/// without `:` and any `n` from 0 to 65535 written in decimal, publishes
/// container port `n` on host part `h`.
pub proof fn lemma_every_port_publishes(h: Seq<char>, n: u16)
    requires
        !h.contains(':'),
    ensures
        published_ports(seq![h + ":"@ + text::decimal_text(n as nat)]) == Ok::<
            Seq<(u16, Seq<char>)>,
            PortError,
        >(seq![(n, h)]),
{
    reveal_strlit(":");
    let d = text::decimal_text(n as nat);
    text::lemma_decimal_text_value(n as nat);
    let s = h + ":"@ + d;
    let specs = seq![s];
    assert(specs.drop_last() =~= Seq::<Seq<char>>::empty());
    assert(published_ports(specs.drop_last()) == Ok::<Seq<(u16, Seq<char>)>, PortError>(
        Seq::empty(),
    ));
    assert(specs.last() == s);
    assert(s[h.len() as int] == ':');
    assert forall|j: int| 0 <= j < h.len() implies s[j] != ':' by {
        assert(s[j] == h[j]);
    }
    text::lemma_index_of_first(s, ':', h.len() as int);
    assert(s.subrange(h.len() + 1int, s.len() as int) =~= d);
    assert(s.subrange(0, h.len() as int) =~= h);
    assert(text::is_ascii_digit(d[0]));
    assert(text::unsigned_digits(d) == Some(d));
    assert(port_parse(d) == Ok::<u16, PortError>(n));
    assert(Seq::<(u16, Seq<char>)>::empty().push((n, h)) =~= seq![(n, h)]);
}

/// Whether `r` holds the ports `spec` describes.
pub open spec fn ports_are(r: Seq<(u16, String)>, spec: Seq<(u16, Seq<char>)>) -> bool {
    r.len() == spec.len() && forall|i: int|
        0 <= i < r.len() ==> (#[trigger] r[i]).0 == spec[i].0 && r[i].1@ == spec[i].1
}

/// Reads the port publications of `spk run -p`.
pub fn run_ports(specs: &Vec<String>) -> (r: Result<Vec<(u16, String)>, PortError>)
    ensures
        match published_ports(text::views_of(specs@)) {
            Err(e) => r == Err::<Vec<(u16, String)>, PortError>(e),
            Ok(p) => r matches Ok(v) && ports_are(v@, p),
        },
{
    let ghost views = text::views_of(specs@);
    let mut out: Vec<(u16, String)> = Vec::new();
    let mut i: usize = 0;
    while i < specs.len()
        invariant
            i <= specs@.len(),
            views == text::views_of(specs@),
            published_ports(views.subrange(0, i as int)) matches Ok(p) && ports_are(out@, p),
        decreases specs@.len() - i,
    {
        let ghost prefix = views.subrange(0, i + 1);
        assert(prefix.drop_last() =~= views.subrange(0, i as int));
        assert(prefix.last() == specs@[i as int]@);
        let ghost before = out@;
        let cs = text::chars_of(specs[i].as_str());
        let n = cs.len();
        assert(cs@.subrange(0, n as int) =~= cs@);
        match text::find_char(cs.as_slice(), ':', 0, n) {
            None => {},
            Some(k) => {
                let container = text::string_from_chars(cs.as_slice(), k + 1, n);
                match parse_port(container.as_str()) {
                    Err(e) => {
                        proof {
                            lemma_ports_error_sticks(views, (i + 1) as int, e);
                        }
                        return Err(e);
                    },
                    Ok(cp) => {
                        let host = text::string_from_chars(cs.as_slice(), 0, k);
                        out.push((cp, host));
                    },
                }
            },
        }
        i += 1;
    }
    assert(views.subrange(0, i as int) =~= views);
    Ok(out)
}

proof fn lemma_ports_error_sticks(specs: Seq<Seq<char>>, k: int, e: PortError)
    requires
        0 <= k <= specs.len(),
        published_ports(specs.subrange(0, k)) == Err::<Seq<(u16, Seq<char>)>, PortError>(e),
    ensures
        published_ports(specs) == Err::<Seq<(u16, Seq<char>)>, PortError>(e),
    decreases specs.len() - k,
{
    if k < specs.len() {
        assert(specs.subrange(0, k + 1).drop_last() =~= specs.subrange(0, k));
        lemma_ports_error_sticks(specs, k + 1, e);
    } else {
        assert(specs.subrange(0, k) =~= specs);
    }
}

/// Why a volume of `spk run -v` was refused.
#[derive(Clone, Debug)]
pub enum VolumeError {
    Missing(String),
    ParentReference(String),
}

impl VolumeError {
    /// The text of the error.
    pub fn message(&self) -> (r: String)
        ensures
            self matches VolumeError::Missing(h) ==> r@ == "volume host path does not exist: "@
                + h@,
            self matches VolumeError::ParentReference(h) ==> r@
                == "volume host path must not contain '..': "@ + h@,
    {
        match self {
            VolumeError::Missing(h) => text::concat2("volume host path does not exist: ", h.as_str()),
            VolumeError::ParentReference(h) => text::concat2(
                "volume host path must not contain '..': ",
                h.as_str(),
            ),
        }
    }
}

/// The host path of a `host:container` volume: the text before its first
/// `:`; `None` when it has none.
pub open spec fn volume_host(v: Seq<char>) -> Option<Seq<char>> {
    match text::index_of(v, ':') {
        Some(i) => Some(v.subrange(0, i)),
        None => None,
    }
}

/// Whether `r` is what checking volume `v` gives when its host path does
/// (or does not) exist, as the host said.
pub open spec fn volume_outcome(v: Seq<char>, exists: bool, r: Result<Option<String>, VolumeError>) -> bool {
    match volume_host(v) {
        None => r matches Ok(x) && x is None,
        Some(h) => if !exists {
            r matches Err(VolumeError::Missing(m)) && m@ == h
        } else if text::contains_seq(h, ".."@) {
            r matches Err(VolumeError::ParentReference(m)) && m@ == h
        } else {
            r matches Ok(Some(b)) && b@ == v
        },
    }
}

/// Checks one volume: a `host:container` entry whose host path exists and
/// holds no `..` is bound as written; an entry without `:` is skipped.
pub fn run_volume(v: &str) -> (r: Result<Option<String>, VolumeError>)
    ensures
        exists|found: bool| volume_outcome(v@, found, r),
{
    let cs = text::chars_of(v);
    let n = cs.len();
    assert(cs@.subrange(0, n as int) =~= cs@);
    match text::find_char(cs.as_slice(), ':', 0, n) {
        None => {
            assert(volume_outcome(v@, true, Ok(None)));
            Ok(None)
        },
        Some(k) => {
            let h = text::string_from_chars(cs.as_slice(), 0, k);
            let found = host::path_exists(h.as_str());
            if !found {
                let r = Err(VolumeError::Missing(h));
                assert(volume_outcome(v@, false, r));
                return r;
            }
            if text::str_contains(h.as_str(), "..") {
                let r = Err(VolumeError::ParentReference(h));
                assert(volume_outcome(v@, true, r));
                return r;
            }
            let r = Ok(Some(text::string_of(v)));
            assert(volume_outcome(v@, true, r));
            r
        },
    }
}

/// The request that pulls `image` before the run.
pub fn pull_path(image: &str) -> (r: String)
    ensures
        r@ == "/images/create?fromImage="@ + image@,
{
    text::concat2("/images/create?fromImage=", image)
}

/// The environment of a run container: the given entries, then
/// `SPECK_CONTAINER=true`.
pub fn run_env(env: &Vec<String>) -> (r: Vec<String>)
    ensures
        text::views_of(r@) == text::views_of(env@).push("SPECK_CONTAINER=true"@),
{
    let mut r: Vec<String> = Vec::new();
    let mut i: usize = 0;
    while i < env.len()
        invariant
            i <= env@.len(),
            r@.len() == i,
            forall|j: int| 0 <= j < i ==> (#[trigger] r@[j])@ == env@[j]@,
        decreases env@.len() - i,
    {
        r.push(env[i].clone());
        i += 1;
    }
    r.push(text::string_of("SPECK_CONTAINER=true"));
    assert(text::views_of(r@) =~= text::views_of(env@).push("SPECK_CONTAINER=true"@));
    r
}

/// The key of an exposed TCP port: `{port}/tcp`.
pub fn tcp_port_key(port: u16) -> (r: String)
    ensures
        r@ == text::decimal_text(port as nat) + "/tcp"@,
{
    let mut r = String::new();
    text::push_decimal(&mut r, port as u64);
    text::push_str(&mut r, "/tcp");
    r
}

/// The Docker API path that acts on container `id`: `/containers/{id}{tail}`.
pub fn container_path(id: &str, tail: &str) -> (r: String)
    ensures
        r@ == "/containers/"@ + id@ + tail@,
{
    text::concat3("/containers/", id, tail)
}

/// The line a detached run prints: the container's id, cut to 12 bytes, in
/// cyan.
pub fn detached_line(id: &str) -> (r: String)
    requires
        id.spec_bytes().len() <= usize::MAX,
        id.spec_bytes().len() > 12 ==> vstd::utf8::is_char_boundary(id.spec_bytes(), 12),
    ensures
        r@ == theme::NEON_CYAN@ + theme::shown_id(id) + theme::RESET@,
{
    let short = theme::short_id(id);
    text::concat3(theme::NEON_CYAN, short.as_str(), theme::RESET)
}

} // verus!
