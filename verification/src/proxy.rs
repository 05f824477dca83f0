//! The decisions of the Docker API passthrough proxy: which requests it
//! intercepts, the bind mounts and published ports it reads out of a
//! container-create request, how it rewrites binds for the guest, and the
//! registry of containers whose ports and binds it manages.
use vstd::prelude::*;
use crate::containers::{bind_parts, container_port_of, port_maps_of, PortBindingBody};
use crate::error::{DockerApiError, is_bad_request};
use crate::host;
use crate::keyed::KeyedVec;
use crate::middleware::{segments_numeric, strip_version_prefix, version_stripped};
use crate::text;

verus! {

/// The HTTP methods the proxy tells apart.
#[derive(Clone, Copy, Debug, PartialEq, Eq, Structural)]
pub enum HttpMethod {
    Get,
    Head,
    Post,
    Put,
    Delete,
    Other,
}

/// What the proxy does with a request.
#[derive(Clone, Debug, PartialEq, Eq)]
pub enum ProxyRoute {
    /// `POST /containers/create`: read ports and binds before forwarding.
    InterceptCreate,
    /// `POST /containers/{id}/start`: expose published ports afterwards.
    InterceptStart(String),
    /// `POST /containers/{id}/stop`: stop port forwarders afterwards.
    InterceptStop(String),
    /// `DELETE /containers/{id}`: forget ports and binds afterwards.
    InterceptDelete(String),
    /// Anything else goes to the guest dockerd untouched.
    Forward,
}

/// The container id in `path` between `prefix` and `suffix`: a non-empty
/// segment without `/`; with an empty suffix, the whole rest of the path.
pub open spec fn container_id_in(path: Seq<char>, prefix: Seq<char>, suffix: Seq<char>) -> Option<
    Seq<char>,
> {
    if text::starts_with(path, prefix) {
        let rest = path.subrange(prefix.len() as int, path.len() as int);
        if text::ends_with(rest, suffix) {
            let id = rest.subrange(0, rest.len() - suffix.len());
            if id.len() > 0 && !id.contains('/') {
                Some(id)
            } else {
                None
            }
        } else {
            None
        }
    } else {
        None
    }
}

fn has_no_slash(cs: &[char], from: usize, to: usize) -> (r: bool)
    requires
        from <= to <= cs@.len(),
    ensures
        r == !cs@.subrange(from as int, to as int).contains('/'),
{
    let ghost t = cs@.subrange(from as int, to as int);
    match text::find_char(cs, '/', from, to) {
        Some(i) => {
            assert(t[i - from] == cs@[i as int]);
            false
        },
        None => {
            proof {
                text::lemma_index_of_none_absent(t, '/');
            }
            true
        },
    }
}

/// The container id in `path` between `prefix` and `suffix`.
pub fn extract_container_id(path: &str, prefix: &str, suffix: &str) -> (r: Option<String>)
    ensures
        match container_id_in(path@, prefix@, suffix@) {
            Some(id) => r matches Some(x) && x@ == id,
            None => r is None,
        },
{
    let cs = text::chars_of(path);
    let ps = text::chars_of(prefix);
    let ss = text::chars_of(suffix);
    if !text::chars_start_with(cs.as_slice(), ps.as_slice()) {
        return None;
    }
    let n = cs.len();
    let start = ps.len();
    let ghost rest = path@.subrange(start as int, n as int);
    let rest_chars = text::string_from_chars(cs.as_slice(), start, n);
    let rcs = text::chars_of(rest_chars.as_str());
    if !text::chars_end_with(rcs.as_slice(), ss.as_slice()) {
        return None;
    }
    let end = n - ss.len();
    assert(rest.subrange(0, rest.len() - suffix@.len()) =~= cs@.subrange(start as int, end as int));
    if end > start && has_no_slash(cs.as_slice(), start, end) {
        Some(text::string_from_chars(cs.as_slice(), start, end))
    } else {
        None
    }
}

/// The path a request is routed by: its path with any API version prefix
/// removed.
pub open spec fn routed_path(path: Seq<char>) -> Seq<char> {
    match version_stripped(path) {
        Some(t) => t,
        None => path,
    }
}

/// Whether `r` is the route of a request with `method` and `path`.
pub open spec fn route_is(r: ProxyRoute, method: HttpMethod, path: Seq<char>) -> bool {
    let p = routed_path(path);
    let start = container_id_in(p, "/containers/"@, "/start"@);
    let stop = container_id_in(p, "/containers/"@, "/stop"@);
    let delete = container_id_in(p, "/containers/"@, Seq::empty());
    if method == HttpMethod::Post && p == "/containers/create"@ {
        r is InterceptCreate
    } else if method == HttpMethod::Post && start is Some {
        r matches ProxyRoute::InterceptStart(id) && id@ == start->0
    } else if method == HttpMethod::Post && stop is Some {
        r matches ProxyRoute::InterceptStop(id) && id@ == stop->0
    } else if method == HttpMethod::Delete && delete is Some {
        r matches ProxyRoute::InterceptDelete(id) && id@ == delete->0
    } else {
        r is Forward
    }
}

/// Routing ignores the API version prefix: a request to `/v<version>`
/// followed by a path goes where a request to that path goes, for every
/// method and every numeric version, whenever the path itself carries no
/// version prefix.
pub proof fn lemma_route_ignores_version(
    r: ProxyRoute,
    method: HttpMethod,
    v: Seq<char>,
    p: Seq<char>,
)
    requires
        segments_numeric(v),
        p.len() > 0,
        p[0] == '/',
        version_stripped(p) is None,
    ensures
        route_is(r, method, "/v"@ + v + p) == route_is(r, method, p),
{
    crate::middleware::lemma_version_prefix_stripped(v, p);
}

/// The path `/containers/<id><suffix>`.
pub open spec fn container_path(id: Seq<char>, suffix: Seq<char>) -> Seq<char> {
    "/containers/"@ + id + suffix
}

proof fn lemma_container_path_shape(id: Seq<char>, suffix: Seq<char>)
    requires
        id.len() > 0,
        !id.contains('/'),
    ensures
        version_stripped(container_path(id, suffix)) is None,
        container_path(id, suffix)[0] == '/',
        container_id_in(container_path(id, suffix), "/containers/"@, suffix) == Some(id),
{
    reveal_strlit("/containers/");
    let p = container_path(id, suffix);
    assert(p[1] == 'c');
    let rest = p.subrange(12, p.len() as int);
    assert(text::starts_with(p, "/containers/"@)) by {
        assert(p.subrange(0, 12) =~= "/containers/"@);
    }
    assert(rest =~= id + suffix);
    assert(rest.subrange(rest.len() - suffix.len(), rest.len() as int) =~= suffix);
    assert(rest.subrange(0, rest.len() - suffix.len()) =~= id);
}

/// `POST /containers/<id>/stop`, with or without an API version prefix,
/// reaches the stop interceptor for `<id>`, for every id without `/`.
pub proof fn lemma_stop_is_intercepted(r: ProxyRoute, id: Seq<char>, v: Seq<char>)
    requires
        id.len() > 0,
        !id.contains('/'),
        segments_numeric(v),
    ensures
        route_is(r, HttpMethod::Post, "/containers/"@ + id + "/stop"@) == (r matches ProxyRoute::InterceptStop(x) && x@ == id),
        route_is(r, HttpMethod::Post, "/v"@ + v + "/containers/"@ + id + "/stop"@) == (r matches ProxyRoute::InterceptStop(x) && x@ == id),
{
    reveal_strlit("/containers/");
    reveal_strlit("/stop");
    reveal_strlit("/start");
    reveal_strlit("/containers/create");
    let p = container_path(id, "/stop"@);
    lemma_container_path_shape(id, "/stop"@);
    assert(p =~= "/containers/"@ + id + "/stop"@);
    assert(p != "/containers/create"@) by {
        if p == "/containers/create"@ {
            assert(p.last() == 'p');
        }
    }
    let rest = p.subrange(12, p.len() as int);
    assert(!text::ends_with(rest, "/start"@)) by {
        if text::ends_with(rest, "/start"@) {
            assert(rest.subrange(rest.len() - 6, rest.len() as int)[5] == rest.last());
            assert(rest.last() == 'p');
        }
    }
    assert(container_id_in(p, "/containers/"@, "/start"@) is None);
    assert("/v"@ + v + "/containers/"@ + id + "/stop"@ =~= "/v"@ + v + p);
    lemma_route_ignores_version(r, HttpMethod::Post, v, p);
}

/// `POST /containers/<id>/start`, with or without an API version prefix,
/// reaches the start interceptor for `<id>`, for every id without `/`.
pub proof fn lemma_start_is_intercepted(r: ProxyRoute, id: Seq<char>, v: Seq<char>)
    requires
        id.len() > 0,
        !id.contains('/'),
        segments_numeric(v),
    ensures
        route_is(r, HttpMethod::Post, "/containers/"@ + id + "/start"@) == (r matches ProxyRoute::InterceptStart(x) && x@ == id),
        route_is(r, HttpMethod::Post, "/v"@ + v + "/containers/"@ + id + "/start"@) == (r matches ProxyRoute::InterceptStart(x) && x@ == id),
{
    reveal_strlit("/containers/");
    reveal_strlit("/start");
    reveal_strlit("/containers/create");
    let p = container_path(id, "/start"@);
    lemma_container_path_shape(id, "/start"@);
    assert(p =~= "/containers/"@ + id + "/start"@);
    assert(p != "/containers/create"@) by {
        if p == "/containers/create"@ {
            assert(p.last() == 't');
        }
    }
    assert("/v"@ + v + "/containers/"@ + id + "/start"@ =~= "/v"@ + v + p);
    lemma_route_ignores_version(r, HttpMethod::Post, v, p);
}

/// `DELETE /containers/<id>`, with or without an API version prefix,
/// reaches the delete interceptor for `<id>`, for every id without `/`.
pub proof fn lemma_delete_is_intercepted(r: ProxyRoute, id: Seq<char>, v: Seq<char>)
    requires
        id.len() > 0,
        !id.contains('/'),
        segments_numeric(v),
    ensures
        route_is(r, HttpMethod::Delete, "/containers/"@ + id) == (r matches ProxyRoute::InterceptDelete(x) && x@ == id),
        route_is(r, HttpMethod::Delete, "/v"@ + v + "/containers/"@ + id) == (r matches ProxyRoute::InterceptDelete(x) && x@ == id),
{
    reveal_strlit("/containers/");
    let p = container_path(id, Seq::empty());
    lemma_container_path_shape(id, Seq::empty());
    assert(p =~= "/containers/"@ + id);
    assert("/v"@ + v + "/containers/"@ + id =~= "/v"@ + v + p);
    lemma_route_ignores_version(r, HttpMethod::Delete, v, p);
}

/// `POST /containers/create`, with or without an API version prefix,
/// reaches the create interceptor.
pub proof fn lemma_create_is_intercepted(r: ProxyRoute, v: Seq<char>)
    requires
        segments_numeric(v),
    ensures
        route_is(r, HttpMethod::Post, "/containers/create"@) == (r is InterceptCreate),
        route_is(r, HttpMethod::Post, "/v"@ + v + "/containers/create"@) == (r is InterceptCreate),
{
    reveal_strlit("/containers/create");
    let p = "/containers/create"@;
    assert(p[0] == '/' && p[1] == 'c');
    lemma_route_ignores_version(r, HttpMethod::Post, v, p);
}

/// Routes a request by its method and path.
pub fn route_request(method: HttpMethod, path: &str) -> (r: ProxyRoute)
    ensures
        route_is(r, method, path@),
{
    let p: &str = match strip_version_prefix(path) {
        Some(t) => t,
        None => path,
    };
    assert(p@ == routed_path(path@));
    if method == HttpMethod::Post && text::str_eq(p, "/containers/create") {
        return ProxyRoute::InterceptCreate;
    }
    if method == HttpMethod::Post {
        if let Some(id) = extract_container_id(p, "/containers/", "/start") {
            return ProxyRoute::InterceptStart(id);
        }
        if let Some(id) = extract_container_id(p, "/containers/", "/stop") {
            return ProxyRoute::InterceptStop(id);
        }
    }
    if method == HttpMethod::Delete {
        proof {
            reveal_strlit("");
        }
        assert(""@ == Seq::<char>::empty());
        if let Some(id) = extract_container_id(p, "/containers/", "") {
            return ProxyRoute::InterceptDelete(id);
        }
    }
    ProxyRoute::Forward
}

/// The value of a `key=value` pair when its key is `key`.
pub open spec fn pair_value(pair: Seq<char>, key: Seq<char>) -> Option<Seq<char>> {
    match text::index_of(pair, '=') {
        Some(i) => if pair.subrange(0, i) == key {
            Some(pair.subrange(i + 1, pair.len() as int))
        } else {
            None
        },
        None => None,
    }
}

/// The value of the first pair with key `key`.
pub open spec fn first_value(pairs: Seq<Seq<char>>, key: Seq<char>) -> Option<Seq<char>>
    decreases pairs.len(),
{
    if pairs.len() == 0 {
        None
    } else {
        match pair_value(pairs[0], key) {
            Some(v) => Some(v),
            None => first_value(pairs.drop_first(), key),
        }
    }
}

/// The value of a query parameter: the first `&`-separated pair whose text
/// before its first `=` is `key`.
pub open spec fn query_param(query: Seq<char>, key: Seq<char>) -> Option<Seq<char>> {
    first_value(text::split_on(query, '&'), key)
}

fn pair_value_of(pair: &str, key: &str) -> (r: Option<String>)
    ensures
        match pair_value(pair@, key@) {
            Some(v) => r matches Some(x) && x@ == v,
            None => r is None,
        },
{
    let cs = text::chars_of(pair);
    let n = cs.len();
    assert(cs@.subrange(0, n as int) =~= cs@);
    match text::find_char(cs.as_slice(), '=', 0, n) {
        Some(i) => {
            let k = text::string_from_chars(cs.as_slice(), 0, i);
            if text::str_eq(k.as_str(), key) {
                Some(text::string_from_chars(cs.as_slice(), i + 1, n))
            } else {
                None
            }
        },
        None => None,
    }
}

/// The value of query parameter `key` in an optional query string.
pub fn query_value(query: Option<&str>, key: &str) -> (r: Option<String>)
    ensures
        match query {
            None => r is None,
            Some(q) => match query_param(q@, key@) {
                Some(v) => r matches Some(x) && x@ == v,
                None => r is None,
            },
        },
{
    if query.is_none() {
        return None;
    }
    let q = query.unwrap();
    let pairs = text::split_chars(q, '&');
    let ghost views = text::views_of(pairs@);
    let mut i: usize = 0;
    assert(views.subrange(0, views.len() as int) =~= views);
    while i < pairs.len()
        invariant
            i <= pairs@.len(),
            views == text::views_of(pairs@),
            views == text::split_on(q@, '&'),
            query == Some(q),
            first_value(views, key@) == first_value(views.subrange(i as int, views.len() as int), key@),
        decreases pairs@.len() - i,
    {
        let ghost tail = views.subrange(i as int, views.len() as int);
        assert(tail[0] == pairs@[i as int]@);
        assert(tail.drop_first() =~= views.subrange(i + 1, views.len() as int));
        match pair_value_of(pairs[i].as_str(), key) {
            Some(v) => {
                assert(first_value(tail, key@) == Some(v@));
                return Some(v);
            },
            None => {},
        }
        i += 1;
    }
    None
}

/// The URI a request is forwarded with: `http://localhost` and its path and
/// query, or `/` when it has none.
pub fn proxy_uri(path_and_query: Option<&str>) -> (r: String)
    ensures
        r@ == "http://localhost"@ + match path_and_query {
            Some(pq) => pq@,
            None => "/"@,
        },
{
    match path_and_query {
        Some(pq) => text::concat2("http://localhost", pq),
        None => text::concat2("http://localhost", "/"),
    }
}

/// The request that removes a container after a failed create:
/// `http://localhost/containers/{id}?force=1`.
pub fn cleanup_remove_uri(id: &str) -> (r: String)
    ensures
        r@ == "http://localhost/containers/"@ + id@ + "?force=1"@,
{
    text::concat3("http://localhost/containers/", id, "?force=1")
}

/// The request that stops a container after a failed start:
/// `http://localhost/containers/{id}/stop?t=0`.
pub fn cleanup_stop_uri(id_or_name: &str) -> (r: String)
    ensures
        r@ == "http://localhost/containers/"@ + id_or_name@ + "/stop?t=0"@,
{
    text::concat3("http://localhost/containers/", id_or_name, "/stop?t=0")
}

/// The request that inspects a container for its address:
/// `http://localhost/containers/{id}/json`.
pub fn inspect_uri(id: &str) -> (r: String)
    ensures
        r@ == "http://localhost/containers/"@ + id@ + "/json"@,
{
    text::concat3("http://localhost/containers/", id, "/json")
}

/// Whether a status counts as success (2xx).
pub open spec fn is_success(status: u16) -> bool {
    200 <= status < 300
}

/// Whether the cleanup removal went as hoped: success, or the container was
/// already gone (404).
pub fn removal_settled(status: u16) -> (r: bool)
    ensures
        r == (is_success(status) || status == 404),
{
    (200 <= status && status < 300) || status == 404
}

/// Whether the cleanup stop went as hoped: success, already stopped (304),
/// or gone (404).
pub fn stop_settled(status: u16) -> (r: bool)
    ensures
        r == (is_success(status) || status == 304 || status == 404),
{
    (200 <= status && status < 300) || status == 304 || status == 404
}

/// An IPv4 address, octet by octet.
#[derive(Clone, Copy, Debug, PartialEq, Eq, Structural)]
pub struct Ipv4 {
    pub a: u8,
    pub b: u8,
    pub c: u8,
    pub d: u8,
}

/// A published port: the host port to listen on, the port to reach in the
/// guest, and, once the container runs, the container's address.
#[derive(Clone, Copy, Debug, PartialEq, Eq, Structural)]
pub struct PortMap {
    pub host_port: u16,
    pub container_port: u16,
    pub target_ip: Option<Ipv4>,
}

/// The port maps of a create request's `PortBindings`: one per binding whose
/// key starts with a port number and whose host port is a port number, not
/// yet bound to an address.
pub open spec fn port_maps_match(r: Seq<PortMap>, bindings: Seq<(String, Vec<PortBindingBody>)>) -> bool {
    let pairs = port_maps_of(bindings);
    &&& r.len() == pairs.len()
    &&& forall|i: int|
        0 <= i < r.len() ==> (#[trigger] r[i]).host_port == pairs[i].0 && r[i].container_port
            == pairs[i].1 && r[i].target_ip is None
}

/// Reads the published ports out of a create request's port bindings.
pub fn extract_port_maps(port_bindings: &Option<Vec<(String, Vec<PortBindingBody>)>>) -> (r: Vec<
    PortMap,
>)
    ensures
        match port_bindings {
            None => r@.len() == 0,
            Some(bs) => port_maps_match(r@, bs@),
        },
{
    let mut r: Vec<PortMap> = Vec::new();
    match port_bindings {
        None => r,
        Some(bs) => {
            let pairs = crate::containers::port_maps(bs);
            let mut i: usize = 0;
            while i < pairs.len()
                invariant
                    i <= pairs@.len(),
                    pairs@ == port_maps_of(bs@),
                    r@.len() == i,
                    forall|j: int|
                        0 <= j < i ==> (#[trigger] r@[j]).host_port == pairs@[j].0
                            && r@[j].container_port == pairs@[j].1 && r@[j].target_ip is None,
                decreases pairs@.len() - i,
            {
                let (h, c) = pairs[i];
                r.push(PortMap { host_port: h, container_port: c, target_ip: None });
                i += 1;
            }
            r
        },
    }
}

/// A bind mount of a host path, as written in a create request.
#[derive(Clone, Debug)]
pub struct ProxyBind {
    pub host_path: String,
    pub container_path: String,
    /// Whatever followed the container path (`ro`, `rw,z` …), kept as given.
    pub suffix: String,
    pub read_only: bool,
}

/// One entry of a create request's `Binds`.
#[derive(Clone, Debug)]
pub enum ProxyMount {
    /// A host path to share with the guest.
    HostBind(ProxyBind),
    /// A named volume or other entry, forwarded as written.
    Passthrough(String),
}

/// Whether a bind's option suffix asks for a read-only mount: one of its
/// `,`-separated options is `ro`.
pub open spec fn suffix_read_only(suffix: Seq<char>) -> bool {
    text::split_on(suffix, ',').contains("ro"@)
}

/// The outcome of every check of a bind entry but the existence of its host
/// path: `Some((host, container, suffix))` for a host bind, `None` for an
/// entry passed through as written, or the error message.
pub open spec fn proxy_bind_shape(s: Seq<char>) -> Result<
    Option<(Seq<char>, Seq<char>, Seq<char>)>,
    Seq<char>,
> {
    match bind_parts(s) {
        None => Err("bind mount must be in format 'host_path:container_path[:ro|:rw]'"@),
        Some((h, c, m)) => {
            let suffix = match m {
                Some(x) => x,
                None => Seq::empty(),
            };
            if h.len() == 0 || c.len() == 0 {
                Err("bind mount paths cannot be empty"@)
            } else if c[0] != '/' || text::contains_seq(c, ".."@) {
                Err("bind container path invalid: "@ + c)
            } else if h[0] != '/' {
                if h.contains('/') || h[0] == '.' {
                    Err("bind host path invalid: "@ + h)
                } else {
                    Ok(None)
                }
            } else {
                Ok(Some((h, c, suffix)))
            }
        },
    }
}

/// Whether `m` is what parsing the bind entry `s` gives when its host path
/// exists.
pub open spec fn parsed_as(m: ProxyMount, s: Seq<char>) -> bool {
    match proxy_bind_shape(s) {
        Err(_) => false,
        Ok(None) => m matches ProxyMount::Passthrough(x) && x@ == s,
        Ok(Some((h, c, suffix))) => m matches ProxyMount::HostBind(b) && b.host_path@ == h
            && b.container_path@ == c && b.suffix@ == suffix && b.read_only == suffix_read_only(
            suffix,
        ),
    }
}

/// The error for a bind entry whose checks pass but whose host path is not
/// there.
pub open spec fn missing_host_error(s: Seq<char>) -> Option<Seq<char>> {
    match proxy_bind_shape(s) {
        Ok(Some((h, _, _))) => Some("bind host path invalid: "@ + h),
        _ => None,
    }
}

fn has_slash(cs: &[char], from: usize, to: usize) -> (r: bool)
    requires
        from <= to <= cs@.len(),
    ensures
        r == cs@.subrange(from as int, to as int).contains('/'),
{
    !has_no_slash(cs, from, to)
}

/// Parses one entry of a create request's `Binds`. Every check but the last
/// is on the text alone; the last asks the host whether the host path
/// exists.
pub fn parse_proxy_bind(s: &str) -> (r: Result<ProxyMount, DockerApiError>)
    ensures
        match proxy_bind_shape(s@) {
            Err(m) => r matches Err(e) && is_bad_request(e, m),
            Ok(None) => r matches Ok(m) && parsed_as(m, s@),
            Ok(Some((h, _, _))) => match r {
                Ok(m) => parsed_as(m, s@),
                Err(e) => is_bad_request(e, "bind host path invalid: "@ + h),
            },
        },
{
    let cs = text::chars_of(s);
    let n = cs.len();
    let ghost parts = bind_parts(s@);
    let (i, j) = match crate::containers::split_bind_at(cs.as_slice()) {
        None => {
            return Err(
                DockerApiError::BadRequest(
                    text::string_of(
                        "bind mount must be in format 'host_path:container_path[:ro|:rw]'",
                    ),
                ),
            );
        },
        Some(p) => p,
    };
    let container_end = match j {
        Some(j) => j,
        None => n,
    };
    let suffix = match j {
        Some(j) => text::string_from_chars(cs.as_slice(), j + 1, n),
        None => String::new(),
    };
    let ghost mode: Option<Seq<char>> = match parts {
        Some((_, _, m)) => m,
        None => None,
    };
    assert(suffix@ == match mode {
        Some(x) => x,
        None => Seq::<char>::empty(),
    });
    let host = text::string_from_chars(cs.as_slice(), 0, i);
    let container = text::string_from_chars(cs.as_slice(), i + 1, container_end);
    if i == 0 || container_end == i + 1 {
        return Err(DockerApiError::BadRequest(text::string_of("bind mount paths cannot be empty")));
    }
    if cs[i + 1] != '/' || text::str_contains(container.as_str(), "..") {
        return Err(
            DockerApiError::BadRequest(
                text::concat2("bind container path invalid: ", container.as_str()),
            ),
        );
    }
    if cs[0] != '/' {
        if has_slash(cs.as_slice(), 0, i) || cs[0] == '.' {
            return Err(
                DockerApiError::BadRequest(
                    text::concat2("bind host path invalid: ", host.as_str()),
                ),
            );
        }
        return Ok(ProxyMount::Passthrough(text::string_of(s)));
    }
    if !host::path_exists(host.as_str()) {
        return Err(
            DockerApiError::BadRequest(text::concat2("bind host path invalid: ", host.as_str())),
        );
    }
    let options = text::split_chars(suffix.as_str(), ',');
    let read_only = text::strings_contain(&options, "ro");
    proof {
        let v = text::views_of(options@);
        if read_only {
            let k = choose|k: int| 0 <= k < options@.len() && (#[trigger] options@[k])@ == "ro"@;
            assert(v[k] == "ro"@);
        }
        if v.contains("ro"@) {
            let k = choose|k: int| 0 <= k < v.len() && v[k] == "ro"@;
            assert(options@[k]@ == "ro"@);
        }
    }
    Ok(
        ProxyMount::HostBind(
            ProxyBind { host_path: host, container_path: container, suffix, read_only },
        ),
    )
}

/// Whether `e` is the error that parsing bind entry `s` gives: the message
/// of a failed check, or the missing-host-path error for a host bind.
pub open spec fn bind_error(e: DockerApiError, s: Seq<char>) -> bool {
    match proxy_bind_shape(s) {
        Err(m) => is_bad_request(e, m),
        Ok(None) => false,
        Ok(Some((h, _, _))) => is_bad_request(e, "bind host path invalid: "@ + h),
    }
}

/// Parses every entry of a create request's `Binds`, stopping at the first
/// that fails.
pub fn extract_bind_mounts(binds: &Option<Vec<String>>) -> (r: Result<Vec<ProxyMount>, DockerApiError>)
    ensures
        match binds {
            None => r matches Ok(v) && v@.len() == 0,
            Some(bs) => {
                &&& r matches Ok(v) ==> v@.len() == bs@.len() && forall|i: int|
                    0 <= i < bs@.len() ==> parsed_as(#[trigger] v@[i], bs@[i]@)
                &&& r matches Err(e) ==> exists|i: int|
                    0 <= i < bs@.len() && bind_error(e, #[trigger] bs@[i]@) && forall|j: int|
                        0 <= j < i ==> proxy_bind_shape(#[trigger] bs@[j]@) is Ok
                &&& (forall|i: int|
                    0 <= i < bs@.len() ==> proxy_bind_shape(#[trigger] bs@[i]@) matches Ok(None))
                    ==> r is Ok
            },
        },
{
    match binds {
        None => Ok(Vec::new()),
        Some(bs) => parse_binds(bs),
    }
}

fn parse_binds(bs: &Vec<String>) -> (r: Result<Vec<ProxyMount>, DockerApiError>)
    ensures
        r matches Ok(v) ==> v@.len() == bs@.len() && forall|i: int|
            0 <= i < bs@.len() ==> parsed_as(#[trigger] v@[i], bs@[i]@),
        r matches Err(e) ==> exists|i: int|
            0 <= i < bs@.len() && bind_error(e, #[trigger] bs@[i]@) && forall|j: int|
                0 <= j < i ==> proxy_bind_shape(#[trigger] bs@[j]@) is Ok,
        (forall|i: int| 0 <= i < bs@.len() ==> proxy_bind_shape(#[trigger] bs@[i]@) matches Ok(None))
            ==> r is Ok,
{
    let mut out: Vec<ProxyMount> = Vec::new();
    let mut i: usize = 0;
    while i < bs.len()
        invariant
            i <= bs@.len(),
            out@.len() == i,
            forall|j: int| 0 <= j < i ==> parsed_as(#[trigger] out@[j], bs@[j]@),
            forall|j: int| 0 <= j < i ==> proxy_bind_shape(#[trigger] bs@[j]@) is Ok,
        decreases bs@.len() - i,
    {
        match parse_proxy_bind(bs[i].as_str()) {
            Ok(m) => {
                out.push(m);
            },
            Err(e) => {
                proof {
                    assert(bind_error(e, bs@[i as int]@));
                }
                return Err(e);
            },
        }
        i += 1;
    }
    Ok(out)
}

/// The host binds among parsed bind entries, in order.
pub open spec fn host_binds(ms: Seq<ProxyMount>) -> Seq<ProxyBind>
    decreases ms.len(),
{
    if ms.len() == 0 {
        Seq::empty()
    } else {
        match ms.last() {
            ProxyMount::HostBind(b) => host_binds(ms.drop_last()).push(b),
            ProxyMount::Passthrough(_) => host_binds(ms.drop_last()),
        }
    }
}

/// Whether some parsed entry is a host bind, which then needs a namespace of
/// its own in the guest.
pub fn needs_bind_namespace(ms: &Vec<ProxyMount>) -> (r: bool)
    ensures
        r == (host_binds(ms@).len() > 0),
{
    let mut i: usize = 0;
    while i < ms.len()
        invariant
            i <= ms@.len(),
            host_binds(ms@.subrange(0, i as int)).len() == 0,
        decreases ms@.len() - i,
    {
        assert(ms@.subrange(0, i + 1).drop_last() =~= ms@.subrange(0, i as int));
        if let ProxyMount::HostBind(_) = &ms[i] {
            proof {
                lemma_host_binds_grow(ms@, (i + 1) as int);
            }
            return true;
        }
        i += 1;
    }
    assert(ms@.subrange(0, i as int) =~= ms@);
    false
}

proof fn lemma_host_binds_grow(ms: Seq<ProxyMount>, k: int)
    requires
        0 < k <= ms.len(),
        ms[k - 1] is HostBind,
    ensures
        host_binds(ms).len() > 0,
    decreases ms.len(),
{
    if k < ms.len() {
        assert(ms.drop_last()[k - 1] == ms[k - 1]);
        lemma_host_binds_grow(ms.drop_last(), k);
    }
}

/// The name of the bind namespace with number `n`: `b` and `n` in
/// lower-case hexadecimal.
pub fn bind_namespace_name(n: u64) -> (r: String)
    ensures
        r@ == "b"@ + text::hex_text(n as nat),
{
    let mut r = text::string_of("b");
    text::push_hex(&mut r, n as u128);
    r
}

/// A mount the guest must provide for a container.
#[derive(Clone, Debug)]
pub struct VolumeMount {
    pub host_path: String,
    pub container_path: String,
    pub read_only: bool,
    pub volume_name: Option<String>,
    pub runtime_namespace: Option<String>,
}

/// Whether `v` is the guest mount for host bind `b` in `namespace`.
pub open spec fn mount_for(v: VolumeMount, b: ProxyBind, namespace: Option<Seq<char>>) -> bool {
    &&& v.host_path@ == b.host_path@
    &&& v.container_path@ == b.container_path@
    &&& v.read_only == b.read_only
    &&& v.volume_name is None
    &&& match namespace {
        Some(ns) => v.runtime_namespace matches Some(x) && x@ == ns,
        None => v.runtime_namespace is None,
    }
}

/// The view of an optional string.
pub open spec fn opt_view(s: Option<String>) -> Option<Seq<char>> {
    match s {
        Some(x) => Some(x@),
        None => None,
    }
}

fn clone_opt(s: &Option<String>) -> (r: Option<String>)
    ensures
        opt_view(r) == opt_view(*s),
{
    match s {
        Some(x) => Some(x.clone()),
        None => None,
    }
}

/// The guest mounts for the host binds among parsed entries, all in
/// `namespace`.
pub fn host_bind_mounts(ms: &Vec<ProxyMount>, namespace: &Option<String>) -> (r: Vec<VolumeMount>)
    ensures
        r@.len() == host_binds(ms@).len(),
        forall|i: int|
            0 <= i < r@.len() ==> mount_for(#[trigger] r@[i], host_binds(ms@)[i], opt_view(*namespace)),
{
    let mut r: Vec<VolumeMount> = Vec::new();
    let mut i: usize = 0;
    while i < ms.len()
        invariant
            i <= ms@.len(),
            r@.len() == host_binds(ms@.subrange(0, i as int)).len(),
            forall|j: int|
                0 <= j < r@.len() ==> mount_for(
                    #[trigger] r@[j],
                    host_binds(ms@.subrange(0, i as int))[j],
                    opt_view(*namespace),
                ),
        decreases ms@.len() - i,
    {
        let ghost before = host_binds(ms@.subrange(0, i as int));
        assert(ms@.subrange(0, i + 1).drop_last() =~= ms@.subrange(0, i as int));
        match &ms[i] {
            ProxyMount::HostBind(b) => {
                r.push(
                    VolumeMount {
                        host_path: b.host_path.clone(),
                        container_path: b.container_path.clone(),
                        read_only: b.read_only,
                        volume_name: None,
                        runtime_namespace: clone_opt(namespace),
                    },
                );
                assert(host_binds(ms@.subrange(0, i + 1)) == before.push(*b));
            },
            ProxyMount::Passthrough(_) => {
                assert(host_binds(ms@.subrange(0, i + 1)) == before);
            },
        }
        i += 1;
    }
    assert(ms@.subrange(0, i as int) =~= ms@);
    r
}

/// Whether the path `p` is `root` or lies below it, component-wise.
pub open spec fn path_under(p: Seq<char>, root: Seq<char>) -> bool {
    p == root || (text::starts_with(p, root) && p.len() > root.len() && p[root.len() as int] == '/')
}

/// Whether a canonical host path lies in a tree the guest sees at the same
/// path: `/Users`, `/Volumes`, `/private/tmp` or `/private/var`.
pub open spec fn shared_identically(p: Seq<char>) -> bool {
    path_under(p, "/Users"@) || path_under(p, "/Volumes"@) || path_under(p, "/private/tmp"@)
        || path_under(p, "/private/var"@)
}

fn is_under(p: &[char], root: &str) -> (r: bool)
    ensures
        r == path_under(p@, root@),
{
    let rs = text::chars_of(root);
    if text::chars_eq(p, rs.as_slice()) {
        return true;
    }
    text::chars_start_with(p, rs.as_slice()) && p.len() > rs.len() && p[rs.len()] == '/'
}

/// The guest-side source of a host bind whose canonical host path is
/// `canonical`, when the guest sees that path as it is.
pub fn identity_source(canonical: Option<String>) -> (r: Option<String>)
    ensures
        match canonical {
            Some(c) => if shared_identically(c@) {
                r matches Some(x) && x@ == c@
            } else {
                r is None
            },
            None => r is None,
        },
{
    match canonical {
        Some(c) => {
            let cs = text::chars_of(c.as_str());
            if is_under(cs.as_slice(), "/Users") || is_under(cs.as_slice(), "/Volumes") || is_under(
                cs.as_slice(),
                "/private/tmp",
            ) || is_under(cs.as_slice(), "/private/var") {
                Some(c)
            } else {
                None
            }
        },
        None => None,
    }
}

/// The text of a bind entry as forwarded to the guest: a host bind with its
/// source replaced by `guest_source` and its suffix kept; any other entry
/// as written.
pub open spec fn rewritten_bind(m: ProxyMount, guest_source: Seq<char>) -> Seq<char> {
    match m {
        ProxyMount::HostBind(b) => if b.suffix@.len() == 0 {
            guest_source + ":"@ + b.container_path@
        } else {
            guest_source + ":"@ + b.container_path@ + ":"@ + b.suffix@
        },
        ProxyMount::Passthrough(x) => x@,
    }
}

/// Renders one bind entry for the guest.
pub fn render_rewritten_bind(m: &ProxyMount, guest_source: &str) -> (r: String)
    ensures
        r@ == rewritten_bind(*m, guest_source@),
{
    match m {
        ProxyMount::HostBind(b) => {
            let mut r = text::concat3(guest_source, ":", b.container_path.as_str());
            if text::chars_of(b.suffix.as_str()).len() > 0 {
                text::push_str(&mut r, ":");
                text::push_str(&mut r, b.suffix.as_str());
            }
            r
        },
        ProxyMount::Passthrough(x) => x.clone(),
    }
}

/// The `Binds` forwarded to the guest: each entry rendered with the guest
/// source chosen for it.
pub fn rewritten_binds(ms: &Vec<ProxyMount>, guest_sources: &Vec<String>) -> (r: Vec<String>)
    requires
        guest_sources@.len() == ms@.len(),
    ensures
        r@.len() == ms@.len(),
        forall|i: int|
            0 <= i < r@.len() ==> (#[trigger] r@[i])@ == rewritten_bind(ms@[i], guest_sources@[i]@),
{
    let mut r: Vec<String> = Vec::new();
    let mut i: usize = 0;
    while i < ms.len()
        invariant
            guest_sources@.len() == ms@.len(),
            i <= ms@.len(),
            r@.len() == i,
            forall|j: int|
                0 <= j < i ==> (#[trigger] r@[j])@ == rewritten_bind(ms@[j], guest_sources@[j]@),
        decreases ms@.len() - i,
    {
        r.push(render_rewritten_bind(&ms[i], guest_sources[i].as_str()));
        i += 1;
    }
    r
}

/// Whether `k` is the one id of `entries` that starts with `q`.
pub open spec fn only_prefix_match<T>(entries: Map<Seq<char>, T>, q: Seq<char>, k: Seq<char>) -> bool {
    &&& entries.contains_key(k)
    &&& text::starts_with(k, q)
    &&& forall|k2: Seq<char>|
        #[trigger] entries.contains_key(k2) && text::starts_with(k2, q) ==> k2 == k
}

/// The container id that `q` names: `q` itself when it is a registered id,
/// else the id its alias stands for, else the one registered id that starts
/// with `q`, if exactly one does.
pub open spec fn resolved<T>(entries: Map<Seq<char>, T>, aliases: Map<Seq<char>, Seq<char>>, q: Seq<char>) -> Option<
    Seq<char>,
> {
    if entries.contains_key(q) {
        Some(q)
    } else if aliases.contains_key(q) {
        Some(aliases[q])
    } else if exists|k: Seq<char>| only_prefix_match(entries, q, k) {
        Some(choose|k: Seq<char>| only_prefix_match(entries, q, k))
    } else {
        None
    }
}

/// The aliases left once those standing for `id` are dropped.
pub open spec fn aliases_without(aliases: Map<Seq<char>, Seq<char>>, id: Seq<char>) -> Map<
    Seq<char>,
    Seq<char>,
> {
    Map::new(|k: Seq<char>| aliases.contains_key(k) && aliases[k] != id, |k: Seq<char>| aliases[k])
}

/// Containers the proxy holds something for, by id, and the names they
/// were created under.
pub struct ContainerRegistry<T> {
    by_id: KeyedVec<T>,
    aliases: KeyedVec<String>,
}

impl<T> View for ContainerRegistry<T> {
    /// What is held by container id, and the id each alias stands for.
    type V = (Map<Seq<char>, T>, Map<Seq<char>, Seq<char>>);

    closed spec fn view(&self) -> Self::V {
        (
            self.by_id.map(),
            Map::new(
                |k: Seq<char>| self.aliases.map().contains_key(k),
                |k: Seq<char>| self.aliases.map()[k]@,
            ),
        )
    }
}

impl<T> ContainerRegistry<T> {
    /// The registry's internal consistency.
    pub closed spec fn wf(&self) -> bool {
        self.by_id.wf() && self.aliases.wf()
    }

    /// An empty registry.
    pub fn new() -> (r: Self)
        ensures
            r.wf(),
            r@.0 == Map::<Seq<char>, T>::empty(),
            r@.1 == Map::<Seq<char>, Seq<char>>::empty(),
    {
        let r = ContainerRegistry { by_id: KeyedVec::new(), aliases: KeyedVec::new() };
        assert(r@.1 =~= Map::<Seq<char>, Seq<char>>::empty());
        r
    }

    /// Holds `value` for container `id`, and records `alias` as a name for it.
    pub fn remember(&mut self, id: String, alias: Option<String>, value: T)
        requires
            old(self).wf(),
        ensures
            final(self).wf(),
            final(self)@.0 == old(self)@.0.insert(id@, value),
            final(self)@.1 == match alias {
                Some(a) => old(self)@.1.insert(a@, id@),
                None => old(self)@.1,
            },
    {
        let ghost id_view = id@;
        match alias {
            Some(a) => {
                let ghost a_view = a@;
                let id2 = id.clone();
                self.aliases.insert(a, id2);
                assert(self@.1 =~= old(self)@.1.insert(a_view, id_view));
            },
            None => {
                assert(self@.1 =~= old(self)@.1);
            },
        }
        self.by_id.insert(id, value);
    }

    /// The container id that `q` names, if any.
    pub fn resolve(&self, q: &str) -> (r: Option<String>)
        requires
            self.wf(),
        ensures
            opt_view(r) == resolved(self@.0, self@.1, q@),
    {
        if self.by_id.contains_key(q) {
            return Some(text::string_of(q));
        }
        match self.aliases.get(q) {
            Some(id) => {
                return Some(id.clone());
            },
            None => {},
        }
        proof {
            self.by_id.lemma_keys();
        }
        let qs = text::chars_of(q);
        let n = self.by_id.len();
        let ghost ks = self.by_id.keys();
        let mut first: Option<usize> = None;
        let mut many = false;
        let mut i: usize = 0;
        while i < n
            invariant
                n == ks.len(),
                ks == self.by_id.keys(),
                qs@ == q@,
                i <= n,
                first is None ==> forall|j: int| 0 <= j < i ==> !text::starts_with(#[trigger] ks[j], q@),
                first matches Some(f) ==> f < i && text::starts_with(ks[f as int], q@),
                !many ==> (first matches Some(f) ==> forall|j: int|
                    0 <= j < i && j != f ==> !text::starts_with(#[trigger] ks[j], q@)),
                many ==> (first matches Some(f) && exists|g: int|
                    0 <= g < i && g != f && text::starts_with(#[trigger] ks[g], q@)),
            decreases n - i,
        {
            let k = text::chars_of(self.by_id.key_at(i).as_str());
            if text::chars_start_with(k.as_slice(), qs.as_slice()) {
                match first {
                    None => {
                        first = Some(i);
                    },
                    Some(f) => {
                        assert(text::starts_with(ks[i as int], q@));
                        many = true;
                    },
                }
            }
            i += 1;
        }
        let ghost m = self@.0;
        match first {
            Some(f) => {
                if many {
                    proof {
                        let g = choose|g: int|
                            0 <= g < n && g != f && text::starts_with(#[trigger] ks[g], q@);
                        assert(ks.to_set().contains(ks[g]) && ks.to_set().contains(ks[f as int]));
                        assert(ks[g] != ks[f as int]);
                        assert forall|k: Seq<char>| !only_prefix_match(m, q@, k) by {
                            if only_prefix_match(m, q@, k) {
                                assert(m.contains_key(ks[g]) && m.contains_key(ks[f as int]));
                            }
                        }
                    }
                    None
                } else {
                    let id = self.by_id.key_at(f).clone();
                    proof {
                        let k = ks[f as int];
                        assert(ks.to_set().contains(k));
                        assert forall|k2: Seq<char>| #[trigger] m.contains_key(k2) && text::starts_with(
                            k2,
                            q@,
                        ) implies k2 == k by {
                            assert(ks.to_set().contains(k2));
                            let j = choose|j: int| 0 <= j < ks.len() && ks[j] == k2;
                            assert(text::starts_with(ks[j], q@));
                        }
                        assert(only_prefix_match(m, q@, k));
                        let c = choose|c: Seq<char>| only_prefix_match(m, q@, c);
                        assert(c == k);
                    }
                    Some(id)
                }
            },
            None => {
                proof {
                    assert forall|k: Seq<char>| !only_prefix_match(m, q@, k) by {
                        if only_prefix_match(m, q@, k) {
                            assert(ks.to_set().contains(k));
                            let j = choose|j: int| 0 <= j < ks.len() && ks[j] == k;
                            assert(text::starts_with(ks[j], q@));
                        }
                    }
                }
                None
            },
        }
    }

    /// Drops what is held for the container that `q` names, and every alias
    /// standing for it; gives back what was held.
    pub fn forget(&mut self, q: &str) -> (r: Option<T>)
        requires
            old(self).wf(),
        ensures
            final(self).wf(),
            match resolved(old(self)@.0, old(self)@.1, q@) {
                None => r is None && final(self)@ == old(self)@,
                Some(id) => {
                    &&& final(self)@.0 == old(self)@.0.remove(id)
                    &&& final(self)@.1 == aliases_without(old(self)@.1, id)
                    &&& r == if old(self)@.0.contains_key(id) {
                        Some(old(self)@.0[id])
                    } else {
                        None
                    }
                },
            },
    {
        match self.resolve(q) {
            None => None,
            Some(id) => {
                self.aliases.remove_values(id.as_str());
                assert(self@.1 =~= aliases_without(old(self)@.1, id@));
                self.by_id.remove(id.as_str())
            },
        }
    }
}

/// The model of a registry: what is held by id, and the id of each alias.
pub type RegView<T> = (Map<Seq<char>, T>, Map<Seq<char>, Seq<char>>);

/// The published ports of a container, whether they are being forwarded,
/// and the forwarders running for them.
pub struct PublishedEntry<F> {
    pub ports: Vec<PortMap>,
    pub active: bool,
    pub forwards: Vec<F>,
}

/// Whether `b` is `a` with every port aimed at `ip`.
pub open spec fn ports_targeted(a: Seq<PortMap>, b: Seq<PortMap>, ip: Ipv4) -> bool {
    &&& b.len() == a.len()
    &&& forall|i: int|
        0 <= i < b.len() ==> #[trigger] b[i] == (PortMap {
            host_port: a[i].host_port,
            container_port: a[i].container_port,
            target_ip: Some(ip),
        })
}

/// Activating the published ports of the container `q` names, when they are
/// not active yet: they are aimed at `ip`, marked active, and given back as
/// `r`; otherwise nothing changes and `r` is empty.
pub open spec fn activation<F>(
    before: RegView<PublishedEntry<F>>,
    after: RegView<PublishedEntry<F>>,
    q: Seq<char>,
    ip: Ipv4,
    r: Seq<PortMap>,
) -> bool {
    match resolved(before.0, before.1, q) {
        Some(id) => if before.0.contains_key(id) && !before.0[id].active {
            &&& after.1 == before.1
            &&& after.0.contains_key(id)
            &&& after.0.remove(id) == before.0.remove(id)
            &&& after.0[id].active
            &&& after.0[id].forwards == before.0[id].forwards
            &&& ports_targeted(before.0[id].ports@, after.0[id].ports@, ip)
            &&& r == after.0[id].ports@
        } else {
            after == before && r.len() == 0
        },
        None => after == before && r.len() == 0,
    }
}

/// Stopping the forwarders of the container `q` names: its entry is marked
/// inactive and its forwarders are handed out as `r`.
pub open spec fn stopping<F>(
    before: RegView<PublishedEntry<F>>,
    after: RegView<PublishedEntry<F>>,
    q: Seq<char>,
    r: Seq<F>,
) -> bool {
    match resolved(before.0, before.1, q) {
        Some(id) => if before.0.contains_key(id) {
            &&& after.1 == before.1
            &&& after.0.contains_key(id)
            &&& after.0.remove(id) == before.0.remove(id)
            &&& after.0[id].ports == before.0[id].ports
            &&& !after.0[id].active
            &&& after.0[id].forwards@.len() == 0
            &&& r == before.0[id].forwards@
        } else {
            after == before && r.len() == 0
        },
        None => after == before && r.len() == 0,
    }
}

/// What the proxy keeps about the containers it created: their published
/// ports, their host bind mounts, and the number of the next bind namespace.
pub struct ProxyRegistry<F> {
    pub published: ContainerRegistry<PublishedEntry<F>>,
    pub bind_mounts: ContainerRegistry<Vec<VolumeMount>>,
    pub next_bind_namespace: u64,
}

impl<F> ProxyRegistry<F> {
    /// Both registries are consistent.
    pub open spec fn wf(&self) -> bool {
        self.published.wf() && self.bind_mounts.wf()
    }

    /// Nothing registered; bind namespaces are numbered from 1.
    pub fn new() -> (r: Self)
        ensures
            r.wf(),
            r.published@.0 == Map::<Seq<char>, PublishedEntry<F>>::empty(),
            r.published@.1 == Map::<Seq<char>, Seq<char>>::empty(),
            r.bind_mounts@.0 == Map::<Seq<char>, Vec<VolumeMount>>::empty(),
            r.bind_mounts@.1 == Map::<Seq<char>, Seq<char>>::empty(),
            r.next_bind_namespace == 1,
    {
        ProxyRegistry {
            published: ContainerRegistry::new(),
            bind_mounts: ContainerRegistry::new(),
            next_bind_namespace: 1,
        }
    }

    /// A fresh bind namespace name; the counter moves on, wrapping at the
    /// top of its range.
    pub fn allocate_bind_namespace(&mut self) -> (r: String)
        ensures
            r@ == "b"@ + text::hex_text(old(self).next_bind_namespace as nat),
            final(self).next_bind_namespace == if old(self).next_bind_namespace == u64::MAX {
                0
            } else {
                (old(self).next_bind_namespace + 1) as u64
            },
            final(self).published == old(self).published,
            final(self).bind_mounts == old(self).bind_mounts,
    {
        let r = bind_namespace_name(self.next_bind_namespace);
        self.next_bind_namespace = self.next_bind_namespace.wrapping_add(1);
        r
    }

    /// Records the published ports of container `id`, created as `alias`.
    pub fn remember_published_ports(
        &mut self,
        id: String,
        alias: Option<String>,
        ports: Vec<PortMap>,
        active: bool,
    )
        requires
            old(self).wf(),
        ensures
            final(self).wf(),
            final(self).published@.0.contains_key(id@),
            final(self).published@.0.remove(id@) == old(self).published@.0.remove(id@),
            final(self).published@.0[id@].ports == ports,
            final(self).published@.0[id@].active == active,
            final(self).published@.0[id@].forwards@.len() == 0,
            final(self).published@.1 == match alias {
                Some(a) => old(self).published@.1.insert(a@, id@),
                None => old(self).published@.1,
            },
            final(self).bind_mounts == old(self).bind_mounts,
            final(self).next_bind_namespace == old(self).next_bind_namespace,
    {
        let ghost idv = id@;
        self.published.remember(id, alias, PublishedEntry { ports, active, forwards: Vec::new() });
        assert(self.published@.0.remove(idv) =~= old(self).published@.0.remove(idv));
    }

    /// Records the host bind mounts of container `id`, created as `alias`.
    pub fn remember_bind_mounts(&mut self, id: String, alias: Option<String>, binds: Vec<VolumeMount>)
        requires
            old(self).wf(),
        ensures
            final(self).wf(),
            final(self).bind_mounts@.0 == old(self).bind_mounts@.0.insert(id@, binds),
            final(self).bind_mounts@.1 == match alias {
                Some(a) => old(self).bind_mounts@.1.insert(a@, id@),
                None => old(self).bind_mounts@.1,
            },
            final(self).published == old(self).published,
            final(self).next_bind_namespace == old(self).next_bind_namespace,
    {
        self.bind_mounts.remember(id, alias, binds);
    }

    /// Whether the container `q` names has published ports.
    pub fn has_published_ports(&self, q: &str) -> (r: bool)
        requires
            self.wf(),
        ensures
            r == match resolved(self.published@.0, self.published@.1, q@) {
                Some(id) => self.published@.0.contains_key(id) && self.published@.0[id].ports@.len()
                    > 0,
                None => false,
            },
    {
        match self.published.resolve(q) {
            None => false,
            Some(id) => match self.published.by_id.get(id.as_str()) {
                Some(e) => e.ports.len() > 0,
                None => false,
            },
        }
    }

    /// Aims the published ports of the container `q` names at its address
    /// `ip` and marks them active; gives back the ports to forward, none
    /// when they were active already.
    pub fn activate_published_ports(&mut self, q: &str, ip: Ipv4) -> (r: Vec<PortMap>)
        requires
            old(self).wf(),
        ensures
            final(self).wf(),
            activation(old(self).published@, final(self).published@, q@, ip, r@),
            final(self).bind_mounts == old(self).bind_mounts,
            final(self).next_bind_namespace == old(self).next_bind_namespace,
    {
        let id = match self.published.resolve(q) {
            None => return Vec::new(),
            Some(id) => id,
        };
        let ghost before = self.published@;
        match self.published.by_id.remove(id.as_str()) {
            None => {
                assert(self.published@ =~= before);
                Vec::new()
            },
            Some(mut e) => {
                if e.active {
                    self.published.by_id.insert(id, e);
                    assert(self.published@.0 =~= before.0);
                    assert(self.published@ == before);
                    return Vec::new();
                }
                let mut ports: Vec<PortMap> = Vec::new();
                let mut out: Vec<PortMap> = Vec::new();
                let mut i: usize = 0;
                while i < e.ports.len()
                    invariant
                        i <= e.ports@.len(),
                        ports@.len() == i,
                        out@ == ports@,
                        forall|j: int|
                            0 <= j < i ==> #[trigger] ports@[j] == (PortMap {
                                host_port: e.ports@[j].host_port,
                                container_port: e.ports@[j].container_port,
                                target_ip: Some(ip),
                            }),
                    decreases e.ports@.len() - i,
                {
                    let p = PortMap {
                        host_port: e.ports[i].host_port,
                        container_port: e.ports[i].container_port,
                        target_ip: Some(ip),
                    };
                    ports.push(p);
                    out.push(p);
                    i += 1;
                }
                let ghost old_entry = e;
                e.active = true;
                e.ports = ports;
                let ghost idv = id@;
                self.published.by_id.insert(id, e);
                assert(self.published@.0.remove(idv) =~= before.0.remove(idv));
                assert(ports_targeted(old_entry.ports@, self.published@.0[idv].ports@, ip));
                out
            },
        }
    }

    /// Marks the entry of the container `q` names inactive and hands out its
    /// forwarders, for the caller to stop.
    pub fn stop_host_port_forwards(&mut self, q: &str) -> (r: Vec<F>)
        requires
            old(self).wf(),
        ensures
            final(self).wf(),
            stopping(old(self).published@, final(self).published@, q@, r@),
            final(self).bind_mounts == old(self).bind_mounts,
            final(self).next_bind_namespace == old(self).next_bind_namespace,
    {
        let id = match self.published.resolve(q) {
            None => return Vec::new(),
            Some(id) => id,
        };
        let ghost before = self.published@;
        match self.published.by_id.remove(id.as_str()) {
            None => {
                assert(self.published@ =~= before);
                Vec::new()
            },
            Some(e) => {
                let PublishedEntry { ports, active: _, forwards } = e;
                let ghost idv = id@;
                self.published.by_id.insert(
                    id,
                    PublishedEntry { ports, active: false, forwards: Vec::new() },
                );
                assert(self.published@.0.remove(idv) =~= before.0.remove(idv));
                forwards
            },
        }
    }

    /// Adds a running forwarder to the entry of the container `q` names;
    /// gives it back when no such entry exists.
    pub fn register_host_port_forward(&mut self, q: &str, forward: F) -> (r: Result<(), F>)
        requires
            old(self).wf(),
        ensures
            final(self).wf(),
            match resolved(old(self).published@.0, old(self).published@.1, q@) {
                Some(id) => if old(self).published@.0.contains_key(id) {
                    &&& r is Ok
                    &&& final(self).published@.1 == old(self).published@.1
                    &&& final(self).published@.0.contains_key(id)
                    &&& final(self).published@.0.remove(id) == old(self).published@.0.remove(id)
                    &&& final(self).published@.0[id].ports == old(self).published@.0[id].ports
                    &&& final(self).published@.0[id].active == old(self).published@.0[id].active
                    &&& final(self).published@.0[id].forwards@ == old(
                        self,
                    ).published@.0[id].forwards@.push(forward)
                } else {
                    r == Err::<(), F>(forward) && final(self).published@ == old(self).published@
                },
                None => r == Err::<(), F>(forward) && final(self).published@ == old(self).published@,
            },
            final(self).bind_mounts == old(self).bind_mounts,
            final(self).next_bind_namespace == old(self).next_bind_namespace,
    {
        let id = match self.published.resolve(q) {
            None => return Err(forward),
            Some(id) => id,
        };
        let ghost before = self.published@;
        match self.published.by_id.remove(id.as_str()) {
            None => {
                assert(self.published@ =~= before);
                Err(forward)
            },
            Some(mut e) => {
                e.forwards.push(forward);
                let ghost idv = id@;
                self.published.by_id.insert(id, e);
                assert(self.published@.0.remove(idv) =~= before.0.remove(idv));
                Ok(())
            },
        }
    }

    /// Forgets the published ports of the container `q` names and its
    /// aliases; gives back the ports it had.
    pub fn forget_published_ports(&mut self, q: &str) -> (r: Vec<PortMap>)
        requires
            old(self).wf(),
        ensures
            final(self).wf(),
            match resolved(old(self).published@.0, old(self).published@.1, q@) {
                None => r@.len() == 0 && final(self).published@ == old(self).published@,
                Some(id) => {
                    &&& final(self).published@.0 == old(self).published@.0.remove(id)
                    &&& final(self).published@.1 == aliases_without(old(self).published@.1, id)
                    &&& r@ == if old(self).published@.0.contains_key(id) {
                        old(self).published@.0[id].ports@
                    } else {
                        Seq::empty()
                    }
                },
            },
            final(self).bind_mounts == old(self).bind_mounts,
            final(self).next_bind_namespace == old(self).next_bind_namespace,
    {
        match self.published.forget(q) {
            Some(e) => e.ports,
            None => Vec::new(),
        }
    }

    /// Forgets the bind mounts of the container `q` names and its aliases;
    /// gives back the mounts it had, for the guest to drop.
    pub fn forget_bind_mounts(&mut self, q: &str) -> (r: Vec<VolumeMount>)
        requires
            old(self).wf(),
        ensures
            final(self).wf(),
            match resolved(old(self).bind_mounts@.0, old(self).bind_mounts@.1, q@) {
                None => r@.len() == 0 && final(self).bind_mounts@ == old(self).bind_mounts@,
                Some(id) => {
                    &&& final(self).bind_mounts@.0 == old(self).bind_mounts@.0.remove(id)
                    &&& final(self).bind_mounts@.1 == aliases_without(old(self).bind_mounts@.1, id)
                    &&& r@ == if old(self).bind_mounts@.0.contains_key(id) {
                        old(self).bind_mounts@.0[id]@
                    } else {
                        Seq::empty()
                    }
                },
            },
            final(self).published == old(self).published,
            final(self).next_bind_namespace == old(self).next_bind_namespace,
    {
        match self.bind_mounts.forget(q) {
            Some(v) => v,
            None => Vec::new(),
        }
    }

    /// Records what a successful create left to manage: its published ports
    /// (not yet active) when there are any, and its host bind mounts when
    /// there are any, both under `alias` too.
    pub fn record_created(
        &mut self,
        id: String,
        alias: Option<String>,
        ports: Vec<PortMap>,
        binds: Vec<VolumeMount>,
    )
        requires
            old(self).wf(),
        ensures
            final(self).wf(),
            ports@.len() == 0 ==> final(self).published == old(self).published,
            ports@.len() > 0 ==> {
                &&& final(self).published@.0.contains_key(id@)
                &&& final(self).published@.0.remove(id@) == old(self).published@.0.remove(id@)
                &&& final(self).published@.0[id@].ports == ports
                &&& !final(self).published@.0[id@].active
                &&& final(self).published@.0[id@].forwards@.len() == 0
                &&& final(self).published@.1 == match alias {
                    Some(a) => old(self).published@.1.insert(a@, id@),
                    None => old(self).published@.1,
                }
            },
            binds@.len() == 0 ==> final(self).bind_mounts == old(self).bind_mounts,
            binds@.len() > 0 ==> {
                &&& final(self).bind_mounts@.0 == old(self).bind_mounts@.0.insert(id@, binds)
                &&& final(self).bind_mounts@.1 == match alias {
                    Some(a) => old(self).bind_mounts@.1.insert(a@, id@),
                    None => old(self).bind_mounts@.1,
                }
            },
            final(self).next_bind_namespace == old(self).next_bind_namespace,
    {
        if ports.len() > 0 {
            let alias2 = clone_opt(&alias);
            assert(opt_view(alias2) == opt_view(alias));
            self.remember_published_ports(id.clone(), alias2, ports, false);
        }
        if binds.len() > 0 {
            self.remember_bind_mounts(id, alias, binds);
        }
    }
}

/// A container remembered under `id` is what its own id names.
pub proof fn lemma_remembered_id_resolves<T>(
    entries: Map<Seq<char>, T>,
    aliases: Map<Seq<char>, Seq<char>>,
    id: Seq<char>,
    v: T,
)
    ensures
        resolved(entries.insert(id, v), aliases, id) == Some(id),
{
}

/// A container remembered under an alias is what the alias names, unless the
/// alias is itself a registered id.
pub proof fn lemma_remembered_alias_resolves<T>(
    entries: Map<Seq<char>, T>,
    aliases: Map<Seq<char>, Seq<char>>,
    id: Seq<char>,
    alias: Seq<char>,
    v: T,
)
    requires
        !entries.insert(id, v).contains_key(alias),
    ensures
        resolved(entries.insert(id, v), aliases.insert(alias, id), alias) == Some(id),
{
}

/// Once forgotten, a container is named by nothing: not by its id, not by
/// an alias, not by a prefix.
pub proof fn lemma_forgotten_names_nothing<T>(
    entries: Map<Seq<char>, T>,
    aliases: Map<Seq<char>, Seq<char>>,
    id: Seq<char>,
    q: Seq<char>,
)
    ensures
        resolved(entries.remove(id), aliases_without(aliases, id), q) != Some(id),
{
    let e = entries.remove(id);
    let a = aliases_without(aliases, id);
    if !e.contains_key(q) && !a.contains_key(q) && exists|k: Seq<char>| only_prefix_match(e, q, k) {
        let k = choose|k: Seq<char>| only_prefix_match(e, q, k);
        assert(e.contains_key(k));
    }
}

/// Which id a name resolves to depends only on the registered ids and the
/// aliases, not on what is held for them.
pub proof fn lemma_resolution_by_ids<T>(
    e1: Map<Seq<char>, T>,
    e2: Map<Seq<char>, T>,
    aliases: Map<Seq<char>, Seq<char>>,
    q: Seq<char>,
)
    requires
        e1.dom() == e2.dom(),
    ensures
        resolved(e1, aliases, q) == resolved(e2, aliases, q),
{
    assert forall|k: Seq<char>| only_prefix_match(e1, q, k) == only_prefix_match(e2, q, k) by {
        assert(e1.contains_key(k) == e2.contains_key(k));
        if only_prefix_match(e1, q, k) {
            assert forall|k2: Seq<char>| #[trigger] e2.contains_key(k2) && text::starts_with(k2, q)
                implies k2 == k by {
                assert(e1.contains_key(k2));
            }
        }
        if only_prefix_match(e2, q, k) {
            assert forall|k2: Seq<char>| #[trigger] e1.contains_key(k2) && text::starts_with(k2, q)
                implies k2 == k by {
                assert(e2.contains_key(k2));
            }
        }
    }
    if exists|k: Seq<char>| only_prefix_match(e1, q, k) {
        let k1 = choose|k: Seq<char>| only_prefix_match(e1, q, k);
        let k2 = choose|k: Seq<char>| only_prefix_match(e2, q, k);
        assert(only_prefix_match(e2, q, k1));
        assert(only_prefix_match(e1, q, k2));
        assert(k1 == k2);
    }
}

/// Published ports are activated once: activating them again, before a
/// stop, changes nothing and hands out no ports.
pub proof fn lemma_activation_is_once<F>(
    s0: RegView<PublishedEntry<F>>,
    s1: RegView<PublishedEntry<F>>,
    s2: RegView<PublishedEntry<F>>,
    q: Seq<char>,
    ip1: Ipv4,
    ip2: Ipv4,
    r1: Seq<PortMap>,
    r2: Seq<PortMap>,
)
    requires
        activation(s0, s1, q, ip1, r1),
        activation(s1, s2, q, ip2, r2),
    ensures
        r2.len() == 0,
        s2 == s1,
{
    if let Some(id) = resolved(s0.0, s0.1, q) {
        if s0.0.contains_key(id) && !s0.0[id].active {
            assert(s1.0.dom() =~= s0.0.dom()) by {
                assert(s1.0.remove(id).dom() == s0.0.remove(id).dom());
            }
            lemma_resolution_by_ids(s0.0, s1.0, s0.1, q);
        }
    }
}

/// After the forwarders of a container are stopped, activating its ports
/// again aims every one of them at the new address.
pub proof fn lemma_stop_then_activation<F>(
    s0: RegView<PublishedEntry<F>>,
    s1: RegView<PublishedEntry<F>>,
    s2: RegView<PublishedEntry<F>>,
    q: Seq<char>,
    stopped: Seq<F>,
    ip: Ipv4,
    r: Seq<PortMap>,
)
    requires
        stopping(s0, s1, q, stopped),
        activation(s1, s2, q, ip, r),
    ensures
        match resolved(s0.0, s0.1, q) {
            Some(id) => s0.0.contains_key(id) ==> ports_targeted(s0.0[id].ports@, r, ip),
            None => true,
        },
{
    if let Some(id) = resolved(s0.0, s0.1, q) {
        if s0.0.contains_key(id) {
            assert(s1.0.dom() =~= s0.0.dom()) by {
                assert(s1.0.remove(id).dom() == s0.0.remove(id).dom());
            }
            lemma_resolution_by_ids(s0.0, s1.0, s0.1, q);
        }
    }
}

/// The value of one octet of a dotted-quad address: one to three decimal
/// digits, without a leading zero unless it is the only digit, at most 255.
pub open spec fn octet_value(s: Seq<char>) -> Option<int> {
    if 1 <= s.len() <= 3 && s[0] != '+' && (s.len() == 1 || s[0] != '0') {
        text::parse_unsigned(s, 255)
    } else {
        None
    }
}

/// The IPv4 address that dotted-quad text spells: exactly four octets
/// separated by dots.
pub open spec fn ipv4_of(s: Seq<char>) -> Option<Ipv4> {
    let parts = text::split_on(s, '.');
    if parts.len() == 4 && octet_value(parts[0]) is Some && octet_value(parts[1]) is Some
        && octet_value(parts[2]) is Some && octet_value(parts[3]) is Some {
        Some(
            Ipv4 {
                a: octet_value(parts[0])->0 as u8,
                b: octet_value(parts[1])->0 as u8,
                c: octet_value(parts[2])->0 as u8,
                d: octet_value(parts[3])->0 as u8,
            },
        )
    } else {
        None
    }
}

fn octet(s: &str) -> (r: Option<u8>)
    ensures
        match octet_value(s@) {
            Some(v) => 0 <= v <= 255 && r == Some(v as u8),
            None => r is None,
        },
{
    let cs = text::chars_of(s);
    let n = cs.len();
    if n < 1 || n > 3 || cs[0] == '+' || (n > 1 && cs[0] == '0') {
        return None;
    }
    match text::parse_unsigned_bounded(cs.as_slice(), 255) {
        Some(v) => Some(v as u8),
        None => None,
    }
}

/// Parses a dotted-quad IPv4 address.
pub fn parse_ipv4(s: &str) -> (r: Option<Ipv4>)
    ensures
        r == ipv4_of(s@),
{
    let parts = text::split_chars(s, '.');
    let ghost views = text::views_of(parts@);
    if parts.len() != 4 {
        return None;
    }
    assert(views[0] == parts@[0]@ && views[1] == parts@[1]@ && views[2] == parts@[2]@ && views[3]
        == parts@[3]@);
    let a = match octet(parts[0].as_str()) {
        Some(v) => v,
        None => return None,
    };
    let b = match octet(parts[1].as_str()) {
        Some(v) => v,
        None => return None,
    };
    let c = match octet(parts[2].as_str()) {
        Some(v) => v,
        None => return None,
    };
    let d = match octet(parts[3].as_str()) {
        Some(v) => v,
        None => return None,
    };
    Some(Ipv4 { a, b, c, d })
}

/// The first of the addresses that parses as IPv4.
pub open spec fn first_ipv4(ips: Seq<Option<String>>) -> Option<Ipv4>
    decreases ips.len(),
{
    if ips.len() == 0 {
        None
    } else {
        match ips[0] {
            Some(s) => match ipv4_of(s@) {
                Some(ip) => Some(ip),
                None => first_ipv4(ips.drop_first()),
            },
            None => first_ipv4(ips.drop_first()),
        }
    }
}

/// The address of a started container, from its inspect data: the first
/// network address that is IPv4, else the top-level address.
pub fn container_ip(network_ips: &Vec<Option<String>>, top_level_ip: &Option<String>) -> (r: Option<
    Ipv4,
>)
    ensures
        r == match first_ipv4(network_ips@) {
            Some(ip) => Some(ip),
            None => match top_level_ip {
                Some(s) => ipv4_of(s@),
                None => None,
            },
        },
{
    let mut i: usize = 0;
    assert(network_ips@.subrange(0, network_ips@.len() as int) =~= network_ips@);
    while i < network_ips.len()
        invariant
            i <= network_ips@.len(),
            first_ipv4(network_ips@) == first_ipv4(
                network_ips@.subrange(i as int, network_ips@.len() as int),
            ),
        decreases network_ips@.len() - i,
    {
        let ghost tail = network_ips@.subrange(i as int, network_ips@.len() as int);
        assert(tail[0] == network_ips@[i as int]);
        assert(tail.drop_first() =~= network_ips@.subrange(i + 1, network_ips@.len() as int));
        if let Some(s) = &network_ips[i] {
            if let Some(ip) = parse_ipv4(s.as_str()) {
                return Some(ip);
            }
        }
        i += 1;
    }
    match top_level_ip {
        Some(s) => parse_ipv4(s.as_str()),
        None => None,
    }
}

/// The dotted-quad text of an address.
pub open spec fn ipv4_text(ip: Ipv4) -> Seq<char> {
    text::decimal_text(ip.a as nat) + "."@ + text::decimal_text(ip.b as nat) + "."@
        + text::decimal_text(ip.c as nat) + "."@ + text::decimal_text(ip.d as nat)
}

/// The line that opens a forwarded connection in the guest: the target
/// address and port, then a newline.
pub fn forward_target_line(ip: Ipv4, port: u16) -> (r: String)
    ensures
        r@ == ipv4_text(ip) + ":"@ + text::decimal_text(port as nat) + "\n"@,
{
    let mut r = String::new();
    text::push_decimal(&mut r, ip.a as u64);
    text::push_str(&mut r, ".");
    text::push_decimal(&mut r, ip.b as u64);
    text::push_str(&mut r, ".");
    text::push_decimal(&mut r, ip.c as u64);
    text::push_str(&mut r, ".");
    text::push_decimal(&mut r, ip.d as u64);
    text::push_str(&mut r, ":");
    text::push_decimal(&mut r, port as u64);
    text::push_str(&mut r, "\n");
    r
}

/// How many times the proxy asks for a started container's address.
pub const IP_WAIT_ATTEMPTS: u32 = 30;

/// Milliseconds between those questions.
pub const IP_WAIT_INTERVAL_MS: u64 = 100;

/// The vsock port of the guest's TCP forwarder.
pub const TCP_FORWARDER_VSOCK_PORT: u32 = 9006;

/// What the proxy does once the guest has answered an intercepted request.
#[derive(Clone, Copy, Debug, PartialEq, Eq, Structural)]
pub enum FollowUp {
    Nothing,
    /// Record the created container's ports and binds.
    RecordCreated,
    /// Find the container's address and forward its published ports.
    ActivatePorts,
    /// Stop the container's port forwarders.
    StopForwards,
    /// Stop its forwarders and forget its ports and binds.
    StopAndForget,
}

/// The follow-up for a route's answer with `status`, given whether a guest
/// is attached and whether the container has published ports.
pub open spec fn follow_up_for(route: ProxyRoute, status: u16, guest: bool, has_ports: bool) -> FollowUp {
    match route {
        ProxyRoute::InterceptCreate => if status == 201 {
            FollowUp::RecordCreated
        } else {
            FollowUp::Nothing
        },
        ProxyRoute::InterceptStart(_) => if status == 204 && guest && has_ports {
            FollowUp::ActivatePorts
        } else {
            FollowUp::Nothing
        },
        ProxyRoute::InterceptStop(_) => if is_success(status) {
            FollowUp::StopForwards
        } else {
            FollowUp::Nothing
        },
        ProxyRoute::InterceptDelete(_) => if is_success(status) {
            FollowUp::StopAndForget
        } else {
            FollowUp::Nothing
        },
        ProxyRoute::Forward => FollowUp::Nothing,
    }
}

/// Decides the follow-up of an intercepted request.
pub fn follow_up(route: &ProxyRoute, status: u16, guest: bool, has_ports: bool) -> (r: FollowUp)
    ensures
        r == follow_up_for(*route, status, guest, has_ports),
{
    match route {
        ProxyRoute::InterceptCreate => if status == 201 {
            FollowUp::RecordCreated
        } else {
            FollowUp::Nothing
        },
        ProxyRoute::InterceptStart(_) => if status == 204 && guest && has_ports {
            FollowUp::ActivatePorts
        } else {
            FollowUp::Nothing
        },
        ProxyRoute::InterceptStop(_) => if 200 <= status && status < 300 {
            FollowUp::StopForwards
        } else {
            FollowUp::Nothing
        },
        ProxyRoute::InterceptDelete(_) => if 200 <= status && status < 300 {
            FollowUp::StopAndForget
        } else {
            FollowUp::Nothing
        },
        ProxyRoute::Forward => FollowUp::Nothing,
    }
}

/// The error when a started container's address could not be found.
pub fn unresolved_target_error(id_or_name: &str) -> (r: DockerApiError)
    ensures
        r matches DockerApiError::Internal(m) && m@
            == "failed to resolve published-port target IP for started container "@ + id_or_name@,
{
    DockerApiError::Internal(
        text::concat2("failed to resolve published-port target IP for started container ", id_or_name),
    )
}

/// The error when a published port could not be exposed on the host.
pub fn expose_failed_error(host_port: u16, id_or_name: &str, cause: &str) -> (r: DockerApiError)
    ensures
        r matches DockerApiError::Internal(m) && m@ == "failed to expose published port "@
            + text::decimal_text(host_port as nat) + " for container "@ + id_or_name@ + ": "@
            + cause@,
{
    let mut m = text::string_of("failed to expose published port ");
    text::push_decimal(&mut m, host_port as u64);
    text::push_str(&mut m, " for container ");
    text::push_str(&mut m, id_or_name);
    text::push_str(&mut m, ": ");
    text::push_str(&mut m, cause);
    DockerApiError::Internal(m)
}

/// The error when the guest refused a created container's bind mounts.
pub fn bind_registration_error(id: &str, cause: &str) -> (r: DockerApiError)
    ensures
        r matches DockerApiError::Internal(m) && m@ == "failed to register bind mounts for container "@
            + id@ + ": "@ + cause@,
{
    let mut m = text::concat2("failed to register bind mounts for container ", id);
    text::push_str(&mut m, ": ");
    text::push_str(&mut m, cause);
    DockerApiError::Internal(m)
}

} // verus!
