//! Registry credentials: from the `X-Registry-Auth` header a Docker client
//! sends, or from the `auths` section of `~/.docker/config.json`.
use vstd::prelude::*;
use crate::codec;
use crate::text;

verus! {

/// A user name and password for one registry server.
#[derive(Clone, Debug, PartialEq, Eq)]
pub struct RegistryCredentials {
    pub username: String,
    pub password: String,
    pub server: String,
}

/// The fields of the JSON object that `X-Registry-Auth` carries; a missing
/// field reads as empty.
#[derive(Clone, Debug)]
pub struct HeaderAuth {
    pub username: String,
    pub password: String,
    pub server_address: String,
}

/// One entry of the `auths` map of `~/.docker/config.json`.
#[derive(Clone, Debug)]
pub struct DockerAuthEntry {
    pub auth: Option<String>,
    pub username: Option<String>,
    pub password: Option<String>,
}

/// The JSON bytes that an `X-Registry-Auth` header value encodes: its base64
/// decoding, `None` when it is not valid base64.
pub fn decode_auth_header_bytes(header_value: &str) -> (r: Option<Vec<u8>>)
    ensures
        match codec::base64_standard_decoding(header_value@) {
            Some(b) => r matches Some(v) && v@ == b,
            None => r is None,
        },
{
    codec::base64_decode(header_value)
}

/// Credentials from a decoded `X-Registry-Auth` object: refused when the
/// user name or the password is empty.
pub fn credentials_from_header(auth: HeaderAuth) -> (r: Option<RegistryCredentials>)
    ensures
        (auth.username@.len() == 0 || auth.password@.len() == 0) ==> r is None,
        (auth.username@.len() != 0 && auth.password@.len() != 0) ==> (r matches Some(c)
            && c.username@ == auth.username@ && c.password@ == auth.password@ && c.server@
            == auth.server_address@),
{
    let HeaderAuth { username, password, server_address } = auth;
    if text::chars_of(username.as_str()).len() == 0 || text::chars_of(password.as_str()).len()
        == 0 {
        return None;
    }
    Some(RegistryCredentials { username, password, server: server_address })
}

/// The key under which `docker login` stores Docker Hub credentials, for the
/// names Docker Hub goes by; any other server stands for itself.
pub open spec fn docker_hub_key(server: Seq<char>) -> Seq<char> {
    if server == "registry-1.docker.io"@ || server == "docker.io"@ || server
        == "index.docker.io"@ {
        "https://index.docker.io/v1/"@
    } else {
        server
    }
}

/// Maps the names of Docker Hub to the key `docker login` uses for it.
pub fn normalize_docker_hub_server(server: &str) -> (r: String)
    ensures
        r@ == docker_hub_key(server@),
{
    if text::str_eq(server, "registry-1.docker.io") || text::str_eq(server, "docker.io")
        || text::str_eq(server, "index.docker.io") {
        text::string_of("https://index.docker.io/v1/")
    } else {
        text::string_of(server)
    }
}

/// Where the Docker client keeps its configuration, under `$HOME`; `None`
/// when `HOME` is unset.
pub fn docker_config_path(home: Option<&str>) -> (r: Option<String>)
    ensures
        match home {
            Some(h) => r matches Some(p) && p@ == text::path_join(h@, ".docker/config.json"@),
            None => r is None,
        },
{
    match home {
        Some(h) => Some(text::join_path(h, ".docker/config.json")),
        None => None,
    }
}

/// The index of the last entry under `key`, as a map built from the entries
/// in order keeps it.
pub open spec fn last_index_of(auths: Seq<(String, DockerAuthEntry)>, key: Seq<char>) -> Option<
    int,
>
    decreases auths.len(),
{
    if auths.len() == 0 {
        None
    } else if auths.last().0@ == key {
        Some(auths.len() - 1)
    } else {
        last_index_of(auths.drop_last(), key)
    }
}

fn find_entry(auths: &Vec<(String, DockerAuthEntry)>, key: &str) -> (r: Option<usize>)
    ensures
        match last_index_of(auths@, key@) {
            Some(i) => r == Some(i as usize),
            None => r is None,
        },
{
    let mut i = auths.len();
    assert(auths@.subrange(0, i as int) =~= auths@);
    while i > 0
        invariant
            i <= auths@.len(),
            last_index_of(auths@, key@) == last_index_of(auths@.subrange(0, i as int), key@),
        decreases i,
    {
        assert(auths@.subrange(0, i as int).drop_last() =~= auths@.subrange(0, i - 1));
        if text::str_eq(auths[i - 1].0.as_str(), key) {
            return Some(i - 1);
        }
        i -= 1;
    }
    None
}

/// The entry for `server` in the `auths` of a Docker configuration: the
/// entry under `server` itself, else the one under its Docker Hub key.
pub open spec fn config_entry_index(auths: Seq<(String, DockerAuthEntry)>, server: Seq<char>) -> Option<
    int,
> {
    match last_index_of(auths, server) {
        Some(i) => Some(i),
        None => last_index_of(auths, docker_hub_key(server)),
    }
}

/// Finds the `auths` entry for `server`.
pub fn select_config_entry(auths: &Vec<(String, DockerAuthEntry)>, server: &str) -> (r: Option<
    usize,
>)
    ensures
        match config_entry_index(auths@, server@) {
            Some(i) => r == Some(i as usize),
            None => r is None,
        },
{
    match find_entry(auths, server) {
        Some(i) => Some(i),
        None => {
            let key = normalize_docker_hub_server(server);
            find_entry(auths, key.as_str())
        },
    }
}

/// The user name and password that a decoded `auth` token holds: the text
/// before and after its first `:`, both non-empty.
pub open spec fn token_parts(token: Seq<u8>) -> Option<(Seq<char>, Seq<char>)> {
    if !vstd::utf8::valid_utf8(token) {
        None
    } else {
        let t = vstd::utf8::decode_utf8(token);
        match text::index_of(t, ':') {
            None => None,
            Some(i) => if i == 0 || i + 1 == t.len() {
                None
            } else {
                Some((t.subrange(0, i), t.subrange(i + 1, t.len() as int)))
            },
        }
    }
}

/// Credentials for `server` from its Docker configuration entry: the entry's
/// user name and password when it has both, else its `auth` token decoded
/// from base64 and split at the first `:`.
pub fn credentials_from_config_entry(server: &str, entry: &DockerAuthEntry) -> (r: Option<
    RegistryCredentials,
>)
    ensures
        (entry.username is Some && entry.password is Some) ==> (r matches Some(c)
            && c.username@ == entry.username->0@ && c.password@ == entry.password->0@
            && c.server@ == server@),
        !(entry.username is Some && entry.password is Some) ==> match entry.auth {
            None => r is None,
            Some(a) => match codec::base64_standard_decoding(a@) {
                None => r is None,
                Some(bytes) => match token_parts(bytes) {
                    None => r is None,
                    Some((u, p)) => r matches Some(c) && c.username@ == u && c.password@ == p
                        && c.server@ == server@,
                },
            },
        },
{
    match (&entry.username, &entry.password) {
        (Some(u), Some(p)) => {
            return Some(
                RegistryCredentials {
                    username: u.clone(),
                    password: p.clone(),
                    server: text::string_of(server),
                },
            );
        },
        _ => {},
    }
    let encoded = match &entry.auth {
        Some(a) => a,
        None => return None,
    };
    let bytes = match codec::base64_decode(encoded.as_str()) {
        Some(b) => b,
        None => return None,
    };
    let decoded = match text::utf8_text(bytes.as_slice()) {
        Some(s) => s,
        None => return None,
    };
    let cs = text::chars_of(decoded.as_str());
    let n = cs.len();
    assert(cs@.subrange(0, n as int) =~= cs@);
    match text::find_char(cs.as_slice(), ':', 0, n) {
        None => None,
        Some(i) => {
            if i == 0 || i + 1 == n {
                return None;
            }
            let username = text::string_from_chars(cs.as_slice(), 0, i);
            let password = text::string_from_chars(cs.as_slice(), i + 1, n);
            Some(RegistryCredentials { username, password, server: text::string_of(server) })
        },
    }
}

} // verus!
