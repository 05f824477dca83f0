//! Image references: tags, registry servers, and the Docker image records.
use vstd::prelude::*;
use crate::codec;
use crate::containerd::ImageRecord;
use crate::containers;
use crate::error::DockerApiError;
use crate::text;

verus! {

/// An image reference as the user wrote it.
#[derive(Clone, Debug)]
pub struct ImageRef(pub String);

impl ImageRef {
    /// Wraps a reference string as it stands.
    pub fn parse(s: &str) -> (r: Self)
        ensures
            r.0@ == s@,
    {
        ImageRef(text::string_of(s))
    }

    /// The reference as text.
    pub fn to_display_string(&self) -> (r: String)
        ensures
            r@ == self.0@,
    {
        text::string_of(self.0.as_str())
    }
}

/// An image as the list endpoint reports it.
#[derive(Clone, Debug)]
pub struct ImageSummary {
    pub id: String,
    pub repo_tags: Vec<String>,
    pub size: i64,
    pub created: i64,
}

/// An image as the inspect endpoint reports it.
#[derive(Clone, Debug)]
pub struct ImageInspect {
    pub id: String,
    pub repo_tags: Vec<String>,
    pub size: i64,
    pub created: i64,
    pub architecture: String,
}

/// The reference to pull: `from_image:tag` when a non-empty tag is given and
/// the image names no tag (no `:`), else `from_image` unchanged.
pub open spec fn tagged_ref(from_image: Seq<char>, tag: Option<Seq<char>>) -> Seq<char> {
    match tag {
        Some(t) => if t.len() > 0 && !from_image.contains(':') {
            from_image + ":"@ + t
        } else {
            from_image
        },
        None => from_image,
    }
}

/// Applies the `tag` query parameter to the `fromImage` reference.
pub fn image_ref_with_tag(from_image: &str, tag: Option<&str>) -> (r: String)
    ensures
        r@ == tagged_ref(
            from_image@,
            match tag {
                Some(t) => Some(t@),
                None => None,
            },
        ),
{
    match tag {
        Some(t) => {
            let cs = text::chars_of(from_image);
            let has_colon = contains_char(cs.as_slice(), 0, cs.len(), ':');
            assert(cs@.subrange(0, cs@.len() as int) =~= cs@);
            if text::chars_of(t).len() > 0 && !has_colon {
                text::concat3(from_image, ":", t)
            } else {
                text::string_of(from_image)
            }
        },
        None => text::string_of(from_image),
    }
}

/// The registry an image reference names: its first `/`-separated component
/// when that contains `.` or `:` or is `localhost`, else Docker Hub.
pub open spec fn registry_of(image: Seq<char>) -> Seq<char> {
    let first = match text::index_of(image, '/') {
        Some(i) => image.subrange(0, i),
        None => image,
    };
    if first.contains('.') || first.contains(':') || first == "localhost"@ {
        first
    } else {
        "registry-1.docker.io"@
    }
}

fn contains_char(cs: &[char], from: usize, to: usize, c: char) -> (r: bool)
    requires
        from <= to <= cs@.len(),
    ensures
        r == cs@.subrange(from as int, to as int).contains(c),
{
    let mut i = from;
    while i < to
        invariant
            from <= i <= to <= cs@.len(),
            forall|j: int| from <= j < i ==> cs@[j] != c,
        decreases to - i,
    {
        if cs[i] == c {
            assert(cs@.subrange(from as int, to as int)[i - from] == c);
            return true;
        }
        i += 1;
    }
    false
}

/// The registry server to authenticate against for `image`.
pub fn registry_server(image: &str) -> (r: String)
    ensures
        r@ == registry_of(image@),
{
    let cs = text::chars_of(image);
    let n = cs.len();
    assert(cs@.subrange(0, n as int) =~= cs@);
    let end = match text::find_char(cs.as_slice(), '/', 0, n) {
        Some(i) => i,
        None => n,
    };
    let first = text::string_from_chars(cs.as_slice(), 0, end);
    if contains_char(cs.as_slice(), 0, end, '.') || contains_char(cs.as_slice(), 0, end, ':')
        || text::str_eq(first.as_str(), "localhost") {
        first
    } else {
        text::string_of("registry-1.docker.io")
    }
}

/// Credentials to send to a registry.
#[derive(Clone, PartialEq, Eq)]
pub struct RegistryAuth {
    pub username: String,
    pub password: String,
    pub server_address: String,
}

/// The JSON object that the Docker API's `X-Registry-Auth` header carries.
pub open spec fn auth_json(username: Seq<char>, password: Seq<char>, server: Seq<char>) -> Seq<
    char,
> {
    "{\"username\":"@ + codec::json_string_literal(username) + ",\"password\":"@
        + codec::json_string_literal(password) + ",\"serveraddress\":"@
        + codec::json_string_literal(server) + "}"@
}

impl RegistryAuth {
    /// The credentials as the JSON object of an `X-Registry-Auth` header.
    pub fn to_json(&self) -> (r: String)
        ensures
            r@ == auth_json(self.username@, self.password@, self.server_address@),
    {
        let mut r = text::string_of("{\"username\":");
        text::push_str(&mut r, codec::json_string(self.username.as_str()).as_str());
        text::push_str(&mut r, ",\"password\":");
        text::push_str(&mut r, codec::json_string(self.password.as_str()).as_str());
        text::push_str(&mut r, ",\"serveraddress\":");
        text::push_str(&mut r, codec::json_string(self.server_address.as_str()).as_str());
        text::push_str(&mut r, "}");
        r
    }

    /// The value of an `X-Registry-Auth` header: the JSON object in standard
    /// base64; `None` only when the encoding would not fit in memory.
    pub fn to_base64(&self) -> (r: Option<String>)
        ensures
            ({
                let bytes = vstd::utf8::encode_utf8(
                    auth_json(self.username@, self.password@, self.server_address@),
                );
                if codec::base64_fits(bytes.len()) {
                    r matches Some(t) && t@ == codec::base64_standard_encoding(bytes)
                } else {
                    r is None
                }
            }),
    {
        let json = self.to_json();
        codec::base64_encode(json.as_str().as_bytes())
    }

    /// The credentials as `{:?}` shows them, with the password masked.
    pub fn debug_text(&self) -> (r: String)
        ensures
            r@ == "RegistryAuth { username: "@ + codec::debug_quoted(self.username@)
                + ", password: \"[REDACTED]\", server_address: "@ + codec::debug_quoted(
                self.server_address@,
            ) + " }"@,
    {
        let mut r = text::string_of("RegistryAuth { username: ");
        text::push_str(&mut r, codec::debug_string(self.username.as_str()).as_str());
        text::push_str(&mut r, ", password: \"[REDACTED]\", server_address: ");
        text::push_str(&mut r, codec::debug_string(self.server_address.as_str()).as_str());
        text::push_str(&mut r, " }");
        r
    }
}

/// The query of `POST /images/create`.
#[derive(Clone, Debug)]
pub struct ImageCreateQuery {
    pub from_image: String,
    pub tag: Option<String>,
}

/// What a pull fetches: the reference with its tag, and the registry server
/// whose credentials apply.
#[derive(Clone, Debug)]
pub struct PullPlan {
    pub image: String,
    pub server: String,
}

/// Plans `POST /images/create`: the `fromImage` reference must be valid; the
/// tag is applied and the registry server read from the result.
pub fn plan_image_pull(query: &ImageCreateQuery) -> (r: Result<PullPlan, DockerApiError>)
    ensures
        text::trim(query.from_image@).len() == 0 || containers::has_char_of(
            query.from_image@,
            containers::Forbidden::ShellMeta,
        ) ==> r is Err,
        r matches Err(e) ==> e is BadRequest,
        !(text::trim(query.from_image@).len() == 0 || containers::has_char_of(
            query.from_image@,
            containers::Forbidden::ShellMeta,
        )) ==> (r matches Ok(p) && p.image@ == tagged_ref(
            query.from_image@,
            match query.tag {
                Some(t) => Some(t@),
                None => None,
            },
        ) && p.server@ == registry_of(p.image@)),
{
    match containers::validate_image_ref(query.from_image.as_str()) {
        Ok(()) => {},
        Err(e) => return Err(e),
    }
    let tag = match &query.tag {
        Some(t) => Some(t.as_str()),
        None => None,
    };
    let image = image_ref_with_tag(query.from_image.as_str(), tag);
    let server = registry_server(image.as_str());
    Ok(PullPlan { image, server })
}

/// The two progress messages of a pull: `Pulling from <image>` (with the tag,
/// or `latest`, as its id) and `Status: Downloaded newer image for <image>`.
pub fn pull_progress(image: &str, tag: Option<&str>) -> (r: (String, String, String))
    ensures
        r.0@ == "Pulling from "@ + image@,
        r.1@ == match tag {
            Some(t) => t@,
            None => "latest"@,
        },
        r.2@ == "Status: Downloaded newer image for "@ + image@,
{
    let id = match tag {
        Some(t) => text::string_of(t),
        None => text::string_of("latest"),
    };
    (
        text::concat2("Pulling from ", image),
        id,
        text::concat2("Status: Downloaded newer image for ", image),
    )
}

/// The progress message of a push.
pub fn push_progress(name: &str) -> (r: String)
    ensures
        r@ == "Pushed "@ + name@,
{
    text::concat2("Pushed ", name)
}

/// An image record as `GET /images/json` lists it: its name is its one tag.
pub fn image_summary(record: ImageRecord) -> (r: ImageSummary)
    ensures
        r.id@ == record.id@,
        r.repo_tags@.len() == 1 && r.repo_tags@[0]@ == record.name@,
        r.size == record.size,
        r.created == record.created_at_seconds,
{
    let mut tags: Vec<String> = Vec::new();
    tags.push(record.name);
    ImageSummary { id: record.id, repo_tags: tags, size: record.size, created: record.created_at_seconds }
}

/// An image record as `GET /images/<name>/json` shows it; every image runs on
/// the arm64 guest.
pub fn image_inspect(record: ImageRecord) -> (r: ImageInspect)
    ensures
        r.id@ == record.id@,
        r.repo_tags@.len() == 1 && r.repo_tags@[0]@ == record.name@,
        r.size == record.size,
        r.created == record.created_at_seconds,
        r.architecture@ == "arm64"@,
{
    let mut tags: Vec<String> = Vec::new();
    tags.push(record.name);
    ImageInspect {
        id: record.id,
        repo_tags: tags,
        size: record.size,
        created: record.created_at_seconds,
        architecture: text::string_of("arm64"),
    }
}

} // verus!
