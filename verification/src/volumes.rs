//! Docker volumes: the summary record and the volume-name rule.
use vstd::prelude::*;
use crate::containers;
use crate::error::{DockerApiError, is_bad_request};
use crate::text;

verus! {

/// A Docker volume as the API lists it.
#[derive(Clone, Debug)]
pub struct VolumeSummary {
    pub name: String,
    pub driver: String,
    pub mountpoint: String,
    pub created_at: Option<String>,
}

/// Validates a volume name: an ASCII letter or digit, then ASCII letters,
/// digits, `_`, `.` or `-`.
pub fn validate_volume_name(name: &str) -> (r: Result<(), DockerApiError>)
    ensures
        containers::name_problem(name@) == Some(containers::NameProblem::Empty) ==> (r matches Err(e) && is_bad_request(
            e,
            "volume name cannot be empty"@,
        )),
        containers::name_problem(name@) == Some(containers::NameProblem::BadStart) ==> (r matches Err(e) && is_bad_request(
            e,
            "volume name must start with an ASCII letter or digit"@,
        )),
        containers::name_problem(name@) == Some(containers::NameProblem::BadChar) ==> (r matches Err(e) && is_bad_request(
            e,
            "volume name contains invalid characters"@,
        )),
        containers::name_problem(name@) is None ==> r is Ok,
{
    match containers::name_shape(name) {
        Some(containers::NameProblem::Empty) => Err(
            DockerApiError::BadRequest(text::string_of("volume name cannot be empty")),
        ),
        Some(containers::NameProblem::BadStart) => Err(
            DockerApiError::BadRequest(
                text::string_of("volume name must start with an ASCII letter or digit"),
            ),
        ),
        Some(containers::NameProblem::BadChar) => Err(
            DockerApiError::BadRequest(text::string_of("volume name contains invalid characters")),
        ),
        None => Ok(()),
    }
}

/// The mount point of a named volume inside the VM.
pub fn volume_mountpoint(name: &str) -> (r: String)
    ensures
        r@ == "/var/lib/speck/volumes/"@ + name@,
{
    text::concat2("/var/lib/speck/volumes/", name)
}

/// Validates an archive path for the container archive endpoints: not blank,
/// no `..`, no NUL character.
pub fn validate_archive_path(path: &str) -> (r: Result<(), DockerApiError>)
    ensures
        (text::trim(path@).len() == 0 || text::contains_seq(path@, ".."@) || path@.contains(
            '\0',
        )) ==> (r matches Err(e) && is_bad_request(e, "archive path is invalid"@)),
        !(text::trim(path@).len() == 0 || text::contains_seq(path@, ".."@) || path@.contains(
            '\0',
        )) ==> r is Ok,
{
    let cs = text::chars_of(path);
    let mut has_nul = false;
    let mut i: usize = 0;
    while i < cs.len()
        invariant
            i <= cs@.len(),
            cs@ == path@,
            has_nul == exists|j: int| 0 <= j < i && cs@[j] == '\0',
        decreases cs@.len() - i,
    {
        if cs[i] == '\0' {
            has_nul = true;
        }
        i += 1;
    }
    if text::trimmed_chars(path).len() == 0 || text::str_contains(path, "..") || has_nul {
        return Err(DockerApiError::BadRequest(text::string_of("archive path is invalid")));
    }
    Ok(())
}

/// The body of `POST /volumes/create`.
#[derive(Clone, Debug)]
pub struct VolumeCreateBody {
    pub name: String,
    pub driver: Option<String>,
}

/// Plans `POST /volumes/create`: the name is checked; the volume is mounted
/// under the VM's volume directory, its driver defaults to `local`, and no
/// creation time is recorded.
pub fn plan_volume_create(body: &VolumeCreateBody) -> (r: Result<VolumeSummary, DockerApiError>)
    ensures
        containers::name_problem(body.name@) is Some ==> (r matches Err(e) && e is BadRequest),
        containers::name_problem(body.name@) is None ==> (r matches Ok(v) && v.name@ == body.name@
            && v.mountpoint@ == "/var/lib/speck/volumes/"@ + body.name@ && v.driver@ == match body.driver {
            Some(d) => d@,
            None => "local"@,
        } && v.created_at is None),
{
    match validate_volume_name(body.name.as_str()) {
        Ok(()) => {},
        Err(e) => return Err(e),
    }
    let driver = match &body.driver {
        Some(d) => d.clone(),
        None => text::string_of("local"),
    };
    Ok(
        VolumeSummary {
            name: body.name.clone(),
            driver,
            mountpoint: volume_mountpoint(body.name.as_str()),
            created_at: None,
        },
    )
}

/// The error when a volume is not found.
pub fn volume_not_found(name: &str) -> (r: DockerApiError)
    ensures
        r matches DockerApiError::NotFound(m) && m@ == "volume "@ + name@,
{
    DockerApiError::NotFound(text::concat2("volume ", name))
}

} // verus!
