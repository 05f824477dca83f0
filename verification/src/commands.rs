//! The text and Docker API paths of the small container commands of the
//! CLI: `ps`, `stop`, `rm` and `exec`.
use vstd::prelude::*;
use vstd::string::StringSliceAdditionalSpecFns;
use crate::text;
use crate::theme;

verus! {

/// The line `spk ps` prints when there is no container.
pub fn no_containers_line() -> (r: String)
    ensures
        r@ == theme::NEON_CYAN@ + "No containers"@ + theme::RESET@,
{
    text::concat3(theme::NEON_CYAN, "No containers", theme::RESET)
}

/// The header line of `spk ps`.
pub fn ps_header_line() -> (r: String)
    ensures
        r@ == theme::NEON_VIOLET@ + "CONTAINER ID"@ + theme::RESET@ + "  "@ + theme::NEON_VIOLET@
            + "IMAGE"@ + theme::RESET@ + "  "@ + theme::NEON_VIOLET@ + "STATUS"@ + theme::RESET@
            + "  "@ + theme::NEON_VIOLET@ + "CREATED"@ + theme::RESET@,
{
    let mut r = theme::format_header("CONTAINER ID");
    text::push_str(&mut r, "  ");
    text::push_str(&mut r, theme::format_header("IMAGE").as_str());
    text::push_str(&mut r, "  ");
    text::push_str(&mut r, theme::format_header("STATUS").as_str());
    text::push_str(&mut r, "  ");
    text::push_str(&mut r, theme::format_header("CREATED").as_str());
    r
}

/// The status text `spk ps` shows: coloured as `format_status` does.
pub open spec fn shown_status(status: Seq<char>) -> Seq<char> {
    match theme::status_colour(status) {
        Some(c) => c + status + theme::RESET@,
        None => status,
    }
}

/// One line of `spk ps`: the short id in gray, the image, the coloured
/// status and the creation time, two spaces apart.
pub fn ps_row_line(id: &str, image: &str, status: &str, created: &str) -> (r: String)
    requires
        id.spec_bytes().len() <= usize::MAX,
        id.spec_bytes().len() > 12 ==> vstd::utf8::is_char_boundary(id.spec_bytes(), 12),
    ensures
        r@ == theme::GRAY@ + theme::shown_id(id) + theme::RESET@ + "  "@ + image@ + "  "@
            + shown_status(status@) + "  "@ + created@,
{
    let mut r = theme::format_id(id);
    text::push_str(&mut r, "  ");
    text::push_str(&mut r, image);
    text::push_str(&mut r, "  ");
    text::push_str(&mut r, theme::format_status(status).as_str());
    text::push_str(&mut r, "  ");
    text::push_str(&mut r, created);
    r
}

/// The confirmation `spk stop` prints.
pub fn stopped_line(container: &str) -> (r: String)
    ensures
        r@ == theme::NEON_CYAN@ + "Container "@ + container@ + " stopped"@ + theme::RESET@,
{
    let mut r = text::concat3(theme::NEON_CYAN, "Container ", container);
    text::push_str(&mut r, " stopped");
    text::push_str(&mut r, theme::RESET);
    r
}

/// The confirmation `spk rm` prints.
pub fn removed_line(container: &str) -> (r: String)
    ensures
        r@ == theme::NEON_CYAN@ + "Container "@ + container@ + " removed"@ + theme::RESET@,
{
    let mut r = text::concat3(theme::NEON_CYAN, "Container ", container);
    text::push_str(&mut r, " removed");
    text::push_str(&mut r, theme::RESET);
    r
}

/// The request that creates an exec instance in a container.
pub fn exec_create_path(container: &str) -> (r: String)
    ensures
        r@ == "/containers/"@ + container@ + "/exec"@,
{
    text::concat3("/containers/", container, "/exec")
}

/// The request that starts an exec instance.
pub fn exec_start_path(exec_id: &str) -> (r: String)
    ensures
        r@ == "/exec/"@ + exec_id@ + "/start"@,
{
    text::concat3("/exec/", exec_id, "/start")
}

/// The query parameters of a build request, in order: the tag, the
/// Dockerfile, the target stage, and `nocache=1`, each when given.
pub open spec fn build_params(
    tag: Option<Seq<char>>,
    dockerfile: Option<Seq<char>>,
    target: Option<Seq<char>>,
    no_cache: bool,
) -> Seq<Seq<char>> {
    let a = match tag {
        Some(t) => seq!["t="@ + t],
        None => Seq::empty(),
    };
    let b = match dockerfile {
        Some(d) => a.push("dockerfile="@ + d),
        None => a,
    };
    let c = match target {
        Some(t) => b.push("target="@ + t),
        None => b,
    };
    if no_cache {
        c.push("nocache=1"@)
    } else {
        c
    }
}

/// The request that builds an image: `/build`, with the parameters after a
/// `?` joined by `&` when there are any.
pub fn build_path(
    tag: &Option<String>,
    dockerfile: &Option<String>,
    target: &Option<String>,
    no_cache: bool,
) -> (r: String)
    ensures
        ({
            let ps = build_params(
                match tag {
                    Some(x) => Some(x@),
                    None => None,
                },
                match dockerfile {
                    Some(x) => Some(x@),
                    None => None,
                },
                match target {
                    Some(x) => Some(x@),
                    None => None,
                },
                no_cache,
            );
            if ps.len() == 0 {
                r@ == "/build"@
            } else {
                r@ == "/build?"@ + text::joined_with(ps, "&"@)
            }
        }),
{
    let mut params: Vec<String> = Vec::new();
    if let Some(t) = tag {
        params.push(text::concat2("t=", t.as_str()));
    }
    if let Some(d) = dockerfile {
        params.push(text::concat2("dockerfile=", d.as_str()));
    }
    if let Some(t) = target {
        params.push(text::concat2("target=", t.as_str()));
    }
    if no_cache {
        params.push(text::string_of("nocache=1"));
    }
    let ghost expected = build_params(
        match tag {
            Some(x) => Some(x@),
            None => None,
        },
        match dockerfile {
            Some(x) => Some(x@),
            None => None,
        },
        match target {
            Some(x) => Some(x@),
            None => None,
        },
        no_cache,
    );
    assert(text::views_of(params@) =~= expected);
    if params.len() == 0 {
        text::string_of("/build")
    } else {
        let joined = text::join_strings(&params, "&");
        text::concat2("/build?", joined.as_str())
    }
}

} // verus!
