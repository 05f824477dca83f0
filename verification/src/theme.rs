//! Terminal colours of the command-line interface and the helpers that apply
//! them to container states, table headers and identifiers.
use vstd::prelude::*;
use vstd::string::StringSliceAdditionalSpecFns;
use crate::text;

verus! {

pub const NEON_CYAN: &'static str = "\x1b[38;2;0;255;255m";

pub const NEON_VIOLET: &'static str = "\x1b[38;2;180;0;255m";

pub const RESET: &'static str = "\x1b[0m";

pub const GRAY: &'static str = "\x1b[38;2;128;128;128m";

pub const GREEN: &'static str = "\x1b[38;2;0;255;0m";

pub const YELLOW: &'static str = "\x1b[38;2;255;255;0m";

pub const RED: &'static str = "\x1b[38;2;255;0;0m";

/// The colour of a container status: green when running, yellow when exited
/// or stopped, red when dead, none otherwise.
pub open spec fn status_colour(status: Seq<char>) -> Option<Seq<char>> {
    if status == "running"@ {
        Some(GREEN@)
    } else if status == "exited"@ || status == "stopped"@ {
        Some(YELLOW@)
    } else if status == "dead"@ {
        Some(RED@)
    } else {
        None
    }
}

/// A container status in its colour.
pub fn format_status(status: &str) -> (r: String)
    ensures
        match status_colour(status@) {
            Some(c) => r@ == c + status@ + RESET@,
            None => r@ == status@,
        },
{
    if text::str_eq(status, "running") {
        text::concat3(GREEN, status, RESET)
    } else if text::str_eq(status, "exited") || text::str_eq(status, "stopped") {
        text::concat3(YELLOW, status, RESET)
    } else if text::str_eq(status, "dead") {
        text::concat3(RED, status, RESET)
    } else {
        text::string_of(status)
    }
}

/// A table header in neon violet.
pub fn format_header(s: &str) -> (r: String)
    ensures
        r@ == NEON_VIOLET@ + s@ + RESET@,
{
    text::concat3(NEON_VIOLET, s, RESET)
}

/// The part of an identifier that is shown: its first 12 bytes when it is
/// longer, else all of it.
pub open spec fn shown_id(id: &str) -> Seq<char> {
    if id.spec_bytes().len() > 12 {
        vstd::utf8::decode_utf8(id.spec_bytes().subrange(0, 12))
    } else {
        id@
    }
}

/// The shown part of an identifier: its first 12 bytes when it is longer.
pub fn short_id(id: &str) -> (r: String)
    requires
        id.spec_bytes().len() <= usize::MAX,
        id.spec_bytes().len() > 12 ==> vstd::utf8::is_char_boundary(id.spec_bytes(), 12),
    ensures
        r@ == shown_id(id),
{
    if id.len() > 12 {
        let (head, _) = id.split_at(12);
        proof {
            vstd::utf8::encode_utf8_decode_utf8(head@);
            assert(head.spec_bytes() =~= id.spec_bytes().subrange(0, 12));
            assert(head@ == vstd::utf8::decode_utf8(id.spec_bytes().subrange(0, 12)));
        }
        text::string_of(head)
    } else {
        text::string_of(id)
    }
}

/// An identifier in gray, cut to its first 12 bytes.
pub fn format_id(id: &str) -> (r: String)
    requires
        id.spec_bytes().len() <= usize::MAX,
        id.spec_bytes().len() > 12 ==> vstd::utf8::is_char_boundary(id.spec_bytes(), 12),
    ensures
        r@ == GRAY@ + shown_id(id) + RESET@,
{
    let shown = short_id(id);
    text::concat3(GRAY, shown.as_str(), RESET)
}

} // verus!
