//! Encodings that outside crates compute: JSON string literals and JSON
//! objects of strings (`serde_json`), standard base64 with padding (`base64`), and the `Debug`
//! quoting of text (std). Each result is named, and the verified code around
//! them frames JSON documents and checks sizes.
use vstd::prelude::*;
use base64::Engine;
use crate::text;

verus! {

/// The JSON string literal that `serde_json` writes for `s`: quoted, with
/// `"`, `\` and control characters escaped.
pub uninterp spec fn json_string_literal(s: Seq<char>) -> Seq<char>;

/// The standard base64 text, with `=` padding, of `bytes`.
pub uninterp spec fn base64_standard_encoding(bytes: Seq<u8>) -> Seq<char>;

/// The bytes that standard base64 decoding (with padding) gives for `text`,
/// or `None` when `text` is not such base64.
pub uninterp spec fn base64_standard_decoding(text: Seq<char>) -> Option<Seq<u8>>;

/// The text that `{:?}` prints for a string: quoted, with quotes,
/// backslashes and non-printable characters escaped.
pub uninterp spec fn debug_quoted(s: Seq<char>) -> Seq<char>;

/// `serde_json::to_string` on a `str`: the JSON string literal of `s`.
/// Serialising a string into memory cannot fail (the writer is a `Vec`), so
/// the error arm is never taken.
#[verifier::external_body]
fn serde_json_string(s: &str) -> (r: String)
    ensures
        r@ == json_string_literal(s@),
{
    match serde_json::to_string(s) {
        Ok(q) => q,
        Err(_) => String::new(),
    }
}

/// `base64::engine::general_purpose::STANDARD.encode`: the padded standard
/// base64 text of `bytes`. It panics only when the text's length overflows
/// `usize`, which `requires` rules out.
#[verifier::external_body]
fn base64_encode_raw(bytes: &[u8]) -> (r: String)
    requires
        (bytes@.len() + 2) / 3 * 4 <= usize::MAX,
    ensures
        r@ == base64_standard_encoding(bytes@),
{
    base64::engine::general_purpose::STANDARD.encode(bytes)
}

/// `base64::engine::general_purpose::STANDARD.decode` of the UTF-8 bytes of
/// `text`: the decoded bytes, or `None` on its `DecodeError`.
#[verifier::external_body]
fn base64_decode_raw(text: &str) -> (r: Option<Vec<u8>>)
    ensures
        match base64_standard_decoding(text@) {
            Some(b) => r matches Some(v) && v@ == b,
            None => r is None,
        },
{
    match base64::engine::general_purpose::STANDARD.decode(text) {
        Ok(v) => Some(v),
        Err(_) => None,
    }
}

/// `format!("{:?}", s)` for a `str` (std's `Debug` for `str`).
#[verifier::external_body]
fn debug_str(s: &str) -> (r: String)
    ensures
        r@ == debug_quoted(s@),
{
    format!("{:?}", s)
}

/// The entries of the JSON object `text` whose values are all strings, in
/// ascending key order, each key once; `None` when `text` is not such an
/// object.
pub uninterp spec fn json_string_object(text: Seq<char>) -> Option<Seq<(Seq<char>, Seq<char>)>>;

/// Key and value pairs as character sequences.
pub open spec fn pair_views(v: Seq<(String, String)>) -> Seq<(Seq<char>, Seq<char>)> {
    v.map_values(|p: (String, String)| (p.0@, p.1@))
}

/// `serde_json::from_str` into a `BTreeMap<String, String>`, its entries
/// taken in the map's key order, or `None` on its error.
#[verifier::external_body]
pub(crate) fn json_string_map(text: &str) -> (r: Option<Vec<(String, String)>>)
    ensures
        match json_string_object(text@) {
            Some(ps) => r matches Some(v) && pair_views(v@) == ps,
            None => r is None,
        },
{
    match serde_json::from_str::<std::collections::BTreeMap<String, String>>(text) {
        Ok(m) => Some(m.into_iter().collect()),
        Err(_) => None,
    }
}

/// The JSON string literal of `s`.
pub fn json_string(s: &str) -> (r: String)
    ensures
        r@ == json_string_literal(s@),
{
    serde_json_string(s)
}

/// A JSON array of string literals, `[` and `]` around the literals joined
/// by `,`.
pub open spec fn json_string_array(items: Seq<Seq<char>>) -> Seq<char> {
    "["@ + json_items(items) + "]"@
}

/// The string literals of `items`, joined by `,`.
pub open spec fn json_items(items: Seq<Seq<char>>) -> Seq<char>
    decreases items.len(),
{
    if items.len() == 0 {
        Seq::empty()
    } else if items.len() == 1 {
        json_string_literal(items[0])
    } else {
        json_items(items.drop_last()) + ","@ + json_string_literal(items.last())
    }
}

/// The views of a vector of strings.
pub open spec fn views(v: Seq<String>) -> Seq<Seq<char>> {
    v.map_values(|s: String| s@)
}

/// Writes the strings of `items` as a JSON array, the way `serde_json`
/// writes a sequence of strings without whitespace.
pub fn json_array_of(items: &Vec<String>) -> (r: String)
    ensures
        r@ == json_string_array(views(items@)),
{
    let ghost all = views(items@);
    let mut body = String::new();
    let mut i: usize = 0;
    while i < items.len()
        invariant
            i <= items@.len(),
            all == views(items@),
            body@ == json_items(all.subrange(0, i as int)),
        decreases items@.len() - i,
    {
        assert(all.subrange(0, i + 1).drop_last() =~= all.subrange(0, i as int));
        if i > 0 {
            text::push_str(&mut body, ",");
        }
        let q = json_string(items[i].as_str());
        text::push_str(&mut body, q.as_str());
        proof {
            if i == 0 {
                assert(body@ =~= json_string_literal(all.subrange(0, 1)[0]));
            }
        }
        i += 1;
    }
    assert(all.subrange(0, i as int) =~= all);
    text::concat3("[", body.as_str(), "]")
}

/// Whether padded base64 of `n` bytes has a length that fits in `usize`.
pub open spec fn base64_fits(n: nat) -> bool {
    (n + 2) / 3 * 4 <= usize::MAX
}

/// The padded standard base64 text of `bytes`; `None` when that text would
/// be longer than `usize` can count.
pub fn base64_encode(bytes: &[u8]) -> (r: Option<String>)
    ensures
        base64_fits(bytes@.len()) ==> (r matches Some(t) && t@ == base64_standard_encoding(bytes@)),
        !base64_fits(bytes@.len()) ==> r is None,
{
    let n = bytes.len() as u128;
    if (n + 2) / 3 * 4 > usize::MAX as u128 {
        None
    } else {
        Some(base64_encode_raw(bytes))
    }
}

/// The bytes that the padded standard base64 `text` stands for; `None` when
/// it is not valid base64.
pub fn base64_decode(text: &str) -> (r: Option<Vec<u8>>)
    ensures
        match base64_standard_decoding(text@) {
            Some(b) => r matches Some(v) && v@ == b,
            None => r is None,
        },
{
    base64_decode_raw(text)
}

/// `s` as `{:?}` prints it.
pub fn debug_string(s: &str) -> (r: String)
    ensures
        r@ == debug_quoted(s@),
{
    debug_str(s)
}

} // verus!
