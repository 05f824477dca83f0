//! The build context of an image build: the tar archive the client sends,
//! read entry by entry, its paths checked, and what the build learns from
//! it; and the BuildKit frontend attributes a build request asks for.
use vstd::prelude::*;
use crate::codec;
use crate::keyed::KeyedVec;
use crate::text;

verus! {

/// The largest build context accepted: 256 MiB.
pub const MAX_BUILD_CONTEXT_BYTES: usize = 268435456;

/// Whether `b` ends a tar header field: a NUL, or, where `space_too`
/// holds, also a space.
pub open spec fn ends_field(b: u8, space_too: bool) -> bool {
    b == 0 || (space_too && b == 32)
}

/// The index of the first byte of `bs` that ends a field, or its length.
pub open spec fn field_end(bs: Seq<u8>, space_too: bool) -> int
    decreases bs.len(),
{
    if bs.len() == 0 || ends_field(bs[0], space_too) {
        0
    } else {
        1 + field_end(bs.drop_first(), space_too)
    }
}

fn find_field_end(bs: &[u8], to: usize, space_too: bool) -> (r: usize)
    requires
        to <= bs@.len(),
    ensures
        r <= to,
        r == field_end(bs@.subrange(0, to as int), space_too),
{
    let mut i: usize = 0;
    while i < to && !(bs[i] == 0 || (space_too && bs[i] == 32))
        invariant
            i <= to <= bs@.len(),
            field_end(bs@.subrange(0, to as int), space_too) == i + field_end(
                bs@.subrange(i as int, to as int),
                space_too,
            ),
        decreases to - i,
    {
        assert(bs@.subrange(i as int, to as int)[0] == bs@[i as int]);
        assert(bs@.subrange(i as int, to as int).drop_first() =~= bs@.subrange(i + 1, to as int));
        i += 1;
    }
    if i < to {
        assert(bs@.subrange(i as int, to as int)[0] == bs@[i as int]);
    }
    i
}

/// The path of a tar header: its first 100 bytes up to the first NUL, as
/// UTF-8.
pub open spec fn tar_path(header: Seq<u8>) -> Result<Seq<char>, Seq<char>> {
    let raw = header.subrange(0, field_end(header.subrange(0, 100), false));
    if vstd::utf8::valid_utf8(raw) {
        Ok(vstd::utf8::decode_utf8(raw))
    } else {
        Err("build context tar path is not UTF-8"@)
    }
}

/// Reads the path of a tar header.
pub fn parse_tar_path(header: &[u8]) -> (r: Result<String, String>)
    requires
        header@.len() >= 100,
    ensures
        match tar_path(header@) {
            Ok(p) => r matches Ok(s) && s@ == p,
            Err(m) => r matches Err(e) && e@ == m,
        },
{
    let end = find_field_end(header, 100, false);
    let raw = vstd::slice::slice_subrange(header, 0, end);
    match text::utf8_text(raw) {
        Some(s) => Ok(s),
        None => Err(text::string_of("build context tar path is not UTF-8")),
    }
}

/// The value of an octal digit.
pub open spec fn octal_digit(c: char) -> int {
    (c as int) - ('0' as int)
}

/// Whether every character of `s` is an octal digit.
pub open spec fn all_octal(s: Seq<char>) -> bool {
    forall|i: int| 0 <= i < s.len() ==> '0' <= #[trigger] s[i] <= '7'
}

/// The number that a sequence of octal digits spells.
pub open spec fn octal_value(s: Seq<char>) -> int
    decreases s.len(),
{
    if s.len() == 0 {
        0
    } else {
        octal_value(s.drop_last()) * 8 + octal_digit(s.last())
    }
}

/// What `usize::from_str_radix(s, 8)` gives: an optional `+`, then at least
/// one octal digit, whose value fits in a `usize`.
pub open spec fn octal_parse(s: Seq<char>) -> Option<int> {
    let d = if s.len() > 0 && s[0] == '+' {
        s.drop_first()
    } else {
        s
    };
    if d.len() > 0 && all_octal(d) && octal_value(d) <= usize::MAX {
        Some(octal_value(d))
    } else {
        None
    }
}

/// Octal digits stay octal digits without their last one.
pub proof fn lemma_all_octal_drop_last(s: Seq<char>)
    requires
        all_octal(s),
        s.len() > 0,
    ensures
        all_octal(s.drop_last()),
{
    assert forall|k: int| 0 <= k < s.drop_last().len() implies '0' <= #[trigger] s.drop_last()[k]
        <= '7' by {
        assert(s.drop_last()[k] == s[k]);
    }
}

/// A prefix of octal digits spells a number no larger than the whole.
pub proof fn lemma_octal_prefix(s: Seq<char>, i: int)
    requires
        all_octal(s),
        0 <= i <= s.len(),
    ensures
        0 <= octal_value(s.subrange(0, i)) <= octal_value(s),
    decreases s.len(),
{
    if s.len() == 0 {
        assert(s.subrange(0, i) =~= s);
    } else {
        lemma_all_octal_drop_last(s);
        assert('0' <= s[s.len() - 1] <= '7');
        if i == s.len() {
            assert(s.subrange(0, i) =~= s);
            lemma_octal_prefix(s.drop_last(), 0);
        } else {
            lemma_octal_prefix(s.drop_last(), i);
            assert(s.drop_last().subrange(0, i) =~= s.subrange(0, i));
        }
    }
}

fn parse_octal(s: &[char]) -> (r: Option<usize>)
    ensures
        match octal_parse(s@) {
            Some(v) => r matches Some(x) && x == v,
            None => r is None,
        },
{
    let n = s.len();
    let start: usize = if n > 0 && s[0] == '+' {
        1
    } else {
        0
    };
    let ghost d = if s@.len() > 0 && s@[0] == '+' {
        s@.drop_first()
    } else {
        s@
    };
    assert(d =~= s@.subrange(start as int, n as int));
    if start == n {
        return None;
    }
    let mut v: u64 = 0;
    let mut i = start;
    while i < n
        invariant
            start <= i <= n == s@.len(),
            d == s@.subrange(start as int, n as int),
            d == (if s@.len() > 0 && s@[0] == '+' {
                s@.drop_first()
            } else {
                s@
            }),
            all_octal(s@.subrange(start as int, i as int)),
            v == octal_value(s@.subrange(start as int, i as int)),
        decreases n - i,
    {
        let c = s[i];
        if !('0' <= c && c <= '7') {
            assert(d[i - start] == c);
            return None;
        }
        let digit = (c as u32 - '0' as u32) as u64;
        let ghost prefix = s@.subrange(start as int, i + 1);
        assert(prefix.drop_last() =~= s@.subrange(start as int, i as int));
        assert(all_octal(prefix)) by {
            assert forall|k: int| 0 <= k < prefix.len() implies '0' <= #[trigger] prefix[k] <= '7' by {
                if k < prefix.len() - 1 {
                    assert(prefix[k] == s@.subrange(start as int, i as int)[k]);
                }
            }
        }
        if v > (u64::MAX - 7) / 8 {
            proof {
                let rest_ok = all_octal(d);
                if rest_ok {
                    lemma_octal_prefix(d, i + 1 - start);
                    assert(d.subrange(0, i + 1 - start) =~= prefix);
                }
            }
            return None;
        }
        v = v * 8 + digit;
        i += 1;
    }
    assert(s@.subrange(start as int, i as int) =~= d);
    if v > usize::MAX as u64 {
        return None;
    }
    Some(v as usize)
}

/// The entry size of a tar header: the octal number in bytes 124..136, up
/// to the first NUL or space, trimmed.
pub open spec fn tar_size(header: Seq<u8>) -> Result<int, Seq<char>> {
    let raw = header.subrange(124, 136);
    let field = raw.subrange(0, field_end(raw, true));
    if !vstd::utf8::valid_utf8(field) {
        Err("invalid tar size"@)
    } else {
        match octal_parse(text::trim(vstd::utf8::decode_utf8(field))) {
            Some(v) => Ok(v),
            None => Err("invalid tar size"@),
        }
    }
}

/// Reads the entry size of a tar header.
pub fn parse_tar_size(header: &[u8]) -> (r: Result<usize, String>)
    requires
        header@.len() >= 136,
    ensures
        match tar_size(header@) {
            Ok(v) => r matches Ok(n) && n == v,
            Err(m) => r matches Err(e) && e@ == m,
        },
{
    let raw = vstd::slice::slice_subrange(header, 124, 136);
    let end = find_field_end(raw, 12, true);
    assert(raw@.subrange(0, 12) =~= raw@);
    let field = vstd::slice::slice_subrange(raw, 0, end);
    match text::utf8_text(field) {
        Some(s) => {
            let t = text::trimmed_chars(s.as_str());
            match parse_octal(t.as_slice()) {
                Some(v) => Ok(v),
                None => Err(text::string_of("invalid tar size")),
            }
        },
        None => Err(text::string_of("invalid tar size")),
    }
}

/// Whether an archive path is safe to unpack: relative, and without a `..`
/// component.
pub open spec fn path_safe(p: Seq<char>) -> bool {
    !(p.len() > 0 && p[0] == '/') && !text::split_on(p, '/').contains(".."@)
}

/// Checks that an archive path is safe to unpack.
pub fn validate_tar_path(path: &str) -> (r: Result<(), String>)
    ensures
        path_safe(path@) ==> r is Ok,
        !path_safe(path@) ==> (r matches Err(m) && m@ == "build context tar contains unsafe path"@),
{
    let cs = text::chars_of(path);
    let absolute = cs.len() > 0 && cs[0] == '/';
    let parts = text::split_chars(path, '/');
    let parent = text::strings_contain(&parts, "..");
    proof {
        let v = text::views_of(parts@);
        if parent {
            let k = choose|k: int| 0 <= k < parts@.len() && (#[trigger] parts@[k])@ == ".."@;
            assert(v[k] == ".."@);
        }
        if v.contains(".."@) {
            let k = choose|k: int| 0 <= k < v.len() && v[k] == ".."@;
            assert(parts@[k]@ == ".."@);
        }
    }
    if absolute || parent {
        Err(text::string_of("build context tar contains unsafe path"))
    } else {
        Ok(())
    }
}

/// Whether every byte of `bs` is zero.
pub open spec fn all_zero(bs: Seq<u8>) -> bool {
    forall|i: int| 0 <= i < bs.len() ==> bs[i] == 0
}

fn is_all_zero(bs: &[u8]) -> (r: bool)
    ensures
        r == all_zero(bs@),
{
    let mut i: usize = 0;
    while i < bs.len()
        invariant
            i <= bs@.len(),
            forall|j: int| 0 <= j < i ==> bs@[j] == 0,
        decreases bs@.len() - i,
    {
        if bs[i] != 0 {
            return false;
        }
        i += 1;
    }
    true
}

/// The size of an entry's data rounded up to whole 512-byte blocks.
pub open spec fn padded_size(size: int) -> int {
    if size % 512 == 0 {
        size
    } else {
        size - size % 512 + 512
    }
}

/// How many bytes of an archive of `len` bytes lie at or after `offset`.
pub open spec fn bytes_left(len: int, offset: int) -> nat {
    if offset <= len {
        (len - offset) as nat
    } else {
        0
    }
}

/// An entry size read from a header is never negative.
pub proof fn lemma_tar_size_nonneg(header: Seq<u8>)
    ensures
        tar_size(header) matches Ok(v) ==> v >= 0,
{
    let raw = header.subrange(124, 136);
    let field = raw.subrange(0, field_end(raw, true));
    let t = text::trim(vstd::utf8::decode_utf8(field));
    let d = if t.len() > 0 && t[0] == '+' {
        t.drop_first()
    } else {
        t
    };
    if all_octal(d) {
        lemma_octal_prefix(d, 0);
    }
}

/// The entries of a tar archive from the header at `offset` on, each as its
/// path and its data, as the build reads them: reading stops at the end of
/// the archive or at an all-zero header; a path that is not UTF-8 or not
/// safe, a size that does not parse, or an entry that overflows or runs past
/// the archive is an error.
pub open spec fn entries_from(bytes: Seq<u8>, offset: int) -> Result<
    Seq<(Seq<char>, Seq<u8>)>,
    Seq<char>,
>
    decreases bytes_left(bytes.len() as int, offset),
{
    if offset + 512 > bytes.len() {
        Ok(Seq::empty())
    } else {
        let header = bytes.subrange(offset, offset + 512);
        if all_zero(header) {
            Ok(Seq::empty())
        } else {
            match tar_path(header) {
                Err(e) => Err(e),
                Ok(path) => if !path_safe(path) {
                    Err("build context tar contains unsafe path"@)
                } else {
                    match tar_size(header) {
                        Err(e) => Err(e),
                        Ok(size) => {
                            let data_start = offset + 512;
                            let data_end = data_start + size;
                            if data_end > usize::MAX {
                                Err("build context tar entry size overflow"@)
                            } else if data_end > bytes.len() {
                                Err("build context tar entry extends past archive"@)
                            } else {
                                let next = data_start + padded_size(size);
                                if next > usize::MAX {
                                    Err("build context tar offset overflow"@)
                                } else {
                                    proof {
                                        lemma_tar_size_nonneg(header);
                                    }
                                    match entries_from(bytes, next) {
                                        Ok(rest) => Ok(
                                            seq![(path, bytes.subrange(data_start, data_end))]
                                                + rest,
                                        ),
                                        Err(e) => Err(e),
                                    }
                                }
                            }
                        },
                    }
                },
            }
        }
    }
}

/// Every entry of an archive that reading accepts has a safe path: no
/// accepted entry is absolute or climbs out with `..`.
pub proof fn lemma_accepted_paths_are_safe(bytes: Seq<u8>, offset: int)
    ensures
        entries_from(bytes, offset) matches Ok(es) ==> forall|i: int|
            0 <= i < es.len() ==> path_safe(#[trigger] es[i].0),
    decreases bytes_left(bytes.len() as int, offset),
{
    if offset + 512 <= bytes.len() {
        let header = bytes.subrange(offset, offset + 512);
        lemma_tar_size_nonneg(header);
        if let Ok(size) = tar_size(header) {
            let next = offset + 512 + padded_size(size);
            lemma_accepted_paths_are_safe(bytes, next);
            if let Ok(es) = entries_from(bytes, offset) {
                let rest = entries_from(bytes, next)->Ok_0;
                assert forall|i: int| 0 <= i < es.len() implies path_safe(#[trigger] es[i].0) by {
                    if i > 0 {
                        assert(es[i] == rest[i - 1]);
                    }
                }
            }
        }
    }
}

/// `n` zero bytes.
pub open spec fn zero_bytes(n: nat) -> Seq<u8> {
    Seq::new(n, |i: int| 0u8)
}

/// The zero bytes that pad `n` bytes of data to whole 512-byte blocks.
pub open spec fn block_padding(n: nat) -> nat {
    ((512 - n % 512) % 512) as nat
}

/// An archive laid out the tar way: each header, then its entry's data
/// padded with zeros to whole 512-byte blocks, then two zero blocks.
pub open spec fn tar_layout(headers: Seq<Seq<u8>>, data: Seq<Seq<u8>>) -> Seq<u8>
    decreases headers.len(),
{
    if headers.len() == 0 {
        zero_bytes(1024)
    } else {
        headers[0] + data[0] + zero_bytes(block_padding(data[0].len())) + tar_layout(
            headers.drop_first(),
            data.drop_first(),
        )
    }
}

/// Paths paired with data, in order.
pub open spec fn paired(paths: Seq<Seq<char>>, data: Seq<Seq<u8>>) -> Seq<(Seq<char>, Seq<u8>)> {
    Seq::new(paths.len(), |i: int| (paths[i], data[i]))
}

proof fn lemma_tar_layout_len(headers: Seq<Seq<u8>>, data: Seq<Seq<u8>>)
    requires
        headers.len() == data.len(),
        forall|i: int| 0 <= i < headers.len() ==> (#[trigger] headers[i]).len() == 512,
    ensures
        tar_layout(headers, data).len() >= 1024,
    decreases headers.len(),
{
    if headers.len() > 0 {
        assert forall|i: int| 0 <= i < headers.drop_first().len() implies (#[trigger] headers.drop_first()[i]).len() == 512 by {
            assert(headers.drop_first()[i] == headers[i + 1]);
        }
        lemma_tar_layout_len(headers.drop_first(), data.drop_first());
    }
}

proof fn lemma_sub_of_sub(bytes: Seq<u8>, off: int, whole: Seq<u8>, a: int, b: int)
    requires
        0 <= off <= bytes.len(),
        bytes.subrange(off, bytes.len() as int) == whole,
        0 <= a <= b <= whole.len(),
    ensures
        bytes.subrange(off + a, off + b) == whole.subrange(a, b),
{
    assert forall|k: int| 0 <= k < b - a implies bytes.subrange(off + a, off + b)[k] == whole.subrange(
        a,
        b,
    )[k] by {
        assert(whole[a + k] == bytes.subrange(off, bytes.len() as int)[a + k]);
    }
    assert(bytes.subrange(off + a, off + b) =~= whole.subrange(a, b));
}

proof fn lemma_layout_read_from(
    bytes: Seq<u8>,
    off: int,
    headers: Seq<Seq<u8>>,
    paths: Seq<Seq<char>>,
    data: Seq<Seq<u8>>,
)
    requires
        headers.len() == paths.len() == data.len(),
        forall|i: int| 0 <= i < headers.len() ==> (#[trigger] headers[i]).len() == 512,
        forall|i: int| 0 <= i < headers.len() ==> !all_zero(#[trigger] headers[i]),
        forall|i: int| 0 <= i < headers.len() ==> tar_path(#[trigger] headers[i]) == Ok::<Seq<char>, Seq<char>>(paths[i]),
        forall|i: int| 0 <= i < headers.len() ==> path_safe(#[trigger] paths[i]),
        forall|i: int| 0 <= i < headers.len() ==> tar_size(#[trigger] headers[i]) == Ok::<int, Seq<char>>(data[i].len() as int),
        0 <= off <= bytes.len(),
        bytes.len() <= usize::MAX,
        bytes.subrange(off, bytes.len() as int) == tar_layout(headers, data),
    ensures
        entries_from(bytes, off) == Ok::<Seq<(Seq<char>, Seq<u8>)>, Seq<char>>(paired(paths, data)),
    decreases headers.len(),
{
    let whole = tar_layout(headers, data);
    lemma_tar_layout_len(headers, data);
    if headers.len() == 0 {
        lemma_sub_of_sub(bytes, off, whole, 0, 512);
        assert(all_zero(bytes.subrange(off, off + 512)));
        assert(paired(paths, data) =~= Seq::<(Seq<char>, Seq<u8>)>::empty());
    } else {
        let h = headers[0];
        let d = data[0];
        let size = d.len() as int;
        let pad = block_padding(d.len());
        let rest = tar_layout(headers.drop_first(), data.drop_first());
        assert(whole == h + d + zero_bytes(pad) + rest);
        lemma_tar_layout_len(headers.drop_first(), data.drop_first());
        assert forall|i: int| 0 <= i < headers.drop_first().len() implies (#[trigger] headers.drop_first()[i]).len() == 512 by {
            assert(headers.drop_first()[i] == headers[i + 1]);
        }
        let head_len = 512 + size + pad;
        lemma_sub_of_sub(bytes, off, whole, 0, 512);
        assert(whole.subrange(0, 512) =~= h);
        lemma_sub_of_sub(bytes, off, whole, 512, 512 + size);
        assert(whole.subrange(512, 512 + size) =~= d);
        assert(padded_size(size) == size + pad);
        let next = off + head_len;
        assert(bytes.subrange(next, bytes.len() as int) =~= rest) by {
            lemma_sub_of_sub(bytes, off, whole, head_len, whole.len() as int);
            assert(whole.subrange(head_len, whole.len() as int) =~= rest);
        }
        let hs = headers.drop_first();
        let ps = paths.drop_first();
        let ds = data.drop_first();
        assert forall|i: int| 0 <= i < hs.len() implies !all_zero(#[trigger] hs[i]) by {
            assert(hs[i] == headers[i + 1]);
        }
        assert forall|i: int| 0 <= i < hs.len() implies tar_path(#[trigger] hs[i]) == Ok::<Seq<char>, Seq<char>>(ps[i]) by {
            assert(hs[i] == headers[i + 1]);
            assert(ps[i] == paths[i + 1]);
        }
        assert forall|i: int| 0 <= i < hs.len() implies path_safe(#[trigger] ps[i]) by {
            assert(ps[i] == paths[i + 1]);
        }
        assert forall|i: int| 0 <= i < hs.len() implies tar_size(#[trigger] hs[i]) == Ok::<int, Seq<char>>(ds[i].len() as int) by {
            assert(hs[i] == headers[i + 1]);
            assert(ds[i] == data[i + 1]);
        }
        lemma_layout_read_from(bytes, next, hs, ps, ds);
        assert(tar_path(h) == Ok::<Seq<char>, Seq<char>>(paths[0]));
        assert(path_safe(paths[0]));
        assert(tar_size(h) == Ok::<int, Seq<char>>(size));
        assert(!all_zero(h));
        assert(seq![(paths[0], d)] + paired(ps, ds) =~= paired(paths, data)) by {
            assert forall|i: int| 0 <= i < paths.len() implies (seq![(paths[0], d)] + paired(ps, ds))[i] == paired(paths, data)[i] by {
                if i > 0 {
                    assert(ps[i - 1] == paths[i]);
                    assert(ds[i - 1] == data[i]);
                }
            }
        }
    }
}

/// Reading gives back what the tar layout holds: for any entries with safe
/// paths and data of any size (empty and whole multiples of 512 bytes
/// included), the archive that lays each header, its data and the zeros
/// that pad the data to whole 512-byte blocks one after another, and ends
/// in two zero blocks, reads as exactly those entries, in order.
pub proof fn lemma_tar_layout_round_trip(
    headers: Seq<Seq<u8>>,
    paths: Seq<Seq<char>>,
    data: Seq<Seq<u8>>,
)
    requires
        headers.len() == paths.len() == data.len(),
        forall|i: int| 0 <= i < headers.len() ==> (#[trigger] headers[i]).len() == 512,
        forall|i: int| 0 <= i < headers.len() ==> !all_zero(#[trigger] headers[i]),
        forall|i: int| 0 <= i < headers.len() ==> tar_path(#[trigger] headers[i]) == Ok::<Seq<char>, Seq<char>>(paths[i]),
        forall|i: int| 0 <= i < headers.len() ==> path_safe(#[trigger] paths[i]),
        forall|i: int| 0 <= i < headers.len() ==> tar_size(#[trigger] headers[i]) == Ok::<int, Seq<char>>(data[i].len() as int),
        tar_layout(headers, data).len() <= usize::MAX,
    ensures
        entries_from(tar_layout(headers, data), 0) == Ok::<Seq<(Seq<char>, Seq<u8>)>, Seq<char>>(
            paired(paths, data),
        ),
{
    let bytes = tar_layout(headers, data);
    assert(bytes.subrange(0, bytes.len() as int) =~= bytes);
    lemma_layout_read_from(bytes, 0, headers, paths, data);
}

/// An entry of a build context archive.
pub struct TarEntry {
    pub path: String,
    pub data: Vec<u8>,
}

/// The entries as paths and data.
pub open spec fn entry_views(es: Seq<TarEntry>) -> Seq<(Seq<char>, Seq<u8>)> {
    es.map_values(|e: TarEntry| (e.path@, e.data@))
}

/// `pre` put before the entries of `r`, or the error of `r`.
pub open spec fn after_entries(
    pre: Seq<(Seq<char>, Seq<u8>)>,
    r: Result<Seq<(Seq<char>, Seq<u8>)>, Seq<char>>,
) -> Result<Seq<(Seq<char>, Seq<u8>)>, Seq<char>> {
    match r {
        Ok(rest) => Ok(pre + rest),
        Err(e) => Err(e),
    }
}

/// Reads the entries of a tar archive.
pub fn summarize_tar_entries(bytes: &[u8]) -> (r: Result<Vec<TarEntry>, String>)
    ensures
        match entries_from(bytes@, 0) {
            Ok(es) => r matches Ok(v) && entry_views(v@) == es,
            Err(m) => r matches Err(e) && e@ == m,
        },
{
    let mut entries: Vec<TarEntry> = Vec::new();
    let mut offset: usize = 0;
    assert(entry_views(entries@) + Seq::<(Seq<char>, Seq<u8>)>::empty() =~= entry_views(entries@));
    loop
        invariant
            entries_from(bytes@, 0) == after_entries(
                entry_views(entries@),
                entries_from(bytes@, offset as int),
            ),
        ensures
            entries_from(bytes@, 0) == Ok::<Seq<(Seq<char>, Seq<u8>)>, Seq<char>>(
                entry_views(entries@),
            ),
        decreases bytes_left(bytes@.len() as int, offset as int),
    {
        if offset > bytes.len() || bytes.len() - offset < 512 {
            assert(entry_views(entries@) + Seq::<(Seq<char>, Seq<u8>)>::empty() =~= entry_views(
                entries@,
            ));
            break;
        }
        let header = vstd::slice::slice_subrange(bytes, offset, offset + 512);
        if is_all_zero(header) {
            assert(entry_views(entries@) + Seq::<(Seq<char>, Seq<u8>)>::empty() =~= entry_views(
                entries@,
            ));
            break;
        }
        let path = match parse_tar_path(header) {
            Ok(p) => p,
            Err(e) => {
                return Err(e);
            },
        };
        match validate_tar_path(path.as_str()) {
            Ok(()) => {},
            Err(e) => {
                return Err(e);
            },
        }
        let size = match parse_tar_size(header) {
            Ok(n) => n,
            Err(e) => {
                return Err(e);
            },
        };
        let data_start = offset + 512;
        let data_end = match data_start.checked_add(size) {
            Some(n) => n,
            None => {
                return Err(text::string_of("build context tar entry size overflow"));
            },
        };
        if data_end > bytes.len() {
            return Err(text::string_of("build context tar entry extends past archive"));
        }
        let data = vstd::slice::slice_to_vec(
            vstd::slice::slice_subrange(bytes, data_start, data_end),
        );
        let padded = if size % 512 == 0 {
            size
        } else {
            size - size % 512 + 512
        };
        let next = match data_start.checked_add(padded) {
            Some(n) => n,
            None => {
                return Err(text::string_of("build context tar offset overflow"));
            },
        };
        let ghost before = entry_views(entries@);
        let ghost item = (path@, data@);
        entries.push(TarEntry { path, data });
        assert(entry_views(entries@) =~= before.push(item));
        assert(before + (seq![item] + Seq::<(Seq<char>, Seq<u8>)>::empty()) =~= before.push(item));
        proof {
            let rest = entries_from(bytes@, next as int);
            if rest is Ok {
                assert(before + (seq![item] + rest->Ok_0) =~= before.push(item) + rest->Ok_0);
            }
        }
        offset = next;
    }
    Ok(entries)
}

/// Whether a Dockerfile line copies from the context: after its leading
/// white space it begins with `COPY ` or `ADD `.
pub open spec fn is_copy_or_add(line: Seq<char>) -> bool {
    text::starts_with(text::trim_start(line), "COPY "@) || text::starts_with(
        text::trim_start(line),
        "ADD "@,
    )
}

/// Whether a Dockerfile's bytes are UTF-8 text with a line that copies from
/// the context.
pub open spec fn copies_from_context(data: Seq<u8>) -> bool {
    let lines = text::lines_of(vstd::utf8::decode_utf8(data));
    vstd::utf8::valid_utf8(data) && exists|k: int| 0 <= k < lines.len() && is_copy_or_add(
        #[trigger] lines[k],
    )
}

/// Whether the first entry at `path` copies from the context.
pub open spec fn has_copy_or_add(es: Seq<(Seq<char>, Seq<u8>)>, path: Seq<char>) -> bool {
    exists|i: int|
        0 <= i < es.len() && (#[trigger] es[i]).0 == path && (forall|j: int|
            0 <= j < i ==> (#[trigger] es[j]).0 != path) && copies_from_context(es[i].1)
}

/// Whether a line copies from the context.
pub fn line_copies(line: &str) -> (r: bool)
    ensures
        r == is_copy_or_add(line@),
{
    let cs = text::chars_of(line);
    let a = text::trim_start_index(cs.as_slice());
    let ghost t = cs@.subrange(a as int, cs@.len() as int);
    let copy = text::chars_of("COPY ");
    let add = text::chars_of("ADD ");
    let r = text::matches_at(cs.as_slice(), copy.as_slice(), a) || text::matches_at(
        cs.as_slice(),
        add.as_slice(),
        a,
    );
    assert(text::occurs_at(cs@, copy@, a as int) == text::starts_with(t, copy@)) by {
        if a + copy@.len() <= cs@.len() {
            assert(t.subrange(0, copy@.len() as int) =~= cs@.subrange(
                a as int,
                a + copy@.len(),
            ));
        }
    }
    assert(text::occurs_at(cs@, add@, a as int) == text::starts_with(t, add@)) by {
        if a + add@.len() <= cs@.len() {
            assert(t.subrange(0, add@.len() as int) =~= cs@.subrange(a as int, a + add@.len()));
        }
    }
    r
}

/// Whether Dockerfile bytes copy from the context.
pub fn dockerfile_copies(data: &[u8]) -> (r: bool)
    ensures
        r == copies_from_context(data@),
{
    let text = match text::utf8_text(data) {
        Some(t) => t,
        None => {
            return false;
        },
    };
    let lines = text::line_strings(text.as_str());
    let ghost lv = text::views_of(lines@);
    let mut i: usize = 0;
    while i < lines.len()
        invariant
            i <= lines@.len(),
            lv == text::views_of(lines@),
            lv == text::lines_of(text@),
            vstd::utf8::valid_utf8(data@),
            text@ == vstd::utf8::decode_utf8(data@),
            forall|k: int| 0 <= k < i ==> !is_copy_or_add(#[trigger] lv[k]),
        decreases lines@.len() - i,
    {
        if line_copies(lines[i].as_str()) {
            assert(is_copy_or_add(text::lines_of(vstd::utf8::decode_utf8(data@))[i as int]));
            return true;
        }
        i += 1;
    }
    false
}

/// A build context that was read and checked, and where its archive was
/// staged for BuildKit.
pub struct BuildContext {
    staged_tar_path: String,
    entries: Vec<TarEntry>,
}

impl BuildContext {
    /// The entries of the archive, as paths and data.
    pub closed spec fn entry_list(&self) -> Seq<(Seq<char>, Seq<u8>)> {
        entry_views(self.entries@)
    }

    /// Where the archive was staged.
    pub closed spec fn staged_path(&self) -> Seq<char> {
        self.staged_tar_path@
    }

    /// Reads and checks a build context archive: one larger than
    /// `MAX_BUILD_CONTEXT_BYTES` is refused before it is read. The context
    /// is not staged yet.
    pub fn from_bytes(bytes: &[u8]) -> (r: Result<BuildContext, String>)
        ensures
            bytes@.len() > MAX_BUILD_CONTEXT_BYTES ==> (r matches Err(e) && e@
                == "build context exceeds 268435456 byte limit"@),
            bytes@.len() <= MAX_BUILD_CONTEXT_BYTES ==> match entries_from(bytes@, 0) {
                Ok(es) => r matches Ok(c) && c.entry_list() == es && c.staged_path() == Seq::<
                    char,
                >::empty(),
                Err(m) => r matches Err(e) && e@ == m,
            },
    {
        if bytes.len() > MAX_BUILD_CONTEXT_BYTES {
            let mut m = text::string_of("build context exceeds ");
            text::push_decimal(&mut m, MAX_BUILD_CONTEXT_BYTES as u64);
            text::push_str(&mut m, " byte limit");
            proof {
                reveal_strlit("build context exceeds ");
                reveal_strlit(" byte limit");
                reveal_strlit("build context exceeds 268435456 byte limit");
                reveal_with_fuel(text::decimal_text, 10);
            }
            assert(m@ =~= "build context exceeds 268435456 byte limit"@);
            return Err(m);
        }
        match summarize_tar_entries(bytes) {
            Ok(entries) => Ok(BuildContext { staged_tar_path: String::new(), entries }),
            Err(e) => Err(e),
        }
    }

    /// The context, staged at `path`.
    pub fn staged_at(self, path: String) -> (r: BuildContext)
        ensures
            r.entry_list() == self.entry_list(),
            r.staged_path() == path@,
    {
        BuildContext { staged_tar_path: path, entries: self.entries }
    }

    /// Where the archive was staged.
    pub fn staged_tar_path(&self) -> (r: &str)
        ensures
            r@ == self.staged_path(),
    {
        self.staged_tar_path.as_str()
    }

    /// Whether the first entry at `dockerfile_path` is a Dockerfile that
    /// copies from the context.
    pub fn has_copy_or_add_source(&self, dockerfile_path: &str) -> (r: bool)
        ensures
            r == has_copy_or_add(self.entry_list(), dockerfile_path@),
    {
        let ghost es = self.entry_list();
        let mut i: usize = 0;
        while i < self.entries.len()
            invariant
                i <= self.entries@.len(),
                es == entry_views(self.entries@),
                forall|j: int| 0 <= j < i ==> (#[trigger] es[j]).0 != dockerfile_path@,
            decreases self.entries@.len() - i,
        {
            if text::str_eq(self.entries[i].path.as_str(), dockerfile_path) {
                let r = dockerfile_copies(self.entries[i].data.as_slice());
                proof {
                    assert(es[i as int].0 == dockerfile_path@);
                    if !r {
                        assert forall|k: int|
                            0 <= k < es.len() && (#[trigger] es[k]).0 == dockerfile_path@ && (
                            forall|j: int| 0 <= j < k ==> (#[trigger] es[j]).0 != dockerfile_path@)
                            implies !copies_from_context(es[k].1) by {
                            if k > i {
                                assert(es[i as int].0 == dockerfile_path@);
                            }
                        }
                    }
                }
                return r;
            }
            i += 1;
        }
        false
    }
}

/// The query parameters of an image build request.
pub struct BuildQuery {
    pub dockerfile: Option<String>,
    pub t: Option<String>,
    pub remote: Option<String>,
    pub q: Option<bool>,
    pub nocache: Option<bool>,
    pub cachefrom: Option<String>,
    pub pull: Option<bool>,
    pub rm: Option<bool>,
    pub forcerm: Option<bool>,
    pub labels: Option<String>,
    pub buildargs: Option<String>,
    pub shmsize: Option<i64>,
    pub ulimits: Option<String>,
    pub networkmode: Option<String>,
    pub platform: Option<String>,
    pub target: Option<String>,
    pub outputs: Option<String>,
}

impl Default for BuildQuery {
    fn default() -> (r: BuildQuery)
        ensures
            r.dockerfile is None && r.t is None && r.remote is None && r.q is None,
            r.nocache is None && r.cachefrom is None && r.pull is None && r.rm is None,
            r.forcerm is None && r.labels is None && r.buildargs is None && r.shmsize is None,
            r.ulimits is None && r.networkmode is None && r.platform is None,
            r.target is None && r.outputs is None,
    {
        BuildQuery {
            dockerfile: None,
            t: None,
            remote: None,
            q: None,
            nocache: None,
            cachefrom: None,
            pull: None,
            rm: None,
            forcerm: None,
            labels: None,
            buildargs: None,
            shmsize: None,
            ulimits: None,
            networkmode: None,
            platform: None,
            target: None,
            outputs: None,
        }
    }
}

/// `m` with each pair of `ps` put under `prefix` and its key, in order.
pub open spec fn with_prefixed(
    m: Map<Seq<char>, Seq<char>>,
    prefix: Seq<char>,
    ps: Seq<(Seq<char>, Seq<char>)>,
) -> Map<Seq<char>, Seq<char>>
    decreases ps.len(),
{
    if ps.len() == 0 {
        m
    } else {
        with_prefixed(m, prefix, ps.drop_last()).insert(prefix + ps.last().0, ps.last().1)
    }
}

/// `m` with the entries of the JSON object of strings `json`, if any, each
/// under `prefix` and its key; `m` when there is none or it does not parse.
pub open spec fn with_json_entries(
    m: Map<Seq<char>, Seq<char>>,
    prefix: Seq<char>,
    json: Option<String>,
) -> Map<Seq<char>, Seq<char>> {
    match json {
        Some(j) => match codec::json_string_object(j@) {
            Some(ps) => with_prefixed(m, prefix, ps),
            None => m,
        },
        None => m,
    }
}

/// `m` with `v` under `k`, when there is a `v`.
pub open spec fn with_some(m: Map<Seq<char>, Seq<char>>, k: Seq<char>, v: Option<String>) -> Map<
    Seq<char>,
    Seq<char>,
> {
    match v {
        Some(s) => m.insert(k, s@),
        None => m,
    }
}

/// The BuildKit frontend attributes a build query asks for: the Dockerfile
/// name, the target, each build argument and label, the platform, `no-cache`
/// when it is set, and the cache source.
pub open spec fn query_attrs(q: BuildQuery) -> Map<Seq<char>, Seq<char>> {
    let m1 = with_some(Map::empty(), "filename"@, q.dockerfile);
    let m2 = with_some(m1, "target"@, q.target);
    let m3 = with_json_entries(m2, "build-arg:"@, q.buildargs);
    let m4 = with_json_entries(m3, "label:"@, q.labels);
    let m5 = with_some(m4, "platform"@, q.platform);
    let m6 = if q.nocache == Some(true) {
        m5.insert("no-cache"@, Seq::empty())
    } else {
        m5
    };
    with_some(m6, "cache-from"@, q.cachefrom)
}

fn insert_some(attrs: &mut KeyedVec<String>, k: &str, v: &Option<String>)
    requires
        old(attrs).wf(),
    ensures
        final(attrs).wf(),
        final(attrs).text_map() == with_some(old(attrs).text_map(), k@, *v),
{
    match v {
        Some(s) => attrs.insert_text(text::string_of(k), s.clone()),
        None => {},
    }
}

fn insert_json_entries(attrs: &mut KeyedVec<String>, prefix: &str, json: &Option<String>)
    requires
        old(attrs).wf(),
    ensures
        final(attrs).wf(),
        final(attrs).text_map() == with_json_entries(old(attrs).text_map(), prefix@, *json),
{
    let j = match json {
        Some(j) => j,
        None => {
            return;
        },
    };
    let pairs = match codec::json_string_map(j.as_str()) {
        Some(p) => p,
        None => {
            return;
        },
    };
    let ghost m0 = attrs.text_map();
    let ghost ps = codec::pair_views(pairs@);
    let mut i: usize = 0;
    while i < pairs.len()
        invariant
            i <= pairs@.len(),
            ps == codec::pair_views(pairs@),
            attrs.wf(),
            attrs.text_map() == with_prefixed(m0, prefix@, ps.subrange(0, i as int)),
        decreases pairs@.len() - i,
    {
        let key = text::concat2(prefix, pairs[i].0.as_str());
        attrs.insert_text(key, pairs[i].1.clone());
        assert(ps.subrange(0, i + 1).drop_last() =~= ps.subrange(0, i as int));
        i += 1;
    }
    assert(ps.subrange(0, i as int) =~= ps);
}

/// The BuildKit frontend attributes a build query asks for.
pub fn frontend_attrs_from_query(query: &BuildQuery) -> (r: KeyedVec<String>)
    ensures
        r.wf(),
        r.text_map() == query_attrs(*query),
{
    let mut attrs: KeyedVec<String> = KeyedVec::new();
    assert(attrs.text_map() =~= Map::<Seq<char>, Seq<char>>::empty());
    insert_some(&mut attrs, "filename", &query.dockerfile);
    insert_some(&mut attrs, "target", &query.target);
    insert_json_entries(&mut attrs, "build-arg:", &query.buildargs);
    insert_json_entries(&mut attrs, "label:", &query.labels);
    insert_some(&mut attrs, "platform", &query.platform);
    if query.nocache == Some(true) {
        attrs.insert_text(text::string_of("no-cache"), String::new());
    }
    insert_some(&mut attrs, "cache-from", &query.cachefrom);
    attrs
}

/// The tag an image build gives its image: the `t` parameter, or `latest`.
pub fn build_tag(query: &BuildQuery) -> (r: String)
    ensures
        r@ == match query.t {
            Some(t) => t@,
            None => "latest"@,
        },
{
    match &query.t {
        Some(t) => t.clone(),
        None => text::string_of("latest"),
    }
}

/// The BuildKit frontend of a build: the gateway for a remote context, the
/// Dockerfile frontend otherwise.
pub fn build_frontend(query: &BuildQuery) -> (r: String)
    ensures
        r@ == if query.remote is Some {
            "gateway.v0"@
        } else {
            "dockerfile.v0"@
        },
{
    if query.remote.is_some() {
        text::string_of("gateway.v0")
    } else {
        text::string_of("dockerfile.v0")
    }
}

/// The path of the Dockerfile in the context: the `dockerfile` parameter,
/// or `Dockerfile`.
pub open spec fn dockerfile_name(q: BuildQuery) -> Seq<char> {
    match q.dockerfile {
        Some(d) => d@,
        None => "Dockerfile"@,
    }
}

/// The frontend attributes of a build: those the query asks for, the staged
/// context under `context:local`, and `speck.context.has-copy-add` set to
/// `true` when the Dockerfile copies from the context.
pub open spec fn build_attrs(q: BuildQuery, staged: Seq<char>, entries: Seq<(Seq<char>, Seq<u8>)>) -> Map<
    Seq<char>,
    Seq<char>,
> {
    let m = query_attrs(q).insert("context:local"@, staged);
    if has_copy_or_add(entries, dockerfile_name(q)) {
        m.insert("speck.context.has-copy-add"@, "true"@)
    } else {
        m
    }
}

/// The frontend attributes of a build of `context`.
pub fn build_frontend_attrs(query: &BuildQuery, context: &BuildContext) -> (r: KeyedVec<String>)
    ensures
        r.wf(),
        r.text_map() == build_attrs(*query, context.staged_path(), context.entry_list()),
{
    let mut attrs = frontend_attrs_from_query(query);
    attrs.insert_text(text::string_of("context:local"), text::string_of(context.staged_tar_path()));
    let copies = match &query.dockerfile {
        Some(d) => context.has_copy_or_add_source(d.as_str()),
        None => context.has_copy_or_add_source("Dockerfile"),
    };
    if copies {
        attrs.insert_text(text::string_of("speck.context.has-copy-add"), text::string_of("true"));
    }
    attrs
}

/// The BuildKit session of a build: `speck-build-`, the process id, `-`
/// and the build's number.
pub fn build_session_id(pid: u32, n: u64) -> (r: String)
    ensures
        r@ == "speck-build-"@ + text::decimal_text(pid as nat) + "-"@ + text::decimal_text(
            n as nat,
        ),
{
    let mut r = text::string_of("speck-build-");
    text::push_decimal(&mut r, pid as u64);
    text::push_str(&mut r, "-");
    text::push_decimal(&mut r, n);
    r
}

/// The file name under which a build context is staged:
/// `speck-build-context-`, the process id, `-`, the build's number and
/// `.tar`.
pub fn staged_context_file_name(pid: u32, n: u64) -> (r: String)
    ensures
        r@ == "speck-build-context-"@ + text::decimal_text(pid as nat) + "-"@
            + text::decimal_text(n as nat) + ".tar"@,
{
    let mut r = text::string_of("speck-build-context-");
    text::push_decimal(&mut r, pid as u64);
    text::push_str(&mut r, "-");
    text::push_decimal(&mut r, n);
    text::push_str(&mut r, ".tar");
    r
}

/// The stream line of a finished build.
pub fn build_complete_stream(tag: &str) -> (r: String)
    ensures
        r@ == "Build complete for "@ + tag@ + "\n"@,
{
    text::concat3("Build complete for ", tag, "\n")
}

/// The message of a failed build.
pub fn build_failed_message(e: &str) -> (r: String)
    ensures
        r@ == "Build failed: "@ + e@,
{
    text::concat2("Build failed: ", e)
}

/// The message when BuildKit cannot be reached.
pub fn buildkit_unavailable_message(e: &str) -> (r: String)
    ensures
        r@ == "BuildKit unavailable: "@ + e@,
{
    text::concat2("BuildKit unavailable: ", e)
}

} // verus!
