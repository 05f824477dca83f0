//! Where the VM assets are downloaded from, the files they land in, and the
//! check of the root filesystem image against its published checksum.
use vstd::prelude::*;
use crate::text;
use crate::up::{INITRD_VERSION, ROOTFS_VERSION};

verus! {

/// The container engine baked into the root filesystem image.
pub const ROOTFS_BACKEND: &'static str = "moby";

/// The Kata Containers release the kernel and its initrd come from.
pub const KATA_VERSION: &'static str = "3.32.0";

/// The kernel file inside the Kata release.
pub const KATA_KERNEL_FILE: &'static str = "vmlinux-6.18.35-197";

/// The initrd file inside the Kata release.
pub const KATA_INITRD_FILE: &'static str = "kata-alpine-3.22.initrd";

/// Where the root filesystem releases are published.
pub const ROOTFS_RELEASES: &'static str = "https://github.com/wasilak/speck/releases/download/rootfs-";

/// Where the initrd releases are published.
pub const INITRD_RELEASES: &'static str = "https://github.com/wasilak/speck/releases/download/initrd-";

/// Where the Kata releases are published.
pub const KATA_RELEASES: &'static str = "https://github.com/kata-containers/kata-containers/releases/download/";

/// The compressed root filesystem image and its checksum file:
/// `{base}/speck-rootfs-{version}-{backend}-arm64.img.gz` and `….img.sha256`.
pub fn rootfs_urls() -> (r: (String, String))
    ensures
        r.0@ == ROOTFS_RELEASES@ + ROOTFS_VERSION@ + "/speck-rootfs-"@ + ROOTFS_VERSION@ + "-"@
            + ROOTFS_BACKEND@ + "-arm64.img.gz"@,
        r.1@ == ROOTFS_RELEASES@ + ROOTFS_VERSION@ + "/speck-rootfs-"@ + ROOTFS_VERSION@ + "-"@
            + ROOTFS_BACKEND@ + "-arm64.img.sha256"@,
{
    let mut stem = text::concat3(ROOTFS_RELEASES, ROOTFS_VERSION, "/speck-rootfs-");
    text::push_str(&mut stem, ROOTFS_VERSION);
    text::push_str(&mut stem, "-");
    text::push_str(&mut stem, ROOTFS_BACKEND);
    let image = text::concat2(stem.as_str(), "-arm64.img.gz");
    let sum = text::concat2(stem.as_str(), "-arm64.img.sha256");
    (image, sum)
}

/// The custom initrd: `{base}/speck-initrd-{version}-arm64.cpio.gz`.
pub fn initrd_url() -> (r: String)
    ensures
        r@ == INITRD_RELEASES@ + INITRD_VERSION@ + "/speck-initrd-"@ + INITRD_VERSION@
            + "-arm64.cpio.gz"@,
{
    let mut r = text::concat3(INITRD_RELEASES, INITRD_VERSION, "/speck-initrd-");
    text::push_str(&mut r, INITRD_VERSION);
    text::push_str(&mut r, "-arm64.cpio.gz");
    r
}

/// The Kata static release archive: `{base}/{version}/kata-static-{version}-arm64.tar.zst`.
pub fn kata_url() -> (r: String)
    ensures
        r@ == KATA_RELEASES@ + KATA_VERSION@ + "/kata-static-"@ + KATA_VERSION@ + "-arm64.tar.zst"@,
{
    let mut r = text::concat3(KATA_RELEASES, KATA_VERSION, "/kata-static-");
    text::push_str(&mut r, KATA_VERSION);
    text::push_str(&mut r, "-arm64.tar.zst");
    r
}

/// The `curl` flags of a download: a progress bar on a terminal, silence
/// otherwise; failures are errors and redirects are followed either way.
pub fn curl_flags(interactive: bool) -> (r: Vec<String>)
    ensures
        interactive ==> r@.len() == 2 && r@[0]@ == "-fL"@ && r@[1]@ == "--progress-bar"@,
        !interactive ==> r@.len() == 1 && r@[0]@ == "-fsSL"@,
{
    let mut r: Vec<String> = Vec::new();
    if interactive {
        r.push(text::string_of("-fL"));
        r.push(text::string_of("--progress-bar"));
    } else {
        r.push(text::string_of("-fsSL"));
    }
    r
}

/// The scratch directory the Kata archive is unpacked into by process `pid`.
pub fn kata_scratch_dir(pid: u32) -> (r: String)
    ensures
        r@ == "/tmp/speck-kata-assets-"@ + text::decimal_text(pid as nat),
{
    let mut r = text::string_of("/tmp/speck-kata-assets-");
    text::push_decimal(&mut r, pid as u64);
    r
}

/// The text of an asset's version file: the version and a newline.
pub fn version_file_text(version: &str) -> (r: String)
    ensures
        r@ == version@ + "\n"@,
{
    text::concat2(version, "\n")
}

/// The index of the first white-space character of `t`, or its length.
pub open spec fn ws_index(t: Seq<char>) -> int
    decreases t.len(),
{
    if t.len() == 0 || text::is_ws(t[0]) {
        0
    } else {
        1 + ws_index(t.drop_first())
    }
}

/// The first white-space separated word of `s`, as `split_whitespace()`
/// yields it first.
pub open spec fn first_word(s: Seq<char>) -> Option<Seq<char>> {
    let t = text::trim_start(s);
    if t.len() == 0 {
        None
    } else {
        Some(t.subrange(0, ws_index(t)))
    }
}

proof fn lemma_ws_index_bounds(t: Seq<char>)
    ensures
        0 <= ws_index(t) <= t.len(),
    decreases t.len(),
{
    if t.len() > 0 && !text::is_ws(t[0]) {
        lemma_ws_index_bounds(t.drop_first());
    }
}

fn first_word_of(s: &str) -> (r: Option<String>)
    ensures
        match first_word(s@) {
            Some(w) => r matches Some(x) && x@ == w,
            None => r is None,
        },
{
    let cs = text::chars_of(s);
    let n = cs.len();
    let mut a: usize = 0;
    assert(cs@.subrange(0, n as int) =~= cs@);
    while a < n && text::is_ws_char(cs[a])
        invariant
            a <= n == cs@.len(),
            text::trim_start(cs@) == text::trim_start(cs@.subrange(a as int, n as int)),
        decreases n - a,
    {
        assert(cs@.subrange(a as int, n as int).drop_first() =~= cs@.subrange(a + 1, n as int));
        a += 1;
    }
    let ghost t = cs@.subrange(a as int, n as int);
    assert(text::trim_start(cs@) == t) by {
        if a < n {
            assert(t[0] == cs@[a as int]);
        }
    }
    if a == n {
        return None;
    }
    let mut b = a;
    while b < n && !text::is_ws_char(cs[b])
        invariant
            a <= b <= n == cs@.len(),
            t == cs@.subrange(a as int, n as int),
            ws_index(t) == (b - a) + ws_index(cs@.subrange(b as int, n as int)),
        decreases n - b,
    {
        assert(cs@.subrange(b as int, n as int).drop_first() =~= cs@.subrange(b + 1, n as int));
        b += 1;
    }
    assert(ws_index(cs@.subrange(b as int, n as int)) == 0) by {
        if b < n {
            assert(cs@.subrange(b as int, n as int)[0] == cs@[b as int]);
        }
    }
    proof {
        lemma_ws_index_bounds(t);
    }
    assert(t.subrange(0, ws_index(t)) =~= cs@.subrange(a as int, b as int));
    Some(text::string_from_chars(cs.as_slice(), a, b))
}

/// The checksum a published `.sha256` file gives: the first word of its
/// text, which must be UTF-8.
pub open spec fn published_checksum(sum_file: Seq<u8>) -> Option<Seq<char>> {
    if vstd::utf8::valid_utf8(sum_file) {
        first_word(vstd::utf8::decode_utf8(sum_file))
    } else {
        None
    }
}

/// Reads the checksum out of a published `.sha256` file.
pub fn expected_checksum(sum_file: &[u8]) -> (r: Option<String>)
    ensures
        match published_checksum(sum_file@) {
            Some(w) => r matches Some(x) && x@ == w,
            None => r is None,
        },
{
    match text::utf8_text(sum_file) {
        Some(s) => first_word_of(s.as_str()),
        None => None,
    }
}

/// Checks the downloaded root filesystem image, whose digest is `actual`,
/// against the published checksum file.
pub fn verify_rootfs_checksum(sum_file: &[u8], actual: &str) -> (r: Result<(), String>)
    ensures
        match published_checksum(sum_file@) {
            None => r matches Err(m) && m@ == "invalid checksum file"@,
            Some(e) => if e == actual@ {
                r is Ok
            } else {
                r matches Err(m) && m@ == "rootfs SHA-256 mismatch (expected "@ + e + ", got "@
                    + actual@ + ")"@
            },
        },
{
    match expected_checksum(sum_file) {
        None => Err(text::string_of("invalid checksum file")),
        Some(e) => {
            if text::str_eq(e.as_str(), actual) {
                Ok(())
            } else {
                let mut m = text::concat3("rootfs SHA-256 mismatch (expected ", e.as_str(), ", got ");
                text::push_str(&mut m, actual);
                text::push_str(&mut m, ")");
                Err(m)
            }
        },
    }
}

} // verus!
