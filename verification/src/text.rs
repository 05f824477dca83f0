//! Character-level helpers shared by every module: conversions between
//! `&str`/`String` and character vectors, substring search, trimming and
//! ASCII classification.
use vstd::prelude::*;
use vstd::string::StrSliceExecFns;
use vstd::string::StringExecFns;

verus! {

/// Unicode `White_Space` code points, the set that `char::is_whitespace` accepts.
pub open spec fn is_ws(c: char) -> bool {
    let u = c as u32;
    (0x09 <= u <= 0x0d) || u == 0x20 || u == 0x85 || u == 0xa0 || u == 0x1680 || (0x2000 <= u
        <= 0x200a) || u == 0x2028 || u == 0x2029 || u == 0x202f || u == 0x205f || u == 0x3000
}

/// `s` without its leading white space.
pub open spec fn trim_start(s: Seq<char>) -> Seq<char>
    decreases s.len(),
{
    if s.len() > 0 && is_ws(s[0]) {
        trim_start(s.drop_first())
    } else {
        s
    }
}

/// `s` without its trailing white space.
pub open spec fn trim_end(s: Seq<char>) -> Seq<char>
    decreases s.len(),
{
    if s.len() > 0 && is_ws(s.last()) {
        trim_end(s.drop_last())
    } else {
        s
    }
}

/// `s` without leading and trailing white space, as `str::trim` gives it.
pub open spec fn trim(s: Seq<char>) -> Seq<char> {
    trim_end(trim_start(s))
}

/// Text that begins and ends with other than white space is its own trim.
pub proof fn lemma_trim_unchanged(s: Seq<char>)
    requires
        s.len() > 0 ==> !is_ws(s[0]) && !is_ws(s.last()),
    ensures
        trim(s) == s,
{
}

/// Whether `p` occurs in `s` starting at index `i`.
pub open spec fn occurs_at(s: Seq<char>, p: Seq<char>, i: int) -> bool {
    0 <= i && i + p.len() <= s.len() && s.subrange(i, i + p.len()) == p
}

/// The first index at or after `i` where `p` occurs in `s`.
pub open spec fn find_from(s: Seq<char>, p: Seq<char>, i: int) -> Option<int>
    decreases s.len() + 1 - i,
{
    if i < 0 || i + p.len() > s.len() {
        None
    } else if s.subrange(i, i + p.len()) == p {
        Some(i)
    } else {
        find_from(s, p, i + 1)
    }
}

/// Whether `p` occurs anywhere in `s`.
pub open spec fn contains_seq(s: Seq<char>, p: Seq<char>) -> bool {
    exists|i: int| occurs_at(s, p, i)
}

pub open spec fn starts_with(s: Seq<char>, p: Seq<char>) -> bool {
    p.len() <= s.len() && s.subrange(0, p.len() as int) == p
}

pub open spec fn ends_with(s: Seq<char>, p: Seq<char>) -> bool {
    p.len() <= s.len() && s.subrange(s.len() - p.len(), s.len() as int) == p
}

pub open spec fn is_ascii_digit(c: char) -> bool {
    '0' <= c && c <= '9'
}

pub open spec fn is_ascii_alnum(c: char) -> bool {
    ('0' <= c && c <= '9') || ('a' <= c && c <= 'z') || ('A' <= c && c <= 'Z')
}

/// The characters of `s`, one by one.
pub fn chars_of(s: &str) -> (r: Vec<char>)
    ensures
        r@ == s@,
{
    let n = s.unicode_len();
    let mut r: Vec<char> = Vec::new();
    let mut i: usize = 0;
    while i < n
        invariant
            n == s@.len(),
            i <= n,
            r@ == s@.subrange(0, i as int),
        decreases n - i,
    {
        r.push(s.get_char(i));
        i += 1;
        assert(r@ =~= s@.subrange(0, i as int));
    }
    assert(r@ =~= s@);
    r
}

/// Appends one character to `s`, as `String::push` does.
#[verifier::external_body]
pub(crate) fn push_char(s: &mut String, c: char)
    ensures
        final(s)@ == old(s)@.push(c),
{
    s.push(c);
}

/// Appends `t` to `s`.
pub fn push_str(s: &mut String, t: &str)
    ensures
        final(s)@ == old(s)@ + t@,
{
    s.append(t);
}

/// A new `String` holding the characters of `s`.
pub fn string_of(s: &str) -> (r: String)
    ensures
        r@ == s@,
{
    String::from_str(s)
}

/// A new `String` holding the characters `cs[from..to]`.
pub fn string_from_chars(cs: &[char], from: usize, to: usize) -> (r: String)
    requires
        from <= to <= cs@.len(),
    ensures
        r@ == cs@.subrange(from as int, to as int),
{
    let mut r = String::new();
    let mut i = from;
    while i < to
        invariant
            from <= i <= to,
            to <= cs@.len(),
            r@ == cs@.subrange(from as int, i as int),
        decreases to - i,
    {
        push_char(&mut r, cs[i]);
        i += 1;
        assert(r@ =~= cs@.subrange(from as int, i as int));
    }
    r
}

/// Whether the characters `p` occur in `s` at index `i`.
pub fn matches_at(s: &[char], p: &[char], i: usize) -> (r: bool)
    ensures
        r == occurs_at(s@, p@, i as int),
{
    if i > s.len() || p.len() > s.len() - i {
        return false;
    }
    let mut k: usize = 0;
    let n = s.len();
    while k < p.len()
        invariant
            n == s@.len(),
            i + p@.len() <= s@.len(),
            k <= p@.len(),
            forall|j: int| 0 <= j < k ==> s@[i + j] == p@[j],
        decreases p@.len() - k,
    {
        assert(i + k < s@.len());
        if s[i + k] != p[k] {
            assert(s@.subrange(i as int, i + p@.len())[k as int] != p@[k as int]);
            return false;
        }
        k += 1;
    }
    assert(s@.subrange(i as int, i + p@.len()) =~= p@);
    true
}

/// The first index at or after `start` where `p` occurs in `s`.
pub fn find_chars_from(s: &[char], p: &[char], start: usize) -> (r: Option<usize>)
    ensures
        r matches Some(i) ==> find_from(s@, p@, start as int) == Some(i as int),
        r is None ==> find_from(s@, p@, start as int) is None,
{
    let mut i = start;
    if i > s.len() {
        return None;
    }
    while i <= s.len()
        invariant
            start <= i <= s@.len() + 1,
            find_from(s@, p@, start as int) == find_from(s@, p@, i as int),
        decreases s@.len() + 1 - i,
    {
        if p.len() > s.len() - i {
            return None;
        }
        if matches_at(s, p, i) {
            return Some(i);
        }
        if i >= s.len() {
            assert(p@.len() > 0) by {
                if p@.len() == 0 {
                    assert(s@.subrange(i as int, i as int) =~= p@);
                }
            }
            return None;
        }
        i += 1;
    }
    None
}

/// Whether `p` occurs in `s` at all.
pub fn contains_chars(s: &[char], p: &[char]) -> (r: bool)
    ensures
        r == contains_seq(s@, p@),
{
    let f = find_chars_from(s, p, 0);
    proof {
        lemma_find_from_none(s@, p@, 0);
        if let Some(i) = f {
            lemma_find_from_some(s@, p@, 0);
            assert(occurs_at(s@, p@, i as int));
        }
    }
    f.is_some()
}

/// What `find_from` returns is an occurrence, and no earlier one exists.
pub proof fn lemma_find_from_some(s: Seq<char>, p: Seq<char>, i: int)
    requires
        find_from(s, p, i) is Some,
    ensures
        occurs_at(s, p, find_from(s, p, i)->0),
        i <= find_from(s, p, i)->0,
        forall|j: int| i <= j < find_from(s, p, i)->0 ==> !occurs_at(s, p, j),
    decreases s.len() + 1 - i,
{
    if i < 0 || i + p.len() > s.len() {
    } else if s.subrange(i, i + p.len()) == p {
    } else {
        lemma_find_from_some(s, p, i + 1);
    }
}

/// `find_from` from `i` finds `k` when `p` occurs at `k` and nowhere in
/// between.
pub proof fn lemma_find_from_first(s: Seq<char>, p: Seq<char>, i: int, k: int)
    requires
        0 <= i <= k,
        occurs_at(s, p, k),
        forall|j: int| i <= j < k ==> !occurs_at(s, p, j),
    ensures
        find_from(s, p, i) == Some(k),
    decreases k - i,
{
    if i < k {
        assert(!occurs_at(s, p, i));
        lemma_find_from_first(s, p, i + 1, k);
    }
}

/// When `find_from` finds nothing, there is no occurrence at or after `i`.
pub proof fn lemma_find_from_none(s: Seq<char>, p: Seq<char>, i: int)
    requires
        0 <= i,
    ensures
        find_from(s, p, i) is None <==> forall|j: int| i <= j ==> !occurs_at(s, p, j),
    decreases s.len() + 1 - i,
{
    if i + p.len() > s.len() {
    } else if s.subrange(i, i + p.len()) == p {
        assert(occurs_at(s, p, i));
    } else {
        lemma_find_from_none(s, p, i + 1);
    }
}

/// The bounds `[a, b)` of `s` that `trim` keeps.
pub fn trim_bounds(s: &[char]) -> (r: (usize, usize))
    ensures
        r.0 <= r.1 <= s@.len(),
        s@.subrange(r.0 as int, r.1 as int) == trim(s@),
{
    let n = s.len();
    let mut a: usize = 0;
    assert(s@.subrange(0, n as int) =~= s@);
    while a < n && is_ws_char(s[a])
        invariant
            a <= n == s@.len(),
            trim_start(s@) == trim_start(s@.subrange(a as int, n as int)),
        decreases n - a,
    {
        assert(s@.subrange(a as int, n as int).drop_first() =~= s@.subrange(a + 1, n as int));
        a += 1;
    }
    assert(trim_start(s@) == s@.subrange(a as int, n as int)) by {
        if a < n {
            assert(s@.subrange(a as int, n as int)[0] == s@[a as int]);
        } else {
            assert(s@.subrange(a as int, n as int).len() == 0);
        }
    }
    let mut b: usize = n;
    while b > a && is_ws_char(s[b - 1])
        invariant
            a <= b <= n == s@.len(),
            trim(s@) == trim_end(s@.subrange(a as int, b as int)),
        decreases b - a,
    {
        assert(s@.subrange(a as int, b as int).drop_last() =~= s@.subrange(a as int, b - 1));
        b -= 1;
    }
    assert(trim_end(s@.subrange(a as int, b as int)) == s@.subrange(a as int, b as int)) by {
        if b > a {
            assert(s@.subrange(a as int, b as int).last() == s@[b - 1]);
        }
    }
    (a, b)
}

/// Whether `c` is Unicode white space, as `char::is_whitespace` decides.
pub fn is_ws_char(c: char) -> (r: bool)
    ensures
        r == is_ws(c),
{
    let u = c as u32;
    (0x09 <= u && u <= 0x0d) || u == 0x20 || u == 0x85 || u == 0xa0 || u == 0x1680 || (0x2000
        <= u && u <= 0x200a) || u == 0x2028 || u == 0x2029 || u == 0x202f || u == 0x205f || u
        == 0x3000
}

/// Whether two character sequences are equal.
pub fn chars_eq(a: &[char], b: &[char]) -> (r: bool)
    ensures
        r == (a@ == b@),
{
    if a.len() != b.len() {
        return false;
    }
    let r = matches_at(a, b, 0);
    proof {
        assert(a@.subrange(0, b@.len() as int) =~= a@);
    }
    r
}

/// `base` joined with `rest` the way `Path::join` joins on Unix: an absolute
/// `rest` replaces `base`; otherwise a `/` separates them unless `base` is
/// empty or already ends with one.
pub open spec fn path_join(base: Seq<char>, rest: Seq<char>) -> Seq<char> {
    if rest.len() > 0 && rest[0] == '/' {
        rest
    } else if base.len() > 0 && base.last() != '/' {
        base + seq!['/'] + rest
    } else {
        base + rest
    }
}

/// Joins two path strings as `Path::join` does on Unix.
pub fn join_path(base: &str, rest: &str) -> (r: String)
    ensures
        r@ == path_join(base@, rest@),
{
    let b = chars_of(base);
    let t = chars_of(rest);
    if t.len() > 0 && t[0] == '/' {
        return string_of(rest);
    }
    let mut r = string_of(base);
    if b.len() > 0 && b[b.len() - 1] != '/' {
        push_char(&mut r, '/');
    }
    push_str(&mut r, rest);
    r
}

/// Whether two strings hold the same characters.
pub fn str_eq(a: &str, b: &str) -> (r: bool)
    ensures
        r == (a@ == b@),
{
    let x = chars_of(a);
    let y = chars_of(b);
    chars_eq(x.as_slice(), y.as_slice())
}

/// Whether `needle` occurs in `hay`, as `str::contains` with a string pattern decides.
pub fn str_contains(hay: &str, needle: &str) -> (r: bool)
    ensures
        r == contains_seq(hay@, needle@),
{
    let x = chars_of(hay);
    let y = chars_of(needle);
    contains_chars(x.as_slice(), y.as_slice())
}

/// Concatenation of two strings into a new `String`.
pub fn concat2(a: &str, b: &str) -> (r: String)
    ensures
        r@ == a@ + b@,
{
    let mut r = string_of(a);
    push_str(&mut r, b);
    r
}

/// Concatenation of three strings into a new `String`.
pub fn concat3(a: &str, b: &str, c: &str) -> (r: String)
    ensures
        r@ == a@ + b@ + c@,
{
    let mut r = string_of(a);
    push_str(&mut r, b);
    push_str(&mut r, c);
    r
}

/// Value of an ASCII digit.
pub open spec fn digit_value(c: char) -> int {
    (c as int) - ('0' as int)
}

/// The number that a sequence of decimal digits spells.
pub open spec fn decimal_value(s: Seq<char>) -> int
    decreases s.len(),
{
    if s.len() == 0 {
        0
    } else {
        decimal_value(s.drop_last()) * 10 + digit_value(s.last())
    }
}

pub open spec fn all_digits(s: Seq<char>) -> bool {
    forall|i: int| 0 <= i < s.len() ==> is_ascii_digit(#[trigger] s[i])
}

/// The digits of an unsigned decimal literal as `u64::from_str` and its
/// siblings accept it: an optional leading `+`, then at least one ASCII digit.
pub open spec fn unsigned_digits(s: Seq<char>) -> Option<Seq<char>> {
    let d = if s.len() > 0 && s[0] == '+' {
        s.drop_first()
    } else {
        s
    };
    if d.len() > 0 && all_digits(d) {
        Some(d)
    } else {
        None
    }
}

/// The value that `str::parse` gives for an unsigned integer type whose
/// largest value is `max`, or `None` where it reports an error.
pub open spec fn parse_unsigned(s: Seq<char>, max: int) -> Option<int> {
    match unsigned_digits(s) {
        Some(d) => if decimal_value(d) <= max {
            Some(decimal_value(d))
        } else {
            None
        },
        None => None,
    }
}

proof fn lemma_decimal_value_nonneg(s: Seq<char>)
    requires
        all_digits(s),
    ensures
        decimal_value(s) >= 0,
    decreases s.len(),
{
    if s.len() > 0 {
        assert(all_digits(s.drop_last())) by {
            assert forall|i: int| 0 <= i < s.drop_last().len() implies is_ascii_digit(
                #[trigger] s.drop_last()[i],
            ) by {
                assert(s.drop_last()[i] == s[i]);
            }
        }
        lemma_decimal_value_nonneg(s.drop_last());
        assert(is_ascii_digit(s[s.len() - 1]));
    }
}

/// Parses an unsigned decimal number no larger than `max`, as `str::parse`
/// does for `u8`..`u64`.
pub fn parse_unsigned_bounded(s: &[char], max: u64) -> (r: Option<u64>)
    ensures
        r matches Some(v) ==> parse_unsigned(s@, max as int) == Some(v as int),
        r is None ==> parse_unsigned(s@, max as int) is None,
{
    let n = s.len();
    let start: usize = if n > 0 && s[0] == '+' { 1 } else { 0 };
    let ghost d = if s@.len() > 0 && s@[0] == '+' { s@.drop_first() } else { s@ };
    assert(d =~= s@.subrange(start as int, n as int));
    if start >= n {
        return None;
    }
    assert(unsigned_digits(s@) == if all_digits(d) { Some(d) } else { None::<Seq<char>> });
    let mut v: u64 = 0;
    let mut i = start;
    while i < n
        invariant
            start <= i <= n == s@.len(),
            start < n,
            d =~= s@.subrange(start as int, n as int),
            all_digits(s@.subrange(start as int, i as int)),
            v as int == decimal_value(s@.subrange(start as int, i as int)),
            v <= max,
            unsigned_digits(s@) == if all_digits(d) { Some(d) } else { None::<Seq<char>> },
        decreases n - i,
    {
        let c = s[i];
        let ghost pre = s@.subrange(start as int, i as int);
        let ghost post = s@.subrange(start as int, i + 1);
        assert(post.drop_last() =~= pre);
        assert(post.last() == c);
        if !('0' <= c && c <= '9') {
            assert(!all_digits(d)) by {
                assert(d[i - start] == c);
            }
            return None;
        }
        let dv = (c as u64) - ('0' as u64);
        assert(all_digits(post)) by {
            assert forall|j: int| 0 <= j < post.len() implies is_ascii_digit(#[trigger] post[j]) by {
                if j < pre.len() {
                    assert(post[j] == pre[j]);
                }
            }
        }
        if dv > max || v > (max - dv) / 10 {
            // the value already exceeds `max`, and further digits only grow it
            proof {
                assert(decimal_value(post) == v * 10 + dv);
                assert(v * 10 + dv > max) by (nonlinear_arith)
                    requires
                        dv > max || v > (max - dv) / 10,
                        v >= 0,
                        dv >= 0,
                ;
                assert(post =~= d.subrange(0, (i + 1 - start) as int));
                if all_digits(d) {
                    lemma_decimal_prefix_bound(d, (i + 1 - start) as int, max as int);
                }
            }
            return None;
        }
        assert(v * 10 + dv <= max) by (nonlinear_arith)
            requires
                dv <= max,
                v <= (max - dv) / 10,
        ;
        assert(decimal_value(post) == v * 10 + dv);
        v = v * 10 + dv;
        i += 1;
    }
    assert(s@.subrange(start as int, n as int) =~= d);
    Some(v)
}

/// A decimal prefix larger than `max` makes the whole number larger than `max`.
proof fn lemma_decimal_prefix_bound(d: Seq<char>, k: int, max: int)
    requires
        0 < k <= d.len(),
        all_digits(d),
        decimal_value(d.subrange(0, k)) > max,
    ensures
        decimal_value(d) > max,
    decreases d.len() - k,
{
    if k < d.len() {
        let a = d.subrange(0, k);
        let b = d.subrange(0, k + 1);
        assert(b.drop_last() =~= a);
        assert(is_ascii_digit(d[k]));
        assert(b.last() == d[k]);
        assert(all_digits(a)) by {
            assert forall|j: int| 0 <= j < a.len() implies is_ascii_digit(#[trigger] a[j]) by {
                assert(a[j] == d[j]);
            }
        }
        lemma_decimal_value_nonneg(a);
        assert(decimal_value(b) == decimal_value(a) * 10 + digit_value(d[k]));
        lemma_decimal_prefix_bound(d, k + 1, max);
    } else {
        assert(d.subrange(0, k) =~= d);
    }
}

/// Parses an unsigned decimal `u64` as `str::parse::<u64>` does.
pub fn parse_u64(s: &str) -> (r: Option<u64>)
    ensures
        r matches Some(v) ==> parse_unsigned(s@, u64::MAX as int) == Some(v as int),
        r is None ==> parse_unsigned(s@, u64::MAX as int) is None,
{
    let cs = chars_of(s);
    parse_unsigned_bounded(cs.as_slice(), u64::MAX)
}

/// The character of a digit value `0..16` in lower-case hexadecimal.
pub open spec fn hex_digit_char(d: int) -> char {
    if d < 10 {
        ((d + 48) as u8) as char
    } else {
        ((d - 10 + 97) as u8) as char
    }
}

/// The decimal text of `n`, without leading zeros, as `Display` writes it.
pub open spec fn decimal_text(n: nat) -> Seq<char>
    decreases n,
{
    if n < 10 {
        seq![hex_digit_char(n as int)]
    } else {
        decimal_text(n / 10).push(hex_digit_char((n % 10) as int))
    }
}

/// The decimal text of `n` is a non-empty run of digits that spells `n`.
pub proof fn lemma_decimal_text_value(n: nat)
    ensures
        decimal_text(n).len() > 0,
        all_digits(decimal_text(n)),
        decimal_value(decimal_text(n)) == n,
    decreases n,
{
    if n < 10 {
        let c = hex_digit_char(n as int);
        assert(c as int == n + 48);
        assert(decimal_text(n).drop_last() =~= Seq::<char>::empty());
        assert(decimal_value(decimal_text(n)) == decimal_value(Seq::<char>::empty()) * 10
            + digit_value(c));
    } else {
        lemma_decimal_text_value(n / 10);
        let s = decimal_text(n / 10);
        let c = hex_digit_char((n % 10) as int);
        assert(c as int == n % 10 + 48);
        let t = s.push(c);
        assert(t.drop_last() =~= s);
        assert(t.last() == c);
        assert(decimal_value(t) == decimal_value(s) * 10 + digit_value(c));
        assert(decimal_text(n) == t);
        assert forall|i: int| 0 <= i < t.len() implies is_ascii_digit(#[trigger] t[i]) by {
            if i < s.len() {
                assert(t[i] == s[i]);
            }
        }
    }
}

/// The lower-case hexadecimal text of `n`, without leading zeros, as
/// `LowerHex` writes it.
pub open spec fn hex_text(n: nat) -> Seq<char>
    decreases n,
{
    if n < 16 {
        seq![hex_digit_char(n as int)]
    } else {
        hex_text(n / 16).push(hex_digit_char((n % 16) as int))
    }
}

fn digit_char(d: u8) -> (c: char)
    requires
        d < 16,
    ensures
        c == hex_digit_char(d as int),
{
    if d < 10 {
        (d + 48) as char
    } else {
        (d - 10 + 97) as char
    }
}

/// Appends the decimal text of `n`.
pub fn push_decimal(s: &mut String, n: u64)
    ensures
        final(s)@ == old(s)@ + decimal_text(n as nat),
    decreases n,
{
    if n >= 10 {
        push_decimal(s, n / 10);
    }
    push_char(s, digit_char((n % 10) as u8));
    proof {
        if n >= 10 {
            assert(decimal_text(n as nat) == decimal_text((n / 10) as nat).push(
                hex_digit_char((n % 10) as int),
            ));
        }
    }
    assert(final(s)@ =~= old(s)@ + decimal_text(n as nat)) by {
        if n >= 10 {
            assert(decimal_text(n as nat) == decimal_text((n / 10) as nat).push(
                hex_digit_char((n % 10) as int),
            ));
        }
    }
}

/// Appends the lower-case hexadecimal text of `n`.
pub fn push_hex(s: &mut String, n: u128)
    ensures
        final(s)@ == old(s)@ + hex_text(n as nat),
    decreases n,
{
    if n >= 16 {
        push_hex(s, n / 16);
    }
    push_char(s, digit_char((n % 16) as u8));
    assert(final(s)@ =~= old(s)@ + hex_text(n as nat)) by {
        if n >= 16 {
            assert(hex_text(n as nat) == hex_text((n / 16) as nat).push(
                hex_digit_char((n % 16) as int),
            ));
        }
    }
}

/// The decimal text of a signed number: a `-` before the digits of a
/// negative one.
pub open spec fn signed_decimal_text(n: int) -> Seq<char> {
    if n < 0 {
        "-"@ + decimal_text((-n) as nat)
    } else {
        decimal_text(n as nat)
    }
}

/// Appends the decimal text of a signed number, as `i64::to_string` writes it.
pub fn push_signed_decimal(s: &mut String, n: i64)
    ensures
        final(s)@ == old(s)@ + signed_decimal_text(n as int),
{
    if n < 0 {
        push_char(s, '-');
        let magnitude: u64 = if n == i64::MIN {
            9223372036854775808u64
        } else {
            (-n) as u64
        };
        push_decimal(s, magnitude);
        proof {
            reveal_strlit("-");
        }
        assert(magnitude as int == -(n as int));
        assert(s@ =~= old(s)@ + signed_decimal_text(n as int));
    } else {
        push_decimal(s, n as u64);
    }
}

/// `items` joined by `sep`.
pub open spec fn joined_with(items: Seq<Seq<char>>, sep: Seq<char>) -> Seq<char>
    decreases items.len(),
{
    if items.len() == 0 {
        Seq::empty()
    } else if items.len() == 1 {
        items[0]
    } else {
        joined_with(items.drop_last(), sep) + sep + items.last()
    }
}

/// The views of a sequence of strings.
pub open spec fn views_of(v: Seq<String>) -> Seq<Seq<char>> {
    v.map_values(|x: String| x@)
}

/// Joins strings with a separator, as `[String]::join` does.
pub fn join_strings(items: &Vec<String>, sep: &str) -> (r: String)
    ensures
        r@ == joined_with(views_of(items@), sep@),
{
    let ghost all = views_of(items@);
    let mut r = String::new();
    let mut i: usize = 0;
    while i < items.len()
        invariant
            i <= items@.len(),
            all == views_of(items@),
            r@ == joined_with(all.subrange(0, i as int), sep@),
        decreases items@.len() - i,
    {
        assert(all.subrange(0, i + 1).drop_last() =~= all.subrange(0, i as int));
        if i > 0 {
            push_str(&mut r, sep);
        }
        push_str(&mut r, items[i].as_str());
        proof {
            if i == 0 {
                assert(r@ =~= all.subrange(0, 1)[0]);
            }
        }
        i += 1;
    }
    assert(all.subrange(0, i as int) =~= all);
    r
}

/// Decodes `bytes` as UTF-8 text with `std::str::from_utf8`, which succeeds
/// exactly on valid UTF-8.
#[verifier::external_body]
pub(crate) fn utf8_text(bytes: &[u8]) -> (r: Option<String>)
    ensures
        (r is Some) == vstd::utf8::valid_utf8(bytes@),
        r matches Some(s) ==> s@ == vstd::utf8::decode_utf8(bytes@),
{
    match std::str::from_utf8(bytes) {
        Ok(s) => Some(s.to_owned()),
        Err(_) => None,
    }
}

/// Whether the characters `s` begin with `p`.
pub fn chars_start_with(s: &[char], p: &[char]) -> (r: bool)
    ensures
        r == starts_with(s@, p@),
{
    let r = matches_at(s, p, 0);
    r
}

/// Whether the characters `s` end with `p`.
pub fn chars_end_with(s: &[char], p: &[char]) -> (r: bool)
    ensures
        r == ends_with(s@, p@),
{
    if p.len() > s.len() {
        return false;
    }
    matches_at(s, p, s.len() - p.len())
}

/// The characters of `s` with leading and trailing white space removed.
pub fn trimmed_chars(s: &str) -> (r: Vec<char>)
    ensures
        r@ == trim(s@),
{
    let cs = chars_of(s);
    let (a, b) = trim_bounds(cs.as_slice());
    let mut r: Vec<char> = Vec::new();
    let mut i = a;
    while i < b
        invariant
            a <= i <= b <= cs@.len(),
            r@ == cs@.subrange(a as int, i as int),
        decreases b - i,
    {
        r.push(cs[i]);
        i += 1;
        assert(r@ =~= cs@.subrange(a as int, i as int));
    }
    r
}

/// Whether some string of `v` holds the characters `s`.
pub fn strings_contain(v: &Vec<String>, s: &str) -> (r: bool)
    ensures
        r == exists|i: int| 0 <= i < v@.len() && (#[trigger] v@[i])@ == s@,
{
    let mut i: usize = 0;
    while i < v.len()
        invariant
            i <= v@.len(),
            forall|j: int| 0 <= j < i ==> (#[trigger] v@[j])@ != s@,
        decreases v@.len() - i,
    {
        if str_eq(v[i].as_str(), s) {
            return true;
        }
        i += 1;
    }
    false
}

/// The first index of character `c` in `s`.
pub open spec fn index_of(s: Seq<char>, c: char) -> Option<int> {
    find_from(s, seq![c], 0)
}

/// The first index of character `c` in `s[from..to]`, as an index into `s`.
pub fn find_char(s: &[char], c: char, from: usize, to: usize) -> (r: Option<usize>)
    requires
        from <= to <= s@.len(),
    ensures
        r matches Some(i) ==> index_of(s@.subrange(from as int, to as int), c) == Some(i - from)
            && from <= i < to && s@[i as int] == c,
        r is None ==> index_of(s@.subrange(from as int, to as int), c) is None,
{
    let ghost t = s@.subrange(from as int, to as int);
    let mut i = from;
    while i < to
        invariant
            from <= i <= to <= s@.len(),
            t == s@.subrange(from as int, to as int),
            forall|j: int| from <= j < i ==> s@[j] != c,
        decreases to - i,
    {
        if s[i] == c {
            proof {
                lemma_index_of_first(t, c, (i - from) as int);
            }
            return Some(i);
        }
        i += 1;
    }
    proof {
        lemma_index_of_none(t, c);
    }
    None
}

/// `index_of` finds the first position holding `c`.
pub proof fn lemma_index_of_first(t: Seq<char>, c: char, k: int)
    requires
        0 <= k < t.len(),
        t[k] == c,
        forall|j: int| 0 <= j < k ==> t[j] != c,
    ensures
        index_of(t, c) == Some(k),
{
    let p = seq![c];
    assert forall|j: int| 0 <= j < k implies !occurs_at(t, p, j) by {
        if occurs_at(t, p, j) {
            assert(t.subrange(j, j + 1)[0] == t[j]);
        }
    }
    assert(occurs_at(t, p, k)) by {
        assert(t.subrange(k, k + 1) =~= p);
    }
    lemma_find_from_none(t, p, 0);
    lemma_find_from_some(t, p, 0);
}

/// What `index_of` finds holds `c`, and nothing before it does.
pub proof fn lemma_index_of_some(t: Seq<char>, c: char)
    requires
        index_of(t, c) is Some,
    ensures
        0 <= index_of(t, c)->0 < t.len(),
        t[index_of(t, c)->0] == c,
        forall|j: int| 0 <= j < index_of(t, c)->0 ==> t[j] != c,
{
    let p = seq![c];
    lemma_find_from_some(t, p, 0);
    let i = index_of(t, c)->0;
    assert(t.subrange(i, i + 1)[0] == t[i]);
    assert forall|j: int| 0 <= j < i implies t[j] != c by {
        if t[j] == c {
            assert(t.subrange(j, j + 1) =~= p);
            assert(occurs_at(t, p, j));
        }
    }
}

/// When `index_of` finds nothing, `c` does not occur in `t`.
pub proof fn lemma_index_of_none_absent(t: Seq<char>, c: char)
    requires
        index_of(t, c) is None,
    ensures
        !t.contains(c),
{
    let p = seq![c];
    lemma_find_from_none(t, p, 0);
    if t.contains(c) {
        let j = choose|j: int| 0 <= j < t.len() && t[j] == c;
        assert(t.subrange(j, j + 1) =~= p);
        assert(occurs_at(t, p, j));
    }
}

/// `index_of` finds nothing when no position holds `c`.
pub proof fn lemma_index_of_none(t: Seq<char>, c: char)
    requires
        forall|j: int| 0 <= j < t.len() ==> t[j] != c,
    ensures
        index_of(t, c) is None,
{
    let p = seq![c];
    assert forall|j: int| 0 <= j implies !occurs_at(t, p, j) by {
        if occurs_at(t, p, j) {
            assert(t.subrange(j, j + 1)[0] == t[j]);
        }
    }
    lemma_find_from_none(t, p, 0);
}


/// The pieces of `s` between occurrences of `c`, as `str::split` yields them.
pub open spec fn split_on(s: Seq<char>, c: char) -> Seq<Seq<char>>
    decreases s.len(),
{
    match index_of(s, c) {
        None => seq![s],
        Some(i) => if 0 <= i < s.len() {
            seq![s.subrange(0, i)] + split_on(s.subrange(i + 1, s.len() as int), c)
        } else {
            seq![s]
        },
    }
}

/// The pieces of `s` between occurrences of `c`, as strings.
pub fn split_chars(s: &str, c: char) -> (r: Vec<String>)
    ensures
        views_of(r@) == split_on(s@, c),
    decreases s@.len(),
{
    let cs = chars_of(s);
    let n = cs.len();
    assert(cs@.subrange(0, n as int) =~= cs@);
    match find_char(cs.as_slice(), c, 0, n) {
        None => {
            let mut r: Vec<String> = Vec::new();
            r.push(string_of(s));
            assert(views_of(r@) =~= seq![s@]);
            r
        },
        Some(i) => {
            let head = string_from_chars(cs.as_slice(), 0, i);
            let tail = string_from_chars(cs.as_slice(), i + 1, n);
            let rest = split_chars(tail.as_str(), c);
            let ghost head_view = head@;
            let mut r: Vec<String> = Vec::new();
            r.push(head);
            let mut k: usize = 0;
            while k < rest.len()
                invariant
                    k <= rest@.len(),
                    r@.len() == k + 1,
                    r@[0]@ == head_view,
                    forall|m: int| 0 <= m < k ==> (#[trigger] r@[m + 1])@ == rest@[m]@,
                decreases rest@.len() - k,
            {
                r.push(rest[k].clone());
                k += 1;
            }
            assert(views_of(r@) =~= seq![head_view] + views_of(rest@)) by {
                assert forall|m: int| 0 <= m < r@.len() implies #[trigger] views_of(r@)[m]
                    == (seq![head_view] + views_of(rest@))[m] by {
                    if m > 0 {
                        assert(r@[(m - 1) + 1]@ == rest@[m - 1]@);
                    }
                }
            }
            r
        },
    }
}

/// A line without its trailing carriage return.
pub open spec fn strip_cr(l: Seq<char>) -> Seq<char> {
    if l.len() > 0 && l.last() == '\r' {
        l.drop_last()
    } else {
        l
    }
}

/// The lines of `s`, as `str::lines` yields them: split at `\n`, without
/// the empty piece after a final newline, each without a trailing `\r`.
pub open spec fn lines_of(s: Seq<char>) -> Seq<Seq<char>> {
    let pieces = split_on(s, '\n');
    let kept = if pieces.len() > 0 && pieces.last().len() == 0 {
        pieces.drop_last()
    } else {
        pieces
    };
    kept.map_values(|l: Seq<char>| strip_cr(l))
}

/// A line without its trailing carriage return.
pub fn strip_cr_str(l: &str) -> (r: String)
    ensures
        r@ == strip_cr(l@),
{
    let cs = chars_of(l);
    let n = cs.len();
    if n > 0 && cs[n - 1] == '\r' {
        assert(cs@.drop_last() =~= cs@.subrange(0, n - 1));
        string_from_chars(cs.as_slice(), 0, n - 1)
    } else {
        assert(cs@.subrange(0, n as int) =~= cs@);
        string_from_chars(cs.as_slice(), 0, n)
    }
}


/// The index at which the white space that leads `s` ends.
pub fn trim_start_index(s: &[char]) -> (r: usize)
    ensures
        r <= s@.len(),
        s@.subrange(r as int, s@.len() as int) == trim_start(s@),
{
    let n = s.len();
    let mut a: usize = 0;
    assert(s@.subrange(0, n as int) =~= s@);
    while a < n && is_ws_char(s[a])
        invariant
            a <= n == s@.len(),
            trim_start(s@) == trim_start(s@.subrange(a as int, n as int)),
        decreases n - a,
    {
        assert(s@.subrange(a as int, n as int).drop_first() =~= s@.subrange(a + 1, n as int));
        a += 1;
    }
    if a < n {
        assert(s@.subrange(a as int, n as int)[0] == s@[a as int]);
    }
    a
}

/// The lines of `s`, as `str::lines` yields them.
pub fn line_strings(s: &str) -> (r: Vec<String>)
    ensures
        views_of(r@) == lines_of(s@),
{
    let pieces = split_chars(s, '\n');
    let ghost pv = views_of(pieces@);
    let mut n = pieces.len();
    if n > 0 && chars_of(pieces[n - 1].as_str()).len() == 0 {
        n = n - 1;
    }
    let ghost kept = pv.subrange(0, n as int);
    assert(kept == if pv.len() > 0 && pv.last().len() == 0 {
        pv.drop_last()
    } else {
        pv
    }) by {
        if pieces@.len() > 0 {
            assert(pv.last() == pieces@[pieces@.len() - 1]@);
        }
        if pv.len() > 0 && pv.last().len() == 0 {
            assert(kept =~= pv.drop_last());
        } else {
            assert(kept =~= pv);
        }
    }
    let ghost ls = kept.map_values(|l: Seq<char>| strip_cr(l));
    let mut r: Vec<String> = Vec::new();
    let mut i: usize = 0;
    while i < n
        invariant
            i <= n <= pieces@.len(),
            pv == views_of(pieces@),
            kept == pv.subrange(0, n as int),
            ls == kept.map_values(|l: Seq<char>| strip_cr(l)),
            r@.len() == i,
            forall|j: int| 0 <= j < i ==> (#[trigger] r@[j])@ == ls[j],
        decreases n - i,
    {
        assert(ls[i as int] == strip_cr(pieces@[i as int]@));
        r.push(strip_cr_str(pieces[i].as_str()));
        i += 1;
    }
    assert(views_of(r@) =~= ls);
    r
}

} // verus!
