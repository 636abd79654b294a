//! Big-endian integer reads and ASCII text fields of fixed-layout records.
use vstd::prelude::*;

verus! {

/// The big-endian 16-bit value of the two bytes at `i`.
pub open spec fn be16(s: Seq<u8>, i: int) -> int {
    s[i] as int * 256 + s[i + 1] as int
}

/// The big-endian 32-bit value of the four bytes at `i`.
pub open spec fn be32(s: Seq<u8>, i: int) -> int {
    be16(s, i) * 65536 + be16(s, i + 2)
}

/// The big-endian 64-bit value of the eight bytes at `i`.
pub open spec fn be64(s: Seq<u8>, i: int) -> int {
    be32(s, i) * 0x1_0000_0000 + be32(s, i + 4)
}

/// Reads a big-endian `u16` at `i`.
pub fn read_u16_be(data: &[u8], i: usize) -> (r: u16)
    requires
        i + 2 <= data@.len(),
    ensures
        r as int == be16(data@, i as int),
{
    (data[i] as u16) * 256 + data[i + 1] as u16
}

/// Reads a big-endian `u32` at `i`.
pub fn read_u32_be(data: &[u8], i: usize) -> (r: u32)
    requires
        i + 4 <= data@.len(),
    ensures
        r as int == be32(data@, i as int),
{
    let _n = data.len();
    let hi = read_u16_be(data, i) as u32;
    let lo = read_u16_be(data, i + 2) as u32;
    hi * 65536 + lo
}

/// Reads a big-endian `i32` (two's complement) at `i`.
pub fn read_i32_be(data: &[u8], i: usize) -> (r: i32)
    requires
        i + 4 <= data@.len(),
    ensures
        r as int == (if be32(data@, i as int) < 0x8000_0000 {
            be32(data@, i as int)
        } else {
            be32(data@, i as int) - 0x1_0000_0000
        }),
{
    let u = read_u32_be(data, i);
    if u < 0x8000_0000 {
        u as i32
    } else {
        let d: u32 = u - 0x8000_0000;
        (d as i32) - 0x7fff_ffff - 1
    }
}

/// Reads a big-endian `u64` at `i`.
pub fn read_u64_be(data: &[u8], i: usize) -> (r: u64)
    requires
        i + 8 <= data@.len(),
    ensures
        r as int == be64(data@, i as int),
{
    let _n = data.len();
    let hi = read_u32_be(data, i) as u64;
    let lo = read_u32_be(data, i + 4) as u64;
    hi * 0x1_0000_0000 + lo
}

/// The little-endian 16-bit value of the two bytes at `i`.
pub open spec fn le16(s: Seq<u8>, i: int) -> int {
    s[i] as int + s[i + 1] as int * 256
}

/// The little-endian 24-bit value of the three bytes at `i`.
pub open spec fn le24(s: Seq<u8>, i: int) -> int {
    le16(s, i) + s[i + 2] as int * 65536
}

/// The little-endian 32-bit value of the four bytes at `i`.
pub open spec fn le32(s: Seq<u8>, i: int) -> int {
    le16(s, i) + le16(s, i + 2) * 65536
}

/// Reads a little-endian `u16` at `i`.
pub fn read_u16_le(data: &[u8], i: usize) -> (r: u16)
    requires
        i + 2 <= data@.len(),
    ensures
        r as int == le16(data@, i as int),
{
    data[i] as u16 + (data[i + 1] as u16) * 256
}

/// Reads a little-endian 24-bit value at `i`.
pub fn read_u24_le(data: &[u8], i: usize) -> (r: u32)
    requires
        i + 3 <= data@.len(),
    ensures
        r as int == le24(data@, i as int),
{
    let _n = data.len();
    read_u16_le(data, i) as u32 + (data[i + 2] as u32) * 65536
}

/// Reads a little-endian `u32` at `i`.
pub fn read_u32_le(data: &[u8], i: usize) -> (r: u32)
    requires
        i + 4 <= data@.len(),
    ensures
        r as int == le32(data@, i as int),
{
    let _n = data.len();
    let lo = read_u16_le(data, i) as u32;
    let hi = read_u16_le(data, i + 2) as u32;
    lo + hi * 65536
}

/// ASCII whitespace: tab, line feed, vertical tab, form feed, carriage return and space.
pub open spec fn is_space(b: u8) -> bool {
    b == 32 || (9 <= b && b <= 13)
}

/// The bytes without their leading whitespace.
pub open spec fn trim_start(s: Seq<u8>) -> Seq<u8>
    decreases s.len(),
{
    if s.len() > 0 && is_space(s[0]) {
        trim_start(s.drop_first())
    } else {
        s
    }
}

/// The bytes without their trailing whitespace.
pub open spec fn trim_end(s: Seq<u8>) -> Seq<u8>
    decreases s.len(),
{
    if s.len() > 0 && is_space(s.last()) {
        trim_end(s.drop_last())
    } else {
        s
    }
}

/// The bytes without leading or trailing whitespace.
pub open spec fn trim(s: Seq<u8>) -> Seq<u8> {
    trim_end(trim_start(s))
}

/// Every byte is 7-bit ASCII.
pub open spec fn is_ascii(s: Seq<u8>) -> bool {
    forall|i: int| 0 <= i < s.len() ==> s[i] < 128
}

/// The characters that ASCII bytes stand for, one for one.
pub open spec fn ascii_chars(s: Seq<u8>) -> Seq<char> {
    Seq::new(s.len(), |i: int| s[i] as char)
}

/// The text that `String::from_utf8_lossy` makes of a byte sequence.
pub uninterp spec fn utf8_lossy(b: Seq<u8>) -> Seq<char>;

/// The text of a byte field: the characters of ASCII bytes, one for one; otherwise what
/// `String::from_utf8_lossy` makes of the bytes.
pub open spec fn text_of(b: Seq<u8>) -> Seq<char> {
    if is_ascii(b) {
        ascii_chars(b)
    } else {
        utf8_lossy(b)
    }
}

/// Relies on String::from_utf8_lossy: the text depends on the bytes alone, and bytes that
/// are valid UTF-8 (as ASCII bytes are) come back as the characters they encode.
#[verifier::external_body]
fn lossy_string(b: &[u8]) -> (r: String)
    ensures
        is_ascii(b@) ==> r@ == ascii_chars(b@),
        !is_ascii(b@) ==> r@ == utf8_lossy(b@),
{
    String::from_utf8_lossy(b).into_owned()
}

/// Leading and trailing whitespace removed from `s[lo..hi]`, as bounds into `s`.
fn trim_bounds(s: &[u8], lo: usize, hi: usize) -> (r: (usize, usize))
    requires
        lo <= hi <= s@.len(),
    ensures
        lo <= r.0 <= r.1 <= hi,
        s@.subrange(r.0 as int, r.1 as int) == trim(s@.subrange(lo as int, hi as int)),
{
    let mut a = lo;
    while a < hi && (s[a] == 32 || (9 <= s[a] && s[a] <= 13))
        invariant
            lo <= a <= hi <= s@.len(),
            trim_start(s@.subrange(lo as int, hi as int)) == trim_start(
                s@.subrange(a as int, hi as int),
            ),
        decreases hi - a,
    {
        assert(s@.subrange(a as int, hi as int).drop_first() =~= s@.subrange(
            a + 1,
            hi as int,
        ));
        a = a + 1;
    }
    let ghost t = s@.subrange(a as int, hi as int);
    assert(trim_start(t) == t);
    let mut b = hi;
    while b > a && (s[b - 1] == 32 || (9 <= s[b - 1] && s[b - 1] <= 13))
        invariant
            lo <= a <= b <= hi <= s@.len(),
            trim_end(t) == trim_end(s@.subrange(a as int, b as int)),
            t == s@.subrange(a as int, hi as int),
        decreases b - a,
    {
        assert(s@.subrange(a as int, b as int).drop_last() =~= s@.subrange(
            a as int,
            b - 1,
        ));
        b = b - 1;
    }
    (a, b)
}

/// `s[lo..hi]` with surrounding whitespace removed.
pub fn trimmed_bytes(s: &[u8], lo: usize, hi: usize) -> (r: &[u8])
    requires
        lo <= hi <= s@.len(),
    ensures
        r@ == trim(s@.subrange(lo as int, hi as int)),
{
    let (a, b) = trim_bounds(s, lo, hi);
    &s[a..b]
}

/// The text of `s[lo..hi]` with surrounding whitespace removed.
pub fn trimmed_text(s: &[u8], lo: usize, hi: usize) -> (r: String)
    requires
        lo <= hi <= s@.len(),
    ensures
        r@ == text_of(trim(s@.subrange(lo as int, hi as int))),
{
    let (a, b) = trim_bounds(s, lo, hi);
    lossy_string(&s[a..b])
}

/// A copy of `s[lo..hi]`.
pub fn copy_range(s: &[u8], lo: usize, hi: usize) -> (r: Vec<u8>)
    requires
        lo <= hi <= s@.len(),
    ensures
        r@ == s@.subrange(lo as int, hi as int),
{
    let mut out: Vec<u8> = Vec::with_capacity(hi - lo);
    let mut i = lo;
    while i < hi
        invariant
            lo <= i <= hi <= s@.len(),
            out@ == s@.subrange(lo as int, i as int),
        decreases hi - i,
    {
        out.push(s[i]);
        assert(out@ =~= s@.subrange(lo as int, i + 1));
        i = i + 1;
    }
    out
}

} // verus!
