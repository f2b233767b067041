use vstd::prelude::*;
use byteorder::ByteOrder;

verus! {

/// The unsigned value of bytes read most significant first.
pub open spec fn be_uint(s: Seq<u8>) -> nat
    decreases s.len(),
{
    if s.len() == 0 {
        0
    } else {
        (be_uint(s.subrange(0, s.len() - 1)) * 256 + s[s.len() - 1]) as nat
    }
}

/// The two's complement reading of an unsigned value `u` below `2 * half`.
pub open spec fn signed(u: int, half: int) -> int {
    if u >= half {
        u - 2 * half
    } else {
        u
    }
}

/// The `w` bytes of `s` that start at `p`.
pub open spec fn field(s: Seq<u8>, p: int, w: int) -> Seq<u8> {
    s.subrange(p, p + w)
}

/// The text that a byte sequence holds when it is valid UTF-8.
pub uninterp spec fn utf8_text(b: Seq<u8>) -> Option<Seq<char>>;

/// What a gzip member inflates to, when it is well formed.
pub uninterp spec fn gzip_inflated(b: Seq<u8>) -> Option<Seq<u8>>;

/// What a zlib stream inflates to, when it is well formed.
pub uninterp spec fn zlib_inflated(b: Seq<u8>) -> Option<Seq<u8>>;

/// Relies on byteorder's `BigEndian::read_u16`: the first two bytes, most
/// significant first.
#[verifier::external_body]
pub(crate) fn be_u16(buf: &[u8], p: usize) -> (r: u16)
    requires
        p + 2 <= buf@.len(),
    ensures
        r as int == be_uint(field(buf@, p as int, 2)),
{
    byteorder::BigEndian::read_u16(&buf[p..])
}

/// Relies on byteorder's `BigEndian::read_i16`: two bytes, most significant
/// first, in two's complement.
#[verifier::external_body]
pub(crate) fn be_i16(buf: &[u8], p: usize) -> (r: i16)
    requires
        p + 2 <= buf@.len(),
    ensures
        r as int == signed(be_uint(field(buf@, p as int, 2)) as int, 0x8000),
{
    byteorder::BigEndian::read_i16(&buf[p..])
}

/// Relies on byteorder's `BigEndian::read_i32`: four bytes, most significant
/// first, in two's complement.
#[verifier::external_body]
pub(crate) fn be_i32(buf: &[u8], p: usize) -> (r: i32)
    requires
        p + 4 <= buf@.len(),
    ensures
        r as int == signed(be_uint(field(buf@, p as int, 4)) as int, 0x8000_0000),
{
    byteorder::BigEndian::read_i32(&buf[p..])
}

/// Relies on byteorder's `BigEndian::read_i64`: eight bytes, most significant
/// first, in two's complement.
#[verifier::external_body]
pub(crate) fn be_i64(buf: &[u8], p: usize) -> (r: i64)
    requires
        p + 8 <= buf@.len(),
    ensures
        r as int == signed(be_uint(field(buf@, p as int, 8)) as int, 0x8000_0000_0000_0000),
{
    byteorder::BigEndian::read_i64(&buf[p..])
}

/// Relies on byteorder's `BigEndian::read_u32`: the first four bytes, most
/// significant first.
#[verifier::external_body]
pub(crate) fn be_u32(buf: &[u8], p: usize) -> (r: u32)
    requires
        p + 4 <= buf@.len(),
    ensures
        r as int == be_uint(field(buf@, p as int, 4)),
{
    byteorder::BigEndian::read_u32(&buf[p..])
}

/// Relies on byteorder's `BigEndian::read_u64`: the first eight bytes, most
/// significant first.
#[verifier::external_body]
pub(crate) fn be_u64(buf: &[u8], p: usize) -> (r: u64)
    requires
        p + 8 <= buf@.len(),
    ensures
        r as int == be_uint(field(buf@, p as int, 8)),
{
    byteorder::BigEndian::read_u64(&buf[p..])
}

/// Relies on `String::from_utf8`: it succeeds exactly on valid UTF-8, and the
/// text depends on the bytes alone.
#[verifier::external_body]
pub(crate) fn decode_utf8(bytes: Vec<u8>) -> (r: Option<String>)
    ensures
        match r {
            Some(t) => utf8_text(bytes@) == Some(t@),
            None => utf8_text(bytes@) is None,
        },
{
    String::from_utf8(bytes).ok()
}

/// Relies on flate2's `read::GzDecoder`, read to its end: the inflated bytes,
/// or a failure, depend on the input alone.
#[verifier::external_body]
pub(crate) fn inflate_gzip(b: &[u8]) -> (r: Option<Vec<u8>>)
    ensures
        match r {
            Some(v) => gzip_inflated(b@) == Some(v@),
            None => gzip_inflated(b@) is None,
        },
{
    let mut out = Vec::new();
    let mut dec = flate2::read::GzDecoder::new(b);
    std::io::Read::read_to_end(&mut dec, &mut out).ok().map(|_| out)
}

/// Relies on flate2's `read::ZlibDecoder`, read to its end: the inflated
/// bytes, or a failure, depend on the input alone.
#[verifier::external_body]
pub(crate) fn inflate_zlib(b: &[u8]) -> (r: Option<Vec<u8>>)
    ensures
        match r {
            Some(v) => zlib_inflated(b@) == Some(v@),
            None => zlib_inflated(b@) is None,
        },
{
    let mut out = Vec::new();
    let mut dec = flate2::read::ZlibDecoder::new(b);
    std::io::Read::read_to_end(&mut dec, &mut out).ok().map(|_| out)
}

} // verus!
