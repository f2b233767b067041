//! Readers that follow the grammar of [`crate::grammar`] over a byte buffer.

use vstd::prelude::*;
use crate::errors::{ContainerKind, NbtError};
use crate::tag::{Tag, TagModel, tag_view, Compression, tags_view, entries_view, ints_i8, ints_i32, ints_i64};
use crate::wire::{be_uint, field, be_u16, be_i16, be_i32, be_i64, be_u32, be_u64, decode_utf8, inflate_gzip, inflate_zlib};
use crate::grammar::{LAST_TYPE_ID, int_at, prepend, parse_string, parse_array, parse_payload, parse_list, parse_compound, parse_file};

verus! {

/// Whether an executable result is the one the grammar gives.
pub open spec fn agrees<T, M>(r: Result<(T, usize), NbtError>, g: Result<(M, int), NbtError>, view: spec_fn(T) -> M) -> bool {
    match g {
        Ok((m, q)) => r is Ok && view(r->Ok_0.0) == m && r->Ok_0.1 as int == q,
        Err(e) => r is Err && r->Err_0 == e,
    }
}

/// Reads the string at `p`.
fn string_at(s: &[u8], p: usize) -> (r: Result<(String, usize), NbtError>)
    ensures
        agrees(r, parse_string(s@, p as int), |x: String| x@),
        r is Ok ==> p + 2 <= r->Ok_0.1 <= s@.len(),
{
    if s.len() < 2 || p > s.len() - 2 {
        return Err(NbtError::UnexpectedEof);
    }
    let n = be_u16(s, p) as usize;
    if n > s.len() - p - 2 {
        return Err(NbtError::UnexpectedEof);
    }
    let start = p + 2;
    let mut bytes: Vec<u8> = Vec::new();
    let mut i: usize = 0;
    while i < n
        invariant
            i <= n,
            start + n <= s@.len(),
            s@.len() <= usize::MAX,
            bytes@ == s@.subrange(start as int, start + i),
        decreases n - i,
    {
        bytes.push(s[start + i]);
        i = i + 1;
        assert(bytes@ =~= s@.subrange(start as int, start + i));
    }
    assert(bytes@ == field(s@, start as int, n as int));
    match decode_utf8(bytes) {
        Some(t) => Ok((t, start + n)),
        None => Err(NbtError::InvalidUtf8),
    }
}

/// Reads the count of an array or list at `p`, which must be present.
fn count_at(s: &[u8], p: usize) -> (r: i32)
    requires
        p + 4 <= s@.len(),
    ensures
        r as int == int_at(s@, p as int, 4),
{
    be_i32(s, p)
}

/// Checks the count at `p` of an array of `w`-byte elements; on success,
/// gives the count.
fn array_header(s: &[u8], p: usize, w: usize) -> (r: Result<usize, NbtError>)
    requires
        w == 1 || w == 4 || w == 8,
    ensures
        match parse_array(s@, p as int, w as int) {
            Ok((xs, q)) => r is Ok && r->Ok_0 == xs.len() && q == p + 4 + r->Ok_0 * w
                && q <= s@.len(),
            Err(e) => r == Err::<usize, NbtError>(e),
        },
        r is Ok ==> p + 4 + r->Ok_0 * w <= s@.len(),
{
    if s.len() < 4 || p > s.len() - 4 {
        return Err(NbtError::UnexpectedEof);
    }
    let n = count_at(s, p);
    if n < 0 {
        return Err(NbtError::InvalidHeaderLength(n));
    }
    let avail = s.len() - p - 4;
    let n = n as usize;
    if n > avail / w {
        proof {
            assert(n * w > avail) by (nonlinear_arith)
                requires n > avail / w, w > 0;
            assert((avail / w) <= n) by (nonlinear_arith) requires n > avail / w;
        }
        return Err(NbtError::InvalidHeaderLength((avail / w) as i32));
    }
    proof {
        assert(n * w <= avail) by (nonlinear_arith)
            requires n <= avail / w, w > 0;
    }
    Ok(n)
}

fn byte_array_at(s: &[u8], p: usize) -> (r: Result<(Vec<i8>, usize), NbtError>)
    ensures
        agrees(r, parse_array(s@, p as int, 1), |v: Vec<i8>| ints_i8(v@)),
        r is Ok ==> p <= r->Ok_0.1 <= s@.len(),
{
    let len = s.len();
    let n = match array_header(s, p, 1) {
        Ok(n) => n,
        Err(e) => return Err(e),
    };
    let ghost g = parse_array(s@, p as int, 1);
    let mut out: Vec<i8> = Vec::new();
    let mut i: usize = 0;
    while i < n
        invariant
            i <= n,
            p + 4 + n <= s@.len(),
            s@.len() <= usize::MAX,
            out@.len() == i,
            forall|k: int| 0 <= k < i ==> out@[k] as int == #[trigger] int_at(s@, p + 4 + k * 1, 1),
        decreases n - i,
    {
        let b = s[p + 4 + i];
        proof {
            reveal_with_fuel(be_uint, 2);
            assert(field(s@, p + 4 + i, 1) =~= seq![b]);
            assert(field(s@, p + 4 + i, 1).subrange(0, 0) =~= Seq::<u8>::empty());
        }
        let x: i8 = if b >= 128 { (b as i16 - 256) as i8 } else { b as i8 };
        out.push(x);
        i = i + 1;
    }
    assert(ints_i8(out@) =~= g->Ok_0.0);
    Ok((out, p + 4 + n))
}

fn int_array_at(s: &[u8], p: usize) -> (r: Result<(Vec<i32>, usize), NbtError>)
    ensures
        agrees(r, parse_array(s@, p as int, 4), |v: Vec<i32>| ints_i32(v@)),
        r is Ok ==> p <= r->Ok_0.1 <= s@.len(),
{
    let len = s.len();
    let n = match array_header(s, p, 4) {
        Ok(n) => n,
        Err(e) => return Err(e),
    };
    let ghost g = parse_array(s@, p as int, 4);
    let mut out: Vec<i32> = Vec::new();
    let mut i: usize = 0;
    let mut pos: usize = p + 4;
    while i < n
        invariant
            i <= n,
            p + 4 + n * 4 <= s@.len(),
            s@.len() <= usize::MAX,
            pos == p + 4 + i * 4,
            out@.len() == i,
            forall|k: int| 0 <= k < i ==> out@[k] as int == #[trigger] int_at(s@, p + 4 + k * 4, 4),
        decreases n - i,
    {
        out.push(be_i32(s, pos));
        i = i + 1;
        pos = pos + 4;
    }
    assert(ints_i32(out@) =~= g->Ok_0.0);
    Ok((out, pos))
}

fn long_array_at(s: &[u8], p: usize) -> (r: Result<(Vec<i64>, usize), NbtError>)
    ensures
        agrees(r, parse_array(s@, p as int, 8), |v: Vec<i64>| ints_i64(v@)),
        r is Ok ==> p <= r->Ok_0.1 <= s@.len(),
{
    let len = s.len();
    let n = match array_header(s, p, 8) {
        Ok(n) => n,
        Err(e) => return Err(e),
    };
    let ghost g = parse_array(s@, p as int, 8);
    let mut out: Vec<i64> = Vec::new();
    let mut i: usize = 0;
    let mut pos: usize = p + 4;
    while i < n
        invariant
            i <= n,
            p + 4 + n * 8 <= s@.len(),
            s@.len() <= usize::MAX,
            pos == p + 4 + i * 8,
            out@.len() == i,
            forall|k: int| 0 <= k < i ==> out@[k] as int == #[trigger] int_at(s@, p + 4 + k * 8, 8),
        decreases n - i,
    {
        out.push(be_i64(s, pos));
        i = i + 1;
        pos = pos + 8;
    }
    assert(ints_i64(out@) =~= g->Ok_0.0);
    Ok((out, pos))
}

/// The signed value of one byte.
fn byte_at(s: &[u8], p: usize) -> (r: i8)
    requires
        p < s@.len(),
    ensures
        r as int == int_at(s@, p as int, 1),
{
    let b = s[p];
    proof {
        reveal_with_fuel(be_uint, 2);
        assert(field(s@, p as int, 1) =~= seq![b]);
        assert(field(s@, p as int, 1).subrange(0, 0) =~= Seq::<u8>::empty());
    }
    if b >= 128 {
        (b as i16 - 256) as i8
    } else {
        b as i8
    }
}

/// Reads the payload of a tag of type `t` at `p`.
fn payload_at(t: u8, s: &[u8], p: usize) -> (r: Result<(Tag, usize), NbtError>)
    requires
        p <= s@.len(),
    ensures
        agrees(r, parse_payload(t, s@, p as int), |x: Tag| x@),
        r is Ok ==> p <= r->Ok_0.1 <= s@.len(),
    decreases s@.len() - p, 1int, 0int,
{
    let len = s.len();
    if t == 0x00 {
        Ok((Tag::End, p))
    } else if t == 0x01 {
        if len - p < 1 {
            Err(NbtError::UnexpectedEof)
        } else {
            Ok((Tag::Byte(byte_at(s, p)), p + 1))
        }
    } else if t == 0x02 {
        if len - p < 2 {
            Err(NbtError::UnexpectedEof)
        } else {
            Ok((Tag::Short(be_i16(s, p)), p + 2))
        }
    } else if t == 0x03 {
        if len - p < 4 {
            Err(NbtError::UnexpectedEof)
        } else {
            Ok((Tag::Int(be_i32(s, p)), p + 4))
        }
    } else if t == 0x04 {
        if len - p < 8 {
            Err(NbtError::UnexpectedEof)
        } else {
            Ok((Tag::Long(be_i64(s, p)), p + 8))
        }
    } else if t == 0x05 {
        if len - p < 4 {
            Err(NbtError::UnexpectedEof)
        } else {
            Ok((Tag::Float(be_u32(s, p)), p + 4))
        }
    } else if t == 0x06 {
        if len - p < 8 {
            Err(NbtError::UnexpectedEof)
        } else {
            Ok((Tag::Double(be_u64(s, p)), p + 8))
        }
    } else if t == 0x07 {
        match byte_array_at(s, p) {
            Ok((v, q)) => Ok((Tag::ByteArray(v), q)),
            Err(e) => Err(e),
        }
    } else if t == 0x08 {
        match string_at(s, p) {
            Ok((v, q)) => Ok((Tag::String(v), q)),
            Err(e) => Err(e),
        }
    } else if t == 0x09 {
        if len - p < 5 {
            Err(NbtError::UnexpectedEof)
        } else {
            let element = s[p];
            let n = count_at(s, p + 1);
            if n < 0 {
                Err(NbtError::InvalidHeaderLength(n))
            } else {
                match list_at(element, n as usize, s, p + 5) {
                    Ok((v, q)) => Ok((Tag::List(v), q)),
                    Err(e) => Err(e),
                }
            }
        }
    } else if t == 0x0a {
        match compound_at(s, p) {
            Ok((v, q)) => Ok((Tag::Compound(v), q)),
            Err(e) => Err(e),
        }
    } else if t == 0x0b {
        match int_array_at(s, p) {
            Ok((v, q)) => Ok((Tag::IntArray(v), q)),
            Err(e) => Err(e),
        }
    } else if t == 0x0c {
        match long_array_at(s, p) {
            Ok((v, q)) => Ok((Tag::LongArray(v), q)),
            Err(e) => Err(e),
        }
    } else {
        Err(NbtError::InvalidTagType(t))
    }
}

/// Reads `n` list elements of type `t` at `p`.
fn list_at(t: u8, n: usize, s: &[u8], p: usize) -> (r: Result<(Vec<Tag>, usize), NbtError>)
    requires
        p <= s@.len(),
    ensures
        agrees(r, parse_list(t, n as nat, s@, p as int), |v: Vec<Tag>| tags_view(v@)),
        r is Ok ==> p <= r->Ok_0.1 <= s@.len(),
    decreases s@.len() - p, 2int, n,
{
    let mut out: Vec<Tag> = Vec::new();
    let mut pos = p;
    let mut i: usize = 0;
    assert(tags_view(out@) =~= Seq::<TagModel>::empty());
    assert(parse_list(t, n as nat, s@, p as int) =~= prepend(tags_view(out@), parse_list(t, (n - i) as nat, s@, pos as int)));
    while i < n
        invariant
            i <= n,
            p <= pos <= s@.len(),
            parse_list(t, n as nat, s@, p as int) == prepend(tags_view(out@), parse_list(t, (n - i) as nat, s@, pos as int)),
        decreases n - i,
    {
        if t > LAST_TYPE_ID {
            return Err(NbtError::UnexpectedElement(ContainerKind::List, t));
        }
        match payload_at(t, s, pos) {
            Err(e) => {
                return Err(e);
            },
            Ok((x, q)) => {
                let ghost before = out@;
                let ghost xv = x@;
                let ghost rest = parse_list(t, (n - i - 1) as nat, s@, q as int);
                out.push(x);
                proof {
                    assert(out@.subrange(0, out@.len() - 1) =~= before);
                    assert(tags_view(out@) == tags_view(before).push(xv));
                    assert(tags_view(before).push(xv) =~= tags_view(before) + seq![xv]);
                    match rest {
                        Ok((ys, r)) => {
                            assert(tags_view(before) + (seq![xv] + ys) =~= (tags_view(before) + seq![xv]) + ys);
                        },
                        Err(e) => {},
                    }
                }
                pos = q;
                i = i + 1;
            },
        }
    }
    assert(tags_view(out@) + Seq::<TagModel>::empty() =~= tags_view(out@));
    Ok((out, pos))
}

/// Reads the entries of a compound at `p`.
fn compound_at(s: &[u8], p: usize) -> (r: Result<(Vec<(String, Tag)>, usize), NbtError>)
    requires
        p <= s@.len(),
    ensures
        agrees(r, parse_compound(s@, p as int), |v: Vec<(String, Tag)>| entries_view(v@)),
        r is Ok ==> p <= r->Ok_0.1 <= s@.len(),
    decreases s@.len() - p, 0int, 0int,
{
    let len = s.len();
    let mut out: Vec<(String, Tag)> = Vec::new();
    let mut pos = p;
    assert(entries_view(out@) =~= Seq::<(Seq<char>, TagModel)>::empty());
    assert(parse_compound(s@, p as int) =~= prepend(entries_view(out@), parse_compound(s@, pos as int)));
    loop
        invariant
            len == s@.len(),
            p <= pos <= s@.len(),
            parse_compound(s@, p as int) == prepend(entries_view(out@), parse_compound(s@, pos as int)),
        decreases s@.len() - pos,
    {
        let ghost before = out@;
        if pos >= len {
            assert(entries_view(out@) + Seq::<(Seq<char>, TagModel)>::empty() =~= entries_view(out@));
            return Ok((out, pos));
        }
        let t = s[pos];
        if t == 0x00 {
            let empty = String::new();
            assert(empty@ == Seq::<char>::empty());
            out.push((empty, Tag::End));
            proof {
                assert(out@.subrange(0, out@.len() - 1) =~= before);
                assert(out@[out@.len() - 1].0@ == Seq::<char>::empty());
                assert(tag_view(out@[out@.len() - 1].1) == TagModel::End);
                assert(entries_view(out@) == entries_view(before).push((Seq::<char>::empty(), TagModel::End)));
                assert(entries_view(out@) =~= entries_view(before) + seq![(Seq::<char>::empty(), TagModel::End)]);
            }
            return Ok((out, pos + 1));
        }
        let (name, q1) = match string_at(s, pos + 1) {
            Ok(v) => v,
            Err(e) => {
                return Err(e);
            },
        };
        let (v, q2) = match payload_at(t, s, q1) {
            Ok(v) => v,
            Err(e) => {
                return Err(e);
            },
        };
        let ghost entry = (name@, v@);
        let ghost rest = parse_compound(s@, q2 as int);
        out.push((name, v));
        proof {
            assert(out@.subrange(0, out@.len() - 1) =~= before);
            assert(entries_view(out@) =~= entries_view(before) + seq![entry]);
            match rest {
                Ok((ys, r)) => {
                    assert(entries_view(before) + (seq![entry] + ys) =~= (entries_view(before) + seq![entry]) + ys);
                },
                Err(e) => {},
            }
        }
        pos = q2;
    }
}


/// A byte buffer and the position of the next byte to decode.
pub struct ByteReader {
    bytes: Vec<u8>,
    pos: usize,
}

impl ByteReader {
    /// The bytes being decoded.
    pub closed spec fn data(&self) -> Seq<u8> {
        self.bytes@
    }

    /// The position of the next byte to decode.
    pub closed spec fn offset(&self) -> int {
        self.pos as int
    }

    /// The position never passes the end of the bytes.
    pub closed spec fn wf(&self) -> bool {
        self.pos <= self.bytes@.len()
    }

    /// A reader at the start of `bytes`.
    pub fn new(bytes: Vec<u8>) -> (r: Self)
        ensures
            r.wf(),
            r.data() == bytes@,
            r.offset() == 0,
    {
        ByteReader { bytes, pos: 0 }
    }

    /// The position of the next byte to decode.
    pub fn position(&self) -> (r: usize)
        ensures
            r as int == self.offset(),
    {
        self.pos
    }
}

/// What a read from `before` that left `after` and returned `r` owes to the
/// grammar's outcome `g`: the bytes stay, a success carries the grammar's
/// value and moves the reader past it, a failure is the grammar's error.
pub open spec fn read_outcome(before: ByteReader, after: ByteReader, r: Result<Tag, NbtError>, g: Result<(TagModel, int), NbtError>) -> bool {
    &&& after.wf()
    &&& after.data() == before.data()
    &&& match g {
        Ok((m, q)) => r is Ok && r->Ok_0@ == m && after.offset() == q,
        Err(e) => r is Err && r->Err_0 == e,
    }
}

/// Reads the payload of a tag of type `t` and moves past it on success.
fn read_payload(reader: &mut ByteReader, t: u8) -> (r: Result<Tag, NbtError>)
    requires
        old(reader).wf(),
    ensures
        read_outcome(*old(reader), *final(reader), r, parse_payload(t, old(reader).data(), old(reader).offset())),
{
    match payload_at(t, reader.bytes.as_slice(), reader.pos) {
        Ok((tag, q)) => {
            reader.pos = q;
            Ok(tag)
        },
        Err(e) => Err(e),
    }
}

/// Reads the entries of a compound, up to and including its End entry, or
/// up to the end of the input where an entry would start.
pub fn read_compound(reader: &mut ByteReader) -> (r: Result<Tag, NbtError>)
    requires
        old(reader).wf(),
    ensures
        read_outcome(*old(reader), *final(reader), r, parse_payload(0x0a, old(reader).data(), old(reader).offset())),
{
    read_payload(reader, 0x0a)
}

/// Reads a signed byte.
pub fn read_byte(reader: &mut ByteReader) -> (r: Result<Tag, NbtError>)
    requires
        old(reader).wf(),
    ensures
        read_outcome(*old(reader), *final(reader), r, parse_payload(0x01, old(reader).data(), old(reader).offset())),
{
    read_payload(reader, 0x01)
}

/// Reads a big-endian signed 16 bit integer.
pub fn read_short(reader: &mut ByteReader) -> (r: Result<Tag, NbtError>)
    requires
        old(reader).wf(),
    ensures
        read_outcome(*old(reader), *final(reader), r, parse_payload(0x02, old(reader).data(), old(reader).offset())),
{
    read_payload(reader, 0x02)
}

/// Reads a big-endian signed 32 bit integer.
pub fn read_int(reader: &mut ByteReader) -> (r: Result<Tag, NbtError>)
    requires
        old(reader).wf(),
    ensures
        read_outcome(*old(reader), *final(reader), r, parse_payload(0x03, old(reader).data(), old(reader).offset())),
{
    read_payload(reader, 0x03)
}

/// Reads a big-endian signed 64 bit integer.
pub fn read_long(reader: &mut ByteReader) -> (r: Result<Tag, NbtError>)
    requires
        old(reader).wf(),
    ensures
        read_outcome(*old(reader), *final(reader), r, parse_payload(0x04, old(reader).data(), old(reader).offset())),
{
    read_payload(reader, 0x04)
}

/// Reads the big-endian bit pattern of a single-precision number.
pub fn read_float(reader: &mut ByteReader) -> (r: Result<Tag, NbtError>)
    requires
        old(reader).wf(),
    ensures
        read_outcome(*old(reader), *final(reader), r, parse_payload(0x05, old(reader).data(), old(reader).offset())),
{
    read_payload(reader, 0x05)
}

/// Reads the big-endian bit pattern of a double-precision number.
pub fn read_double(reader: &mut ByteReader) -> (r: Result<Tag, NbtError>)
    requires
        old(reader).wf(),
    ensures
        read_outcome(*old(reader), *final(reader), r, parse_payload(0x06, old(reader).data(), old(reader).offset())),
{
    read_payload(reader, 0x06)
}

/// Reads a count, then that many signed bytes.
pub fn read_byte_array(reader: &mut ByteReader) -> (r: Result<Tag, NbtError>)
    requires
        old(reader).wf(),
    ensures
        read_outcome(*old(reader), *final(reader), r, parse_payload(0x07, old(reader).data(), old(reader).offset())),
{
    read_payload(reader, 0x07)
}

/// Reads an unsigned 16 bit length, then that many bytes of UTF-8.
pub fn read_string(reader: &mut ByteReader) -> (r: Result<Tag, NbtError>)
    requires
        old(reader).wf(),
    ensures
        read_outcome(*old(reader), *final(reader), r, parse_payload(0x08, old(reader).data(), old(reader).offset())),
{
    read_payload(reader, 0x08)
}

/// Reads an element type, a count, then that many payloads of that type.
pub fn read_list(reader: &mut ByteReader) -> (r: Result<Tag, NbtError>)
    requires
        old(reader).wf(),
    ensures
        read_outcome(*old(reader), *final(reader), r, parse_payload(0x09, old(reader).data(), old(reader).offset())),
{
    read_payload(reader, 0x09)
}

/// Reads a count, then that many big-endian signed 32 bit integers.
pub fn read_int_array(reader: &mut ByteReader) -> (r: Result<Tag, NbtError>)
    requires
        old(reader).wf(),
    ensures
        read_outcome(*old(reader), *final(reader), r, parse_payload(0x0b, old(reader).data(), old(reader).offset())),
{
    read_payload(reader, 0x0b)
}

/// Reads a count, then that many big-endian signed 64 bit integers.
pub fn read_long_array(reader: &mut ByteReader) -> (r: Result<Tag, NbtError>)
    requires
        old(reader).wf(),
    ensures
        read_outcome(*old(reader), *final(reader), r, parse_payload(0x0c, old(reader).data(), old(reader).offset())),
{
    read_payload(reader, 0x0c)
}

/// A fully decoded file.
#[derive(Debug)]
pub struct NBTFile {
    pub compression: Compression,
    pub root: Tag,
}

/// Reads the root compound of a stream that holds no envelope.
fn root_of(d: &[u8]) -> (r: Result<Tag, NbtError>)
    ensures
        match parse_compound(d@, 0) {
            Ok((es, _q)) => r is Ok && r->Ok_0@ == TagModel::Compound(es),
            Err(e) => r is Err && r->Err_0 == e,
        },
{
    match compound_at(d, 0) {
        Ok((es, _q)) => Ok(Tag::Compound(es)),
        Err(e) => Err(e),
    }
}

/// Decodes a whole file: classifies its envelope by the first byte, removes
/// the envelope, and reads the root compound from the start of the stream.
pub fn read_file(bytes: &[u8]) -> (r: Result<NBTFile, NbtError>)
    ensures
        match parse_file(bytes@) {
            Ok((c, m)) => r is Ok && r->Ok_0.compression == c && r->Ok_0.root@ == m,
            Err(e) => r is Err && r->Err_0 == e,
        },
{
    if bytes.len() == 0 {
        return Err(NbtError::UnexpectedEof);
    }
    let compression = match Compression::from_byte(bytes[0]) {
        Some(c) => c,
        None => {
            return Err(NbtError::InvalidCompressionFormat(bytes[0]));
        },
    };
    let root = match compression {
        Compression::Uncompressed => root_of(bytes),
        Compression::Gzip => match inflate_gzip(bytes) {
            Some(d) => root_of(d.as_slice()),
            None => Err(NbtError::Decompression),
        },
        Compression::Zlib => match inflate_zlib(bytes) {
            Some(d) => root_of(d.as_slice()),
            None => Err(NbtError::Decompression),
        },
    };
    match root {
        Ok(root) => Ok(NBTFile { compression, root }),
        Err(e) => Err(e),
    }
}

} // verus!
