//! The wire grammar, as spec functions from an input and a position to a
//! decoded value and the position after it, or to the error that ends the
//! decode.
//!
//! Every parse that succeeds ends between its start and the end of the input
//! (the readers in `read` prove this in their `ensures`). The tests of returned
//! positions below therefore never fail; they make the decrease of each
//! recursion evident.

use vstd::prelude::*;
use crate::errors::{ContainerKind, NbtError};
use crate::tag::{TagModel, Compression, compression_of, id_of};
use crate::wire::{be_uint, signed, field, utf8_text, gzip_inflated, zlib_inflated};

verus! {

/// The largest type id of the format.
pub const LAST_TYPE_ID: u8 = 0x0c;

/// Half the range of a two's complement integer of `w` bytes.
pub open spec fn half_of(w: int) -> int {
    if w == 1 {
        0x80
    } else if w == 2 {
        0x8000
    } else if w == 4 {
        0x8000_0000
    } else {
        0x8000_0000_0000_0000
    }
}

/// The signed big-endian integer of `w` bytes at `p`.
pub open spec fn int_at(s: Seq<u8>, p: int, w: int) -> int {
    signed(be_uint(field(s, p, w)) as int, half_of(w))
}

/// Puts `xs` in front of the items of a successful parse.
pub open spec fn prepend<A>(xs: Seq<A>, r: Result<(Seq<A>, int), NbtError>) -> Result<(Seq<A>, int), NbtError> {
    match r {
        Ok((ys, q)) => Ok((xs + ys, q)),
        Err(e) => Err(e),
    }
}

/// A string: an unsigned 16 bit length, then that many bytes of UTF-8.
pub open spec fn parse_string(s: Seq<u8>, p: int) -> Result<(Seq<char>, int), NbtError> {
    if p + 2 > s.len() {
        Err(NbtError::UnexpectedEof)
    } else {
        let n = be_uint(field(s, p, 2)) as int;
        if p + 2 + n > s.len() {
            Err(NbtError::UnexpectedEof)
        } else {
            match utf8_text(field(s, p + 2, n)) {
                Some(t) => Ok((t, p + 2 + n)),
                None => Err(NbtError::InvalidUtf8),
            }
        }
    }
}

/// An array: a signed 32 bit count, then that many signed integers of `w`
/// bytes each. A negative count, or fewer elements than it declares, is a
/// header-length error.
pub open spec fn parse_array(s: Seq<u8>, p: int, w: int) -> Result<(Seq<int>, int), NbtError> {
    if p + 4 > s.len() {
        Err(NbtError::UnexpectedEof)
    } else {
        let n = int_at(s, p, 4);
        if n < 0 {
            Err(NbtError::InvalidHeaderLength(n as i32))
        } else if p + 4 + n * w > s.len() {
            Err(NbtError::InvalidHeaderLength(((s.len() - (p + 4)) / w) as i32))
        } else {
            Ok((Seq::new(n as nat, |i: int| int_at(s, p + 4 + i * w, w)), p + 4 + n * w))
        }
    }
}

/// The payload of a tag of type `t` at `p`.
pub open spec fn parse_payload(t: u8, s: Seq<u8>, p: int) -> Result<(TagModel, int), NbtError>
    decreases s.len() - p, 1int, 0int,
{
    if t == 0x00 {
        Ok((TagModel::End, p))
    } else if t == 0x01 {
        if p + 1 > s.len() { Err(NbtError::UnexpectedEof) } else { Ok((TagModel::Byte(int_at(s, p, 1)), p + 1)) }
    } else if t == 0x02 {
        if p + 2 > s.len() { Err(NbtError::UnexpectedEof) } else { Ok((TagModel::Short(int_at(s, p, 2)), p + 2)) }
    } else if t == 0x03 {
        if p + 4 > s.len() { Err(NbtError::UnexpectedEof) } else { Ok((TagModel::Int(int_at(s, p, 4)), p + 4)) }
    } else if t == 0x04 {
        if p + 8 > s.len() { Err(NbtError::UnexpectedEof) } else { Ok((TagModel::Long(int_at(s, p, 8)), p + 8)) }
    } else if t == 0x05 {
        if p + 4 > s.len() {
            Err(NbtError::UnexpectedEof)
        } else {
            Ok((TagModel::Float(be_uint(field(s, p, 4)) as int), p + 4))
        }
    } else if t == 0x06 {
        if p + 8 > s.len() {
            Err(NbtError::UnexpectedEof)
        } else {
            Ok((TagModel::Double(be_uint(field(s, p, 8)) as int), p + 8))
        }
    } else if t == 0x07 {
        match parse_array(s, p, 1) {
            Ok((xs, q)) => Ok((TagModel::ByteArray(xs), q)),
            Err(e) => Err(e),
        }
    } else if t == 0x08 {
        match parse_string(s, p) {
            Ok((x, q)) => Ok((TagModel::String(x), q)),
            Err(e) => Err(e),
        }
    } else if t == 0x09 {
        if p + 5 > s.len() {
            Err(NbtError::UnexpectedEof)
        } else {
            let n = int_at(s, p + 1, 4);
            if n < 0 {
                Err(NbtError::InvalidHeaderLength(n as i32))
            } else {
                match parse_list(s[p], n as nat, s, p + 5) {
                    Ok((xs, q)) => Ok((TagModel::List(xs), q)),
                    Err(e) => Err(e),
                }
            }
        }
    } else if t == 0x0a {
        match parse_compound(s, p) {
            Ok((es, q)) => Ok((TagModel::Compound(es), q)),
            Err(e) => Err(e),
        }
    } else if t == 0x0b {
        match parse_array(s, p, 4) {
            Ok((xs, q)) => Ok((TagModel::IntArray(xs), q)),
            Err(e) => Err(e),
        }
    } else if t == 0x0c {
        match parse_array(s, p, 8) {
            Ok((xs, q)) => Ok((TagModel::LongArray(xs), q)),
            Err(e) => Err(e),
        }
    } else {
        Err(NbtError::InvalidTagType(t))
    }
}

/// `n` list elements of type `t` at `p`, with no framing between them.
pub open spec fn parse_list(t: u8, n: nat, s: Seq<u8>, p: int) -> Result<(Seq<TagModel>, int), NbtError>
    decreases s.len() - p, 2int, n,
{
    if n == 0 {
        Ok((Seq::empty(), p))
    } else if t > LAST_TYPE_ID {
        Err(NbtError::UnexpectedElement(ContainerKind::List, t))
    } else {
        match parse_payload(t, s, p) {
            Err(e) => Err(e),
            Ok((x, q)) => {
                if q < p || q > s.len() {
                    Err(NbtError::UnexpectedEof)
                } else {
                    prepend(seq![x], parse_list(t, (n - 1) as nat, s, q))
                }
            },
        }
    }
}

/// The entries of a compound at `p`: named tags up to and including an End
/// entry. Input that ends where an entry would start ends the compound too,
/// without an End entry.
pub open spec fn parse_compound(s: Seq<u8>, p: int) -> Result<(Seq<(Seq<char>, TagModel)>, int), NbtError>
    decreases s.len() - p, 0int, 0int,
{
    if p < 0 || p >= s.len() {
        Ok((Seq::empty(), p))
    } else if s[p] == 0x00 {
        Ok((seq![(Seq::<char>::empty(), TagModel::End)], p + 1))
    } else {
        match parse_string(s, p + 1) {
            Err(e) => Err(e),
            Ok((name, q1)) => {
                if q1 <= p || q1 > s.len() {
                    Err(NbtError::UnexpectedEof)
                } else {
                    match parse_payload(s[p], s, q1) {
                        Err(e) => Err(e),
                        Ok((v, q2)) => {
                            if q2 <= p || q2 > s.len() {
                                Err(NbtError::UnexpectedEof)
                            } else {
                                prepend(seq![(name, v)], parse_compound(s, q2))
                            }
                        },
                    }
                }
            },
        }
    }
}

/// The bytes that the tag stream is read from, once the envelope is removed.
pub open spec fn unwrapped(b: Seq<u8>, c: Compression) -> Option<Seq<u8>> {
    match c {
        Compression::Uncompressed => Some(b),
        Compression::Gzip => gzip_inflated(b),
        Compression::Zlib => zlib_inflated(b),
    }
}

/// A whole file: the envelope that its first byte announces, and the root
/// compound read from the start of the unwrapped stream.
pub open spec fn parse_file(b: Seq<u8>) -> Result<(Compression, TagModel), NbtError> {
    if b.len() == 0 {
        Err(NbtError::UnexpectedEof)
    } else {
        match compression_of(b[0]) {
            None => Err(NbtError::InvalidCompressionFormat(b[0])),
            Some(c) => match unwrapped(b, c) {
                None => Err(NbtError::Decompression),
                Some(d) => match parse_compound(d, 0) {
                    Ok((es, _q)) => Ok((c, TagModel::Compound(es))),
                    Err(e) => Err(e),
                },
            },
        }
    }
}


/// The position of the count in a list or array payload at `p`.
pub open spec fn count_pos(t: u8, p: int) -> int {
    if t == 0x09 {
        p + 1
    } else {
        p
    }
}

/// Decoding a compound either stops at an End entry, which is then the last
/// entry and has an empty name, or stops exactly at the end of the input.
pub proof fn lemma_compound_ends_with_end(s: Seq<u8>, p: int)
    requires
        0 <= p <= s.len(),
        parse_compound(s, p) is Ok,
    ensures
        ({
            let (es, q) = parse_compound(s, p)->Ok_0;
            (es.len() > 0 && es.last() == (Seq::<char>::empty(), TagModel::End)) || q == s.len()
        }),
    decreases s.len() - p,
{
    if p < s.len() && s[p] != 0x00 {
        let (_name, q1) = parse_string(s, p + 1)->Ok_0;
        let (_v, q2) = parse_payload(s[p], s, q1)->Ok_0;
        lemma_compound_ends_with_end(s, q2);
    }
}

/// A payload of type `t` that decodes is a tag of type `t`.
pub proof fn lemma_payload_type(t: u8, s: Seq<u8>, p: int)
    requires
        parse_payload(t, s, p) is Ok,
    ensures
        id_of(parse_payload(t, s, p)->Ok_0.0) == t,
{
}

/// `n` list elements of type `t` that decode are `n` tags of type `t`.
pub proof fn lemma_list_elements(t: u8, n: nat, s: Seq<u8>, p: int)
    requires
        parse_list(t, n, s, p) is Ok,
    ensures
        parse_list(t, n, s, p)->Ok_0.0.len() == n,
        forall|i: int| 0 <= i < n ==> id_of(#[trigger] parse_list(t, n, s, p)->Ok_0.0[i]) == t,
    decreases n,
{
    if n > 0 {
        let (x, q) = parse_payload(t, s, p)->Ok_0;
        lemma_payload_type(t, s, p);
        lemma_list_elements(t, (n - 1) as nat, s, q);
    }
}

/// A list that decodes has exactly as many elements as its count declares,
/// each of the element type that it declares.
pub proof fn lemma_list_shape(s: Seq<u8>, p: int)
    requires
        parse_payload(0x09, s, p) is Ok,
    ensures
        match parse_payload(0x09, s, p)->Ok_0.0 {
            TagModel::List(xs) => xs.len() == int_at(s, p + 1, 4)
                && forall|i: int| 0 <= i < xs.len() ==> id_of(#[trigger] xs[i]) == s[p],
            _ => false,
        },
{
    lemma_list_elements(s[p], int_at(s, p + 1, 4) as nat, s, p + 5);
}

/// A negative count of a list or array always fails with a header-length
/// error that carries the count.
pub proof fn lemma_negative_count_fails(t: u8, s: Seq<u8>, p: int)
    requires
        t == 0x07 || t == 0x09 || t == 0x0b || t == 0x0c,
        count_pos(t, p) + 4 <= s.len(),
        int_at(s, count_pos(t, p), 4) < 0,
    ensures
        parse_payload(t, s, p) == Err::<(TagModel, int), NbtError>(
            NbtError::InvalidHeaderLength(int_at(s, count_pos(t, p), 4) as i32),
        ),
{
}

/// A compound entry whose type id lies outside the format fails with that id,
/// once its name has been read.
pub proof fn lemma_unknown_type_fails(s: Seq<u8>, p: int)
    requires
        0 <= p < s.len(),
        s[p] > LAST_TYPE_ID,
        parse_string(s, p + 1) is Ok,
    ensures
        parse_compound(s, p) == Err::<(Seq<(Seq<char>, TagModel)>, int), NbtError>(
            NbtError::InvalidTagType(s[p]),
        ),
{
    let q1 = parse_string(s, p + 1)->Ok_0.1;
    assert(p < q1 <= s.len());
    assert(parse_payload(s[p], s, q1) == Err::<(TagModel, int), NbtError>(NbtError::InvalidTagType(s[p])));
}

/// A string's length is unsigned: the prefix `0xFF 0xFF` asks for 65535
/// bytes, not for -1.
pub proof fn lemma_string_length_unsigned(s: Seq<u8>, p: int)
    requires
        0 <= p,
        p + 2 <= s.len(),
        s[p] == 0xff,
        s[p + 1] == 0xff,
    ensures
        be_uint(field(s, p, 2)) == 65535,
        p + 2 + 65535 > s.len() ==> parse_string(s, p) == Err::<(Seq<char>, int), NbtError>(
            NbtError::UnexpectedEof,
        ),
        parse_string(s, p) is Ok ==> parse_string(s, p)->Ok_0.1 == p + 2 + 65535,
{
    let f = field(s, p, 2);
    assert(f.subrange(0, 1) =~= seq![0xffu8]);
    assert(f.subrange(0, 1).subrange(0, 0) =~= Seq::<u8>::empty());
    reveal_with_fuel(be_uint, 3);
}

} // verus!
