use vstd::prelude::*;
use vstd::string::StringSliceAdditionalSpecFns;
use crate::errors::NbtError;

verus! {

broadcast use vstd::std_specs::vec::axiom_vec_decreases_to_view, vstd::seq::axiom_seq_index_decreases, vstd::seq::axiom_seq_subrange_decreases;

/// The compression envelope of an encoded file.
#[derive(Clone, Copy, Debug, PartialEq, Eq, Structural)]
pub enum Compression {
    Uncompressed,
    Gzip,
    Zlib,
}

/// The compression that a leading byte announces, if any.
pub open spec fn compression_of(b: u8) -> Option<Compression> {
    if b == 0x0a {
        Some(Compression::Uncompressed)
    } else if b == 0x1f {
        Some(Compression::Gzip)
    } else if b == 0x78 {
        Some(Compression::Zlib)
    } else {
        None
    }
}

pub open spec fn compression_label(c: Compression) -> Seq<char> {
    match c {
        Compression::Uncompressed => "None"@,
        Compression::Gzip => "Gzip"@,
        Compression::Zlib => "Zlib"@,
    }
}

/// The compression whose label has these UTF-8 bytes, if any.
pub open spec fn compression_named(b: Seq<u8>) -> Option<Compression> {
    if b == seq![0x4eu8, 0x6fu8, 0x6eu8, 0x65u8] {
        Some(Compression::Uncompressed)
    } else if b == seq![0x47u8, 0x7au8, 0x69u8, 0x70u8] {
        Some(Compression::Gzip)
    } else if b == seq![0x5au8, 0x6cu8, 0x69u8, 0x62u8] {
        Some(Compression::Zlib)
    } else {
        None
    }
}

impl Compression {
    /// A human-readable name of the compression.
    pub fn to_str(&self) -> (r: &'static str)
        ensures
            r@ == compression_label(*self),
    {
        match self {
            Compression::Uncompressed => "None",
            Compression::Gzip => "Gzip",
            Compression::Zlib => "Zlib",
        }
    }

    /// Classifies the leading byte of an encoded file.
    pub fn from_byte(value: u8) -> (r: Option<Self>)
        ensures
            r == compression_of(value),
    {
        match value {
            0x0a => Some(Compression::Uncompressed),
            0x1f => Some(Compression::Gzip),
            0x78 => Some(Compression::Zlib),
            _ => None,
        }
    }

    /// Parses a compression label, the inverse of `to_str`.
    pub fn from_str(s: &str) -> (r: Result<Self, NbtError>)
        ensures
            match compression_named(s.spec_bytes()) {
                Some(c) => r == Ok::<Compression, NbtError>(c),
                None => r == Err::<Compression, NbtError>(NbtError::UnknownCompressionName),
            },
    {
        let b = s.as_bytes();
        if b.len() != 4 {
            return Err(NbtError::UnknownCompressionName);
        }
        let (b0, b1, b2, b3) = (b[0], b[1], b[2], b[3]);
        assert(b@ =~= seq![b0, b1, b2, b3]);
        if b0 == 0x4e && b1 == 0x6f && b2 == 0x6e && b3 == 0x65 {
            Ok(Compression::Uncompressed)
        } else if b0 == 0x47 && b1 == 0x7a && b2 == 0x69 && b3 == 0x70 {
            Ok(Compression::Gzip)
        } else if b0 == 0x5a && b1 == 0x6c && b2 == 0x69 && b3 == 0x62 {
            Ok(Compression::Zlib)
        } else {
            Err(NbtError::UnknownCompressionName)
        }
    }
}

/// The mathematical value of a tag. Integers are held as `int`, floating
/// point numbers by their IEEE-754 bit pattern, text as characters.
pub enum TagModel {
    End,
    Byte(int),
    Short(int),
    Int(int),
    Long(int),
    Float(int),
    Double(int),
    ByteArray(Seq<int>),
    String(Seq<char>),
    List(Seq<TagModel>),
    Compound(Seq<(Seq<char>, TagModel)>),
    IntArray(Seq<int>),
    LongArray(Seq<int>),
}

/// The byte that identifies each kind of tag on the wire.
pub open spec fn id_of(t: TagModel) -> u8 {
    match t {
        TagModel::End => 0x00,
        TagModel::Byte(..) => 0x01,
        TagModel::Short(..) => 0x02,
        TagModel::Int(..) => 0x03,
        TagModel::Long(..) => 0x04,
        TagModel::Float(..) => 0x05,
        TagModel::Double(..) => 0x06,
        TagModel::ByteArray(..) => 0x07,
        TagModel::String(..) => 0x08,
        TagModel::List(..) => 0x09,
        TagModel::Compound(..) => 0x0a,
        TagModel::IntArray(..) => 0x0b,
        TagModel::LongArray(..) => 0x0c,
    }
}

/// The label of each type id of the format.
pub open spec fn label_of_id(id: u8) -> Seq<char> {
    if id == 0x00 { "End"@ }
    else if id == 0x01 { "Byte"@ }
    else if id == 0x02 { "Short"@ }
    else if id == 0x03 { "Int"@ }
    else if id == 0x04 { "Long"@ }
    else if id == 0x05 { "Float"@ }
    else if id == 0x06 { "Double"@ }
    else if id == 0x07 { "ByteArray"@ }
    else if id == 0x08 { "String"@ }
    else if id == 0x09 { "List"@ }
    else if id == 0x0a { "Compound"@ }
    else if id == 0x0b { "IntArray"@ }
    else { "LongArray"@ }
}

/// The human-readable label of a tag's kind.
pub open spec fn label_of(t: TagModel) -> Seq<char> {
    match t {
        TagModel::End => "End"@,
        TagModel::Byte(..) => "Byte"@,
        TagModel::Short(..) => "Short"@,
        TagModel::Int(..) => "Int"@,
        TagModel::Long(..) => "Long"@,
        TagModel::Float(..) => "Float"@,
        TagModel::Double(..) => "Double"@,
        TagModel::ByteArray(..) => "ByteArray"@,
        TagModel::String(..) => "String"@,
        TagModel::List(..) => "List"@,
        TagModel::Compound(..) => "Compound"@,
        TagModel::IntArray(..) => "IntArray"@,
        TagModel::LongArray(..) => "LongArray"@,
    }
}

/// Every tag's id lies in the format's range, and its label is the one that
/// the table of ids gives for that id: the two views of a tag's kind agree.
pub proof fn lemma_type_id_name_agree(t: TagModel)
    ensures
        id_of(t) <= 0x0c,
        label_of_id(id_of(t)) == label_of(t),
{
}

/// A decoded value of the format. `Float` and `Double` hold the IEEE-754 bit
/// pattern of the number; `f32::from_bits` and `f64::from_bits` give it back.
#[derive(Debug, PartialEq)]
pub enum Tag {
    /// Marks the end of a Compound; also the element of an End-typed List.
    End,
    Byte(i8),
    Short(i16),
    Int(i32),
    Long(i64),
    /// Bit pattern of an IEEE-754 single-precision number.
    Float(u32),
    /// Bit pattern of an IEEE-754 double-precision number.
    Double(u64),
    ByteArray(Vec<i8>),
    /// UTF-8 text, prefixed on the wire by an unsigned 16 bit length.
    String(String),
    /// Unnamed tags of one kind.
    List(Vec<Tag>),
    /// Named tags of any kind, ending with an End entry when the input held one.
    Compound(Vec<(String, Tag)>),
    IntArray(Vec<i32>),
    LongArray(Vec<i64>),
}

pub open spec fn ints_i8(v: Seq<i8>) -> Seq<int> {
    v.map_values(|x: i8| x as int)
}

pub open spec fn ints_i32(v: Seq<i32>) -> Seq<int> {
    v.map_values(|x: i32| x as int)
}

pub open spec fn ints_i64(v: Seq<i64>) -> Seq<int> {
    v.map_values(|x: i64| x as int)
}

/// The models of a sequence of tags.
pub open spec fn tags_view(s: Seq<Tag>) -> Seq<TagModel>
    decreases s,
{
    if s.len() == 0 {
        Seq::empty()
    } else {
        tags_view(s.subrange(0, s.len() - 1)).push(tag_view(s[s.len() - 1]))
    }
}

/// The models of a sequence of named tags.
pub open spec fn entries_view(s: Seq<(String, Tag)>) -> Seq<(Seq<char>, TagModel)>
    decreases s,
{
    if s.len() == 0 {
        Seq::empty()
    } else {
        entries_view(s.subrange(0, s.len() - 1)).push(
            (s[s.len() - 1].0@, tag_view(s[s.len() - 1].1)),
        )
    }
}

/// The model of a tag.
pub open spec fn tag_view(t: Tag) -> TagModel
    decreases t,
{
    match t {
        Tag::End => TagModel::End,
        Tag::Byte(x) => TagModel::Byte(x as int),
        Tag::Short(x) => TagModel::Short(x as int),
        Tag::Int(x) => TagModel::Int(x as int),
        Tag::Long(x) => TagModel::Long(x as int),
        Tag::Float(x) => TagModel::Float(x as int),
        Tag::Double(x) => TagModel::Double(x as int),
        Tag::ByteArray(v) => TagModel::ByteArray(ints_i8(v@)),
        Tag::String(s) => TagModel::String(s@),
        Tag::List(v) => TagModel::List(tags_view(v@)),
        Tag::Compound(v) => TagModel::Compound(entries_view(v@)),
        Tag::IntArray(v) => TagModel::IntArray(ints_i32(v@)),
        Tag::LongArray(v) => TagModel::LongArray(ints_i64(v@)),
    }
}

impl View for Tag {
    type V = TagModel;

    open spec fn view(&self) -> TagModel {
        tag_view(*self)
    }
}

impl Tag {
    /// A human-readable name for the kind of the tag.
    pub fn type_label(&self) -> (r: &'static str)
        ensures
            r@ == label_of(self@),
    {
        match self {
            Tag::End => "End",
            Tag::Byte(..) => "Byte",
            Tag::Short(..) => "Short",
            Tag::Int(..) => "Int",
            Tag::Long(..) => "Long",
            Tag::Float(..) => "Float",
            Tag::Double(..) => "Double",
            Tag::ByteArray(..) => "ByteArray",
            Tag::String(..) => "String",
            Tag::List(..) => "List",
            Tag::Compound(..) => "Compound",
            Tag::IntArray(..) => "IntArray",
            Tag::LongArray(..) => "LongArray",
        }
    }

    /// The byte that identifies the kind of the tag on the wire.
    pub fn type_id(&self) -> (r: u8)
        ensures
            r == id_of(self@),
    {
        match self {
            Tag::End => 0x00,
            Tag::Byte(..) => 0x01,
            Tag::Short(..) => 0x02,
            Tag::Int(..) => 0x03,
            Tag::Long(..) => 0x04,
            Tag::Float(..) => 0x05,
            Tag::Double(..) => 0x06,
            Tag::ByteArray(..) => 0x07,
            Tag::String(..) => 0x08,
            Tag::List(..) => 0x09,
            Tag::Compound(..) => 0x0a,
            Tag::IntArray(..) => 0x0b,
            Tag::LongArray(..) => 0x0c,
        }
    }
}

} // verus!
