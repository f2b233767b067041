use vstd::prelude::*;

verus! {

/// The kind of container in which an element of the wrong type was met.
#[derive(Clone, Copy, Debug, PartialEq, Eq, Structural)]
pub enum ContainerKind {
    List,
    ByteArray,
}

impl ContainerKind {
    /// The name of the container, as used in messages.
    pub fn name(&self) -> (r: &'static str)
        ensures
            r@ == (match self {
                ContainerKind::List => "List"@,
                ContainerKind::ByteArray => "ByteArray"@,
            }),
    {
        match self {
            ContainerKind::List => "List",
            ContainerKind::ByteArray => "ByteArray",
        }
    }
}

/// Every way in which decoding can fail. Each failure ends the whole decode.
#[derive(Clone, Copy, Debug, PartialEq, Eq, Structural)]
pub enum NbtError {
    /// A compound entry carries a type id outside the format.
    InvalidTagType(u8),
    /// The first byte of a file names no known compression.
    InvalidCompressionFormat(u8),
    /// A container holds an element of a type it cannot hold.
    UnexpectedElement(ContainerKind, u8),
    /// A count is negative, or fewer elements are present than it declares;
    /// carries the negative count, or the number of elements present.
    InvalidHeaderLength(i32),
    /// The input ended inside a fixed-size field or a string.
    UnexpectedEof,
    /// A string's bytes are not valid UTF-8.
    InvalidUtf8,
    /// The compressed envelope could not be inflated.
    Decompression,
    /// A text names no known compression.
    UnknownCompressionName,
}

} // verus!
