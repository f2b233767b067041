//! Decoder for the Named Binary Tag format.
//!
//! The decoder works on a byte buffer. Its behaviour is stated by the
//! grammar in [`grammar`], and every reader in [`read`] is proved to follow it.

pub mod errors;
pub mod tag;
pub mod wire;
pub mod grammar;
pub mod read;

pub use tag::Tag;
pub use tag::Compression;
pub use errors::NbtError;
pub use read::{ByteReader, NBTFile, read_file, read_compound, read_byte, read_short, read_int, read_long, read_float, read_double, read_byte_array, read_string, read_list, read_int_array, read_long_array};
