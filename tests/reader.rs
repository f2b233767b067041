use std::io::Write;

use nbt::errors::{ContainerKind, NbtError};
use nbt::{
    read_byte, read_byte_array, read_compound, read_double, read_file, read_float, read_int,
    read_int_array, read_list, read_long, read_long_array, read_short, read_string, ByteReader,
    Compression, Tag,
};

fn name(out: &mut Vec<u8>, s: &str) {
    out.extend_from_slice(&(s.len() as u16).to_be_bytes());
    out.extend_from_slice(s.as_bytes());
}

fn hello_world() -> Vec<u8> {
    let mut b = vec![0x0a];
    name(&mut b, "hello world");
    b.push(0x08);
    name(&mut b, "name");
    name(&mut b, "Bananrama");
    b.push(0x00);
    b
}

fn reader(bytes: Vec<u8>) -> ByteReader {
    ByteReader::new(bytes)
}

fn gzip(bytes: &[u8]) -> Vec<u8> {
    let mut enc = flate2::write::GzEncoder::new(Vec::new(), flate2::Compression::default());
    enc.write_all(bytes).unwrap();
    enc.finish().unwrap()
}

fn zlib(bytes: &[u8]) -> Vec<u8> {
    let mut enc = flate2::write::ZlibEncoder::new(Vec::new(), flate2::Compression::default());
    enc.write_all(bytes).unwrap();
    enc.finish().unwrap()
}

#[test]
fn test_reader() {
    let mut r = reader(hello_world());
    match read_compound(&mut r) {
        Ok(Tag::Compound(mut tags)) => {
            let (root_element, root_tag) = tags.pop().expect("Expected TAG_End");

            assert_eq!(root_element, String::from("hello world"));

            let (name_name, name_tag) = match root_tag {
                Tag::Compound(mut tags) => {
                    let end = tags.pop().map(|(_, b)| b).expect("TAG_End");
                    assert_eq!(Tag::End.type_id(), end.type_id());
                    tags.pop().expect("TAG_String")
                }
                _ => panic!("Child tag is not a Tag::Compound"),
            };

            if let Tag::String(value) = name_tag {
                assert_eq!(name_name, "name");
                assert_eq!(value, "Bananrama")
            } else {
                panic!("Failed to read \"name\" tag")
            }
        }
        Ok(tag) => panic!("Expected Tag::Compound, got Tag::{}", tag.type_label()),
        _ => panic!("Expected a Tag::Compound"),
    }
}

fn big_structure() -> Vec<u8> {
    let mut b = vec![0x0a];
    name(&mut b, "Level");
    b.push(0x04);
    name(&mut b, "longTest");
    b.extend_from_slice(&9223372036854775807i64.to_be_bytes());
    b.push(0x02);
    name(&mut b, "shortTest");
    b.extend_from_slice(&32767i16.to_be_bytes());
    b.push(0x08);
    name(&mut b, "stringTest");
    name(&mut b, "HELLO WORLD THIS IS A TEST STRING \u{c5}\u{c4}\u{d6}!");
    b.push(0x05);
    name(&mut b, "floatTest");
    b.extend_from_slice(&0.49823147f32.to_be_bytes());
    b.push(0x03);
    name(&mut b, "intTest");
    b.extend_from_slice(&2147483647i32.to_be_bytes());
    b.push(0x0a);
    name(&mut b, "nested compound test");
    b.push(0x0a);
    name(&mut b, "ham");
    b.push(0x08);
    name(&mut b, "name");
    name(&mut b, "Hampus");
    b.push(0x05);
    name(&mut b, "value");
    b.extend_from_slice(&0.75f32.to_be_bytes());
    b.push(0x00);
    b.push(0x00);
    b.push(0x09);
    name(&mut b, "listTest (long)");
    b.push(0x04);
    b.extend_from_slice(&5i32.to_be_bytes());
    for v in 11i64..16 {
        b.extend_from_slice(&v.to_be_bytes());
    }
    b.push(0x09);
    name(&mut b, "listTest (compound)");
    b.push(0x0a);
    b.extend_from_slice(&2i32.to_be_bytes());
    for i in 0i64..2 {
        b.push(0x04);
        name(&mut b, "created-on");
        b.extend_from_slice(&1264099775885i64.to_be_bytes());
        b.push(0x08);
        name(&mut b, "name");
        name(&mut b, &format!("Compound tag #{}", i));
        b.push(0x00);
    }
    b.push(0x01);
    name(&mut b, "byteTest");
    b.push(127);
    b.push(0x07);
    name(&mut b, "byteArrayTest");
    b.extend_from_slice(&1000i32.to_be_bytes());
    for n in 0u32..1000 {
        b.push(((n * n * 255 + n * 7) % 100) as u8);
    }
    b.push(0x06);
    name(&mut b, "doubleTest");
    b.extend_from_slice(&0.4931287132182315f64.to_be_bytes());
    b.push(0x00);
    b
}

#[test]
fn test_bigtest() {
    let file = read_file(&gzip(&big_structure())).expect("Failed to parse complex NBT structure");
    assert_eq!(file.compression, Compression::Gzip);
    match file.root {
        Tag::Compound(entries) => {
            assert_eq!(entries.len(), 1);
            assert_eq!(entries[0].0, "Level");
            match &entries[0].1 {
                Tag::Compound(level) => {
                    assert_eq!(level.len(), 12);
                    assert_eq!(level[0].1, Tag::Long(9223372036854775807));
                    assert_eq!(level[3].1, Tag::Float(0.49823147f32.to_bits()));
                    assert_eq!(level[11].1, Tag::End);
                    match &level[9].1 {
                        Tag::ByteArray(v) => {
                            assert_eq!(v.len(), 1000);
                            assert_eq!(v[1], 62);
                        }
                        other => panic!("unexpected {:?}", other),
                    }
                }
                other => panic!("unexpected {:?}", other),
            }
        }
        other => panic!("unexpected {:?}", other),
    }
}

#[test]
fn type_ids_and_labels_agree() {
    let tags = vec![
        Tag::End,
        Tag::Byte(1),
        Tag::Short(2),
        Tag::Int(3),
        Tag::Long(4),
        Tag::Float(1.0f32.to_bits()),
        Tag::Double(2.0f64.to_bits()),
        Tag::ByteArray(vec![1, 2]),
        Tag::String(String::from("x")),
        Tag::List(vec![Tag::End]),
        Tag::Compound(vec![(String::new(), Tag::End)]),
        Tag::IntArray(vec![1]),
        Tag::LongArray(vec![1]),
    ];
    let labels = [
        "End", "Byte", "Short", "Int", "Long", "Float", "Double", "ByteArray", "String", "List",
        "Compound", "IntArray", "LongArray",
    ];
    for (i, t) in tags.iter().enumerate() {
        assert_eq!(t.type_id() as usize, i);
        assert_eq!(t.type_label(), labels[i]);
    }
}

#[test]
fn compound_ends_with_end_entry() {
    let mut b = hello_world();
    b.push(0x00);
    let mut r = reader(b.clone());
    match read_compound(&mut r).unwrap() {
        Tag::Compound(entries) => {
            assert_eq!(entries.len(), 2);
            assert_eq!(entries[1], (String::new(), Tag::End));
        }
        other => panic!("unexpected {:?}", other),
    }
    assert_eq!(r.position(), b.len());
}

#[test]
fn compound_at_end_of_input_has_no_end_entry() {
    let mut r = reader(vec![]);
    assert_eq!(read_compound(&mut r), Ok(Tag::Compound(vec![])));
}

#[test]
fn list_has_declared_count_and_type() {
    let mut b = vec![0x02];
    b.extend_from_slice(&3i32.to_be_bytes());
    for v in [1i16, -2, 300] {
        b.extend_from_slice(&v.to_be_bytes());
    }
    let mut r = reader(b);
    assert_eq!(
        read_list(&mut r),
        Ok(Tag::List(vec![Tag::Short(1), Tag::Short(-2), Tag::Short(300)]))
    );
    assert_eq!(r.position(), 11);
}

#[test]
fn end_typed_list_decodes() {
    let mut b = vec![0x00];
    b.extend_from_slice(&3i32.to_be_bytes());
    let mut r = reader(b);
    assert_eq!(read_list(&mut r), Ok(Tag::List(vec![Tag::End, Tag::End, Tag::End])));
}

#[test]
fn negative_counts_fail() {
    let neg = (-2i32).to_be_bytes();
    let mut list = vec![0x01];
    list.extend_from_slice(&neg);
    assert_eq!(read_list(&mut reader(list)), Err(NbtError::InvalidHeaderLength(-2)));
    assert_eq!(read_byte_array(&mut reader(neg.to_vec())), Err(NbtError::InvalidHeaderLength(-2)));
    assert_eq!(read_int_array(&mut reader(neg.to_vec())), Err(NbtError::InvalidHeaderLength(-2)));
    assert_eq!(read_long_array(&mut reader(neg.to_vec())), Err(NbtError::InvalidHeaderLength(-2)));
}

#[test]
fn unknown_type_fails_when_nested() {
    let mut b = vec![0x0a];
    name(&mut b, "outer");
    b.push(0x0d);
    name(&mut b, "bad");
    b.push(0x00);
    b.push(0x00);
    assert_eq!(read_compound(&mut reader(b)), Err(NbtError::InvalidTagType(0x0d)));
}

#[test]
fn unknown_list_element_fails() {
    let mut b = vec![0x0d];
    b.extend_from_slice(&1i32.to_be_bytes());
    assert_eq!(
        read_list(&mut reader(b)),
        Err(NbtError::UnexpectedElement(ContainerKind::List, 0x0d))
    );
    assert_eq!(ContainerKind::List.name(), "List");
    assert_eq!(ContainerKind::ByteArray.name(), "ByteArray");
}

#[test]
fn string_length_is_unsigned() {
    let mut short = vec![0xff, 0xff];
    short.extend_from_slice(&[b'a'; 10]);
    assert_eq!(read_string(&mut reader(short)), Err(NbtError::UnexpectedEof));
    let mut full = vec![0xff, 0xff];
    full.extend_from_slice(&vec![b'a'; 65535]);
    match read_string(&mut reader(full)) {
        Ok(Tag::String(s)) => assert_eq!(s.len(), 65535),
        other => panic!("unexpected {:?}", other),
    }
}

#[test]
fn two_level_scenario_decodes() {
    let mut b = vec![0x0a, 0x00, 0x00, 0x0a];
    name(&mut b, "hello world");
    b.push(0x08);
    name(&mut b, "name");
    name(&mut b, "Bananrama");
    b.push(0x00);
    let tag = read_compound(&mut reader(b)).unwrap();
    let inner = Tag::Compound(vec![
        (String::from("name"), Tag::String(String::from("Bananrama"))),
        (String::new(), Tag::End),
    ]);
    let middle = Tag::Compound(vec![(String::from("hello world"), inner)]);
    assert_eq!(tag, Tag::Compound(vec![(String::new(), middle)]));
}

#[test]
fn compression_is_classified_by_first_byte() {
    assert_eq!(Compression::from_byte(0x1f), Some(Compression::Gzip));
    assert_eq!(Compression::from_byte(0x78), Some(Compression::Zlib));
    assert_eq!(Compression::from_byte(0x0a), Some(Compression::Uncompressed));
    assert_eq!(Compression::from_byte(0x00), None);
    assert_eq!(read_file(&[0x00, 0x01]).unwrap_err(), NbtError::InvalidCompressionFormat(0x00));
    assert_eq!(read_file(&[]).unwrap_err(), NbtError::UnexpectedEof);
}

#[test]
fn read_file_handles_each_envelope() {
    let raw = hello_world();
    let plain = read_file(&raw).unwrap();
    assert_eq!(plain.compression, Compression::Uncompressed);
    let z = read_file(&zlib(&raw)).unwrap();
    assert_eq!(z.compression, Compression::Zlib);
    assert_eq!(z.root, plain.root);
    let g = read_file(&gzip(&raw)).unwrap();
    assert_eq!(g.compression, Compression::Gzip);
    assert_eq!(g.root, plain.root);
    match g.root {
        Tag::Compound(entries) => assert_eq!(entries[0].0, "hello world"),
        other => panic!("unexpected {:?}", other),
    }
}

#[test]
fn corrupt_envelope_fails() {
    assert_eq!(read_file(&[0x1f, 0x00, 0x01, 0x02]).unwrap_err(), NbtError::Decompression);
    assert_eq!(read_file(&[0x78, 0x00, 0x01, 0x02]).unwrap_err(), NbtError::Decompression);
}

#[test]
fn short_list_fails() {
    let mut b = vec![0x03];
    b.extend_from_slice(&3i32.to_be_bytes());
    b.extend_from_slice(&7i32.to_be_bytes());
    b.extend_from_slice(&[0x00, 0x01]);
    assert_eq!(read_list(&mut reader(b)), Err(NbtError::UnexpectedEof));
}

#[test]
fn short_arrays_report_elements_present() {
    let mut b = 5i32.to_be_bytes().to_vec();
    b.extend_from_slice(&[1, 2, 3]);
    assert_eq!(read_byte_array(&mut reader(b)), Err(NbtError::InvalidHeaderLength(3)));
    let mut i = 3i32.to_be_bytes().to_vec();
    i.extend_from_slice(&[0, 0, 0, 1, 0, 0, 0, 2, 0]);
    assert_eq!(read_int_array(&mut reader(i)), Err(NbtError::InvalidHeaderLength(2)));
    let mut l = 2i32.to_be_bytes().to_vec();
    l.extend_from_slice(&[0; 15]);
    assert_eq!(read_long_array(&mut reader(l)), Err(NbtError::InvalidHeaderLength(1)));
}

#[test]
fn arrays_decode_big_endian() {
    let mut b = 2i32.to_be_bytes().to_vec();
    b.extend_from_slice(&[0x80, 0x7f]);
    assert_eq!(read_byte_array(&mut reader(b)), Ok(Tag::ByteArray(vec![-128, 127])));
    let mut i = 2i32.to_be_bytes().to_vec();
    i.extend_from_slice(&(-5i32).to_be_bytes());
    i.extend_from_slice(&0x01020304i32.to_be_bytes());
    assert_eq!(read_int_array(&mut reader(i)), Ok(Tag::IntArray(vec![-5, 0x01020304])));
    let mut l = 1i32.to_be_bytes().to_vec();
    l.extend_from_slice(&(-0x0102030405060708i64).to_be_bytes());
    assert_eq!(read_long_array(&mut reader(l)), Ok(Tag::LongArray(vec![-0x0102030405060708])));
}

#[test]
fn primitives_decode_big_endian() {
    assert_eq!(read_byte(&mut reader(vec![0xfe])), Ok(Tag::Byte(-2)));
    assert_eq!(read_short(&mut reader(vec![0x01, 0x02])), Ok(Tag::Short(0x0102)));
    assert_eq!(read_short(&mut reader(vec![0xff, 0xfe])), Ok(Tag::Short(-2)));
    assert_eq!(read_int(&mut reader(vec![0x00, 0x00, 0x01, 0x00])), Ok(Tag::Int(256)));
    assert_eq!(read_long(&mut reader(vec![0xff; 8])), Ok(Tag::Long(-1)));
    match read_float(&mut reader(1.5f32.to_be_bytes().to_vec())) {
        Ok(Tag::Float(bits)) => assert_eq!(f32::from_bits(bits), 1.5),
        other => panic!("unexpected {:?}", other),
    }
    match read_double(&mut reader((-0.25f64).to_be_bytes().to_vec())) {
        Ok(Tag::Double(bits)) => assert_eq!(f64::from_bits(bits), -0.25),
        other => panic!("unexpected {:?}", other),
    }
    assert_eq!(read_int(&mut reader(vec![0x00, 0x01])), Err(NbtError::UnexpectedEof));
}

#[test]
fn invalid_utf8_fails() {
    assert_eq!(read_string(&mut reader(vec![0x00, 0x02, 0xc3, 0x28])), Err(NbtError::InvalidUtf8));
    assert_eq!(
        read_string(&mut reader(vec![0x00, 0x02, 0xc3, 0xa9])),
        Ok(Tag::String(String::from("\u{e9}")))
    );
}

#[test]
fn compression_labels_round_trip() {
    for c in [Compression::Uncompressed, Compression::Gzip, Compression::Zlib] {
        assert_eq!(Compression::from_str(c.to_str()), Ok(c));
    }
    assert_eq!(Compression::Uncompressed.to_str(), "None");
    assert_eq!(Compression::from_str("gzip"), Err(NbtError::UnknownCompressionName));
}
