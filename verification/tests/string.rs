use mc_protocol::bytes::{ByteReader, IoError};
use mc_protocol::mc_types::ext::{McReadExt, McWriteExt};
use mc_protocol::mc_types::{McIdentifier, McString, McStringError, McUUID, VarIntError};

fn encode(text: &str) -> Vec<u8> {
    let mut out = Vec::new();
    let count = McString::write_to(&mut out, text).unwrap();
    assert_eq!(count, out.len());
    out
}

#[test]
fn string_known_encoding() {
    assert_eq!(encode("Steve"), vec![5, b'S', b't', b'e', b'v', b'e']);
    assert_eq!(encode(""), vec![0]);
    assert_eq!(encode("é"), vec![2, 0xc3, 0xa9]);
}

#[test]
fn string_round_trip() {
    let long = "x".repeat(300);
    for text in ["", "localhost", "Steve", "héllo wörld", "日本語", "🦀 crab", long.as_str()] {
        let bytes = encode(text);
        let mut reader = ByteReader::new(&bytes);
        assert_eq!(McString::read_from(&mut reader), Ok(text.to_owned()));
        assert_eq!(reader.remaining(), 0);
    }
}

#[test]
fn string_long_prefix_has_two_bytes() {
    let bytes = encode(&"x".repeat(300));
    assert_eq!(&bytes[..2], &[0xac, 0x02]);
    assert_eq!(bytes.len(), 302);
}

#[test]
fn string_empty_takes_one_byte() {
    let data = [0u8, 7, 7];
    let mut reader = ByteReader::new(&data);
    assert_eq!(McString::read_from(&mut reader), Ok(String::new()));
    assert_eq!(reader.remaining(), 2);
}

#[test]
fn string_leaves_following_bytes() {
    let data = [2u8, b'h', b'i', 9, 9];
    let mut reader = ByteReader::new(&data);
    assert_eq!(reader.read_mc_string(), Ok("hi".to_owned()));
    assert_eq!(reader.peek(), &[9u8, 9][..]);
}

#[test]
fn string_length_beyond_input_fails() {
    let data = [5u8, b'a', b'b'];
    let mut reader = ByteReader::new(&data);
    assert_eq!(McString::read_from(&mut reader), Err(McStringError::LengthMismatch));
    assert_eq!(reader.remaining(), 3);
    let huge = [0xff, 0xff, 0xff, 0xff, 0x07, b'a'];
    assert_eq!(
        McString::read_from(&mut ByteReader::new(&huge)),
        Err(McStringError::LengthMismatch)
    );
}

#[test]
fn string_negative_length_fails() {
    let data = [0xff, 0xff, 0xff, 0xff, 0x0f, b'a'];
    assert_eq!(
        McString::read_from(&mut ByteReader::new(&data)),
        Err(McStringError::LengthMismatch)
    );
}

#[test]
fn string_invalid_utf8_fails() {
    let data = [2u8, 0xc3, 0x28];
    let mut reader = ByteReader::new(&data);
    assert_eq!(McString::read_from(&mut reader), Err(McStringError::Utf8));
    assert_eq!(reader.remaining(), 3);
    assert_eq!(McString::read_from(&mut ByteReader::new(&[1, 0xff])), Err(McStringError::Utf8));
}

#[test]
fn string_bad_prefix_fails() {
    assert_eq!(
        McString::read_from(&mut ByteReader::new(&[])),
        Err(McStringError::VarIntError(VarIntError::Io(IoError::UnexpectedEof)))
    );
    assert_eq!(
        McString::read_from(&mut ByteReader::new(&[0x80, 0x80, 0x80, 0x80, 0x80, 0x01])),
        Err(McStringError::VarIntError(VarIntError::VarIntTooLong))
    );
}

#[test]
fn identifier_with_namespace() {
    let id = McIdentifier::from_string("minecraft:stone").unwrap();
    assert_eq!(id.namespace, Some("minecraft".to_owned()));
    assert_eq!(id.name, "stone");
}

#[test]
fn identifier_without_namespace() {
    let id = McIdentifier::from_string("stone").unwrap();
    assert_eq!(id.namespace, None);
    assert_eq!(id.name, "stone");
}

#[test]
fn identifier_default_namespace_on_write() {
    let id = McIdentifier { namespace: None, name: "stone".to_owned() };
    assert_eq!(id.to_string(), "minecraft:stone");
    let id = McIdentifier { namespace: Some("zipperland".to_owned()), name: "steveland".to_owned() };
    assert_eq!(id.to_string(), "zipperland:steveland");
}

#[test]
fn identifier_edge_cases() {
    let id = McIdentifier::from_string("").unwrap();
    assert_eq!((id.namespace, id.name), (None, String::new()));
    let id = McIdentifier::from_string(":").unwrap();
    assert_eq!((id.namespace, id.name), (Some(String::new()), String::new()));
    let id = McIdentifier::from_string("a:").unwrap();
    assert_eq!((id.namespace, id.name), (Some("a".to_owned()), String::new()));
    let id = McIdentifier::from_string(":b").unwrap();
    assert_eq!((id.namespace, id.name), (Some(String::new()), "b".to_owned()));
    let id = McIdentifier::from_string("a:b:c").unwrap();
    assert_eq!((id.namespace, id.name), (Some("a".to_owned()), "b".to_owned()));
    let id = McIdentifier::from_string("wörld:bløck").unwrap();
    assert_eq!((id.namespace, id.name), (Some("wörld".to_owned()), "bløck".to_owned()));
}

#[test]
fn identifier_on_the_wire() {
    let mut out = Vec::new();
    let id = McIdentifier { namespace: None, name: "stone".to_owned() };
    assert_eq!(out.write_mc_identifier(&id), Ok(16));
    assert_eq!(out[0], 15);
    assert_eq!(&out[1..], b"minecraft:stone");
    let read = ByteReader::new(&out).read_mc_identifier().unwrap();
    assert_eq!(read, McIdentifier { namespace: Some("minecraft".to_owned()), name: "stone".to_owned() });
    assert_eq!(
        ByteReader::new(&[3, b'a']).read_mc_identifier(),
        Err(McStringError::LengthMismatch)
    );
}

#[test]
fn uuid_known_encoding() {
    let uuid = McUUID { most: 0x0102030405060708, least: 0x090a0b0c0d0e0f10 };
    let mut out = Vec::new();
    assert_eq!(McUUID::write_to(&mut out, &uuid), 16);
    assert_eq!(out, vec![1, 2, 3, 4, 5, 6, 7, 8, 9, 10, 11, 12, 13, 14, 15, 16]);
    let mut reader = ByteReader::new(&out);
    assert_eq!(McUUID::read_from(&mut reader), Ok(uuid));
    assert_eq!(reader.remaining(), 0);
}

#[test]
fn uuid_round_trip() {
    for &(most, least) in &[(0u64, 0u64), (64, 64), (u64::MAX, 0), (0, u64::MAX), (u64::MAX, u64::MAX), (0x8000000000000000, 1)] {
        let uuid = McUUID { most, least };
        let mut out = vec![0xaa];
        assert_eq!(out.write_mc_uuid(&uuid), 16);
        assert_eq!(out.len(), 17);
        let mut reader = ByteReader::new(&out[1..]);
        assert_eq!(reader.read_mc_uuid(), Ok(uuid));
    }
}

#[test]
fn uuid_short_input_fails_whole() {
    let data = [0u8; 15];
    let mut reader = ByteReader::new(&data);
    assert_eq!(McUUID::read_from(&mut reader), Err(IoError::UnexpectedEof));
    assert_eq!(reader.remaining(), 15);
}

#[test]
fn varint_through_the_extension() {
    let mut out = Vec::new();
    assert_eq!(out.write_mc_varint(758), 2);
    assert_eq!(out, vec![0xf6, 0x05]);
    assert_eq!(ByteReader::new(&out).read_mc_varint(), Ok(758));
}

#[test]
fn string_too_long_for_its_prefix_is_refused() {
    let text = String::from_utf8(vec![0u8; 0x8000_0000]).unwrap();
    let mut out = vec![1u8];
    assert_eq!(McString::write_to(&mut out, &text), Err(McStringError::LengthMismatch));
    assert_eq!(out.write_mc_string(&text), Err(McStringError::LengthMismatch));
    assert_eq!(out, vec![1]);
}

#[test]
fn string_demand() {
    assert_eq!(McString::demand(&[]), Ok(1));
    assert_eq!(McString::demand(&[0]), Ok(0));
    assert_eq!(McString::demand(&[3]), Ok(3));
    assert_eq!(McString::demand(&[3, b'a']), Ok(2));
    assert_eq!(McString::demand(&[3, b'a', b'b', b'c']), Ok(0));
    assert_eq!(McString::demand(&[0xac]), Ok(1));
    assert_eq!(McString::demand(&[0xac, 0x02]), Ok(300));
    assert_eq!(McString::demand(&[0xff, 0xff, 0xff, 0xff, 0x0f]), Err(McStringError::LengthMismatch));
    assert_eq!(
        McString::demand(&[0x80, 0x80, 0x80, 0x80, 0x80, 0x00]),
        Err(McStringError::VarIntError(VarIntError::VarIntTooLong))
    );
}
