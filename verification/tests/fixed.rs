use mc_protocol::bytes::{put_slice, same_bytes, ByteReader, IoError};
use mc_protocol::mc_types::ext::{McReadExt, McWriteExt};
use mc_protocol::mc_types::{Int, Long, MinecraftType, Short, UnsignedShort};

#[test]
fn reader_reads_in_order() {
    let data = [1u8, 2, 3, 4, 5];
    let mut reader = ByteReader::new(&data);
    assert_eq!(reader.remaining(), 5);
    assert_eq!(reader.read_u8(), Ok(1));
    assert_eq!(reader.read_exact(2), Ok(&[2u8, 3][..]));
    assert_eq!(reader.peek(), &[4u8, 5][..]);
    reader.advance(1);
    assert_eq!(reader.read_u8(), Ok(5));
    assert_eq!(reader.read_u8(), Err(IoError::UnexpectedEof));
    assert_eq!(reader.remaining(), 0);
}

#[test]
fn reader_short_read_takes_nothing() {
    let data = [1u8, 2];
    let mut reader = ByteReader::new(&data);
    assert_eq!(reader.read_exact(3), Err(IoError::UnexpectedEof));
    assert_eq!(reader.remaining(), 2);
    assert_eq!(reader.read_exact(0), Ok(&[][..]));
}

#[test]
fn put_slice_appends() {
    let mut out = vec![9u8];
    put_slice(&mut out, &[1, 2, 3]);
    assert_eq!(out, vec![9, 1, 2, 3]);
}

#[test]
fn short_is_big_endian() {
    let mut out = Vec::new();
    Short(0x1234).write_to(&mut out);
    Short(-2).write_to(&mut out);
    assert_eq!(out, vec![0x12, 0x34, 0xff, 0xfe]);
    let mut reader = ByteReader::new(&out);
    assert_eq!(Short::read_from(&mut reader), 0x1234);
    assert_eq!(Short::read_from(&mut reader), -2);
    assert_eq!(reader.remaining(), 0);
}

#[test]
fn unsigned_short_is_big_endian() {
    let mut out = Vec::new();
    UnsignedShort(25565).write_to(&mut out);
    assert_eq!(out, vec![0x63, 0xdd]);
    let mut reader = ByteReader::new(&out);
    assert_eq!(UnsignedShort::read_from(&mut reader), 25565);
}

#[test]
fn int_is_big_endian() {
    let mut out = Vec::new();
    Int(24).write_to(&mut out);
    Int(-1).write_to(&mut out);
    Int(0x01020304).write_to(&mut out);
    assert_eq!(out, vec![0, 0, 0, 24, 0xff, 0xff, 0xff, 0xff, 1, 2, 3, 4]);
    let mut reader = ByteReader::new(&out);
    assert_eq!(Int::read_from(&mut reader), 24);
    assert_eq!(Int::read_from(&mut reader), -1);
    assert_eq!(Int::read_from(&mut reader), 0x01020304);
}

#[test]
fn long_is_big_endian() {
    let mut out = Vec::new();
    Long(56717237888581).write_to(&mut out);
    Long(i64::MIN).write_to(&mut out);
    assert_eq!(
        out,
        vec![0x00, 0x00, 0x33, 0x95, 0x82, 0xd1, 0x26, 0x45, 0x80, 0, 0, 0, 0, 0, 0, 0]
    );
    let mut reader = ByteReader::new(&out);
    assert_eq!(Long::read_from(&mut reader), 56717237888581);
    assert_eq!(Long::read_from(&mut reader), i64::MIN);
}

#[test]
fn fixed_round_trip_extremes() {
    for &v in &[i16::MIN, -1, 0, 1, i16::MAX] {
        let mut out = Vec::new();
        assert_eq!(out.write_mc_short(v), 2);
        assert_eq!(ByteReader::new(&out).read_mc_short(), Ok(v));
    }
    for &v in &[0u16, 1, 0x8000, u16::MAX] {
        let mut out = Vec::new();
        assert_eq!(out.write_mc_ushort(v), 2);
        assert_eq!(ByteReader::new(&out).read_mc_ushort(), Ok(v));
    }
    for &v in &[i32::MIN, -1, 0, 1, i32::MAX] {
        let mut out = Vec::new();
        assert_eq!(out.write_mc_int(v), 4);
        assert_eq!(ByteReader::new(&out).read_mc_int(), Ok(v));
    }
    for &v in &[i64::MIN, -1, 0, 1, i64::MAX] {
        let mut out = Vec::new();
        assert_eq!(out.write_mc_long(v), 8);
        assert_eq!(ByteReader::new(&out).read_mc_long(), Ok(v));
    }
}

#[test]
fn bool_and_bytes() {
    let mut out = Vec::new();
    assert_eq!(out.write_mc_bool(true), 1);
    assert_eq!(out.write_mc_bool(false), 1);
    assert_eq!(out.write_mc_byte(-1), 1);
    assert_eq!(out.write_mc_byte(127), 1);
    assert_eq!(out.write_mc_ubyte(200), 1);
    assert_eq!(out, vec![1, 0, 0xff, 0x7f, 200]);
    let mut reader = ByteReader::new(&out);
    assert_eq!(reader.read_mc_bool(), Ok(true));
    assert_eq!(reader.read_mc_bool(), Ok(false));
    assert_eq!(reader.read_mc_byte(), Ok(-1));
    assert_eq!(reader.read_mc_byte(), Ok(127));
    assert_eq!(reader.read_mc_ubyte(), Ok(200));
    assert_eq!(reader.read_mc_ubyte(), Err(IoError::UnexpectedEof));
}

#[test]
fn any_nonzero_byte_is_true() {
    assert_eq!(ByteReader::new(&[0x02]).read_mc_bool(), Ok(true));
    assert_eq!(ByteReader::new(&[0xff]).read_mc_bool(), Ok(true));
    assert_eq!(ByteReader::new(&[]).read_mc_bool(), Err(IoError::UnexpectedEof));
}

#[test]
fn fixed_reads_fail_whole() {
    let data = [1u8, 2, 3];
    let mut reader = ByteReader::new(&data);
    assert_eq!(reader.read_mc_int(), Err(IoError::UnexpectedEof));
    assert_eq!(reader.read_mc_long(), Err(IoError::UnexpectedEof));
    assert_eq!(reader.remaining(), 3);
    assert_eq!(reader.read_mc_short(), Ok(0x0102));
    assert_eq!(reader.read_mc_ushort(), Err(IoError::UnexpectedEof));
    assert_eq!(reader.remaining(), 1);
}

#[test]
fn same_bytes_compares_contents() {
    assert!(same_bytes(&[], &[]));
    assert!(same_bytes(&[1, 2, 3], &[1, 2, 3]));
    assert!(!same_bytes(&[1, 2, 3], &[1, 2, 4]));
    assert!(!same_bytes(&[1, 2, 3], &[1, 2]));
    assert!(!same_bytes(&[], &[0]));
}
