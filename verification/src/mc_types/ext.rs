use crate::bytes::{ByteReader, IoError};
use crate::mc_types::fixed::{Int, Long, MinecraftType, Short, UnsignedShort};
use crate::mc_types::identifier::McIdentifier;
use crate::mc_types::string::{McString, McStringError, MAX_STRING_LEN};
use crate::mc_types::structured::StructuredError;
use crate::mc_types::uuid::McUUID;
use crate::mc_types::varint::{VarInt, VarIntError};
use vstd::prelude::*;
use vstd::utf8::encode_utf8;

verus! {

/// The wire form of a boolean: one byte, `1` for true and `0` for false.
pub open spec fn bool_byte(value: bool) -> u8 {
    if value {
        1
    } else {
        0
    }
}

/// The byte that holds the two's-complement pattern of `value`.
pub open spec fn byte_bits(value: i8) -> u8 {
    if value >= 0 {
        value as u8
    } else {
        (value + 0x100) as u8
    }
}

/// The signed value whose two's-complement pattern is `bits`.
pub open spec fn byte_of_bits(bits: u8) -> i8 {
    if bits < 0x80 {
        bits as i8
    } else {
        (bits - 0x100) as i8
    }
}

/// What reading a value of `width` bytes makes of the bytes `s`: the bytes
/// of the value, or the failure when `s` is shorter.
pub open spec fn fixed_bytes(s: Seq<u8>, width: nat) -> Result<Seq<u8>, IoError> {
    if s.len() >= width {
        Ok(s.take(width as int))
    } else {
        Err(IoError::UnexpectedEof)
    }
}

/// Typed reads from a byte source.
///
/// Every read takes exactly the bytes of one value from the front of the
/// source, or fails and takes none.
pub trait McReadExt {
    /// The bytes that have not been read yet.
    spec fn unread(&self) -> Seq<u8>;

    /// Reads a boolean: any byte but zero is true.
    fn read_mc_bool(&mut self) -> (r: Result<bool, IoError>)
        ensures
            match fixed_bytes(old(self).unread(), 1) {
                Ok(bytes) => r == Ok::<bool, IoError>(bytes[0] != 0)
                    && final(self).unread() == old(self).unread().skip(1),
                Err(e) => r == Err::<bool, IoError>(e)
                    && final(self).unread() == old(self).unread(),
            },
    ;

    /// Reads a signed byte.
    fn read_mc_byte(&mut self) -> (r: Result<i8, IoError>)
        ensures
            match fixed_bytes(old(self).unread(), 1) {
                Ok(bytes) => r == Ok::<i8, IoError>(byte_of_bits(bytes[0]))
                    && final(self).unread() == old(self).unread().skip(1),
                Err(e) => r == Err::<i8, IoError>(e)
                    && final(self).unread() == old(self).unread(),
            },
    ;

    /// Reads an unsigned byte.
    fn read_mc_ubyte(&mut self) -> (r: Result<u8, IoError>)
        ensures
            match fixed_bytes(old(self).unread(), 1) {
                Ok(bytes) => r == Ok::<u8, IoError>(bytes[0])
                    && final(self).unread() == old(self).unread().skip(1),
                Err(e) => r == Err::<u8, IoError>(e)
                    && final(self).unread() == old(self).unread(),
            },
    ;

    /// Reads a signed 16-bit integer.
    fn read_mc_short(&mut self) -> (r: Result<i16, IoError>)
        ensures
            match fixed_bytes(old(self).unread(), 2) {
                Ok(bytes) => r == Ok::<i16, IoError>(Short::decode(bytes))
                    && final(self).unread() == old(self).unread().skip(2),
                Err(e) => r == Err::<i16, IoError>(e)
                    && final(self).unread() == old(self).unread(),
            },
    ;

    /// Reads an unsigned 16-bit integer.
    fn read_mc_ushort(&mut self) -> (r: Result<u16, IoError>)
        ensures
            match fixed_bytes(old(self).unread(), 2) {
                Ok(bytes) => r == Ok::<u16, IoError>(UnsignedShort::decode(bytes))
                    && final(self).unread() == old(self).unread().skip(2),
                Err(e) => r == Err::<u16, IoError>(e)
                    && final(self).unread() == old(self).unread(),
            },
    ;

    /// Reads a signed 32-bit integer.
    fn read_mc_int(&mut self) -> (r: Result<i32, IoError>)
        ensures
            match fixed_bytes(old(self).unread(), 4) {
                Ok(bytes) => r == Ok::<i32, IoError>(Int::decode(bytes))
                    && final(self).unread() == old(self).unread().skip(4),
                Err(e) => r == Err::<i32, IoError>(e)
                    && final(self).unread() == old(self).unread(),
            },
    ;

    /// Reads a signed 64-bit integer.
    fn read_mc_long(&mut self) -> (r: Result<i64, IoError>)
        ensures
            match fixed_bytes(old(self).unread(), 8) {
                Ok(bytes) => r == Ok::<i64, IoError>(Long::decode(bytes))
                    && final(self).unread() == old(self).unread().skip(8),
                Err(e) => r == Err::<i64, IoError>(e)
                    && final(self).unread() == old(self).unread(),
            },
    ;

    /// Reads a variable-length integer.
    fn read_mc_varint(&mut self) -> (r: Result<i32, VarIntError>)
        ensures
            match VarInt::spec_decode(old(self).unread()) {
                Ok((value, len)) => r == Ok::<i32, VarIntError>(value)
                    && final(self).unread() == old(self).unread().skip(len as int),
                Err(e) => r == Err::<i32, VarIntError>(e)
                    && final(self).unread() == old(self).unread(),
            },
    ;

    /// Reads a length-prefixed string.
    fn read_mc_string(&mut self) -> (r: Result<String, McStringError>)
        ensures
            match McString::spec_decode(old(self).unread()) {
                Ok((chars, len)) => r is Ok && r->Ok_0@ == chars
                    && final(self).unread() == old(self).unread().skip(len as int),
                Err(e) => r == Err::<String, McStringError>(e)
                    && final(self).unread() == old(self).unread(),
            },
    ;

    /// Reads a length-prefixed string and splits it into namespace and name.
    fn read_mc_identifier(&mut self) -> (r: Result<McIdentifier, McStringError>)
        ensures
            match McString::spec_decode(old(self).unread()) {
                Ok((chars, len)) => r is Ok
                    && (r->Ok_0.namespace_view(), r->Ok_0.name@)
                        == McIdentifier::spec_from_string(chars)
                    && final(self).unread() == old(self).unread().skip(len as int),
                Err(e) => r == Err::<McIdentifier, McStringError>(e)
                    && final(self).unread() == old(self).unread(),
            },
    ;

    /// Reads a 128-bit identifier.
    fn read_mc_uuid(&mut self) -> (r: Result<McUUID, IoError>)
        ensures
            r == McUUID::spec_decode(old(self).unread()),
            r is Ok ==> final(self).unread() == old(self).unread().skip(16),
            r is Err ==> final(self).unread() == old(self).unread(),
    ;
}

impl<'a> McReadExt for ByteReader<'a> {
    open spec fn unread(&self) -> Seq<u8> {
        self@
    }

    fn read_mc_bool(&mut self) -> (r: Result<bool, IoError>) {
        match self.read_u8() {
            Ok(b) => Ok(b != 0),
            Err(e) => Err(e),
        }
    }

    fn read_mc_byte(&mut self) -> (r: Result<i8, IoError>) {
        match self.read_u8() {
            Ok(bits) => {
                let value: i8 = #[verifier::truncate] (bits as i8);
                proof {
                    assert(bits < 0x80 ==> value == bits) by (bit_vector)
                        requires
                            value == bits as i8,
                    ;
                    assert(bits >= 0x80 ==> value == bits - 0x100) by (bit_vector)
                        requires
                            value == bits as i8,
                    ;
                }
                Ok(value)
            },
            Err(e) => Err(e),
        }
    }

    fn read_mc_ubyte(&mut self) -> (r: Result<u8, IoError>) {
        self.read_u8()
    }

    fn read_mc_short(&mut self) -> (r: Result<i16, IoError>) {
        if self.remaining() < 2 {
            return Err(IoError::UnexpectedEof);
        }
        Ok(Short::read_from(self))
    }

    fn read_mc_ushort(&mut self) -> (r: Result<u16, IoError>) {
        if self.remaining() < 2 {
            return Err(IoError::UnexpectedEof);
        }
        Ok(UnsignedShort::read_from(self))
    }

    fn read_mc_int(&mut self) -> (r: Result<i32, IoError>) {
        if self.remaining() < 4 {
            return Err(IoError::UnexpectedEof);
        }
        Ok(Int::read_from(self))
    }

    fn read_mc_long(&mut self) -> (r: Result<i64, IoError>) {
        if self.remaining() < 8 {
            return Err(IoError::UnexpectedEof);
        }
        Ok(Long::read_from(self))
    }

    fn read_mc_varint(&mut self) -> (r: Result<i32, VarIntError>) {
        VarInt::read_from(self)
    }

    fn read_mc_string(&mut self) -> (r: Result<String, McStringError>) {
        McString::read_from(self)
    }

    fn read_mc_identifier(&mut self) -> (r: Result<McIdentifier, McStringError>) {
        let string = match self.read_mc_string() {
            Ok(s) => s,
            Err(e) => {
                return Err(e);
            },
        };
        McIdentifier::from_string(string.as_str())
    }

    fn read_mc_uuid(&mut self) -> (r: Result<McUUID, IoError>) {
        McUUID::read_from(self)
    }
}

/// Typed writes to a byte sink.
///
/// Every write appends exactly the wire form of one value and returns the
/// number of bytes appended.
pub trait McWriteExt {
    /// The bytes that have been written so far.
    spec fn written(&self) -> Seq<u8>;

    /// Writes a boolean as one byte.
    fn write_mc_bool(&mut self, value: bool) -> (count: usize)
        ensures
            final(self).written() == old(self).written().push(bool_byte(value)),
            count == 1,
    ;

    /// Writes a signed byte.
    fn write_mc_byte(&mut self, value: i8) -> (count: usize)
        ensures
            final(self).written() == old(self).written().push(byte_bits(value)),
            count == 1,
    ;

    /// Writes an unsigned byte.
    fn write_mc_ubyte(&mut self, value: u8) -> (count: usize)
        ensures
            final(self).written() == old(self).written().push(value),
            count == 1,
    ;

    /// Writes a signed 16-bit integer.
    fn write_mc_short(&mut self, value: i16) -> (count: usize)
        ensures
            final(self).written() == old(self).written() + Short::encode(value),
            count == 2,
    ;

    /// Writes an unsigned 16-bit integer.
    fn write_mc_ushort(&mut self, value: u16) -> (count: usize)
        ensures
            final(self).written() == old(self).written() + UnsignedShort::encode(value),
            count == 2,
    ;

    /// Writes a signed 32-bit integer.
    fn write_mc_int(&mut self, value: i32) -> (count: usize)
        ensures
            final(self).written() == old(self).written() + Int::encode(value),
            count == 4,
    ;

    /// Writes a signed 64-bit integer.
    fn write_mc_long(&mut self, value: i64) -> (count: usize)
        ensures
            final(self).written() == old(self).written() + Long::encode(value),
            count == 8,
    ;

    /// Writes a variable-length integer.
    fn write_mc_varint(&mut self, value: i32) -> (count: usize)
        ensures
            final(self).written() == old(self).written() + VarInt::spec_encode(value),
            count == VarInt::spec_encode(value).len(),
    ;

    /// Writes a length-prefixed string. A string too long for its prefix is
    /// refused and nothing is written.
    fn write_mc_string(&mut self, value: &str) -> (r: Result<usize, McStringError>)
        ensures
            encode_utf8(value@).len() <= MAX_STRING_LEN ==> r == Ok::<usize, McStringError>(
                McString::spec_encode(value@).len() as usize,
            ) && final(self).written() == old(self).written() + McString::spec_encode(value@),
            encode_utf8(value@).len() > MAX_STRING_LEN ==> r == Err::<usize, McStringError>(
                McStringError::LengthMismatch,
            ) && final(self).written() == old(self).written(),
    ;

    /// Writes the text of an identifier as a length-prefixed string.
    fn write_mc_identifier(&mut self, value: &McIdentifier) -> (r: Result<usize, McStringError>)
        ensures
            ({
                let text = McIdentifier::spec_to_string(value.namespace_view(), value.name@);
                &&& encode_utf8(text).len() <= MAX_STRING_LEN ==> r == Ok::<usize, McStringError>(
                    McString::spec_encode(text).len() as usize,
                ) && final(self).written() == old(self).written() + McString::spec_encode(text)
                &&& encode_utf8(text).len() > MAX_STRING_LEN ==> r == Err::<usize, McStringError>(
                    McStringError::LengthMismatch,
                ) && final(self).written() == old(self).written()
            }),
    ;

    /// Writes a 128-bit identifier.
    fn write_mc_uuid(&mut self, value: &McUUID) -> (count: usize)
        ensures
            final(self).written() == old(self).written() + value.spec_encode(),
            count == 16,
    ;

    /// Writes the binary payload of a structured value, as the `nbt` crate
    /// makes it. Where the value cannot be written, nothing is written.
    fn write_mc_nbt(&mut self, value: &nbt::Value) -> (r: Result<usize, StructuredError>)
        ensures
            r matches Ok(count) ==> ({
                let before = old(self).written();
                &&& final(self).written().len() == before.len() + count
                &&& final(self).written().take(before.len() as int) == before
            }),
            r is Err ==> final(self).written() == old(self).written(),
    ;
}

impl McWriteExt for Vec<u8> {
    open spec fn written(&self) -> Seq<u8> {
        self@
    }

    fn write_mc_bool(&mut self, value: bool) -> (count: usize) {
        self.push(if value { 0x01 } else { 0x00 });
        1
    }

    fn write_mc_byte(&mut self, value: i8) -> (count: usize) {
        let bits: u8 = #[verifier::truncate] (value as u8);
        proof {
            assert(value >= 0 ==> bits == value) by (bit_vector)
                requires
                    bits == value as u8,
            ;
            assert(value < 0 ==> bits == value + 0x100) by (bit_vector)
                requires
                    bits == value as u8,
            ;
        }
        self.push(bits);
        1
    }

    fn write_mc_ubyte(&mut self, value: u8) -> (count: usize) {
        self.push(value);
        1
    }

    fn write_mc_short(&mut self, value: i16) -> (count: usize) {
        Short(value).write_to(self);
        2
    }

    fn write_mc_ushort(&mut self, value: u16) -> (count: usize) {
        UnsignedShort(value).write_to(self);
        2
    }

    fn write_mc_int(&mut self, value: i32) -> (count: usize) {
        Int(value).write_to(self);
        4
    }

    fn write_mc_long(&mut self, value: i64) -> (count: usize) {
        Long(value).write_to(self);
        8
    }

    fn write_mc_varint(&mut self, value: i32) -> (count: usize) {
        VarInt::write_to(self, value)
    }

    fn write_mc_string(&mut self, value: &str) -> (r: Result<usize, McStringError>) {
        McString::write_to(self, value)
    }

    fn write_mc_identifier(&mut self, value: &McIdentifier) -> (r: Result<usize, McStringError>) {
        let string = value.to_string();
        McString::write_to(self, string.as_str())
    }

    fn write_mc_uuid(&mut self, value: &McUUID) -> (count: usize) {
        McUUID::write_to(self, value)
    }

    fn write_mc_nbt(&mut self, value: &nbt::Value) -> (r: Result<usize, StructuredError>) {
        crate::mc_types::structured::write_to(self, value)
    }
}

} // verus!
