use crate::bytes::{put_slice, ByteReader};
use byteorder::{BigEndian, ByteOrder};
use vstd::prelude::*;

verus! {

/// The `width` bytes that hold `value` in network order, most significant
/// byte first. Bits of `value` beyond the width are left out.
pub open spec fn be_bytes(value: nat, width: nat) -> Seq<u8>
    decreases width,
{
    if width == 0 {
        Seq::empty()
    } else {
        be_bytes(value / 0x100, (width - 1) as nat).push((value % 0x100) as u8)
    }
}

/// The number that the bytes `s` hold in network order, most significant
/// byte first.
pub open spec fn be_value(s: Seq<u8>) -> nat
    decreases s.len(),
{
    if s.len() == 0 {
        0
    } else {
        be_value(s.drop_last()) * 0x100 + s.last() as nat
    }
}

/// The 16-bit two's-complement pattern of `value`, read as unsigned.
pub open spec fn short_bits(value: i16) -> nat {
    if value >= 0 {
        value as nat
    } else {
        (value + 0x1_0000) as nat
    }
}

/// The signed value whose 16-bit two's-complement pattern is `bits`.
pub open spec fn short_of_bits(bits: nat) -> i16
    recommends
        bits < 0x1_0000,
{
    if bits < 0x8000 {
        bits as i16
    } else {
        (bits - 0x1_0000) as i16
    }
}

/// The 32-bit two's-complement pattern of `value`, read as unsigned.
pub open spec fn int_bits(value: i32) -> nat {
    if value >= 0 {
        value as nat
    } else {
        (value + 0x1_0000_0000) as nat
    }
}

/// The signed value whose 32-bit two's-complement pattern is `bits`.
pub open spec fn int_of_bits(bits: nat) -> i32
    recommends
        bits < 0x1_0000_0000,
{
    if bits < 0x8000_0000 {
        bits as i32
    } else {
        (bits - 0x1_0000_0000) as i32
    }
}

/// The 64-bit two's-complement pattern of `value`, read as unsigned.
pub open spec fn long_bits(value: i64) -> nat {
    if value >= 0 {
        value as nat
    } else {
        (value + 0x1_0000_0000_0000_0000) as nat
    }
}

/// The signed value whose 64-bit two's-complement pattern is `bits`.
pub open spec fn long_of_bits(bits: nat) -> i64
    recommends
        bits < 0x1_0000_0000_0000_0000,
{
    if bits < 0x8000_0000_0000_0000 {
        bits as i64
    } else {
        (bits - 0x1_0000_0000_0000_0000) as i64
    }
}

/// `be_value` undoes `be_bytes` for every value that fits the width, and
/// `be_bytes` has the width it was asked for.
pub proof fn lemma_be_round_trip(value: nat, width: nat)
    ensures
        be_bytes(value, width).len() == width,
        width == 2 && value < 0x1_0000 ==> be_value(be_bytes(value, width)) == value,
        width == 4 && value < 0x1_0000_0000 ==> be_value(be_bytes(value, width)) == value,
        width == 8 && value < 0x1_0000_0000_0000_0000 ==> be_value(be_bytes(value, width))
            == value,
{
    lemma_be_bytes_len(value, width);
    lemma_be_value_of_bytes(value, width);
    if width == 2 {
        lemma_radix_power(2);
    } else if width == 4 {
        lemma_radix_power(4);
    } else if width == 8 {
        lemma_radix_power(8);
    }
}

/// 256 to the power `width`.
spec fn radix_power(width: nat) -> nat
    decreases width,
{
    if width == 0 {
        1
    } else {
        0x100 * radix_power((width - 1) as nat)
    }
}

proof fn lemma_radix_power(width: nat)
    ensures
        width == 2 ==> radix_power(width) == 0x1_0000,
        width == 4 ==> radix_power(width) == 0x1_0000_0000,
        width == 8 ==> radix_power(width) == 0x1_0000_0000_0000_0000,
{
    reveal_with_fuel(radix_power, 9);
}

proof fn lemma_be_bytes_len(value: nat, width: nat)
    ensures
        be_bytes(value, width).len() == width,
    decreases width,
{
    if width > 0 {
        lemma_be_bytes_len(value / 0x100, (width - 1) as nat);
    }
}

proof fn lemma_be_value_of_bytes(value: nat, width: nat)
    ensures
        be_value(be_bytes(value, width)) == value % radix_power(width),
    decreases width,
{
    if width == 0 {
    } else {
        let high = value / 0x100;
        let shorter = be_bytes(high, (width - 1) as nat);
        let s = be_bytes(value, width);
        lemma_be_value_of_bytes(high, (width - 1) as nat);
        lemma_be_bytes_len(high, (width - 1) as nat);
        assert(s.drop_last() =~= shorter);
        assert(s.last() == (value % 0x100) as u8);
        let p = radix_power((width - 1) as nat);
        lemma_radix_power_positive((width - 1) as nat);
        assert(be_value(s) == (high % p) * 0x100 + value % 0x100);
        assert((value / 0x100 % p) * 0x100 + value % 0x100 == value % (0x100 * p)) by {
            vstd::arithmetic::div_mod::lemma_breakdown(value as int, 0x100, p as int);
        }
    }
}

proof fn lemma_radix_power_positive(width: nat)
    ensures
        radix_power(width) > 0,
    decreases width,
{
    if width > 0 {
        lemma_radix_power_positive((width - 1) as nat);
        assert(0x100 * radix_power((width - 1) as nat) > 0) by (nonlinear_arith)
            requires
                radix_power((width - 1) as nat) > 0,
        ;
    }
}

/// `byteorder::BigEndian::read_u16`: the number that the first two bytes of
/// `buf` hold, most significant first. It panics on a shorter buffer.
#[verifier::external_body]
fn be_read_u16(buf: &[u8]) -> (value: u16)
    requires
        buf@.len() >= 2,
    ensures
        value == be_value(buf@.take(2)),
{
    BigEndian::read_u16(buf)
}

/// `byteorder::BigEndian::read_u32`: the number that the first four bytes of
/// `buf` hold, most significant first. It panics on a shorter buffer.
#[verifier::external_body]
fn be_read_u32(buf: &[u8]) -> (value: u32)
    requires
        buf@.len() >= 4,
    ensures
        value == be_value(buf@.take(4)),
{
    BigEndian::read_u32(buf)
}

/// `byteorder::BigEndian::read_u64`: the number that the first eight bytes of
/// `buf` hold, most significant first. It panics on a shorter buffer.
#[verifier::external_body]
fn be_read_u64(buf: &[u8]) -> (value: u64)
    requires
        buf@.len() >= 8,
    ensures
        value == be_value(buf@.take(8)),
{
    BigEndian::read_u64(buf)
}

/// `byteorder::BigEndian::write_u16` into a buffer of two bytes: they hold
/// `value`, most significant first.
#[verifier::external_body]
fn be_write_u16(value: u16) -> (bytes: [u8; 2])
    ensures
        bytes@ == be_bytes(value as nat, 2),
{
    let mut bytes = [0u8; 2];
    BigEndian::write_u16(&mut bytes, value);
    bytes
}

/// `byteorder::BigEndian::write_u32` into a buffer of four bytes: they hold
/// `value`, most significant first.
#[verifier::external_body]
fn be_write_u32(value: u32) -> (bytes: [u8; 4])
    ensures
        bytes@ == be_bytes(value as nat, 4),
{
    let mut bytes = [0u8; 4];
    BigEndian::write_u32(&mut bytes, value);
    bytes
}

/// `byteorder::BigEndian::write_u64` into a buffer of eight bytes: they hold
/// `value`, most significant first.
#[verifier::external_body]
fn be_write_u64(value: u64) -> (bytes: [u8; 8])
    ensures
        bytes@ == be_bytes(value as nat, 8),
{
    let mut bytes = [0u8; 8];
    BigEndian::write_u64(&mut bytes, value);
    bytes
}

/// A type with a fixed-width wire form in network byte order.
///
/// `T` is the plain value that is read and written.
pub trait MinecraftType<T> {
    /// The value that `self` carries.
    spec fn value(&self) -> T;

    /// The number of bytes of every wire form.
    spec fn width() -> nat;

    /// The wire form of `value`.
    spec fn encode(value: T) -> Seq<u8>;

    /// The value that the bytes of a wire form stand for.
    spec fn decode(bytes: Seq<u8>) -> T;

    /// A wire form has the fixed width, and decoding it gives the value back.
    proof fn round_trip(value: T)
        ensures
            Self::encode(value).len() == Self::width(),
            Self::decode(Self::encode(value)) == value,
    ;

    /// Appends the wire form of the carried value to `writer`.
    fn write_to(&self, writer: &mut Vec<u8>)
        ensures
            final(writer)@ == old(writer)@ + Self::encode(self.value()),
    ;

    /// Reads one value from the front of `reader`, which must hold a whole
    /// wire form.
    fn read_from(reader: &mut ByteReader) -> (value: T)
        requires
            old(reader)@.len() >= Self::width(),
        ensures
            value == Self::decode(old(reader)@.take(Self::width() as int)),
            final(reader)@ == old(reader)@.skip(Self::width() as int),
    ;
}

/// A signed 16-bit integer.
pub struct Short(pub i16);

/// An unsigned 16-bit integer.
pub struct UnsignedShort(pub u16);

/// A signed 32-bit integer.
pub struct Int(pub i32);

/// A signed 64-bit integer.
pub struct Long(pub i64);

impl MinecraftType<u16> for UnsignedShort {
    open spec fn value(&self) -> u16 {
        self.0
    }

    open spec fn width() -> nat {
        2
    }

    open spec fn encode(value: u16) -> Seq<u8> {
        be_bytes(value as nat, 2)
    }

    open spec fn decode(bytes: Seq<u8>) -> u16 {
        be_value(bytes) as u16
    }

    proof fn round_trip(value: u16) {
        lemma_be_round_trip(value as nat, 2);
    }

    fn write_to(&self, writer: &mut Vec<u8>) {
        let bytes = be_write_u16(self.0);
        put_slice(writer, bytes.as_slice());
    }

    fn read_from(reader: &mut ByteReader) -> (value: u16) {
        let buf = reader.peek();
        let value = be_read_u16(buf);
        reader.advance(2);
        value
    }
}

impl MinecraftType<i16> for Short {
    open spec fn value(&self) -> i16 {
        self.0
    }

    open spec fn width() -> nat {
        2
    }

    open spec fn encode(value: i16) -> Seq<u8> {
        be_bytes(short_bits(value), 2)
    }

    open spec fn decode(bytes: Seq<u8>) -> i16 {
        short_of_bits(be_value(bytes))
    }

    proof fn round_trip(value: i16) {
        lemma_be_round_trip(short_bits(value), 2);
    }

    fn write_to(&self, writer: &mut Vec<u8>) {
        let value = self.0;
        let bits: u16 = #[verifier::truncate] (value as u16);
        proof {
            assert(value >= 0 ==> bits == value) by (bit_vector)
                requires
                    bits == value as u16,
            ;
            assert(value < 0 ==> bits == value + 0x1_0000) by (bit_vector)
                requires
                    bits == value as u16,
            ;
        }
        let bytes = be_write_u16(bits);
        put_slice(writer, bytes.as_slice());
    }

    fn read_from(reader: &mut ByteReader) -> (value: i16) {
        let buf = reader.peek();
        let bits = be_read_u16(buf);
        reader.advance(2);
        let value: i16 = #[verifier::truncate] (bits as i16);
        proof {
            assert(bits < 0x8000 ==> value == bits) by (bit_vector)
                requires
                    value == bits as i16,
            ;
            assert(bits >= 0x8000 ==> value == bits - 0x1_0000) by (bit_vector)
                requires
                    value == bits as i16,
            ;
        }
        value
    }
}

impl MinecraftType<i32> for Int {
    open spec fn value(&self) -> i32 {
        self.0
    }

    open spec fn width() -> nat {
        4
    }

    open spec fn encode(value: i32) -> Seq<u8> {
        be_bytes(int_bits(value), 4)
    }

    open spec fn decode(bytes: Seq<u8>) -> i32 {
        int_of_bits(be_value(bytes))
    }

    proof fn round_trip(value: i32) {
        lemma_be_round_trip(int_bits(value), 4);
    }

    fn write_to(&self, writer: &mut Vec<u8>) {
        let value = self.0;
        let bits: u32 = #[verifier::truncate] (value as u32);
        proof {
            assert(value >= 0 ==> bits == value) by (bit_vector)
                requires
                    bits == value as u32,
            ;
            assert(value < 0 ==> bits == value + 0x1_0000_0000) by (bit_vector)
                requires
                    bits == value as u32,
            ;
        }
        let bytes = be_write_u32(bits);
        put_slice(writer, bytes.as_slice());
    }

    fn read_from(reader: &mut ByteReader) -> (value: i32) {
        let buf = reader.peek();
        let bits = be_read_u32(buf);
        reader.advance(4);
        let value: i32 = #[verifier::truncate] (bits as i32);
        proof {
            assert(bits < 0x8000_0000 ==> value == bits) by (bit_vector)
                requires
                    value == bits as i32,
            ;
            assert(bits >= 0x8000_0000 ==> value == bits - 0x1_0000_0000) by (bit_vector)
                requires
                    value == bits as i32,
            ;
        }
        value
    }
}

impl MinecraftType<i64> for Long {
    open spec fn value(&self) -> i64 {
        self.0
    }

    open spec fn width() -> nat {
        8
    }

    open spec fn encode(value: i64) -> Seq<u8> {
        be_bytes(long_bits(value), 8)
    }

    open spec fn decode(bytes: Seq<u8>) -> i64 {
        long_of_bits(be_value(bytes))
    }

    proof fn round_trip(value: i64) {
        lemma_be_round_trip(long_bits(value), 8);
    }

    fn write_to(&self, writer: &mut Vec<u8>) {
        let value = self.0;
        let bits: u64 = #[verifier::truncate] (value as u64);
        proof {
            assert(value >= 0 ==> bits == value) by (bit_vector)
                requires
                    bits == value as u64,
            ;
            assert(value < 0 ==> bits == value + 0x1_0000_0000_0000_0000) by (bit_vector)
                requires
                    bits == value as u64,
            ;
        }
        let bytes = be_write_u64(bits);
        put_slice(writer, bytes.as_slice());
    }

    fn read_from(reader: &mut ByteReader) -> (value: i64) {
        let buf = reader.peek();
        let bits = be_read_u64(buf);
        reader.advance(8);
        let value: i64 = #[verifier::truncate] (bits as i64);
        proof {
            assert(bits < 0x8000_0000_0000_0000 ==> value == bits) by (bit_vector)
                requires
                    value == bits as i64,
            ;
            assert(bits >= 0x8000_0000_0000_0000 ==> value == bits - 0x1_0000_0000_0000_0000)
                by (bit_vector)
                requires
                    value == bits as i64,
            ;
        }
        value
    }
}

/// Reads a big-endian `u64` from the front of `reader`, which must hold
/// eight bytes.
pub(crate) fn read_u64(reader: &mut ByteReader) -> (value: u64)
    requires
        old(reader)@.len() >= 8,
    ensures
        value == be_value(old(reader)@.take(8)),
        final(reader)@ == old(reader)@.skip(8),
{
    let buf = reader.peek();
    let value = be_read_u64(buf);
    reader.advance(8);
    value
}

/// Appends `value` as eight big-endian bytes.
pub(crate) fn write_u64(writer: &mut Vec<u8>, value: u64)
    ensures
        final(writer)@ == old(writer)@ + be_bytes(value as nat, 8),
{
    let bytes = be_write_u64(value);
    put_slice(writer, bytes.as_slice());
}

} // verus!
