use crate::bytes::{ByteReader, IoError};
use crate::mc_types::fixed::{int_bits, int_of_bits};
use num_traits::PrimInt;
use vstd::prelude::*;

verus! {

/// A signed 32-bit value carried on the wire in groups of seven bits, least
/// significant group first, each byte but the last with its high bit set.
pub struct VarInt(pub i32);

/// Why a [`VarInt`] could not be decoded.
#[derive(Debug, Clone, Copy, PartialEq, Eq, Structural)]
pub enum VarIntError {
    /// Five bytes in a row asked for a continuation and a sixth byte followed.
    VarIntTooLong,
    /// The source ended before the terminating byte.
    Io(IoError),
}

impl VarIntError {
    /// A short description of the error.
    pub fn to_string(&self) -> (text: &'static str)
        ensures
            *self is VarIntTooLong ==> text@ == "VarInt is too long"@,
            *self is Io ==> text@ == "IO error found!"@,
    {
        match self {
            VarIntError::VarIntTooLong => "VarInt is too long",
            VarIntError::Io(_) => "IO error found!",
        }
    }
}

impl From<IoError> for VarIntError {
    fn from(e: IoError) -> (error: Self) {
        VarIntError::Io(e)
    }
}

impl vstd::std_specs::convert::FromSpecImpl<IoError> for VarIntError {
    open spec fn obeys_from_spec() -> bool {
        true
    }

    open spec fn from_spec(e: IoError) -> Self {
        VarIntError::Io(e)
    }
}

/// The groups of `bits`, least significant first: every byte holds seven
/// bits, and every byte but the last has the continuation bit set.
pub open spec fn encode_groups(bits: nat) -> Seq<u8>
    decreases bits,
{
    if bits < 0x80 {
        seq![bits as u8]
    } else {
        seq![(0x80 + bits % 0x80) as u8] + encode_groups(bits / 0x80)
    }
}

/// The seven payload bits of the byte at index `i`.
pub open spec fn group(s: Seq<u8>, i: int) -> nat {
    (s[i] % 0x80) as nat
}

/// The number carried by the first `n` bytes of `s`, continuation bits
/// ignored: the group at index `i` weighs 128 to the power `i`.
pub open spec fn groups_value(s: Seq<u8>, n: nat) -> nat
    recommends
        n <= 5,
        n <= s.len(),
{
    (if n > 0 {
        group(s, 0)
    } else {
        0
    }) + (if n > 1 {
        group(s, 1) * 0x80
    } else {
        0
    }) + (if n > 2 {
        group(s, 2) * 0x4000
    } else {
        0
    }) + (if n > 3 {
        group(s, 3) * 0x20_0000
    } else {
        0
    }) + (if n > 4 {
        group(s, 4) * 0x1000_0000
    } else {
        0
    })
}

/// How many bytes at the front of `s` have the continuation bit set, counted
/// from index `from` and no further than five bytes or the end of `s`.
pub open spec fn continuation_run(s: Seq<u8>, from: nat) -> nat
    decreases 5 - from,
{
    if from < 5 && from < s.len() && s[from as int] >= 0x80 {
        continuation_run(s, from + 1)
    } else {
        from
    }
}

impl VarInt {
    /// The wire form of `value`.
    pub open spec fn spec_encode(value: i32) -> Seq<u8> {
        encode_groups(int_bits(value))
    }

    /// What decoding makes of the bytes `s`: the value and the number of
    /// bytes it took, or the reason for failing.
    ///
    /// Bits of the fifth group that do not fit in 32 bits are dropped.
    pub open spec fn spec_decode(s: Seq<u8>) -> Result<(i32, nat), VarIntError> {
        let run = continuation_run(s, 0);
        if run < 5 && run < s.len() {
            Ok((int_of_bits(groups_value(s, run + 1) % 0x1_0000_0000), run + 1))
        } else if run == 5 && s.len() > 5 {
            Err(VarIntError::VarIntTooLong)
        } else {
            Err(VarIntError::Io(IoError::UnexpectedEof))
        }
    }
}

/// Calls `num_traits::PrimInt::unsigned_shr` on a `u32`, which the crate
/// implements as the plain logical shift `value >> n` of the unsigned type.
/// The shift amount is kept below the width, where `>>` cannot panic.
#[verifier::external_body]
fn unsigned_shr(value: u32, n: u32) -> (shifted: u32)
    requires
        n < 32,
    ensures
        shifted == value >> n,
{
    PrimInt::unsigned_shr(value, n)
}

/// Shape of an encoding of a 32-bit pattern: it has between one and five
/// bytes, every byte but the last has the continuation bit, and its groups
/// carry `bits` again, whatever follows the encoding.
proof fn lemma_encode_groups(bits: nat, rest: Seq<u8>)
    requires
        bits < 0x1_0000_0000,
    ensures
        1 <= encode_groups(bits).len() <= 5,
        forall|j: int|
            0 <= j < encode_groups(bits).len() - 1 ==> (encode_groups(bits) + rest)[j] >= 0x80,
        (encode_groups(bits) + rest)[encode_groups(bits).len() - 1] < 0x80,
        groups_value(encode_groups(bits) + rest, encode_groups(bits).len()) == bits,
{
    let e = encode_groups(bits);
    let b0 = (0x80 + bits % 0x80) as u8;
    let r1 = bits / 0x80;
    let b1 = (0x80 + r1 % 0x80) as u8;
    let r2 = r1 / 0x80;
    let b2 = (0x80 + r2 % 0x80) as u8;
    let r3 = r2 / 0x80;
    let b3 = (0x80 + r3 % 0x80) as u8;
    let r4 = r3 / 0x80;
    if bits < 0x80 {
        assert(e =~= seq![bits as u8]);
    } else if r1 < 0x80 {
        assert(encode_groups(r1) =~= seq![r1 as u8]);
        assert(e =~= seq![b0, r1 as u8]);
    } else if r2 < 0x80 {
        assert(encode_groups(r2) =~= seq![r2 as u8]);
        assert(encode_groups(r1) =~= seq![b1, r2 as u8]);
        assert(e =~= seq![b0, b1, r2 as u8]);
    } else if r3 < 0x80 {
        assert(encode_groups(r3) =~= seq![r3 as u8]);
        assert(encode_groups(r2) =~= seq![b2, r3 as u8]);
        assert(encode_groups(r1) =~= seq![b1, b2, r3 as u8]);
        assert(e =~= seq![b0, b1, b2, r3 as u8]);
    } else {
        assert(r4 < 0x80);
        assert(encode_groups(r4) =~= seq![r4 as u8]);
        assert(encode_groups(r3) =~= seq![b3, r4 as u8]);
        assert(encode_groups(r2) =~= seq![b2, b3, r4 as u8]);
        assert(encode_groups(r1) =~= seq![b1, b2, b3, r4 as u8]);
        assert(e =~= seq![b0, b1, b2, b3, r4 as u8]);
    }
}

/// A run of continuation bytes that ends at a terminator before the sixth
/// byte is counted in full.
proof fn lemma_continuation_run(s: Seq<u8>, from: nat, end: nat)
    requires
        from <= end < 5,
        end < s.len(),
        forall|j: int| from <= j < end ==> s[j] >= 0x80,
        s[end as int] < 0x80,
    ensures
        continuation_run(s, from) == end,
    decreases end - from,
{
    if from < end {
        lemma_continuation_run(s, from + 1, end);
    }
}

/// Decoding gives back what was encoded, whatever bytes follow, and takes
/// exactly the bytes of the encoding, of which there are between one and
/// five.
pub proof fn lemma_varint_round_trip(value: i32, rest: Seq<u8>)
    ensures
        1 <= VarInt::spec_encode(value).len() <= 5,
        VarInt::spec_decode(VarInt::spec_encode(value) + rest) == Ok::<(i32, nat), VarIntError>(
            (value, VarInt::spec_encode(value).len()),
        ),
{
    let bits = int_bits(value);
    let e = VarInt::spec_encode(value);
    lemma_encode_groups(bits, rest);
    lemma_continuation_run(e + rest, 0, (e.len() - 1) as nat);
}

/// A value is decoded from its own bytes alone: what follows the
/// terminating byte is not looked at.
pub proof fn lemma_varint_reads_no_further(s: Seq<u8>)
    requires
        VarInt::spec_decode(s) is Ok,
    ensures
        ({
            let (value, len) = VarInt::spec_decode(s)->Ok_0;
            &&& 1 <= len <= 5
            &&& len <= s.len()
            &&& s[len - 1] < 0x80
            &&& forall|t: Seq<u8>|
                t.len() >= len && t.take(len as int) == s.take(len as int)
                    ==> #[trigger] VarInt::spec_decode(t) == VarInt::spec_decode(s)
        }),
{
    let (value, len) = VarInt::spec_decode(s)->Ok_0;
    lemma_continuation_run_stops(s, 0);
    let decoded = Ok::<(i32, nat), VarIntError>((value, len));
    assert forall|t: Seq<u8>|
        t.len() >= len && t.take(len as int) == s.take(len as int) implies #[trigger]
        VarInt::spec_decode(t) == decoded by {
        assert forall|j: int| 0 <= j < len implies t[j] == s[j] by {
            assert(t[j] == t.take(len as int)[j]);
            assert(s[j] == s.take(len as int)[j]);
        }
        lemma_continuation_run(t, 0, (len - 1) as nat);
    }
}

/// Every byte that a run of continuation bytes counts has the continuation
/// bit, and the run stops at the fifth byte, at the end of the bytes or at a
/// byte without the bit.
proof fn lemma_continuation_run_stops(s: Seq<u8>, from: nat)
    requires
        from <= 5,
        from <= s.len(),
    ensures
        from <= continuation_run(s, from) <= 5,
        continuation_run(s, from) <= s.len(),
        forall|j: int| from <= j < continuation_run(s, from) ==> s[j] >= 0x80,
        ({
            let run = continuation_run(s, from);
            run < 5 && run < s.len() ==> s[run as int] < 0x80
        }),
    decreases 5 - from,
{
    if from < 5 && from < s.len() && s[from as int] >= 0x80 {
        lemma_continuation_run_stops(s, from + 1);
    }
}

/// Five continuation bytes followed by any sixth byte are rejected as too
/// long.
pub proof fn lemma_varint_too_long(s: Seq<u8>)
    requires
        s.len() >= 6,
        forall|j: int| 0 <= j < 5 ==> s[j] >= 0x80,
    ensures
        VarInt::spec_decode(s) == Err::<(i32, nat), VarIntError>(VarIntError::VarIntTooLong),
{
    reveal_with_fuel(continuation_run, 6);
}

impl VarInt {
    /// Decodes one value from the front of `reader`.
    ///
    /// On success the reader has moved past the bytes of the value and no
    /// further; on failure it is left where it was.
    pub fn read_from(reader: &mut ByteReader) -> (r: Result<i32, VarIntError>)
        ensures
            match VarInt::spec_decode(old(reader)@) {
                Ok((value, len)) => r == Ok::<i32, VarIntError>(value)
                    && final(reader)@ == old(reader)@.skip(len as int),
                Err(e) => r == Err::<i32, VarIntError>(e) && final(reader)@ == old(reader)@,
            },
    {
        let bytes = reader.peek();
        let mut decoded: u32 = 0;
        let mut i: usize = 0;
        while i < 5
            invariant
                bytes@ == reader@,
                reader@ == old(reader)@,
                i <= 5,
                i <= bytes@.len(),
                continuation_run(bytes@, i as nat) == continuation_run(bytes@, 0),
                i < 5 ==> decoded as nat == groups_value(bytes@, i as nat),
            decreases 5 - i,
        {
            if i >= bytes.len() {
                return Err(VarIntError::Io(IoError::UnexpectedEof));
            }
            let current_byte = bytes[i];
            let payload: u32 = (current_byte & 0x7f) as u32;
            let offset: u32 = 7 * (i as u32);
            let ghost before = decoded;
            decoded = decoded | (payload << offset);
            proof {
                let b = current_byte;
                assert(payload == b % 0x80) by (bit_vector)
                    requires
                        payload == (b & 0x7f) as u32,
                ;
                assert(((b & 0x80) == 0) <==> b < 0x80) by (bit_vector);
                let next = groups_value(bytes@, (i + 1) as nat);
                if i == 0 {
                    assert((before | (payload << offset)) == payload) by (bit_vector)
                        requires
                            before == 0,
                            offset == 0,
                    ;
                } else if i == 1 {
                    assert((before | (payload << offset)) == before + payload * 0x80)
                        by (bit_vector)
                        requires
                            before < 0x80,
                            payload < 0x80,
                            offset == 7,
                    ;
                } else if i == 2 {
                    assert((before | (payload << offset)) == before + payload * 0x4000)
                        by (bit_vector)
                        requires
                            before < 0x4000,
                            payload < 0x80,
                            offset == 14,
                    ;
                } else if i == 3 {
                    assert((before | (payload << offset)) == before + payload * 0x20_0000)
                        by (bit_vector)
                        requires
                            before < 0x20_0000,
                            payload < 0x80,
                            offset == 21,
                    ;
                } else {
                    assert((before | (payload << offset)) == (before + payload * 0x1000_0000)
                        % 0x1_0000_0000) by (bit_vector)
                        requires
                            before < 0x1000_0000,
                            payload < 0x80,
                            offset == 28,
                    ;
                }
                assert(decoded as nat == next % 0x1_0000_0000);
            }
            if (current_byte & 0x80) == 0 {
                let value: i32 = #[verifier::truncate] (decoded as i32);
                proof {
                    assert(value == int_of_bits(decoded as nat)) by (bit_vector)
                        requires
                            value == decoded as i32,
                    ;
                }
                reader.advance(i + 1);
                return Ok(value);
            }
            i = i + 1;
        }
        if bytes.len() > 5 {
            Err(VarIntError::VarIntTooLong)
        } else {
            Err(VarIntError::Io(IoError::UnexpectedEof))
        }
    }

    /// How many bytes more a reader has to wait for when it holds `bytes`
    /// from the start of a value: none when the value is whole, one while
    /// the last byte held asks for a continuation.
    pub open spec fn spec_demand(bytes: Seq<u8>) -> Result<nat, VarIntError> {
        match VarInt::spec_decode(bytes) {
            Ok(_) => Ok(0),
            Err(VarIntError::Io(_)) => Ok(1),
            Err(VarIntError::VarIntTooLong) => Err(VarIntError::VarIntTooLong),
        }
    }

    /// Says how many bytes more to wait for, given the bytes held from the
    /// start of a value. A reader that follows it byte by byte never takes a
    /// byte behind the terminating one.
    pub fn demand(bytes: &[u8]) -> (r: Result<usize, VarIntError>)
        ensures
            match VarInt::spec_demand(bytes@) {
                Ok(n) => r == Ok::<usize, VarIntError>(n as usize),
                Err(e) => r == Err::<usize, VarIntError>(e),
            },
    {
        let mut probe = ByteReader::new(bytes);
        match VarInt::read_from(&mut probe) {
            Ok(_) => Ok(0),
            Err(VarIntError::Io(_)) => Ok(1),
            Err(VarIntError::VarIntTooLong) => Err(VarIntError::VarIntTooLong),
        }
    }

    /// Appends the wire form of `value` to `writer` and returns the number of
    /// bytes written.
    pub fn write_to(writer: &mut Vec<u8>, value: i32) -> (count: usize)
        ensures
            final(writer)@ == old(writer)@ + VarInt::spec_encode(value),
            count == VarInt::spec_encode(value).len(),
            1 <= count <= 5,
    {
        proof {
            lemma_varint_round_trip(value, Seq::empty());
        }
        let mut rest: u32 = #[verifier::truncate] (value as u32);
        let mut count: usize = 0;
        let ghost bits = rest;
        proof {
            assert(value >= 0 ==> rest == value) by (bit_vector)
                requires
                    rest == value as u32,
            ;
            assert(value < 0 ==> rest == value + 0x1_0000_0000) by (bit_vector)
                requires
                    rest == value as u32,
            ;
        }
        loop
            invariant_except_break
                writer@ + encode_groups(rest as nat) == old(writer)@ + encode_groups(bits as nat),
                count == writer@.len() - old(writer)@.len(),
            ensures
                writer@ == old(writer)@ + encode_groups(bits as nat),
                count == writer@.len() - old(writer)@.len(),
            decreases rest,
        {
            let ghost before = rest;
            let ghost written = writer@;
            let mut current_byte: u8 = #[verifier::truncate] ((rest & 0x7f) as u8);
            rest = unsigned_shr(rest, 7);
            if rest != 0 {
                current_byte = current_byte | 0x80;
            }
            proof {
                let low = (before & 0x7f) as u8;
                assert(low == before % 0x80) by (bit_vector)
                    requires
                        low == (before & 0x7f) as u8,
                ;
                assert(before >> 7 == before / 0x80) by (bit_vector);
                assert(low | 0x80 == 0x80 + low) by (bit_vector)
                    requires
                        low < 0x80,
                ;
            }
            writer.push(current_byte);
            proof {
                assert(writer@.len() == writer.len());
            }
            count = count + 1;
            proof {
                assert(written + encode_groups(before as nat) =~= writer@ + (if rest != 0 {
                    encode_groups(rest as nat)
                } else {
                    Seq::<u8>::empty()
                }));
            }
            if rest == 0 {
                break ;
            }
        }
        count
    }
}

} // verus!
