use crate::bytes::{ByteReader, IoError};
use crate::mc_types::fixed::{be_bytes, be_value, lemma_be_round_trip, read_u64, write_u64};
use vstd::prelude::*;

verus! {

/// A 128-bit identifier, carried as two unsigned 64-bit halves in network
/// byte order, the upper half first.
#[derive(Debug, Clone, Copy, PartialEq, Eq, Structural)]
pub struct McUUID {
    /// The upper 64 bits.
    pub most: u64,
    /// The lower 64 bits.
    pub least: u64,
}

impl McUUID {
    /// The sixteen bytes of the wire form.
    pub open spec fn spec_encode(self) -> Seq<u8> {
        be_bytes(self.most as nat, 8) + be_bytes(self.least as nat, 8)
    }

    /// The identifier that the first sixteen bytes of `s` hold, or the
    /// failure when `s` is shorter.
    pub open spec fn spec_decode(s: Seq<u8>) -> Result<McUUID, IoError> {
        if s.len() >= 16 {
            Ok(
                McUUID {
                    most: be_value(s.subrange(0, 8)) as u64,
                    least: be_value(s.subrange(8, 16)) as u64,
                },
            )
        } else {
            Err(IoError::UnexpectedEof)
        }
    }

    /// Reads one identifier from the front of `reader`: sixteen bytes on
    /// success, none on failure.
    pub fn read_from(reader: &mut ByteReader) -> (r: Result<McUUID, IoError>)
        ensures
            r == McUUID::spec_decode(old(reader)@),
            r is Ok ==> final(reader)@ == old(reader)@.skip(16),
            r is Err ==> final(reader)@ == old(reader)@,
    {
        if reader.remaining() < 16 {
            return Err(IoError::UnexpectedEof);
        }
        let most = read_u64(reader);
        let least = read_u64(reader);
        proof {
            let s = old(reader)@;
            assert(s.take(8) =~= s.subrange(0, 8));
            assert(s.skip(8).take(8) =~= s.subrange(8, 16));
            assert(s.skip(8).skip(8) =~= s.skip(16));
        }
        Ok(McUUID { most, least })
    }

    /// Appends the wire form of `uuid` to `writer` and returns the number of
    /// bytes written, which is sixteen.
    pub fn write_to(writer: &mut Vec<u8>, uuid: &McUUID) -> (count: usize)
        ensures
            final(writer)@ == old(writer)@ + uuid.spec_encode(),
            count == 16,
    {
        write_u64(writer, uuid.most);
        write_u64(writer, uuid.least);
        assert(writer@ =~= old(writer)@ + uuid.spec_encode());
        16
    }
}

/// Every identifier has a wire form of exactly sixteen bytes, and decoding
/// it gives the same two halves back, whatever bytes follow.
pub proof fn lemma_uuid_round_trip(uuid: McUUID, rest: Seq<u8>)
    ensures
        uuid.spec_encode().len() == 16,
        McUUID::spec_decode(uuid.spec_encode() + rest) == Ok::<McUUID, IoError>(uuid),
{
    let upper = be_bytes(uuid.most as nat, 8);
    let lower = be_bytes(uuid.least as nat, 8);
    lemma_be_round_trip(uuid.most as nat, 8);
    lemma_be_round_trip(uuid.least as nat, 8);
    let s = uuid.spec_encode() + rest;
    assert(s.subrange(0, 8) =~= upper);
    assert(s.subrange(8, 16) =~= lower);
}

} // verus!
