pub mod compression;
pub mod passthrough;

use crate::bytes::{ByteReader, IoError};
use crate::mc_types::varint::VarIntError;
use vstd::prelude::*;

verus! {

/// Why a transform could not send or recover a payload.
#[derive(Debug, Clone, Copy, PartialEq, Eq, Structural)]
pub enum MiddlewareError {
    /// A length field could not be decoded.
    Length(VarIntError),
    /// A length field is negative.
    InvalidLength,
    /// The source holds fewer bytes than a length field declares.
    Io(IoError),
    /// The payload is too large for its length field.
    TooLarge,
    /// The compressed bytes do not inflate to a payload of the declared
    /// length, or, when sending, not to the payload that was compressed.
    Corrupt,
}

/// A reversible transform of payloads, interposed between the framing of
/// packets and the raw transport.
///
/// The two spec functions say what the transform does to bytes; the two
/// executable functions do it.
pub trait Middleware {
    /// The wire bytes that stand for the payload `data`, or the reason why
    /// the payload cannot be sent.
    spec fn spec_send(&self, data: Seq<u8>) -> Result<Seq<u8>, MiddlewareError>;

    /// The payload at the front of the wire bytes `source` and the number of
    /// wire bytes that it takes, or the reason why there is none.
    spec fn spec_receive(&self, source: Seq<u8>) -> Result<(Seq<u8>, nat), MiddlewareError>;

    /// What was sent is what is received, and receiving takes exactly the
    /// bytes that were sent.
    proof fn send_then_receive(&self, data: Seq<u8>)
        ensures
            self.spec_send(data) matches Ok(wire) ==> self.spec_receive(wire) == Ok::<
                (Seq<u8>, nat),
                MiddlewareError,
            >((data, wire.len())),
    ;

    /// Receiving takes no more bytes than the source holds, and at least one
    /// where it holds any.
    proof fn receive_takes_bytes(&self, source: Seq<u8>)
        ensures
            self.spec_receive(source) matches Ok((_, consumed)) ==> consumed <= source.len() && (
            source.len() > 0 ==> consumed > 0),
    ;

    /// Appends the wire bytes of `data` to `writer` and returns their number.
    /// Where the payload cannot be sent, nothing is written.
    fn write_packet(
        &self,
        writer: &mut Vec<u8>,
        data: &[u8],
    ) -> (r: Result<usize, MiddlewareError>)
        ensures
            match self.spec_send(data@) {
                Ok(wire) => r == Ok::<usize, MiddlewareError>(wire.len() as usize)
                    && final(writer)@ == old(writer)@ + wire,
                Err(e) => r == Err::<usize, MiddlewareError>(e) && final(writer)@ == old(writer)@,
            },
    ;

    /// Takes the wire bytes of one payload from the front of `reader` and
    /// appends the payload to `buf`. On failure neither is changed.
    fn read_packet(
        &self,
        reader: &mut ByteReader,
        buf: &mut Vec<u8>,
    ) -> (r: Result<(), MiddlewareError>)
        ensures
            match self.spec_receive(old(reader)@) {
                Ok((payload, consumed)) => r is Ok && final(buf)@ == old(buf)@ + payload
                    && final(reader)@ == old(reader)@.skip(consumed as int),
                Err(e) => r == Err::<(), MiddlewareError>(e) && final(buf)@ == old(buf)@
                    && final(reader)@ == old(reader)@,
            },
    ;
}

} // verus!
