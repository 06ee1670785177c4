use crate::bytes::{ByteReader, IoError};
use crate::connection::ConnectionError;
use crate::mc_types::ext::{fixed_bytes, McReadExt};
use crate::mc_types::fixed::{MinecraftType, UnsignedShort};
use crate::mc_types::string::{
    lemma_string_round_trip, McString, McStringError, MAX_STRING_LEN,
};
use crate::mc_types::varint::{lemma_varint_round_trip, VarInt, VarIntError};
use vstd::prelude::*;
use vstd::utf8::encode_utf8;

verus! {

/// The fields of a handshake packet.
#[derive(Debug, Clone, PartialEq, Eq)]
pub struct Handshake {
    /// The version of the protocol that the client speaks.
    pub protocol_version: i32,
    /// The address that the client dialled. It is not used for routing.
    pub address: String,
    /// The port that the client dialled. It is not used for routing.
    pub port: u16,
    /// The phase that the client asks for: `1` for status, `2` for login.
    pub next_state: i32,
}

/// A handshake as plain values.
pub struct HandshakeView {
    /// The version of the protocol that the client speaks.
    pub protocol_version: i32,
    /// The address that the client dialled.
    pub address: Seq<char>,
    /// The port that the client dialled.
    pub port: u16,
    /// The phase that the client asks for.
    pub next_state: i32,
}

impl View for Handshake {
    type V = HandshakeView;

    open spec fn view(&self) -> HandshakeView {
        HandshakeView {
            protocol_version: self.protocol_version,
            address: self.address@,
            port: self.port,
            next_state: self.next_state,
        }
    }
}

impl Handshake {
    /// The payload of a handshake with the given fields.
    pub open spec fn spec_encode(fields: HandshakeView) -> Seq<u8> {
        VarInt::spec_encode(fields.protocol_version) + McString::spec_encode(fields.address)
            + UnsignedShort::encode(fields.port) + VarInt::spec_encode(fields.next_state)
    }

    /// What parsing makes of the payload `s`: the four fields, one after the
    /// other, and the number of bytes they take, or the failure of the first
    /// field that cannot be decoded.
    pub open spec fn spec_decode(s: Seq<u8>) -> Result<(HandshakeView, nat), ConnectionError> {
        match VarInt::spec_decode(s) {
            Err(e) => Err(ConnectionError::VarInt(e)),
            Ok((protocol_version, n1)) => match McString::spec_decode(s.skip(n1 as int)) {
                Err(e) => Err(ConnectionError::String(e)),
                Ok((address, n2)) => match fixed_bytes(s.skip((n1 + n2) as int), 2) {
                    Err(e) => Err(ConnectionError::Io(e)),
                    Ok(port) => match VarInt::spec_decode(s.skip((n1 + n2 + 2) as int)) {
                        Err(e) => Err(ConnectionError::VarInt(e)),
                        Ok((next_state, n3)) => Ok(
                            (
                                HandshakeView {
                                    protocol_version,
                                    address,
                                    port: UnsignedShort::decode(port),
                                    next_state,
                                },
                                (n1 + n2 + 2 + n3) as nat,
                            ),
                        ),
                    },
                },
            },
        }
    }

    /// Reads the fields of a handshake from the front of `reader`. On
    /// failure the reader is left where it was.
    pub fn read_from(reader: &mut ByteReader) -> (r: Result<Handshake, ConnectionError>)
        ensures
            match Handshake::spec_decode(old(reader)@) {
                Ok((view, len)) => r is Ok && r->Ok_0@ == view
                    && final(reader)@ == old(reader)@.skip(len as int),
                Err(e) => r is Err && r->Err_0 == e && final(reader)@ == old(reader)@,
            },
    {
        let rest = reader.peek();
        let mut probe = ByteReader::new(rest);
        let ghost s = rest@;
        let protocol_version = match probe.read_mc_varint() {
            Ok(v) => v,
            Err(e) => {
                return Err(ConnectionError::VarInt(e));
            },
        };
        let ghost n1 = VarInt::spec_decode(s)->Ok_0.1;
        let address = match probe.read_mc_string() {
            Ok(v) => v,
            Err(e) => {
                return Err(ConnectionError::String(e));
            },
        };
        let ghost n2 = McString::spec_decode(s.skip(n1 as int))->Ok_0.1;
        assert(probe@ =~= s.skip((n1 + n2) as int));
        let port = match probe.read_mc_ushort() {
            Ok(v) => v,
            Err(e) => {
                return Err(ConnectionError::Io(e));
            },
        };
        assert(probe@ =~= s.skip((n1 + n2 + 2) as int));
        let next_state = match probe.read_mc_varint() {
            Ok(v) => v,
            Err(e) => {
                return Err(ConnectionError::VarInt(e));
            },
        };
        let ghost n3 = VarInt::spec_decode(s.skip((n1 + n2 + 2) as int))->Ok_0.1;
        assert(probe@ =~= s.skip((n1 + n2 + 2 + n3) as int));
        reader.advance(rest.len() - probe.remaining());
        Ok(Handshake { protocol_version, address, port, next_state })
    }
}

/// The bytes that follow the first fields of an encoded handshake.
proof fn lemma_handshake_parts(fields: HandshakeView, rest: Seq<u8>)
    ensures
        ({
            let version = VarInt::spec_encode(fields.protocol_version);
            let address = McString::spec_encode(fields.address);
            let port = UnsignedShort::encode(fields.port);
            let next = VarInt::spec_encode(fields.next_state);
            let s = Handshake::spec_encode(fields) + rest;
            &&& port.len() == 2
            &&& s == version + (address + (port + (next + rest)))
            &&& s.skip(version.len() as int) == address + (port + (next + rest))
            &&& s.skip((version.len() + address.len()) as int) == port + (next + rest)
            &&& s.skip((version.len() + address.len() + 2) as int) == next + rest
            &&& (port + (next + rest)).take(2) == port
            &&& Handshake::spec_encode(fields).len() == version.len() + address.len() + 2
                + next.len()
        }),
{
    let version = VarInt::spec_encode(fields.protocol_version);
    let address = McString::spec_encode(fields.address);
    let port = UnsignedShort::encode(fields.port);
    let next = VarInt::spec_encode(fields.next_state);
    let s = Handshake::spec_encode(fields) + rest;
    UnsignedShort::round_trip(fields.port);
    assert(s =~= version + (address + (port + (next + rest))));
    assert(s.skip(version.len() as int) =~= address + (port + (next + rest)));
    assert(s.skip((version.len() + address.len()) as int) =~= port + (next + rest));
    assert(s.skip((version.len() + address.len() + 2) as int) =~= next + rest);
    assert((port + (next + rest)).take(2) =~= port);
}

/// Parsing the payload of a handshake gives its four fields back, whatever
/// bytes follow them. This holds where the address has a wire form.
pub proof fn lemma_handshake_round_trip(fields: HandshakeView, rest: Seq<u8>)
    requires
        encode_utf8(fields.address).len() <= MAX_STRING_LEN,
    ensures
        Handshake::spec_decode(Handshake::spec_encode(fields) + rest) == Ok::<
            (HandshakeView, nat),
            ConnectionError,
        >((fields, Handshake::spec_encode(fields).len())),
{
    let address = McString::spec_encode(fields.address);
    let port = UnsignedShort::encode(fields.port);
    let next = VarInt::spec_encode(fields.next_state);
    lemma_handshake_parts(fields, rest);
    lemma_varint_round_trip(fields.protocol_version, address + (port + (next + rest)));
    lemma_string_round_trip(fields.address, port + (next + rest));
    UnsignedShort::round_trip(fields.port);
    lemma_varint_round_trip(fields.next_state, rest);
}

} // verus!
