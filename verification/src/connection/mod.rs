pub mod driver;
pub mod handshake;
pub mod payload;

pub use driver::{send_replies, Round, Served};
pub use handshake::Handshake;
pub use payload::{
    prepare_encryption_request, prepare_join_game, prepare_login_success, WorldDocuments,
};

use crate::bytes::{ByteReader, IoError};
use crate::connection::handshake::{lemma_handshake_round_trip, HandshakeView};
use crate::connection::payload::{
    encryption_request_payload, join_game_payload, login_success_payload,
};
use crate::mc_types::ext::McReadExt;
use crate::mc_types::string::{lemma_string_round_trip, McString, McStringError, MAX_STRING_LEN};
use crate::mc_types::varint::{VarInt, VarIntError};
use crate::packet::{HandshakingPacket, LoginPacket, LoginPacketOut, SocketMode};
use crate::socket::MiddlewareError;
use vstd::prelude::*;
use vstd::utf8::encode_utf8;

verus! {

/// Why a connection ended.
#[derive(Debug, Clone, Copy, PartialEq, Eq, Structural)]
pub enum ConnectionError {
    /// The transform could not recover a packet or send a reply.
    Transform(MiddlewareError),
    /// A packet is empty: it has no byte for the ID.
    EmptyPacket,
    /// A variable-length integer of a packet could not be decoded.
    VarInt(VarIntError),
    /// A string of a packet could not be decoded.
    String(McStringError),
    /// A packet ended before a fixed-width field did.
    Io(IoError),
    /// The name of a player who logs in could not be decoded.
    InvalidUsername(McStringError),
    /// A packet arrived in the status phase, which is not served.
    Unimplemented,
    /// A key or a token is too large for its length field.
    TooLarge,
}

/// The packet ID of a join game packet.
pub const JOIN_GAME_ID: u8 = 0x26;

/// What every connection is given to read: whether logins are answered with
/// an encryption request, the public key that such a request carries, and
/// the documents that describe the world.
pub struct ServerConfig {
    /// Whether a login start is answered with an encryption request.
    pub encryption_enabled: bool,
    /// The public key of the server, as an encryption request carries it.
    pub public_key: Vec<u8>,
    /// The documents that a join game packet carries.
    pub documents: WorldDocuments,
}

/// The bytes of a packet as a transform gets them: the ID, then the payload.
pub open spec fn packet_bytes(id: u8, payload: Seq<u8>) -> Seq<u8> {
    seq![id] + payload
}

/// The packets of a list as plain values.
pub open spec fn packet_views(packets: Seq<Vec<u8>>) -> Seq<Seq<u8>> {
    packets.map_values(|packet: Vec<u8>| packet@)
}

/// What a packet leads to: the phase that follows and the packets to send
/// in answer, in order, each as its ID followed by its payload.
pub struct Outcome {
    /// The phase after the packet.
    pub mode: SocketMode,
    /// The packets to send in answer.
    pub replies: Seq<Seq<u8>>,
}

/// The state of one connection.
pub struct Connection {
    /// The current phase.
    pub mode: SocketMode,
    /// The token that an encryption request of this connection carries.
    pub verify_token: Vec<u8>,
}

/// Calls `rand::random::<u8>()`: one byte from the thread's random number
/// generator. Nothing is known of the byte. The generator seeds itself from
/// the operating system when a thread first uses it, and panics where that
/// fails.
#[verifier::external_body]
fn random_byte() -> u8 {
    rand::random::<u8>()
}

impl Connection {
    /// A connection in the handshaking phase with the given verify token.
    pub fn new(verify_token: Vec<u8>) -> (connection: Connection)
        ensures
            connection.mode == SocketMode::Handshaking,
            connection.verify_token == verify_token,
    {
        Connection { mode: SocketMode::Handshaking, verify_token }
    }

    /// A connection in the handshaking phase with a fresh verify token of
    /// four random bytes.
    pub fn accept() -> (connection: Connection)
        ensures
            connection.mode == SocketMode::Handshaking,
            connection.verify_token@.len() == 4,
    {
        let mut verify_token: Vec<u8> = Vec::new();
        for _i in 0..4
            invariant
                verify_token@.len() == _i,
        {
            verify_token.push(random_byte());
        }
        Connection::new(verify_token)
    }

    /// The phase that follows a handshake with the selector `next_state`:
    /// login or status where the client asks for one of them, and no other
    /// phase than the present one where it asks for neither.
    pub open spec fn after_handshake(next_state: i32) -> SocketMode {
        if next_state == 2 {
            SocketMode::Login
        } else if next_state == 1 {
            SocketMode::Status
        } else {
            SocketMode::Handshaking
        }
    }

    /// What the packet with ID `id` and payload `payload` leads to in phase
    /// `mode`. The ID is read by the phase alone.
    #[verifier::opaque]
    pub open spec fn spec_step(
        mode: SocketMode,
        verify_token: Seq<u8>,
        config: &ServerConfig,
        id: u8,
        payload: Seq<u8>,
    ) -> Result<Outcome, ConnectionError> {
        let silent = Outcome { mode, replies: Seq::empty() };
        let join_game = packet_bytes(
            JOIN_GAME_ID,
            join_game_payload(
                config.documents.dimension_codec@,
                config.documents.dimension_type@,
            ),
        );
        match mode {
            SocketMode::Handshaking => {
                if id == HandshakingPacket::Handshaking.id() {
                    match Handshake::spec_decode(payload) {
                        Err(e) => Err(e),
                        Ok((handshake, _)) => Ok(
                            Outcome {
                                mode: Connection::after_handshake(handshake.next_state),
                                replies: Seq::empty(),
                            },
                        ),
                    }
                } else {
                    Ok(silent)
                }
            },
            SocketMode::Status => Err(ConnectionError::Unimplemented),
            SocketMode::Login => {
                if id == LoginPacket::LoginStart.id() {
                    match McString::spec_decode(payload) {
                        Err(e) => Err(ConnectionError::InvalidUsername(e)),
                        Ok((username, _)) => {
                            if !config.encryption_enabled {
                                Ok(
                                    Outcome {
                                        mode: SocketMode::Play,
                                        replies: seq![
                                            packet_bytes(
                                                LoginPacketOut::LoginSuccess.id(),
                                                login_success_payload(username),
                                            ),
                                            join_game,
                                        ],
                                    },
                                )
                            } else if config.public_key@.len() > MAX_STRING_LEN
                                || verify_token.len() > MAX_STRING_LEN {
                                Err(ConnectionError::TooLarge)
                            } else {
                                Ok(
                                    Outcome {
                                        mode: SocketMode::Play,
                                        replies: seq![
                                            packet_bytes(
                                                LoginPacketOut::EncryptionRequest.id(),
                                                encryption_request_payload(
                                                    config.public_key@,
                                                    verify_token,
                                                ),
                                            ),
                                            join_game,
                                        ],
                                    },
                                )
                            }
                        },
                    }
                } else {
                    Ok(silent)
                }
            },
            SocketMode::Play => Ok(silent),
        }
    }

    /// Handles one packet: moves to the phase that follows and returns the
    /// packets to send in answer, in order, each as its ID followed by its
    /// payload. On failure the connection is left as it was.
    pub fn handle_packet(
        &mut self,
        config: &ServerConfig,
        id: u8,
        payload: &[u8],
    ) -> (r: Result<Vec<Vec<u8>>, ConnectionError>)
        ensures
            final(self).verify_token == old(self).verify_token,
            match Connection::spec_step(
                old(self).mode,
                old(self).verify_token@,
                config,
                id,
                payload@,
            ) {
                Ok(outcome) => r is Ok && packet_views(r->Ok_0@) == outcome.replies
                    && final(self).mode == outcome.mode,
                Err(e) => r is Err && r->Err_0 == e && final(self).mode == old(self).mode,
            },
    {
        reveal(Connection::spec_step);
        match self.mode {
            SocketMode::Handshaking => {
                match HandshakingPacket::from_u8(id) {
                    Some(HandshakingPacket::Handshaking) => {
                        let mut reader = ByteReader::new(payload);
                        let handshake = match Handshake::read_from(&mut reader) {
                            Ok(h) => h,
                            Err(e) => {
                                return Err(e);
                            },
                        };
                        if handshake.next_state == 2 {
                            self.mode = SocketMode::Login;
                        } else if handshake.next_state == 1 {
                            self.mode = SocketMode::Status;
                        }
                        let replies: Vec<Vec<u8>> = Vec::new();
                        assert(packet_views(replies@) =~= Seq::empty());
                        Ok(replies)
                    },
                    None => {
                        let replies: Vec<Vec<u8>> = Vec::new();
                        assert(packet_views(replies@) =~= Seq::empty());
                        Ok(replies)
                    },
                }
            },
            SocketMode::Status => Err(ConnectionError::Unimplemented),
            SocketMode::Login => {
                match LoginPacket::from_u8(id) {
                    Some(LoginPacket::LoginStart) => {
                        let mut reader = ByteReader::new(payload);
                        let username = match reader.read_mc_string() {
                            Ok(v) => v,
                            Err(e) => {
                                return Err(ConnectionError::InvalidUsername(e));
                            },
                        };
                        // LOGIN
                        let mut first: Vec<u8> = Vec::new();
                        if config.encryption_enabled {
                            first.push(LoginPacketOut::EncryptionRequest.to_u8().unwrap());
                            match prepare_encryption_request(
                                &mut first,
                                config.public_key.as_slice(),
                                self.verify_token.as_slice(),
                            ) {
                                Ok(_) => {},
                                Err(e) => {
                                    return Err(e);
                                },
                            }
                        } else {
                            first.push(LoginPacketOut::LoginSuccess.to_u8().unwrap());
                            proof {
                                let body = payload@.subrange(
                                    VarInt::spec_decode(payload@)->Ok_0.1 as int,
                                    McString::spec_decode(payload@)->Ok_0.1 as int,
                                );
                                vstd::utf8::decode_utf8_encode_utf8(body);
                            }
                            match prepare_login_success(&mut first, username.as_str()) {
                                Ok(_) => {},
                                Err(e) => {
                                    return Err(ConnectionError::InvalidUsername(e));
                                },
                            }
                        }
                        // JOIN GAME
                        let mut second: Vec<u8> = Vec::new();
                        second.push(JOIN_GAME_ID);
                        prepare_join_game(&mut second, &config.documents);
                        let mut replies: Vec<Vec<u8>> = Vec::new();
                        replies.push(first);
                        replies.push(second);
                        self.mode = SocketMode::Play;
                        assert(packet_views(replies@) =~= seq![replies@[0]@, replies@[1]@]);
                        Ok(replies)
                    },
                    _ => {
                        let replies: Vec<Vec<u8>> = Vec::new();
                        assert(packet_views(replies@) =~= Seq::empty());
                        Ok(replies)
                    },
                }
            },
            SocketMode::Play => {
                let replies: Vec<Vec<u8>> = Vec::new();
                assert(packet_views(replies@) =~= Seq::empty());
                Ok(replies)
            },
        }
    }
}

/// A handshake that asks for the login phase leads there, and nothing is
/// sent in answer.
pub proof fn lemma_handshake_leads_to_login(
    verify_token: Seq<u8>,
    config: &ServerConfig,
    fields: HandshakeView,
    rest: Seq<u8>,
)
    requires
        fields.next_state == 2,
        encode_utf8(fields.address).len() <= MAX_STRING_LEN,
    ensures
        Connection::spec_step(
            SocketMode::Handshaking,
            verify_token,
            config,
            HandshakingPacket::Handshaking.id(),
            Handshake::spec_encode(fields) + rest,
        ) == Ok::<Outcome, ConnectionError>(
            (Outcome { mode: SocketMode::Login, replies: Seq::empty() }),
        ),
{
    reveal(Connection::spec_step);
    lemma_handshake_round_trip(fields, rest);
}

/// Where logins are not encrypted, a login start with the name `username`
/// is answered with a login success for that name, followed at once by a
/// join game packet, and the play phase begins.
pub proof fn lemma_login_start_is_answered(
    verify_token: Seq<u8>,
    config: &ServerConfig,
    username: Seq<char>,
    rest: Seq<u8>,
)
    requires
        !config.encryption_enabled,
        encode_utf8(username).len() <= MAX_STRING_LEN,
    ensures
        Connection::spec_step(
            SocketMode::Login,
            verify_token,
            config,
            LoginPacket::LoginStart.id(),
            McString::spec_encode(username) + rest,
        ) == Ok::<Outcome, ConnectionError>(
            (Outcome {
                mode: SocketMode::Play,
                replies: seq![
                    packet_bytes(
                        LoginPacketOut::LoginSuccess.id(),
                        login_success_payload(username),
                    ),
                    packet_bytes(
                        JOIN_GAME_ID,
                        join_game_payload(
                            config.documents.dimension_codec@,
                            config.documents.dimension_type@,
                        ),
                    ),
                ],
            }),
        ),
{
    reveal(Connection::spec_step);
    lemma_string_round_trip(username, rest);
}

/// A login start whose name is not valid UTF-8 ends the connection: the
/// step fails, so nothing is sent and the phase stays.
pub proof fn lemma_invalid_username_fails(
    verify_token: Seq<u8>,
    config: &ServerConfig,
    payload: Seq<u8>,
)
    requires
        McString::spec_decode(payload) == Err::<(Seq<char>, nat), McStringError>(
            McStringError::Utf8,
        ),
    ensures
        Connection::spec_step(
            SocketMode::Login,
            verify_token,
            config,
            LoginPacket::LoginStart.id(),
            payload,
        ) == Err::<Outcome, ConnectionError>(
            ConnectionError::InvalidUsername(McStringError::Utf8),
        ),
{
    reveal(Connection::spec_step);
}

} // verus!
