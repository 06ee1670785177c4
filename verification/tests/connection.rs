use mc_protocol::bytes::{ByteReader, IoError};
use mc_protocol::connection::{
    prepare_encryption_request, prepare_join_game, prepare_login_success, send_replies,
    Connection, ConnectionError, Handshake, ServerConfig, WorldDocuments, JOIN_GAME_ID,
};
use mc_protocol::frame::{read_frame, write_frame};
use mc_protocol::socket::compression::{McNoCompression, McZlibCompression};
use mc_protocol::socket::passthrough::McPassthrough;
use mc_protocol::socket::{Middleware, MiddlewareError};
use mc_protocol::mc_types::ext::{McReadExt, McWriteExt};
use mc_protocol::mc_types::structured::{append_outcome, StructuredError};
use mc_protocol::mc_types::{McIdentifier, McStringError, McUUID, VarIntError};
use mc_protocol::packet::{GameMode, HandshakingPacket, LoginPacket, LoginPacketOut, SocketMode};

fn documents() -> WorldDocuments {
    WorldDocuments { dimension_codec: vec![0xc0, 0xde, 0xc0], dimension_type: vec![0xd1, 0xd2] }
}

fn config(encryption_enabled: bool) -> ServerConfig {
    ServerConfig { encryption_enabled, public_key: vec![0x30, 0x31, 0x32], documents: documents() }
}

fn connection(mode: SocketMode) -> Connection {
    let mut c = Connection::new(vec![9, 8, 7, 6]);
    c.mode = mode;
    c
}

fn handshake_payload(next_state: i32) -> Vec<u8> {
    let mut payload = Vec::new();
    payload.write_mc_varint(758);
    payload.write_mc_string("localhost").unwrap();
    payload.write_mc_ushort(25565);
    payload.write_mc_varint(next_state);
    payload
}

fn login_start_payload(name: &str) -> Vec<u8> {
    let mut payload = Vec::new();
    payload.write_mc_string(name).unwrap();
    payload
}

fn frame(id: u8, payload: &[u8]) -> Vec<u8> {
    let mut wire = Vec::new();
    write_frame(&mut wire, id, payload).unwrap();
    wire
}

#[test]
fn packet_ids() {
    assert_eq!(HandshakingPacket::from_u8(0), Some(HandshakingPacket::Handshaking));
    assert_eq!(HandshakingPacket::from_u8(1), None);
    assert_eq!(LoginPacket::from_u8(0), Some(LoginPacket::LoginStart));
    assert_eq!(LoginPacket::from_u8(1), Some(LoginPacket::EncryptionResponse));
    assert_eq!(LoginPacket::from_u8(2), Some(LoginPacket::LoginPluginResponse));
    assert_eq!(LoginPacket::from_u8(3), None);
    assert_eq!(LoginPacketOut::Disconnect.to_u8(), Some(0));
    assert_eq!(LoginPacketOut::EncryptionRequest.to_u8(), Some(1));
    assert_eq!(LoginPacketOut::LoginSuccess.to_u8(), Some(2));
    assert_eq!(GameMode::NoPreviousGameMode.to_u8(), None);
    assert_eq!(GameMode::NoPreviousGameMode.to_i8(), Some(-1));
    assert_eq!(GameMode::Survival.to_u8(), Some(0));
    assert_eq!(GameMode::Creative.to_u8(), Some(1));
    assert_eq!(GameMode::Adventure.to_i8(), Some(2));
    assert_eq!(GameMode::Spectator.to_u8(), Some(3));
}

#[test]
fn handshake_fields() {
    let payload = handshake_payload(2);
    let mut reader = ByteReader::new(&payload);
    let handshake = Handshake::read_from(&mut reader).unwrap();
    assert_eq!(
        handshake,
        Handshake { protocol_version: 758, address: "localhost".to_owned(), port: 25565, next_state: 2 }
    );
    assert_eq!(reader.remaining(), 0);
}

#[test]
fn handshake_failures_name_the_field() {
    let whole = handshake_payload(2);
    assert_eq!(
        Handshake::read_from(&mut ByteReader::new(&[])),
        Err(ConnectionError::VarInt(VarIntError::Io(IoError::UnexpectedEof)))
    );
    assert_eq!(
        Handshake::read_from(&mut ByteReader::new(&whole[..5])),
        Err(ConnectionError::String(McStringError::LengthMismatch))
    );
    assert_eq!(
        Handshake::read_from(&mut ByteReader::new(&whole[..13])),
        Err(ConnectionError::Io(IoError::UnexpectedEof))
    );
    let mut reader = ByteReader::new(&whole[..14]);
    assert_eq!(
        Handshake::read_from(&mut reader),
        Err(ConnectionError::VarInt(VarIntError::Io(IoError::UnexpectedEof)))
    );
    assert_eq!(reader.remaining(), 14);
}

#[test]
fn scenario_handshake_moves_to_login() {
    let mut c = Connection::new(vec![0; 4]);
    assert_eq!(c.mode, SocketMode::Handshaking);
    let replies = c.handle_packet(&config(false), 0x00, &handshake_payload(2)).unwrap();
    assert!(replies.is_empty());
    assert_eq!(c.mode, SocketMode::Login);
}

#[test]
fn handshake_for_status_moves_to_status() {
    let mut c = connection(SocketMode::Handshaking);
    assert_eq!(c.handle_packet(&config(false), 0x00, &handshake_payload(1)), Ok(vec![]));
    assert_eq!(c.mode, SocketMode::Status);
    assert_eq!(c.handle_packet(&config(false), 0x00, &[]), Err(ConnectionError::Unimplemented));
    assert_eq!(c.mode, SocketMode::Status);
}

#[test]
fn handshake_for_neither_phase_changes_nothing() {
    for next_state in [0, 3, -1, 758] {
        let mut c = connection(SocketMode::Handshaking);
        assert_eq!(c.handle_packet(&config(false), 0x00, &handshake_payload(next_state)), Ok(vec![]));
        assert_eq!(c.mode, SocketMode::Handshaking);
    }
}

#[test]
fn scenario_login_start_is_answered() {
    let mut c = connection(SocketMode::Login);
    let replies = c.handle_packet(&config(false), 0x00, &login_start_payload("Steve")).unwrap();
    assert_eq!(c.mode, SocketMode::Play);
    assert_eq!(replies.len(), 2);

    assert_eq!(replies[0][0], 0x02);
    let mut success = ByteReader::new(&replies[0][1..]);
    assert_eq!(success.read_mc_uuid(), Ok(McUUID { most: 64, least: 64 }));
    assert_eq!(success.read_mc_string(), Ok("Steve".to_owned()));
    assert_eq!(success.remaining(), 0);

    assert_eq!(replies[1][0], 0x26);
    let mut join = ByteReader::new(&replies[1][1..]);
    assert_eq!(join.read_mc_int(), Ok(24));
    assert_eq!(join.read_mc_bool(), Ok(false));
    assert_eq!(join.read_mc_ubyte(), GameMode::Survival.to_u8().ok_or(IoError::UnexpectedEof));
    assert_eq!(join.read_mc_byte(), Ok(0));
    assert_eq!(join.read_mc_varint(), Ok(1));
    let world = McIdentifier { namespace: Some("zipperland".to_owned()), name: "steveland".to_owned() };
    assert_eq!(join.read_mc_identifier(), Ok(world.clone()));
    assert_eq!(join.read_exact(3), Ok(&[0xc0u8, 0xde, 0xc0][..]));
    assert_eq!(join.read_exact(2), Ok(&[0xd1u8, 0xd2][..]));
    assert_eq!(join.read_mc_identifier(), Ok(world));
    assert_eq!(join.read_mc_long(), Ok(56717237888581));
    assert_eq!(join.read_mc_varint(), Ok(32));
    assert_eq!(join.read_mc_varint(), Ok(16));
    assert_eq!(join.read_mc_varint(), Ok(16));
    assert_eq!(join.read_mc_bool(), Ok(false));
    assert_eq!(join.read_mc_bool(), Ok(true));
    assert_eq!(join.read_mc_bool(), Ok(true));
    assert_eq!(join.read_mc_bool(), Ok(false));
    assert_eq!(join.remaining(), 0);
}

#[test]
fn scenario_invalid_username_ends_the_connection() {
    let mut c = connection(SocketMode::Login);
    let r = c.handle_packet(&config(false), 0x00, &[2, 0xc3, 0x28]);
    assert_eq!(r, Err(ConnectionError::InvalidUsername(McStringError::Utf8)));
    assert_eq!(c.mode, SocketMode::Login);

    let mut wire = frame(0x00, &handshake_payload(2));
    wire.extend(frame(0x00, &[2, 0xc3, 0x28]));
    let mut c = Connection::new(vec![0; 4]);
    let mut output = Vec::new();
    assert_eq!(
        c.serve(&config(false), &McNoCompression, &wire, &mut output),
        Err(ConnectionError::InvalidUsername(McStringError::Utf8))
    );
    assert!(output.is_empty());
}

#[test]
fn login_with_encryption_sends_a_request() {
    let mut c = connection(SocketMode::Login);
    let replies = c.handle_packet(&config(true), 0x00, &login_start_payload("Alex")).unwrap();
    assert_eq!(c.mode, SocketMode::Play);
    assert_eq!(replies.len(), 2);
    assert_eq!(replies[0][0], 0x01);
    let mut request = ByteReader::new(&replies[0][1..]);
    assert_eq!(request.read_mc_string(), Ok("\0".repeat(20)));
    assert_eq!(request.read_mc_varint(), Ok(3));
    assert_eq!(request.read_exact(3), Ok(&[0x30u8, 0x31, 0x32][..]));
    assert_eq!(request.read_mc_varint(), Ok(4));
    assert_eq!(request.read_exact(4), Ok(&[9u8, 8, 7, 6][..]));
    assert_eq!(request.remaining(), 0);
    assert_eq!(replies[1][0], JOIN_GAME_ID);
}

#[test]
fn other_login_packets_change_nothing() {
    for id in [0x01u8, 0x02, 0x03, 0xff] {
        let mut c = connection(SocketMode::Login);
        assert_eq!(c.handle_packet(&config(false), id, &[1, 2, 3]), Ok(vec![]));
        assert_eq!(c.mode, SocketMode::Login);
    }
}

#[test]
fn unknown_handshaking_packet_changes_nothing() {
    let mut c = connection(SocketMode::Handshaking);
    assert_eq!(c.handle_packet(&config(false), 0x05, &[0xff]), Ok(vec![]));
    assert_eq!(c.mode, SocketMode::Handshaking);
}

#[test]
fn id_is_read_by_the_phase() {
    // 0x00 is a handshake in one phase and a login start in another
    let payload = handshake_payload(2);
    let mut c = connection(SocketMode::Handshaking);
    assert_eq!(c.handle_packet(&config(false), 0x00, &payload), Ok(vec![]));
    let mut c = connection(SocketMode::Play);
    assert_eq!(c.handle_packet(&config(false), 0x00, &payload), Ok(vec![]));
    assert_eq!(c.mode, SocketMode::Play);
}

#[test]
fn play_accepts_every_packet() {
    for id in [0x00u8, 0x26, 0xff] {
        let mut c = connection(SocketMode::Play);
        assert_eq!(c.handle_packet(&config(true), id, &[]), Ok(vec![]));
        assert_eq!(c.mode, SocketMode::Play);
    }
}

#[test]
fn malformed_handshake_fails() {
    let mut c = connection(SocketMode::Handshaking);
    assert_eq!(
        c.handle_packet(&config(false), 0x00, &[0x80]),
        Err(ConnectionError::VarInt(VarIntError::Io(IoError::UnexpectedEof)))
    );
    assert_eq!(c.mode, SocketMode::Handshaking);
}

#[test]
fn serve_whole_session() {
    let mut wire = frame(0x00, &handshake_payload(2));
    wire.extend(frame(0x00, &login_start_payload("Steve")));
    wire.extend(frame(0x77, &[1, 2, 3]));
    let mut c = Connection::new(vec![0; 4]);
    let mut output = vec![0xee];
    assert_eq!(c.serve(&config(false), &McNoCompression, &wire, &mut output), Ok(()));
    assert_eq!(c.mode, SocketMode::Play);

    let mut reader = ByteReader::new(&output[1..]);
    let success = read_frame(&mut reader).unwrap();
    assert_eq!(success.id, 0x02);
    let mut expected = Vec::new();
    prepare_login_success(&mut expected, "Steve").unwrap();
    assert_eq!(success.payload.peek(), &expected[..]);
    let join = read_frame(&mut reader).unwrap();
    assert_eq!(join.id, 0x26);
    let mut expected = Vec::new();
    prepare_join_game(&mut expected, &documents());
    assert_eq!(join.payload.peek(), &expected[..]);
    assert_eq!(reader.remaining(), 0);
}

#[test]
fn unknown_packet_in_play_keeps_the_stream_in_step() {
    // a declared length of five: one byte of prefix and five bytes more
    let unknown = frame(0x7e, &[1, 2, 3, 4]);
    assert_eq!(unknown.len(), 6);
    let mut wire = unknown.clone();
    wire.extend(frame(0x7f, &[9]));
    let mut reader = ByteReader::new(&wire);
    let first = read_frame(&mut reader).unwrap();
    assert_eq!(first.length, 5);
    assert_eq!(wire.len() - reader.remaining(), 6);
    let second = read_frame(&mut reader).unwrap();
    assert_eq!((second.id, second.payload.peek()), (0x7f, &[9u8][..]));

    let mut c = connection(SocketMode::Play);
    let mut output = Vec::new();
    assert_eq!(c.serve(&config(false), &McNoCompression, &wire, &mut output), Ok(()));
    assert_eq!(c.mode, SocketMode::Play);
    assert!(output.is_empty());
}

#[test]
fn serve_stops_at_a_broken_frame() {
    let mut wire = frame(0x00, &handshake_payload(2));
    wire.extend_from_slice(&[5, 0x00, 1]);
    let mut c = Connection::new(vec![0; 4]);
    let mut output = Vec::new();
    assert_eq!(
        c.serve(&config(false), &McNoCompression, &wire, &mut output),
        Err(ConnectionError::Transform(MiddlewareError::Io(IoError::UnexpectedEof)))
    );
    assert_eq!(c.mode, SocketMode::Login);
}

#[test]
fn serve_status_is_unimplemented() {
    let mut wire = frame(0x00, &handshake_payload(1));
    wire.extend(frame(0x00, &[]));
    let mut c = Connection::new(vec![0; 4]);
    let mut output = Vec::new();
    assert_eq!(
        c.serve(&config(false), &McNoCompression, &wire, &mut output),
        Err(ConnectionError::Unimplemented)
    );
    assert_eq!(c.mode, SocketMode::Status);
}

#[test]
fn serve_empty_stream() {
    let mut c = Connection::new(vec![0; 4]);
    let mut output = Vec::new();
    assert_eq!(c.serve(&config(false), &McNoCompression, &[], &mut output), Ok(()));
    assert_eq!(c.mode, SocketMode::Handshaking);
    assert!(output.is_empty());
}

#[test]
fn accept_draws_a_token() {
    let c = Connection::accept();
    assert_eq!(c.mode, SocketMode::Handshaking);
    assert_eq!(c.verify_token.len(), 4);
}

#[test]
fn login_success_payload_bytes() {
    let mut buf = vec![0xaa];
    assert_eq!(prepare_login_success(&mut buf, "Steve"), Ok(22));
    let mut expected = vec![0xaa, 0, 0, 0, 0, 0, 0, 0, 64, 0, 0, 0, 0, 0, 0, 0, 64, 5];
    expected.extend_from_slice(b"Steve");
    assert_eq!(buf, expected);
}

#[test]
fn encryption_request_payload_bytes() {
    let mut buf = Vec::new();
    assert_eq!(prepare_encryption_request(&mut buf, &[1, 2], &[3, 4, 5, 6]), Ok(()));
    let mut expected = vec![20u8];
    expected.extend_from_slice(&[0; 20]);
    expected.extend_from_slice(&[2, 1, 2, 4, 3, 4, 5, 6]);
    assert_eq!(buf, expected);
}

#[test]
fn join_game_payload_bytes() {
    let mut buf = Vec::new();
    let count = prepare_join_game(&mut buf, &documents());
    assert_eq!(count, buf.len());
    let mut expected = vec![0, 0, 0, 24, 0, 0, 0, 1, 20];
    expected.extend_from_slice(b"zipperland:steveland");
    expected.extend_from_slice(&[0xc0, 0xde, 0xc0, 0xd1, 0xd2, 20]);
    expected.extend_from_slice(b"zipperland:steveland");
    expected.extend_from_slice(&[0x00, 0x00, 0x33, 0x95, 0x82, 0xd1, 0x26, 0x45]);
    expected.extend_from_slice(&[32, 16, 16, 0, 1, 1, 0]);
    assert_eq!(buf, expected);
}

#[test]
fn replies_are_sent_in_order() {
    let replies = vec![vec![0x02, 1, 2], vec![0x26]];
    assert_eq!(send_replies(&McNoCompression, &replies), Ok(vec![3, 0x02, 1, 2, 1, 0x26]));
    assert_eq!(send_replies(&McPassthrough, &replies), Ok(vec![0x02, 1, 2, 0x26]));
    assert_eq!(send_replies(&McNoCompression, &Vec::new()), Ok(vec![]));
}

#[test]
fn replies_are_frames_without_compression() {
    let replies = vec![vec![0x02, 1, 2], vec![0x26, 7]];
    let mut frames = frame(0x02, &[1, 2]);
    frames.extend(frame(0x26, &[7]));
    assert_eq!(send_replies(&McNoCompression, &replies), Ok(frames));
}

#[test]
fn packet_without_id_is_refused() {
    let mut c = connection(SocketMode::Play);
    let mut output = Vec::new();
    assert_eq!(
        c.serve(&config(false), &McNoCompression, &[0], &mut output),
        Err(ConnectionError::EmptyPacket)
    );
}

#[test]
fn round_takes_one_packet() {
    let mut wire = frame(0x00, &handshake_payload(2));
    let first = wire.len();
    wire.extend(frame(0x00, &login_start_payload("Steve")));
    let mut c = Connection::new(vec![0; 4]);
    let mut reader = ByteReader::new(&wire);
    let mut output = Vec::new();
    assert_eq!(c.round(&config(false), &McNoCompression, &mut reader, &mut output), Ok(()));
    assert_eq!(c.mode, SocketMode::Login);
    assert_eq!(reader.remaining(), wire.len() - first);
    assert!(output.is_empty());
    assert_eq!(c.round(&config(false), &McNoCompression, &mut reader, &mut output), Ok(()));
    assert_eq!(c.mode, SocketMode::Play);
    assert_eq!(reader.remaining(), 0);
    assert!(!output.is_empty());
}

#[test]
fn failed_round_changes_nothing() {
    let wire = frame(0x00, &[2, 0xc3, 0x28]);
    let mut c = connection(SocketMode::Login);
    let mut reader = ByteReader::new(&wire);
    let mut output = vec![5u8];
    assert_eq!(
        c.round(&config(false), &McNoCompression, &mut reader, &mut output),
        Err(ConnectionError::InvalidUsername(McStringError::Utf8))
    );
    assert_eq!(c.mode, SocketMode::Login);
    assert_eq!(reader.remaining(), wire.len());
    assert_eq!(output, vec![5]);
}

#[test]
fn serve_behind_compression() {
    let mut handshake = vec![0x00];
    handshake.extend(handshake_payload(2));
    let mut login = vec![0x00];
    login.extend(login_start_payload("Steve"));
    let mut wire = Vec::new();
    McZlibCompression.write_packet(&mut wire, &handshake).unwrap();
    McZlibCompression.write_packet(&mut wire, &login).unwrap();

    let mut c = Connection::new(vec![0; 4]);
    let mut output = Vec::new();
    assert_eq!(c.serve(&config(false), &McZlibCompression, &wire, &mut output), Ok(()));
    assert_eq!(c.mode, SocketMode::Play);

    let mut reader = ByteReader::new(&output);
    let mut success = Vec::new();
    assert_eq!(McZlibCompression.read_packet(&mut reader, &mut success), Ok(()));
    let mut expected = vec![0x02];
    prepare_login_success(&mut expected, "Steve").unwrap();
    assert_eq!(success, expected);
    let mut join = Vec::new();
    assert_eq!(McZlibCompression.read_packet(&mut reader, &mut join), Ok(()));
    let mut expected = vec![JOIN_GAME_ID];
    prepare_join_game(&mut expected, &documents());
    assert_eq!(join, expected);
    assert_eq!(reader.remaining(), 0);
}

#[test]
fn structured_values_are_written_by_the_crate() {
    let mut buf = vec![0xaa];
    assert_eq!(buf.write_mc_nbt(&nbt::Value::Int(5)), Ok(4));
    assert_eq!(buf, vec![0xaa, 0, 0, 0, 5]);
    assert_eq!(buf.write_mc_nbt(&nbt::Value::String("hi".to_owned())), Ok(4));
    assert_eq!(&buf[5..], &[0, 2, b'h', b'i']);

    let mut map = nbt::Map::new();
    map.insert("a".to_owned(), nbt::Value::Byte(1));
    let mut buf = Vec::new();
    assert_eq!(buf.write_mc_nbt(&nbt::Value::Compound(map)), Ok(6));
    assert_eq!(buf, vec![0x01, 0x00, 0x01, b'a', 0x01, 0x00]);
}

#[test]
fn mixed_list_is_refused() {
    let mixed = nbt::Value::List(vec![nbt::Value::Int(1), nbt::Value::Byte(2)]);
    let mut buf = vec![7u8];
    assert_eq!(buf.write_mc_nbt(&mixed), Err(StructuredError::Unrepresentable));
    assert_eq!(buf, vec![7]);
}

#[test]
fn join_game_carries_the_documents() {
    let mut dimension = nbt::Map::new();
    dimension.insert("ambient_light".to_owned(), nbt::Value::Float(1.0));
    let mut codec = nbt::Map::new();
    codec.insert("minecraft:dimension_type".to_owned(), nbt::Value::Compound(dimension.clone()));
    let mut documents = WorldDocuments { dimension_codec: Vec::new(), dimension_type: Vec::new() };
    documents.dimension_codec.write_mc_nbt(&nbt::Value::Compound(codec)).unwrap();
    documents.dimension_type.write_mc_nbt(&nbt::Value::Compound(dimension)).unwrap();
    assert_eq!(
        documents.dimension_type,
        vec![
            0x05, 0x00, 0x0d, b'a', b'm', b'b', b'i', b'e', b'n', b't', b'_', b'l', b'i', b'g',
            b'h', b't', 0x3f, 0x80, 0x00, 0x00, 0x00
        ]
    );
    assert!(!documents.dimension_codec.is_empty());

    let config = ServerConfig { encryption_enabled: false, public_key: Vec::new(), documents };
    let mut c = connection(SocketMode::Login);
    let replies = c.handle_packet(&config, 0x00, &login_start_payload("Steve")).unwrap();
    let mut join = ByteReader::new(&replies[1][1..]);
    join.advance(4 + 1 + 1 + 1 + 1 + 21);
    assert_eq!(join.read_exact(config.documents.dimension_codec.len()), Ok(&config.documents.dimension_codec[..]));
    assert_eq!(join.read_exact(config.documents.dimension_type.len()), Ok(&config.documents.dimension_type[..]));
    let name = join.read_mc_identifier().unwrap();
    assert_eq!(name.to_string(), "zipperland:steveland");
}

#[test]
fn oversized_key_is_refused() {
    let key = vec![0u8; 0x8000_0000];
    let mut buf = vec![1u8];
    assert_eq!(prepare_encryption_request(&mut buf, &key, &[1, 2, 3, 4]), Err(ConnectionError::TooLarge));
    assert_eq!(prepare_encryption_request(&mut buf, &[1], &key), Err(ConnectionError::TooLarge));
    assert_eq!(buf, vec![1]);

    let config = ServerConfig { encryption_enabled: true, public_key: key, documents: documents() };
    let mut c = connection(SocketMode::Login);
    assert_eq!(
        c.handle_packet(&config, 0x00, &login_start_payload("Steve")),
        Err(ConnectionError::TooLarge)
    );
    assert_eq!(c.mode, SocketMode::Login);
}

#[test]
fn oversized_reply_is_refused() {
    let replies = vec![vec![0x02, 1], vec![0u8; 0x8000_0000]];
    assert_eq!(
        send_replies(&McNoCompression, &replies),
        Err(ConnectionError::Transform(MiddlewareError::TooLarge))
    );
}

#[test]
fn outcome_of_the_crate_is_appended_or_refused() {
    let mut buf = vec![1u8, 2];
    assert_eq!(append_outcome(&mut buf, Ok(vec![7, 8, 9])), Ok(3));
    assert_eq!(buf, vec![1, 2, 7, 8, 9]);
    assert_eq!(append_outcome(&mut buf, Ok(Vec::new())), Ok(0));
    assert_eq!(buf, vec![1, 2, 7, 8, 9]);
    assert_eq!(
        append_outcome(&mut buf, Err(nbt::Error::HeterogeneousList)),
        Err(StructuredError::Unrepresentable)
    );
    assert_eq!(buf, vec![1, 2, 7, 8, 9]);
}
