use crate::bytes::put_slice;
use crate::connection::ConnectionError;
use crate::mc_types::ext::{bool_byte, byte_bits, McWriteExt};
use crate::mc_types::fixed::{Int, Long, MinecraftType};
use crate::mc_types::identifier::McIdentifier;
use crate::mc_types::string::{McString, McStringError, MAX_STRING_LEN};
use crate::mc_types::uuid::{lemma_uuid_round_trip, McUUID};
use crate::mc_types::varint::{lemma_varint_round_trip, VarInt};
use crate::packet::GameMode;
use vstd::prelude::*;
use vstd::utf8::{encode_utf8, is_ascii_chars, is_ascii_chars_encode_utf8};

verus! {

/// The serialized documents that describe the world to a joining client.
/// They are made once, before the first connection, and only read after.
pub struct WorldDocuments {
    /// The registry of dimensions and biomes.
    pub dimension_codec: Vec<u8>,
    /// The dimension that a player joins.
    pub dimension_type: Vec<u8>,
}

/// The entity ID that a joining player gets.
pub const PLAYER_ENTITY_ID: i32 = 24;

/// The hashed seed that a joining player is told.
pub const HASHED_SEED: i64 = 56717237888581;

/// The number of player slots announced.
pub const MAX_PLAYERS: i32 = 32;

/// The view distance announced, in chunks.
pub const VIEW_DISTANCE: i32 = 16;

/// The simulation distance announced, in chunks.
pub const SIMULATION_DISTANCE: i32 = 16;

/// The identifier that every player is assigned.
pub open spec fn assigned_uuid() -> McUUID {
    McUUID { most: 64, least: 64 }
}

/// The server ID of an encryption request: twenty NUL characters.
pub open spec fn server_id() -> Seq<char> {
    "\0\0\0\0\0\0\0\0\0\0\0\0\0\0\0\0\0\0\0\0"@
}

/// The text of the name of the one world.
pub open spec fn world_name() -> Seq<char> {
    McIdentifier::spec_to_string(Some("zipperland"@), "steveland"@)
}

/// The payload of a login success: the assigned identifier and the name
/// that the player submitted.
pub open spec fn login_success_payload(username: Seq<char>) -> Seq<u8> {
    assigned_uuid().spec_encode() + McString::spec_encode(username)
}

/// The payload of an encryption request: the server ID, the public key and
/// the verify token, the last two each behind its length.
pub open spec fn encryption_request_payload(
    public_key: Seq<u8>,
    verify_token: Seq<u8>,
) -> Seq<u8> {
    McString::spec_encode(server_id())
        + VarInt::spec_encode(public_key.len() as i32)
        + public_key
        + VarInt::spec_encode(verify_token.len() as i32)
        + verify_token
}

/// The payload of a join game packet around the two serialized documents.
pub open spec fn join_game_payload(dimension_codec: Seq<u8>, dimension_type: Seq<u8>) -> Seq<u8> {
    Int::encode(PLAYER_ENTITY_ID)
        + seq![bool_byte(false)]  // hardcore
        + seq![GameMode::Survival.number() as u8]  // game mode
        + seq![byte_bits(GameMode::Survival.number() as i8)]  // previous game mode
        + VarInt::spec_encode(1)  // world count
        + McString::spec_encode(world_name())  // world names
        + dimension_codec
        + dimension_type
        + McString::spec_encode(world_name())  // world name
        + Long::encode(HASHED_SEED)
        + VarInt::spec_encode(MAX_PLAYERS)
        + VarInt::spec_encode(VIEW_DISTANCE)
        + VarInt::spec_encode(SIMULATION_DISTANCE)
        + seq![bool_byte(false)]  // reduced debug info
        + seq![bool_byte(true)]  // respawn screen
        + seq![bool_byte(true)]  // debug world
        + seq![bool_byte(false)]  // flat world
}

/// Appends the payload of a login success for `username` to `buf` and
/// returns the number of bytes written. A name too long for a string is
/// refused and nothing is written.
pub fn prepare_login_success(buf: &mut Vec<u8>, username: &str) -> (r: Result<usize, McStringError>)
    ensures
        encode_utf8(username@).len() <= MAX_STRING_LEN ==> r == Ok::<usize, McStringError>(
            login_success_payload(username@).len() as usize,
        ) && final(buf)@ == old(buf)@ + login_success_payload(username@),
        encode_utf8(username@).len() > MAX_STRING_LEN ==> r == Err::<usize, McStringError>(
            McStringError::LengthMismatch,
        ) && final(buf)@ == old(buf)@,
{
    if username.as_bytes().len() > MAX_STRING_LEN {
        return Err(McStringError::LengthMismatch);
    }
    let mut count: usize = 0;
    let uuid = McUUID { most: 64, least: 64 };
    count = count + buf.write_mc_uuid(&uuid);
    proof {
        lemma_varint_round_trip(encode_utf8(username@).len() as i32, Seq::empty());
        lemma_uuid_round_trip(uuid, Seq::empty());
    }
    match buf.write_mc_string(username) {
        Ok(n) => {
            count = count + n;
        },
        Err(e) => {
            return Err(e);
        },
    }
    assert(buf@ =~= old(buf)@ + login_success_payload(username@));
    Ok(count)
}

proof fn lemma_server_id_len()
    ensures
        encode_utf8(server_id()).len() == 20,
{
    reveal_strlit("\0\0\0\0\0\0\0\0\0\0\0\0\0\0\0\0\0\0\0\0");
    assert(is_ascii_chars(server_id()));
    is_ascii_chars_encode_utf8(server_id());
}

proof fn lemma_world_name_len()
    ensures
        encode_utf8(world_name()).len() == 20,
{
    reveal_strlit("zipperland");
    reveal_strlit("steveland");
    assert(is_ascii_chars("zipperland"@));
    assert(is_ascii_chars("steveland"@));
    assert(is_ascii_chars(seq![':']));
    assert(is_ascii_chars(world_name()));
    is_ascii_chars_encode_utf8(world_name());
}

/// Appends the payload of an encryption request to `buf`. A key or a token
/// too large for its length field is refused and nothing is written.
pub fn prepare_encryption_request(
    buf: &mut Vec<u8>,
    public_key: &[u8],
    verify_token: &[u8],
) -> (r: Result<(), ConnectionError>)
    ensures
        public_key@.len() <= MAX_STRING_LEN && verify_token@.len() <= MAX_STRING_LEN
            ==> r is Ok
            && final(buf)@ == old(buf)@ + encryption_request_payload(public_key@, verify_token@),
        public_key@.len() > MAX_STRING_LEN || verify_token@.len() > MAX_STRING_LEN
            ==> r == Err::<(), ConnectionError>(ConnectionError::TooLarge)
            && final(buf)@ == old(buf)@,
{
    if public_key.len() > MAX_STRING_LEN || verify_token.len() > MAX_STRING_LEN {
        return Err(ConnectionError::TooLarge);
    }
    proof {
        lemma_server_id_len();
    }
    // Server ID
    match buf.write_mc_string("\0\0\0\0\0\0\0\0\0\0\0\0\0\0\0\0\0\0\0\0") {
        Ok(_) => {},
        Err(_) => {
            return Err(ConnectionError::TooLarge);
        },
    }
    // Public key, behind its length
    buf.write_mc_varint(public_key.len() as i32);
    put_slice(buf, public_key);
    // Verify token, behind its length
    buf.write_mc_varint(verify_token.len() as i32);
    put_slice(buf, verify_token);
    assert(buf@ =~= old(buf)@ + encryption_request_payload(public_key@, verify_token@));
    Ok(())
}

/// Appends the payload of a join game packet to `buf` and returns the number
/// of bytes written.
pub fn prepare_join_game(buf: &mut Vec<u8>, documents: &WorldDocuments) -> (count: usize)
    ensures
        final(buf)@ == old(buf)@ + join_game_payload(
            documents.dimension_codec@,
            documents.dimension_type@,
        ),
        count == join_game_payload(documents.dimension_codec@, documents.dimension_type@).len(),
{
    let ghost start = buf@;
    let before = buf.len();
    let ghost payload = join_game_payload(documents.dimension_codec@, documents.dimension_type@);
    proof {
        lemma_world_name_len();
    }
    let world_id = McIdentifier {
        namespace: Some("zipperland".to_owned()),
        name: "steveland".to_owned(),
    };
    buf.write_mc_int(PLAYER_ENTITY_ID);
    buf.write_mc_bool(false);
    // current gamemode
    buf.write_mc_ubyte(GameMode::Survival.to_u8().unwrap());
    buf.write_mc_byte(GameMode::Survival.to_i8().unwrap());
    buf.write_mc_varint(1);  // world count
    let names = buf.write_mc_identifier(&world_id);  // world names
    assert(names is Ok);
    put_slice(buf, documents.dimension_codec.as_slice());
    put_slice(buf, documents.dimension_type.as_slice());
    let name = buf.write_mc_identifier(&world_id);  // world name
    assert(name is Ok);
    buf.write_mc_long(HASHED_SEED);
    buf.write_mc_varint(MAX_PLAYERS);
    buf.write_mc_varint(VIEW_DISTANCE);
    buf.write_mc_varint(SIMULATION_DISTANCE);
    buf.write_mc_bool(false);  // reduced debug info
    buf.write_mc_bool(true);  // respawn screen
    buf.write_mc_bool(true);  // debug world
    buf.write_mc_bool(false);  // superflat
    assert(buf@ =~= start + payload);
    buf.len() - before
}

} // verus!
