use crate::bytes::{put_slice, ByteReader, IoError};
use crate::mc_types::varint::{
    lemma_varint_reads_no_further, lemma_varint_round_trip, VarInt, VarIntError,
};
use vstd::prelude::*;

verus! {

/// The largest payload that fits a frame: the declared length counts the ID
/// byte too and is a positive `i32`.
pub const MAX_FRAME_PAYLOAD: usize = 0x7fff_fffe;

/// Why a frame could not be read or written.
#[derive(Debug, Clone, Copy, PartialEq, Eq, Structural)]
pub enum FrameError {
    /// The length prefix could not be decoded.
    Length(VarIntError),
    /// The declared length leaves no room for the ID byte.
    InvalidLength,
    /// The source holds fewer bytes than the frame declares.
    Io(IoError),
    /// The payload is larger than [`MAX_FRAME_PAYLOAD`].
    TooLarge,
}

/// One packet as it was taken off the wire.
pub struct Frame<'a> {
    /// The declared length: the ID byte and the payload.
    pub length: i32,
    /// The packet ID.
    pub id: u8,
    /// The payload region. It holds the payload and nothing else, so a
    /// parser can neither leave it nor disturb the frames that follow.
    pub payload: ByteReader<'a>,
}

/// What a successful read of a frame yields, as plain values.
pub struct FrameView {
    /// The declared length: the ID byte and the payload.
    pub length: i32,
    /// The packet ID.
    pub id: u8,
    /// The bytes of the payload region.
    pub payload: Seq<u8>,
    /// The number of bytes of the whole frame, length prefix included.
    pub consumed: nat,
}

/// The wire form of a frame: the length of ID and payload as a `VarInt`, the
/// ID as a single byte, the payload.
pub open spec fn frame_bytes(id: u8, payload: Seq<u8>) -> Seq<u8> {
    VarInt::spec_encode((payload.len() + 1) as i32) + seq![id] + payload
}

/// What reading a frame makes of the bytes `s`.
///
/// A frame of declared length `n` takes the bytes of its prefix and `n`
/// bytes more, whatever its ID is.
pub open spec fn spec_read_frame(s: Seq<u8>) -> Result<FrameView, FrameError> {
    match VarInt::spec_decode(s) {
        Err(e) => Err(FrameError::Length(e)),
        Ok((length, prefix)) => {
            if length < 1 {
                Err(FrameError::InvalidLength)
            } else if prefix + length > s.len() {
                Err(FrameError::Io(IoError::UnexpectedEof))
            } else {
                Ok(
                    FrameView {
                        length,
                        id: s[prefix as int],
                        payload: s.subrange(prefix as int + 1, prefix + length),
                        consumed: (prefix + length) as nat,
                    },
                )
            }
        },
    }
}

/// Reads one frame from the front of `reader`.
///
/// On success the reader stands at the first byte after the frame, however
/// much of the payload region is read later; on failure it is left where it
/// was.
pub fn read_frame<'a>(reader: &mut ByteReader<'a>) -> (r: Result<Frame<'a>, FrameError>)
    ensures
        match spec_read_frame(old(reader)@) {
            Ok(view) => r is Ok && r->Ok_0.length == view.length && r->Ok_0.id == view.id
                && r->Ok_0.payload@ == view.payload
                && final(reader)@ == old(reader)@.skip(view.consumed as int),
            Err(e) => r is Err && r->Err_0 == e && final(reader)@ == old(reader)@,
        },
{
    let rest = reader.peek();
    let mut probe = ByteReader::new(rest);
    let length = match VarInt::read_from(&mut probe) {
        Ok(v) => v,
        Err(e) => {
            return Err(FrameError::Length(e));
        },
    };
    let available = probe.remaining();
    let ghost prefix = VarInt::spec_decode(rest@)->Ok_0.1;
    assert(available == rest@.len() - prefix);
    if length < 1 {
        return Err(FrameError::InvalidLength);
    }
    if length as usize > available {
        return Err(FrameError::Io(IoError::UnexpectedEof));
    }
    let body = match probe.read_exact(length as usize) {
        Ok(b) => b,
        Err(e) => {
            return Err(FrameError::Io(e));
        },
    };
    assert(body@ =~= rest@.subrange(prefix as int, prefix + length));
    let mut payload = ByteReader::new(body);
    let id = match payload.read_u8() {
        Ok(b) => b,
        Err(e) => {
            return Err(FrameError::Io(e));
        },
    };
    assert(payload@ =~= rest@.subrange(prefix as int + 1, prefix + length));
    reader.advance(rest.len() - available + length as usize);
    Ok(Frame { length, id, payload })
}

/// How many bytes more a reader has to wait for when it holds `bytes` from
/// the start of a frame: none when the frame is whole, one while the length
/// prefix goes on, and the rest of the frame once the prefix is known.
pub open spec fn spec_demand(bytes: Seq<u8>) -> Result<nat, FrameError> {
    match VarInt::spec_decode(bytes) {
        Err(VarIntError::Io(_)) => Ok(1),
        Err(e) => Err(FrameError::Length(e)),
        Ok((length, prefix)) => {
            if length < 1 {
                Err(FrameError::InvalidLength)
            } else if prefix + length <= bytes.len() {
                Ok(0)
            } else {
                Ok((prefix + length - bytes.len()) as nat)
            }
        },
    }
}

/// Says how many bytes more to wait for, given the bytes held from the
/// start of a frame. A reader that follows it holds the whole frame in the
/// end and not a byte of the next one.
pub fn demand(bytes: &[u8]) -> (r: Result<usize, FrameError>)
    ensures
        match spec_demand(bytes@) {
            Ok(n) => r == Ok::<usize, FrameError>(n as usize),
            Err(e) => r == Err::<usize, FrameError>(e),
        },
{
    let mut probe = ByteReader::new(bytes);
    let length = match VarInt::read_from(&mut probe) {
        Ok(v) => v,
        Err(VarIntError::Io(_)) => {
            return Ok(1);
        },
        Err(e) => {
            return Err(FrameError::Length(e));
        },
    };
    if length < 1 {
        return Err(FrameError::InvalidLength);
    }
    let available = probe.remaining();
    if length as usize <= available {
        Ok(0)
    } else {
        Ok(length as usize - available)
    }
}

/// Appends the frame of `id` and `payload` to `writer` and returns the
/// number of bytes written. A payload that is too large for a frame is
/// refused and nothing is written.
pub fn write_frame(writer: &mut Vec<u8>, id: u8, payload: &[u8]) -> (r: Result<usize, FrameError>)
    ensures
        payload@.len() <= MAX_FRAME_PAYLOAD ==> r == Ok::<usize, FrameError>(
            frame_bytes(id, payload@).len() as usize,
        ) && final(writer)@ == old(writer)@ + frame_bytes(id, payload@),
        payload@.len() > MAX_FRAME_PAYLOAD ==> r == Err::<usize, FrameError>(FrameError::TooLarge)
            && final(writer)@ == old(writer)@,
{
    let length = payload.len();
    if length > MAX_FRAME_PAYLOAD {
        return Err(FrameError::TooLarge);
    }
    proof {
        lemma_varint_round_trip((length + 1) as i32, Seq::empty());
    }
    let mut count: usize = VarInt::write_to(writer, (length + 1) as i32);
    writer.push(id);
    put_slice(writer, payload);
    count = count + 1 + length;
    assert(writer@ =~= old(writer)@ + frame_bytes(id, payload@));
    Ok(count)
}

/// A frame that declares the length `n` takes the bytes of its length
/// prefix and `n` bytes more, of which the first is the ID and the others
/// are the payload.
pub proof fn lemma_frame_extent(s: Seq<u8>)
    requires
        spec_read_frame(s) is Ok,
    ensures
        ({
            let frame = spec_read_frame(s)->Ok_0;
            let prefix = VarInt::spec_decode(s)->Ok_0.1;
            &&& VarInt::spec_decode(s) is Ok
            &&& frame.length == VarInt::spec_decode(s)->Ok_0.0
            &&& 1 <= prefix <= 5
            &&& frame.length >= 1
            &&& frame.payload.len() == frame.length - 1
            &&& frame.consumed == prefix + frame.length
            &&& frame.consumed <= s.len()
        }),
{
}

/// Nothing more is asked for exactly when the bytes held start with a whole
/// frame, and what is asked for never reaches beyond the frame: bytes that
/// hold a whole frame after a demand was met end with that frame.
pub proof fn lemma_demand_stays_within_frame(bytes: Seq<u8>, more: Seq<u8>)
    ensures
        spec_demand(bytes) == Ok::<nat, FrameError>(0) <==> spec_read_frame(bytes) is Ok,
        spec_demand(bytes) matches Ok(n) && n > 0 && more.len() == n && spec_read_frame(
            bytes + more,
        ) is Ok ==> spec_read_frame(bytes + more)->Ok_0.consumed == bytes.len() + more.len(),
{
    if spec_demand(bytes) matches Ok(n) && n > 0 && more.len() == n && spec_read_frame(
        bytes + more,
    ) is Ok {
        let whole = bytes + more;
        if VarInt::spec_decode(bytes) is Ok {
            lemma_varint_reads_no_further(bytes);
            let len = VarInt::spec_decode(bytes)->Ok_0.1;
            assert(whole.take(len as int) =~= bytes.take(len as int));
        } else {
            lemma_varint_reads_no_further(whole);
            let len = VarInt::spec_decode(whole)->Ok_0.1;
            if len <= bytes.len() {
                assert(bytes.take(len as int) =~= whole.take(len as int));
                assert(VarInt::spec_decode(bytes) == VarInt::spec_decode(whole));
            }
        }
    }
}

/// A frame is read from its own bytes alone: what follows it on the wire is
/// not looked at.
pub proof fn lemma_frame_reads_no_further(s: Seq<u8>, t: Seq<u8>)
    requires
        spec_read_frame(s) is Ok,
        t.len() >= spec_read_frame(s)->Ok_0.consumed,
        t.take(spec_read_frame(s)->Ok_0.consumed as int) == s.take(
            spec_read_frame(s)->Ok_0.consumed as int,
        ),
    ensures
        spec_read_frame(t) == spec_read_frame(s),
{
    let frame = spec_read_frame(s)->Ok_0;
    let n = frame.consumed as int;
    let prefix = VarInt::spec_decode(s)->Ok_0.1 as int;
    lemma_varint_reads_no_further(s);
    assert(t.take(prefix) =~= t.take(n).take(prefix));
    assert(s.take(prefix) =~= s.take(n).take(prefix));
    assert(t[prefix] == t.take(n)[prefix]);
    assert(s[prefix] == s.take(n)[prefix]);
    assert(t.subrange(prefix + 1, n) =~= t.take(n).subrange(prefix + 1, n));
    assert(s.subrange(prefix + 1, n) =~= s.take(n).subrange(prefix + 1, n));
}

/// Reading gives back the ID and the payload that were written, whatever
/// bytes follow the frame, and takes exactly the bytes that were written.
/// This holds of every payload that fits a frame.
pub proof fn lemma_frame_round_trip(id: u8, payload: Seq<u8>, rest: Seq<u8>)
    requires
        payload.len() <= MAX_FRAME_PAYLOAD,
    ensures
        spec_read_frame(frame_bytes(id, payload) + rest) == Ok::<FrameView, FrameError>(
            (FrameView {
                length: (payload.len() + 1) as i32,
                id,
                payload,
                consumed: frame_bytes(id, payload).len(),
            }),
        ),
{
    let length = (payload.len() + 1) as i32;
    let prefix = VarInt::spec_encode(length);
    let s = frame_bytes(id, payload) + rest;
    lemma_varint_round_trip(length, seq![id] + payload + rest);
    assert(s =~= prefix + (seq![id] + payload + rest));
    assert(s.subrange(prefix.len() as int + 1, prefix.len() + length) =~= payload);
}

} // verus!
