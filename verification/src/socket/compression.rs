use crate::bytes::{put_slice, same_bytes, ByteReader, IoError};
use crate::frame::{frame_bytes, spec_read_frame, MAX_FRAME_PAYLOAD};
use crate::mc_types::varint::{lemma_varint_reads_no_further, lemma_varint_round_trip, VarInt};
use crate::socket::{Middleware, MiddlewareError};
use vstd::prelude::*;

verus! {

/// The largest payload whose length fits the length field.
pub const MAX_PACKET_LEN: usize = 0x7fff_ffff;

/// Prepends the length of the data in front of the data before writing, and
/// does not compress.
pub struct McNoCompression;

impl Middleware for McNoCompression {
    open spec fn spec_send(&self, data: Seq<u8>) -> Result<Seq<u8>, MiddlewareError> {
        if data.len() <= MAX_PACKET_LEN {
            Ok(VarInt::spec_encode(data.len() as i32) + data)
        } else {
            Err(MiddlewareError::TooLarge)
        }
    }

    open spec fn spec_receive(&self, source: Seq<u8>) -> Result<(Seq<u8>, nat), MiddlewareError> {
        match VarInt::spec_decode(source) {
            Err(e) => Err(MiddlewareError::Length(e)),
            Ok((length, prefix)) => {
                if length < 0 {
                    Err(MiddlewareError::InvalidLength)
                } else if prefix + length > source.len() {
                    Err(MiddlewareError::Io(IoError::UnexpectedEof))
                } else {
                    Ok((source.subrange(prefix as int, prefix + length), (prefix + length) as nat))
                }
            },
        }
    }

    proof fn send_then_receive(&self, data: Seq<u8>) {
        if data.len() <= MAX_PACKET_LEN {
            lemma_no_compression_round_trip(data, Seq::empty());
            assert(self.spec_send(data)->Ok_0 + Seq::<u8>::empty() =~= self.spec_send(data)->Ok_0);
        }
    }

    proof fn receive_takes_bytes(&self, source: Seq<u8>) {
        if VarInt::spec_decode(source) is Ok {
            lemma_varint_reads_no_further(source);
        }
    }

    fn write_packet(
        &self,
        writer: &mut Vec<u8>,
        data: &[u8],
    ) -> (r: Result<usize, MiddlewareError>) {
        let length = data.len();
        if length > MAX_PACKET_LEN {
            return Err(MiddlewareError::TooLarge);
        }
        proof {
            lemma_varint_round_trip(length as i32, Seq::empty());
        }
        let mut count: usize = 0;
        count = count + VarInt::write_to(writer, length as i32);
        put_slice(writer, data);
        count = count + length;
        assert(writer@ =~= old(writer)@ + (VarInt::spec_encode(length as i32) + data@));
        Ok(count)
    }

    fn read_packet(
        &self,
        reader: &mut ByteReader,
        buf: &mut Vec<u8>,
    ) -> (r: Result<(), MiddlewareError>) {
        let rest = reader.peek();
        let mut probe = ByteReader::new(rest);
        let length = match VarInt::read_from(&mut probe) {
            Ok(v) => v,
            Err(e) => {
                return Err(MiddlewareError::Length(e));
            },
        };
        let available = probe.remaining();
        let ghost prefix = VarInt::spec_decode(rest@)->Ok_0.1;
        assert(available == rest@.len() - prefix);
        if length < 0 {
            return Err(MiddlewareError::InvalidLength);
        }
        if length as usize > available {
            return Err(MiddlewareError::Io(IoError::UnexpectedEof));
        }
        let body = match probe.read_exact(length as usize) {
            Ok(b) => b,
            Err(e) => {
                return Err(MiddlewareError::Io(e));
            },
        };
        assert(body@ =~= rest@.subrange(prefix as int, prefix + length));
        put_slice(buf, body);
        reader.advance(rest.len() - available + length as usize);
        Ok(())
    }
}

/// The compression level handed to the deflater.
pub const ZLIB_LEVEL: u8 = 6;

/// The zlib stream that `miniz_oxide` makes of `data` at compression level
/// `level`.
pub uninterp spec fn zlib_deflated(data: Seq<u8>, level: u8) -> Seq<u8>;

/// What `miniz_oxide` inflates the zlib stream `stream` to when the result
/// may have at most `limit` bytes, or nothing where it fails.
pub uninterp spec fn zlib_inflated(stream: Seq<u8>, limit: usize) -> Option<Seq<u8>>;

/// Calls `miniz_oxide::deflate::compress_to_vec_zlib`, which compresses the
/// whole input into a new vector, behind a zlib header and in front of its
/// checksum. The level is one of those that the crate documents.
#[verifier::external_body]
fn deflate(data: &[u8], level: u8) -> (stream: Vec<u8>)
    requires
        level <= 10,
    ensures
        stream@ == zlib_deflated(data@, level),
{
    miniz_oxide::deflate::compress_to_vec_zlib(data, level)
}

/// Calls `miniz_oxide::inflate::decompress_to_vec_zlib_with_limit`, which
/// inflates a whole zlib stream into a new vector that it never grows beyond
/// `limit` bytes, and fails where the stream is damaged, incomplete or holds
/// more than that.
#[verifier::external_body]
fn inflate(stream: &[u8], limit: usize) -> (data: Option<Vec<u8>>)
    ensures
        data matches Some(v) ==> zlib_inflated(stream@, limit) == Some(v@) && v@.len() <= limit,
        data is None ==> zlib_inflated(stream@, limit) is None,
{
    miniz_oxide::inflate::decompress_to_vec_zlib_with_limit(stream, limit).ok()
}

/// Compresses every payload with zlib and prepends two lengths: that of the
/// payload before compression, and in front of it that of everything that
/// follows.
///
/// Every payload is inflated again before it is sent, so that nothing
/// leaves that the other side could not recover.
pub struct McZlibCompression;

impl McZlibCompression {
    /// The length of the payload before compression, followed by the zlib
    /// stream of the payload.
    pub open spec fn spec_body(data: Seq<u8>) -> Seq<u8> {
        VarInt::spec_encode(data.len() as i32) + zlib_deflated(data, ZLIB_LEVEL)
    }

    /// Whether the inflater gets `data` back out of what the deflater makes
    /// of it.
    pub open spec fn recoverable(data: Seq<u8>) -> bool {
        zlib_inflated(zlib_deflated(data, ZLIB_LEVEL), data.len() as usize) == Some(data)
    }
}

impl Middleware for McZlibCompression {
    open spec fn spec_send(&self, data: Seq<u8>) -> Result<Seq<u8>, MiddlewareError> {
        let body = McZlibCompression::spec_body(data);
        if data.len() > MAX_PACKET_LEN {
            Err(MiddlewareError::TooLarge)
        } else if !McZlibCompression::recoverable(data) {
            Err(MiddlewareError::Corrupt)
        } else if body.len() > MAX_PACKET_LEN {
            Err(MiddlewareError::TooLarge)
        } else {
            Ok(VarInt::spec_encode(body.len() as i32) + body)
        }
    }

    open spec fn spec_receive(&self, source: Seq<u8>) -> Result<(Seq<u8>, nat), MiddlewareError> {
        match McNoCompression.spec_receive(source) {
            Err(e) => Err(e),
            Ok((body, consumed)) => match VarInt::spec_decode(body) {
                Err(e) => Err(MiddlewareError::Length(e)),
                Ok((length, prefix)) => {
                    if length < 0 {
                        Err(MiddlewareError::InvalidLength)
                    } else {
                        match zlib_inflated(body.skip(prefix as int), length as usize) {
                            Some(data) => if data.len() == length {
                                Ok((data, consumed))
                            } else {
                                Err(MiddlewareError::Corrupt)
                            },
                            None => Err(MiddlewareError::Corrupt),
                        }
                    }
                },
            },
        }
    }

    proof fn send_then_receive(&self, data: Seq<u8>) {
        if self.spec_send(data) is Ok {
            lemma_zlib_round_trip(data, Seq::empty());
            assert(self.spec_send(data)->Ok_0 + Seq::<u8>::empty() =~= self.spec_send(data)->Ok_0);
        }
    }

    proof fn receive_takes_bytes(&self, source: Seq<u8>) {
        McNoCompression.receive_takes_bytes(source);
    }

    fn write_packet(
        &self,
        writer: &mut Vec<u8>,
        data: &[u8],
    ) -> (r: Result<usize, MiddlewareError>) {
        let length = data.len();
        if length > MAX_PACKET_LEN {
            return Err(MiddlewareError::TooLarge);
        }
        let stream = deflate(data, ZLIB_LEVEL);
        match inflate(stream.as_slice(), length) {
            Some(back) => {
                if !same_bytes(back.as_slice(), data) {
                    return Err(MiddlewareError::Corrupt);
                }
            },
            None => {
                return Err(MiddlewareError::Corrupt);
            },
        }
        let mut body: Vec<u8> = Vec::new();
        VarInt::write_to(&mut body, length as i32);
        put_slice(&mut body, stream.as_slice());
        assert(body@ =~= McZlibCompression::spec_body(data@));
        McNoCompression.write_packet(writer, body.as_slice())
    }

    fn read_packet(
        &self,
        reader: &mut ByteReader,
        buf: &mut Vec<u8>,
    ) -> (r: Result<(), MiddlewareError>) {
        let mut probe = ByteReader::new(reader.peek());
        let mut body: Vec<u8> = Vec::new();
        match McNoCompression.read_packet(&mut probe, &mut body) {
            Ok(_) => {},
            Err(e) => {
                return Err(e);
            },
        }
        assert(body@ =~= McNoCompression.spec_receive(old(reader)@)->Ok_0.0);
        let mut inner = ByteReader::new(body.as_slice());
        let length = match VarInt::read_from(&mut inner) {
            Ok(v) => v,
            Err(e) => {
                return Err(MiddlewareError::Length(e));
            },
        };
        if length < 0 {
            return Err(MiddlewareError::InvalidLength);
        }
        let data = match inflate(inner.peek(), length as usize) {
            Some(v) => v,
            None => {
                return Err(MiddlewareError::Corrupt);
            },
        };
        if data.len() != length as usize {
            return Err(MiddlewareError::Corrupt);
        }
        put_slice(buf, data.as_slice());
        reader.advance(reader.remaining() - probe.remaining());
        Ok(())
    }
}

/// What was sent is what is received, whatever bytes follow on the wire,
/// and receiving takes exactly the bytes that were sent.
pub proof fn lemma_no_compression_round_trip(data: Seq<u8>, rest: Seq<u8>)
    requires
        data.len() <= MAX_PACKET_LEN,
    ensures
        McNoCompression.spec_send(data) is Ok,
        McNoCompression.spec_receive(McNoCompression.spec_send(data)->Ok_0 + rest) == Ok::<
            (Seq<u8>, nat),
            MiddlewareError,
        >((data, McNoCompression.spec_send(data)->Ok_0.len())),
{
    let prefix = VarInt::spec_encode(data.len() as i32);
    let wire = prefix + data;
    lemma_varint_round_trip(data.len() as i32, data + rest);
    assert(wire + rest =~= prefix + (data + rest));
    let end = (prefix.len() + data.len()) as int;
    assert((wire + rest).subrange(prefix.len() as int, end) =~= data);
}

/// Behind compression, what was sent is what is received, whatever bytes
/// follow on the wire, and receiving takes exactly the bytes that were sent.
pub proof fn lemma_zlib_round_trip(data: Seq<u8>, rest: Seq<u8>)
    requires
        McZlibCompression.spec_send(data) is Ok,
    ensures
        McZlibCompression.spec_receive(McZlibCompression.spec_send(data)->Ok_0 + rest) == Ok::<
            (Seq<u8>, nat),
            MiddlewareError,
        >((data, McZlibCompression.spec_send(data)->Ok_0.len())),
{
    let body = McZlibCompression::spec_body(data);
    let length = VarInt::spec_encode(data.len() as i32);
    lemma_no_compression_round_trip(body, rest);
    lemma_varint_round_trip(data.len() as i32, zlib_deflated(data, ZLIB_LEVEL));
    assert(body.skip(length.len() as int) =~= zlib_deflated(data, ZLIB_LEVEL));
}

/// Receiving without compression takes a frame off the wire: the packet is
/// the ID of the frame followed by its payload, and the bytes taken are
/// those of the frame.
pub proof fn lemma_no_compression_reads_frames(s: Seq<u8>)
    requires
        spec_read_frame(s) is Ok,
    ensures
        McNoCompression.spec_receive(s) == Ok::<(Seq<u8>, nat), MiddlewareError>(
            (
                seq![spec_read_frame(s)->Ok_0.id] + spec_read_frame(s)->Ok_0.payload,
                spec_read_frame(s)->Ok_0.consumed,
            ),
        ),
{
    let frame = spec_read_frame(s)->Ok_0;
    let prefix = VarInt::spec_decode(s)->Ok_0.1 as int;
    assert(s.subrange(prefix, frame.consumed as int) =~= seq![frame.id] + frame.payload);
}

/// Sending a packet ID followed by a payload without compression gives the
/// frame of that ID and payload.
pub proof fn lemma_no_compression_is_framing(id: u8, payload: Seq<u8>)
    requires
        payload.len() <= MAX_FRAME_PAYLOAD,
    ensures
        McNoCompression.spec_send(seq![id] + payload) == Ok::<Seq<u8>, MiddlewareError>(
            frame_bytes(id, payload),
        ),
{
    let prefix = VarInt::spec_encode((payload.len() + 1) as i32);
    assert(prefix + (seq![id] + payload) =~= frame_bytes(id, payload));
}

} // verus!
