use crate::bytes::{put_slice, ByteReader};
use crate::connection::{
    packet_bytes, packet_views, Connection, ConnectionError, Outcome, ServerConfig,
};
use crate::frame::{frame_bytes, MAX_FRAME_PAYLOAD};
use crate::packet::{HandshakingPacket, LoginPacket, SocketMode};
use crate::socket::compression::{
    lemma_no_compression_is_framing, lemma_no_compression_round_trip, McNoCompression,
};
use crate::socket::{Middleware, MiddlewareError};
use vstd::prelude::*;
use vstd::slice::slice_subrange;

verus! {

/// What the replies come to on the wire behind `transform`, one after the
/// other, or the failure of the first that the transform cannot send.
pub open spec fn reply_wire<C: Middleware>(
    transform: &C,
    replies: Seq<Seq<u8>>,
) -> Result<Seq<u8>, ConnectionError>
    decreases replies.len(),
{
    if replies.len() == 0 {
        Ok(Seq::empty())
    } else {
        match transform.spec_send(replies[0]) {
            Err(e) => Err(ConnectionError::Transform(e)),
            Ok(wire) => match reply_wire(transform, replies.drop_first()) {
                Ok(later) => Ok(wire + later),
                Err(e) => Err(e),
            },
        }
    }
}

/// Puts the replies on the wire behind `transform`, all of them or none.
pub fn send_replies<C: Middleware>(
    transform: &C,
    replies: &Vec<Vec<u8>>,
) -> (r: Result<Vec<u8>, ConnectionError>)
    ensures
        match reply_wire(transform, packet_views(replies@)) {
            Ok(bytes) => r is Ok && r->Ok_0@ == bytes,
            Err(e) => r is Err && r->Err_0 == e,
        },
{
    let mut out: Vec<u8> = Vec::new();
    let ghost views = packet_views(replies@);
    let mut i: usize = 0;
    assert(views.skip(0) =~= views);
    assert(forall|later: Seq<u8>| out@ + later =~= later);
    while i < replies.len()
        invariant
            i <= replies@.len(),
            views == packet_views(replies@),
            match reply_wire(transform, views.skip(i as int)) {
                Ok(later) => reply_wire(transform, views) == Ok::<Seq<u8>, ConnectionError>(
                    out@ + later,
                ),
                Err(e) => reply_wire(transform, views) == Err::<Seq<u8>, ConnectionError>(e),
            },
        decreases replies@.len() - i,
    {
        let reply = &replies[i];
        let ghost before = out@;
        let ghost here = views.skip(i as int);
        assert(here[0] == reply@);
        assert(here.drop_first() =~= views.skip(i + 1));
        match transform.write_packet(&mut out, reply.as_slice()) {
            Ok(_) => {},
            Err(e) => {
                return Err(ConnectionError::Transform(e));
            },
        }
        proof {
            let wire = transform.spec_send(reply@)->Ok_0;
            match reply_wire(transform, views.skip(i + 1)) {
                Ok(later) => {
                    assert(before + (wire + later) =~= out@ + later);
                },
                Err(_) => {},
            }
        }
        i = i + 1;
    }
    assert(views.skip(i as int) =~= Seq::empty());
    assert(out@ + Seq::<u8>::empty() =~= out@);
    Ok(out)
}

/// What one round of serving comes to: the packet at the front of the
/// stream is taken, handled and answered.
pub struct Round {
    /// The number of wire bytes that the packet took.
    pub consumed: nat,
    /// The phase after the packet.
    pub mode: SocketMode,
    /// The wire bytes of the replies, in order.
    pub output: Seq<u8>,
}

/// What serving a whole byte stream comes to.
pub struct Served {
    /// The phase in which serving ended.
    pub mode: SocketMode,
    /// The bytes sent in answer: the wire bytes of all replies, in order.
    pub output: Seq<u8>,
    /// How serving ended: `Ok` where the stream ended between two packets.
    pub result: Result<(), ConnectionError>,
}

impl Connection {
    /// One round on the stream `input` in phase `mode`: the transform
    /// recovers a packet, whose first byte is the ID; the packet is handled;
    /// the replies go back through the transform.
    pub open spec fn spec_round<C: Middleware>(
        transform: &C,
        mode: SocketMode,
        verify_token: Seq<u8>,
        config: &ServerConfig,
        input: Seq<u8>,
    ) -> Result<Round, ConnectionError> {
        match transform.spec_receive(input) {
            Err(e) => Err(ConnectionError::Transform(e)),
            Ok((packet, consumed)) => {
                if packet.len() == 0 {
                    Err(ConnectionError::EmptyPacket)
                } else {
                    match Connection::spec_step(
                        mode,
                        verify_token,
                        config,
                        packet[0],
                        packet.skip(1),
                    ) {
                        Err(e) => Err(e),
                        Ok(outcome) => match reply_wire(transform, outcome.replies) {
                            Err(e) => Err(e),
                            Ok(output) => Ok(Round { consumed, mode: outcome.mode, output }),
                        },
                    }
                }
            },
        }
    }

    /// Serving the byte stream `input` from phase `mode`: round after round,
    /// until the stream ends or a round fails. A failing round changes
    /// nothing and sends nothing.
    #[verifier::opaque]
    pub open spec fn spec_serve<C: Middleware>(
        transform: &C,
        mode: SocketMode,
        verify_token: Seq<u8>,
        config: &ServerConfig,
        input: Seq<u8>,
    ) -> Served
        decreases input.len(),
    {
        if input.len() == 0 {
            Served { mode, output: Seq::empty(), result: Ok(()) }
        } else {
            match Connection::spec_round(transform, mode, verify_token, config, input) {
                Err(e) => Served { mode, output: Seq::empty(), result: Err(e) },
                Ok(round) => {
                    if 0 < round.consumed <= input.len() {
                        let later = Connection::spec_serve(
                            transform,
                            round.mode,
                            verify_token,
                            config,
                            input.skip(round.consumed as int),
                        );
                        Served {
                            mode: later.mode,
                            output: round.output + later.output,
                            result: later.result,
                        }
                    } else {
                        Served { mode: round.mode, output: round.output, result: Ok(()) }
                    }
                },
            }
        }
    }

    /// Serving unfolds round by round.
    proof fn lemma_serve_unfold<C: Middleware>(
        transform: &C,
        mode: SocketMode,
        verify_token: Seq<u8>,
        config: &ServerConfig,
        input: Seq<u8>,
    )
        ensures
            ({
                let served = Connection::spec_serve(transform, mode, verify_token, config, input);
                let round = Connection::spec_round(transform, mode, verify_token, config, input);
                &&& input.len() == 0 ==> served == Served {
                    mode,
                    output: Seq::empty(),
                    result: Ok(()),
                }
                &&& input.len() > 0 && round is Err ==> served == Served {
                    mode,
                    output: Seq::empty(),
                    result: Err(round->Err_0),
                }
                &&& input.len() > 0 && round is Ok ==> {
                    let later = Connection::spec_serve(
                        transform,
                        round->Ok_0.mode,
                        verify_token,
                        config,
                        input.skip(round->Ok_0.consumed as int),
                    );
                    &&& 0 < round->Ok_0.consumed <= input.len()
                    &&& served.mode == later.mode
                    &&& served.output == round->Ok_0.output + later.output
                    &&& served.result == later.result
                }
            }),
    {
        reveal(Connection::spec_serve);
        transform.receive_takes_bytes(input);
    }

    /// Plays one round: takes one packet from the front of `reader` through
    /// `transform`, handles it, and appends the wire bytes of the replies to
    /// `output`. On failure the connection, the reader and the output are
    /// left as they were.
    pub fn round<C: Middleware>(
        &mut self,
        config: &ServerConfig,
        transform: &C,
        reader: &mut ByteReader,
        output: &mut Vec<u8>,
    ) -> (r: Result<(), ConnectionError>)
        ensures
            final(self).verify_token == old(self).verify_token,
            match Connection::spec_round(
                transform,
                old(self).mode,
                old(self).verify_token@,
                config,
                old(reader)@,
            ) {
                Ok(round) => r is Ok && final(self).mode == round.mode
                    && final(reader)@ == old(reader)@.skip(round.consumed as int)
                    && final(output)@ == old(output)@ + round.output,
                Err(e) => r == Err::<(), ConnectionError>(e) && final(self).mode == old(self).mode
                    && final(reader)@ == old(reader)@ && final(output)@ == old(output)@,
            },
    {
        let before = self.mode;
        let mut probe = ByteReader::new(reader.peek());
        let mut packet: Vec<u8> = Vec::new();
        match transform.read_packet(&mut probe, &mut packet) {
            Ok(_) => {},
            Err(e) => {
                return Err(ConnectionError::Transform(e));
            },
        }
        proof {
            transform.receive_takes_bytes(reader@);
            assert(packet@ =~= transform.spec_receive(reader@)->Ok_0.0);
        }
        if packet.len() == 0 {
            return Err(ConnectionError::EmptyPacket);
        }
        let id = packet[0];
        let payload = slice_subrange(packet.as_slice(), 1, packet.len());
        assert(payload@ =~= packet@.skip(1));
        let replies = match self.handle_packet(config, id, payload) {
            Ok(v) => v,
            Err(e) => {
                return Err(e);
            },
        };
        let bytes = match send_replies(transform, &replies) {
            Ok(v) => v,
            Err(e) => {
                self.mode = before;
                return Err(e);
            },
        };
        put_slice(output, bytes.as_slice());
        reader.advance(reader.remaining() - probe.remaining());
        Ok(())
    }

    /// Serves the byte stream `input` of one connection through `transform`
    /// and appends what is sent in answer to `output`.
    pub fn serve<C: Middleware>(
        &mut self,
        config: &ServerConfig,
        transform: &C,
        input: &[u8],
        output: &mut Vec<u8>,
    ) -> (r: Result<(), ConnectionError>)
        ensures
            final(self).verify_token == old(self).verify_token,
            ({
                let served = Connection::spec_serve(
                    transform,
                    old(self).mode,
                    old(self).verify_token@,
                    config,
                    input@,
                );
                &&& r == served.result
                &&& final(self).mode == served.mode
                &&& final(output)@ == old(output)@ + served.output
            }),
    {
        let mut reader = ByteReader::new(input);
        let ghost token = self.verify_token@;
        let ghost total = Connection::spec_serve(transform, self.mode, token, config, input@);
        let ghost sent = Seq::<u8>::empty();
        assert(output@ =~= old(output)@ + sent);
        assert(sent + total.output =~= total.output);
        while reader.remaining() > 0
            invariant
                self.verify_token == old(self).verify_token,
                token == self.verify_token@,
                total == Connection::spec_serve(
                    transform,
                    old(self).mode,
                    old(self).verify_token@,
                    config,
                    input@,
                ),
                output@ == old(output)@ + sent,
                ({
                    let later = Connection::spec_serve(
                        transform,
                        self.mode,
                        token,
                        config,
                        reader@,
                    );
                    &&& total.result == later.result
                    &&& total.mode == later.mode
                    &&& total.output == sent + later.output
                }),
            decreases reader@.len(),
        {
            let ghost here = reader@;
            let ghost mode = self.mode;
            proof {
                Connection::lemma_serve_unfold(transform, mode, token, config, here);
                assert(sent + Seq::<u8>::empty() =~= sent);
            }
            match self.round(config, transform, &mut reader, output) {
                Ok(_) => {},
                Err(e) => {
                    return Err(e);
                },
            }
            proof {
                let round = Connection::spec_round(transform, mode, token, config, here)->Ok_0;
                let later = Connection::spec_serve(transform, self.mode, token, config, reader@);
                assert(sent + (round.output + later.output) =~= (sent + round.output)
                    + later.output);
                assert(output@ =~= old(output)@ + (sent + round.output));
                sent = sent + round.output;
            }
        }
        proof {
            Connection::lemma_serve_unfold(transform, self.mode, token, config, reader@);
            assert(sent + Seq::<u8>::empty() =~= sent);
        }
        Ok(())
    }
}

/// A packet that changes nothing and is answered with nothing is taken off
/// the wire whole: serving goes on, in the same phase, with the bytes that
/// follow it. This holds behind every transform that recovers the packet
/// from its own wire bytes.
pub proof fn lemma_silent_packet_keeps_sync<C: Middleware>(
    transform: &C,
    mode: SocketMode,
    verify_token: Seq<u8>,
    config: &ServerConfig,
    id: u8,
    payload: Seq<u8>,
    rest: Seq<u8>,
)
    requires
        transform.spec_send(packet_bytes(id, payload)) is Ok,
        transform.spec_receive(transform.spec_send(packet_bytes(id, payload))->Ok_0 + rest)
            == Ok::<(Seq<u8>, nat), MiddlewareError>(
            (
                packet_bytes(id, payload),
                transform.spec_send(packet_bytes(id, payload))->Ok_0.len(),
            ),
        ),
        Connection::spec_step(mode, verify_token, config, id, payload)
            == Ok::<Outcome, ConnectionError>((Outcome { mode, replies: Seq::empty() })),
    ensures
        Connection::spec_serve(
            transform,
            mode,
            verify_token,
            config,
            transform.spec_send(packet_bytes(id, payload))->Ok_0 + rest,
        ) == Connection::spec_serve(transform, mode, verify_token, config, rest),
{
    let wire = transform.spec_send(packet_bytes(id, payload))->Ok_0;
    let input = wire + rest;
    assert(packet_bytes(id, payload).skip(1) =~= payload);
    Connection::lemma_serve_unfold(transform, mode, verify_token, config, input);
    if input.len() == 0 {
        assert(rest =~= input);
    } else {
        assert(input.skip(wire.len() as int) =~= rest);
        let later = Connection::spec_serve(transform, mode, verify_token, config, rest);
        assert(Seq::<u8>::empty() + later.output =~= later.output);
    }
}

/// In the play phase every packet, whatever its ID, is accepted and answered
/// with nothing, and the frames that follow it are read from their first
/// byte.
pub proof fn lemma_play_packet_keeps_sync(
    verify_token: Seq<u8>,
    config: &ServerConfig,
    id: u8,
    payload: Seq<u8>,
    rest: Seq<u8>,
)
    requires
        payload.len() <= MAX_FRAME_PAYLOAD,
    ensures
        Connection::spec_serve(
            &McNoCompression,
            SocketMode::Play,
            verify_token,
            config,
            frame_bytes(id, payload) + rest,
        ) == Connection::spec_serve(&McNoCompression, SocketMode::Play, verify_token, config, rest),
{
    reveal(Connection::spec_step);
    lemma_no_compression_is_framing(id, payload);
    lemma_no_compression_round_trip(packet_bytes(id, payload), rest);
    lemma_silent_packet_keeps_sync(
        &McNoCompression,
        SocketMode::Play,
        verify_token,
        config,
        id,
        payload,
        rest,
    );
}

/// A packet whose ID the handshaking or the login phase does not know is
/// accepted and answered with nothing, the phase stays, and the frames that
/// follow are read from their first byte.
pub proof fn lemma_unknown_packet_keeps_sync(
    mode: SocketMode,
    verify_token: Seq<u8>,
    config: &ServerConfig,
    id: u8,
    payload: Seq<u8>,
    rest: Seq<u8>,
)
    requires
        payload.len() <= MAX_FRAME_PAYLOAD,
        mode == SocketMode::Handshaking && id != HandshakingPacket::Handshaking.id() || mode
            == SocketMode::Login && id > LoginPacket::LoginPluginResponse.id(),
    ensures
        Connection::spec_serve(
            &McNoCompression,
            mode,
            verify_token,
            config,
            frame_bytes(id, payload) + rest,
        ) == Connection::spec_serve(&McNoCompression, mode, verify_token, config, rest),
{
    reveal(Connection::spec_step);
    lemma_no_compression_is_framing(id, payload);
    lemma_no_compression_round_trip(packet_bytes(id, payload), rest);
    lemma_silent_packet_keeps_sync(&McNoCompression, mode, verify_token, config, id, payload, rest);
}

} // verus!
