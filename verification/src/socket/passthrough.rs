use crate::bytes::{put_slice, ByteReader};
use crate::socket::{Middleware, MiddlewareError};
use vstd::prelude::*;

verus! {

/// Reads and writes without modification.
pub struct McPassthrough;

impl Middleware for McPassthrough {
    open spec fn spec_send(&self, data: Seq<u8>) -> Result<Seq<u8>, MiddlewareError> {
        Ok(data)
    }

    open spec fn spec_receive(&self, source: Seq<u8>) -> Result<(Seq<u8>, nat), MiddlewareError> {
        Ok((source, source.len()))
    }

    proof fn send_then_receive(&self, data: Seq<u8>) {
    }

    proof fn receive_takes_bytes(&self, source: Seq<u8>) {
    }

    fn write_packet(
        &self,
        writer: &mut Vec<u8>,
        data: &[u8],
    ) -> (r: Result<usize, MiddlewareError>) {
        put_slice(writer, data);
        Ok(data.len())
    }

    fn read_packet(
        &self,
        reader: &mut ByteReader,
        buf: &mut Vec<u8>,
    ) -> (r: Result<(), MiddlewareError>) {
        let rest = reader.peek();
        put_slice(buf, rest);
        reader.advance(rest.len());
        Ok(())
    }
}

} // verus!
