//! The wire protocol of a Minecraft server, with its contracts.
//!
//! The crate works on bytes in memory and leaves sockets to its caller:
//!
//! - [`bytes`] holds the byte source that every decoder reads from;
//! - [`mc_types`] holds the codecs of the primitive types;
//! - [`frame`] splits a byte stream into packets and back;
//! - [`socket`] holds the transforms that sit between the frames and the
//!   transport;
//! - [`packet`] names the phases of a connection and their packets;
//! - [`connection`] holds the state machine of one connection.
//!
//! Every decoder either takes exactly the bytes of one value from the front
//! of its source or fails and takes none, and what it yields is given by a
//! spec function over the remaining bytes. Every encoder appends exactly the
//! bytes that the matching spec function gives.

pub mod bytes;
pub mod connection;
pub mod frame;
pub mod mc_types;
pub mod packet;
pub mod socket;
