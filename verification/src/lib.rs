//! Media-over-QUIC transport: the wire codec, the in-memory serve pipeline and
//! the publisher and subscriber state machines, as a core without I/O.
//!
//! Every function here is plain, synchronous and verified. Whatever blocks,
//! shares state between tasks or talks to a QUIC session is left to the caller,
//! which feeds these state machines with events and carries out what they
//! answer.

pub mod coding;
pub mod data;
pub mod message;
pub mod relay;
pub mod serve;
pub mod session;
pub mod setup;
pub mod watch;
