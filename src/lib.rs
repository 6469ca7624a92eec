//! The core of a peer-to-peer messaging node: the wire codec for framed
//! protocol messages, the checksum that guards each frame, the state machine
//! that tracks a connection's handshake and liveness, the decisions of the
//! response lane, and a queue bounded by the byte size of what it holds.
pub mod channel;
pub mod checksum;
pub mod laws;
pub mod message;
pub mod read;
pub mod response;
pub mod state;
pub mod wire;
pub mod write;
