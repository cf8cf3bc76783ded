//! Protocol buffer encoding of the signaling messages: the wire format and
//! the message schema.

pub mod wire;
pub mod signaling;
