//! Verified core logic of a group/1:1 calling library: signaling message
//! types, group call state decisions, media framing and log redaction.

pub mod error;
pub mod util;
pub mod protobuf;
pub mod signaling;
pub mod platform;
pub mod group_call;
