//! What the HTTP client for the SFU puts in its requests and makes of the
//! join response.

use vstd::prelude::*;
use super::{DemuxId, JoinState};
use crate::error::RingRtcError;

verus! {

/// The lowercase hexadecimal digit for `d` below sixteen.
pub open spec fn hex_char_of(d: u8) -> char {
    if d < 10 {
        (48 + d) as char
    } else {
        (87 + d) as char
    }
}

/// Two lowercase hexadecimal digits per byte, high digit first.
pub open spec fn hex_string(bytes: Seq<u8>) -> Seq<char>
    decreases bytes.len(),
{
    if bytes.len() == 0 {
        seq![]
    } else {
        let b = bytes.last();
        hex_string(bytes.drop_last()) + seq![hex_char_of(b / 16), hex_char_of(b % 16)]
    }
}

/// Calls `hex::encode`.  Trusted, as the crate's source shows (each byte
/// becomes its high and then its low digit from "0123456789abcdef"), to
/// return `hex_string` of the bytes.
#[verifier::external_body]
fn hex_encode(bytes: &[u8]) -> (r: String)
    ensures
        r@ == hex_string(bytes@),
{
    hex::encode(bytes)
}

/// The room ID header of a call link's requests: the room ID in lowercase
/// hexadecimal, if there is one.
pub fn room_id_header(room_id: Option<&[u8]>) -> (r: Option<String>)
    ensures
        match room_id {
            Some(id) => r matches Some(h) && h@ == hex_string(id@),
            None => r is None,
        },
{
    match room_id {
        Some(id) => Some(hex_encode(id)),
        None => None,
    }
}

/// The SFU's verdict on the local device in a join response.
#[derive(Clone, Copy, Debug, PartialEq, Eq, Structural)]
pub enum ClientStatus {
    Active,
    Pending,
    Blocked,
}

/// Why a join request failed, as the HTTP client reports it.
#[derive(Clone, Copy, Debug, PartialEq, Eq, Structural)]
pub enum JoinFailure {
    /// No response came.
    RequestFailed,
    /// The call has as many devices as it may.
    GroupCallFull,
    /// Another status code.
    Status(u16),
}

/// The join state the SFU gives: an active device is joined; a pending
/// device awaits approval, and so, until there is a way to show it, does a
/// blocked one.
pub fn join_state_for_status(status: ClientStatus, demux_id: DemuxId) -> (r: JoinState)
    ensures
        r == match status {
            ClientStatus::Active => JoinState::Joined(demux_id),
            _ => JoinState::Pending(demux_id),
        },
{
    match status {
        ClientStatus::Active => JoinState::Joined(demux_id),
        ClientStatus::Pending | ClientStatus::Blocked => JoinState::Pending(demux_id),
    }
}

/// The error a failed join request completes with.
pub fn join_failure_error(failure: JoinFailure) -> (r: RingRtcError)
    ensures
        r == match failure {
            JoinFailure::RequestFailed => RingRtcError::SfuClientRequestFailed,
            JoinFailure::GroupCallFull => RingRtcError::GroupCallFull,
            JoinFailure::Status(code) => RingRtcError::UnexpectedResponseCodeFromSFu(code),
        },
{
    match failure {
        JoinFailure::RequestFailed => RingRtcError::SfuClientRequestFailed,
        JoinFailure::GroupCallFull => RingRtcError::GroupCallFull,
        JoinFailure::Status(code) => RingRtcError::UnexpectedResponseCodeFromSFu(code),
    }
}

} // verus!
