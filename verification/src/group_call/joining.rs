//! What the local device does once the SFU accepts its join request.

use vstd::prelude::*;
use vstd::string::StringSliceAdditionalSpecFns;
use super::{ConnectionState, JoinState, RingId, UserId};
use super::connection::CallEndReason;
use super::ring::OutgoingRingState;
use super::ring_id::ring_id_value;
use super::srtp::{negotiated_keys, x25519_shared, DheState};
use crate::util::bytes::bytes_eq;

verus! {

/// What the SFU's acceptance does to the media connection.
#[derive(Clone, Copy, Debug, PartialEq, Eq, Structural)]
pub enum JoinMediaStep {
    /// Not connecting: the acceptance came before `connect()` or after the
    /// connection was made, and nothing happens.
    Ignore,
    /// Start the peer connection with the negotiated keys and the SFU's
    /// addresses, and send at the all-alone rate until someone else joins.
    /// If the peer connection fails to start, the call ends with
    /// `FailedToStartPeerConnection`.
    StartPeerConnection,
    /// The call ends.
    End(CallEndReason),
}

/// The media step of an accepted join.  Only while connecting are the SRTP
/// keys negotiated with the SFU's public key; the peer connection starts if
/// that gives keys, and otherwise (the key exchange never started) the call
/// ends.
pub fn on_join_accepted_media(
    connection_state: ConnectionState,
    dhe_state: &mut DheState,
    server_pub_key: [u8; 32],
    hkdf_extra_info: &[u8],
) -> (r: JoinMediaStep)
    ensures
        !(connection_state is Connecting) ==> r is Ignore && *final(dhe_state) == *old(dhe_state),
        connection_state is Connecting ==> {
            &&& *old(dhe_state) is NotYetStarted ==> *final(dhe_state) is NotYetStarted
                && r == JoinMediaStep::End(CallEndReason::FailedToNegotiatedSrtpKeys)
            &&& *old(dhe_state) matches DheState::WaitingForServerPublicKey { client_secret } ==> (
                *final(dhe_state) matches DheState::Negotiated { srtp_keys }
                && negotiated_keys(srtp_keys, x25519_shared(client_secret, server_pub_key@), hkdf_extra_info@)
                && r is StartPeerConnection)
            &&& *old(dhe_state) is Negotiated ==> *final(dhe_state) == *old(dhe_state) && r is StartPeerConnection
        },
{
    match connection_state {
        ConnectionState::Connecting => {
            dhe_state.negotiate_in_place(server_pub_key, hkdf_extra_info);
            match dhe_state {
                DheState::Negotiated { .. } => JoinMediaStep::StartPeerConnection,
                _ => JoinMediaStep::End(CallEndReason::FailedToNegotiatedSrtpKeys),
            }
        },
        _ => JoinMediaStep::Ignore,
    }
}

/// Whether the call was created by the local user: both are known and
/// equal.
pub open spec fn created_by_self(creator: Option<Seq<u8>>, self_uuid: Option<Seq<u8>>) -> bool {
    creator is Some && self_uuid is Some && creator.unwrap() == self_uuid.unwrap()
}

pub open spec fn opt_view(o: Option<UserId>) -> Option<Seq<u8>> {
    match o {
        Some(v) => Some(v@),
        None => None,
    }
}

/// What the accepted join asks of the caller besides the new states.
#[derive(Debug)]
pub struct JoinAcceptedEffects {
    /// The join state was taken from the SFU: ask the SFU for the remote
    /// devices at once, apply the last peek again, tell the observer of the
    /// join state and start the stats timers.
    pub adopted: bool,
    /// A ring asked for before the creator was known, to be made now.
    pub ring_now: Option<Option<UserId>>,
}

/// The join step of an accepted join.  Only a joining device takes the join
/// state the SFU gave; if the SFU named the call's creator, only the creator
/// may ring, with the ring ID of the call's era, and a ring asked for
/// earlier is made now.  Otherwise the acceptance came before `join()` or
/// more than once, and nothing changes.
pub fn on_join_accepted(
    join_state: JoinState,
    ring_state: OutgoingRingState,
    joined_state: JoinState,
    creator: &Option<UserId>,
    self_uuid: &Option<UserId>,
    era_id: &str,
) -> (r: (JoinState, OutgoingRingState, JoinAcceptedEffects))
    ensures
        !(join_state is Joining) ==> r.0 == join_state && r.1 == ring_state && !r.2.adopted && r.2.ring_now is None,
        join_state is Joining ==> {
            &&& r.0 == joined_state
            &&& r.2.adopted
            &&& creator is None ==> r.1 == ring_state && r.2.ring_now is None
            &&& creator is Some ==> {
                &&& created_by_self(opt_view(*creator), opt_view(*self_uuid)) ==> (r.1 matches OutgoingRingState::PermittedToRing { ring_id }
                    && ring_id.value() == ring_id_value(era_id.spec_bytes()))
                &&& !created_by_self(opt_view(*creator), opt_view(*self_uuid)) ==> r.1 is NotPermittedToRing
                &&& r.2.ring_now == match ring_state {
                    OutgoingRingState::WantsToRing { recipient } => Some(recipient),
                    _ => None,
                }
            }
        },
{
    match join_state {
        JoinState::Joining => {
            match creator {
                Some(c) => {
                    let is_self = match self_uuid {
                        Some(u) => bytes_eq(c.as_slice(), u.as_slice()),
                        None => false,
                    };
                    let era_ring_id = RingId::from_era_id(era_id);
                    let (next_ring, ring_now) = ring_state.on_creator_known(is_self, era_ring_id);
                    (joined_state, next_ring, JoinAcceptedEffects { adopted: true, ring_now })
                },
                None => (joined_state, ring_state, JoinAcceptedEffects { adopted: true, ring_now: None }),
            }
        },
        _ => (join_state, ring_state, JoinAcceptedEffects { adopted: false, ring_now: None }),
    }
}

/// Whether the accepted join makes the client joined: the SFU said joined,
/// and the device still is after the last peek was applied again (it may
/// have ended meanwhile, or the peek may have made it joined already).
pub fn joined_on_acceptance(joined_state: JoinState, current: JoinState) -> (r: bool)
    ensures
        r == (joined_state is Joined && current is Joined),
{
    matches!(joined_state, JoinState::Joined(_)) && matches!(current, JoinState::Joined(_))
}

} // verus!
