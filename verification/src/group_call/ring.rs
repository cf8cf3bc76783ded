//! Whether the local device may ring the group, and whether it did.

use vstd::prelude::*;
use super::{RingId, UserId};

verus! {

/// Ringing the group from the local device.
#[derive(Debug)]
pub enum OutgoingRingState {
    /// The initial state.
    Unknown,
    /// The local client may ring but has not asked to.
    PermittedToRing { ring_id: RingId },
    /// The local client asked to ring before knowing whether it may.
    WantsToRing { recipient: Option<UserId> },
    /// The local client rang (and may still cancel the ring).
    HasSentRing { ring_id: RingId },
    /// The local client may not ring: it didn't create the call, or it rang
    /// and others joined.
    NotPermittedToRing,
}

impl OutgoingRingState {
    /// Asks to ring the group.  Returns the ring to send, if any.  A ring
    /// sent while nobody else is in the call is cancelled if the caller
    /// leaves before anyone joins; otherwise it is sent and forgotten.
    pub fn ring(self, recipient: Option<UserId>, remote_devices_empty: bool) -> (r: (OutgoingRingState, Option<RingId>))
        requires
            !(self is PermittedToRing && recipient is Some),
        ensures
            match self {
                OutgoingRingState::PermittedToRing { ring_id } => r.1 == Some(ring_id) && if remote_devices_empty {
                    r.0 == (OutgoingRingState::HasSentRing { ring_id })
                } else {
                    r.0 is NotPermittedToRing
                },
                OutgoingRingState::Unknown => r.1 is None && r.0 == (OutgoingRingState::WantsToRing { recipient }),
                _ => r.1 is None && r.0 == self,
            },
    {
        match self {
            OutgoingRingState::PermittedToRing { ring_id } => {
                if remote_devices_empty {
                    (OutgoingRingState::HasSentRing { ring_id }, Some(ring_id))
                } else {
                    (OutgoingRingState::NotPermittedToRing, Some(ring_id))
                }
            },
            OutgoingRingState::Unknown => (OutgoingRingState::WantsToRing { recipient }, None),
            other => (other, None),
        }
    }

    /// Once the SFU says who created the call: only its creator may ring,
    /// with the ring ID of the call's era.  A ring asked for earlier is
    /// returned to be made now.
    pub fn on_creator_known(self, creator_is_self: bool, era_ring_id: RingId) -> (r: (OutgoingRingState, Option<Option<UserId>>))
        ensures
            r.0 == (if creator_is_self {
                OutgoingRingState::PermittedToRing { ring_id: era_ring_id }
            } else {
                OutgoingRingState::NotPermittedToRing
            }),
            r.1 == match self {
                OutgoingRingState::WantsToRing { recipient } => Some(recipient),
                _ => None,
            },
    {
        let new_state = if creator_is_self {
            OutgoingRingState::PermittedToRing { ring_id: era_ring_id }
        } else {
            OutgoingRingState::NotPermittedToRing
        };
        match self {
            OutgoingRingState::WantsToRing { recipient } => (new_state, Some(recipient)),
            _ => (new_state, None),
        }
    }

    /// Once anyone else is in the call, a ring is no longer cancelled.
    pub fn on_remote_devices(self, remote_devices_empty: bool) -> (r: OutgoingRingState)
        ensures
            r == (if !remote_devices_empty && self is HasSentRing {
                OutgoingRingState::NotPermittedToRing
            } else {
                self
            }),
    {
        match self {
            OutgoingRingState::HasSentRing { .. } => {
                if !remote_devices_empty {
                    OutgoingRingState::NotPermittedToRing
                } else {
                    self
                }
            },
            other => other,
        }
    }

    /// The ring to cancel on leaving, if any.
    pub fn ring_to_cancel(&self) -> (r: Option<RingId>)
        ensures
            r == match self {
                OutgoingRingState::HasSentRing { ring_id } => Some(*ring_id),
                _ => None,
            },
    {
        match self {
            OutgoingRingState::HasSentRing { ring_id } => Some(*ring_id),
            _ => None,
        }
    }
}

} // verus!
