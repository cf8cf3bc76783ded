//! State and decisions of a device taking part in a group call.

use vstd::prelude::*;

pub mod ring_id;
pub mod srtp;
pub mod remote_devices;
pub mod peek;
pub mod transceivers;
pub mod rates;
pub mod speaking;
pub mod polling;
pub mod ring;
pub mod raise_hand;
pub mod connection;
pub mod frame;
pub mod video;
pub mod media_keys;
pub mod joining;
pub mod sfu_to_device;
pub mod timers;
pub mod sfu_requests;

pub use ring_id::RingId;
pub use remote_devices::{RemoteDeviceState, RemoteDevices, HeartbeatState};

verus! {

/// Identifies a group call client for logging and for callbacks.
pub type ClientId = u32;

/// Group UUID.
pub type GroupId = Vec<u8>;

/// The SFU's identifier of a device in a call.
pub type DemuxId = u32;

/// Opaque (often UUID) identifier of a user.
pub type UserId = Vec<u8>;

/// RTP timestamps as carried in RTP headers.
pub type RtpTimestamp = u32;

pub const INVALID_CLIENT_ID: ClientId = 0;

/// What happened to a ring.
#[derive(Clone, Copy, Debug, PartialEq, Eq, Structural)]
pub enum RingUpdate {
    /// The sender is trying to ring this user.
    Requested,
    /// The sender tried to ring this user, but it's been too long.
    ExpiredRequest,
    /// Call was accepted elsewhere by a different device.
    AcceptedOnAnotherDevice,
    /// Call was declined elsewhere by a different device.
    DeclinedOnAnotherDevice,
    /// This device is currently on a different call.
    BusyLocally,
    /// A different device is currently on a different call.
    BusyOnAnotherDevice,
    /// The sender cancelled the ring request.
    CancelledByRinger,
}

/// Describes why a ring was cancelled.
#[derive(Clone, Copy, Debug, PartialEq, Eq, Structural)]
pub enum RingCancelReason {
    /// The user explicitly clicked "Decline".
    DeclinedByUser,
    /// The device is busy with another call.
    Busy,
}

impl RingCancelReason {
    /// The reason with the given number, if any.
    pub fn try_from_i32(value: i32) -> (r: Option<RingCancelReason>)
        ensures
            r == (if value == 0 {
                Some(RingCancelReason::DeclinedByUser)
            } else if value == 1 {
                Some(RingCancelReason::Busy)
            } else {
                None
            }),
    {
        if value == 0 {
            Some(RingCancelReason::DeclinedByUser)
        } else if value == 1 {
            Some(RingCancelReason::Busy)
        } else {
            None
        }
    }
}

/// Whether a signaling message should be processed immediately even if the
/// receiving app isn't running.
#[derive(Clone, Copy, Debug, PartialEq, Eq, Structural)]
pub enum SignalingMessageUrgency {
    Droppable,
    HandleImmediately,
}

#[derive(Debug, Copy, Clone, PartialEq, Eq, Structural)]
pub enum SpeechEvent {
    StoppedSpeaking,
    LowerHandSuggestion,
}

impl SpeechEvent {
    /// The number the platforms use for this event.
    pub fn ordinal(&self) -> (n: i32)
        ensures
            n == match self {
                SpeechEvent::StoppedSpeaking => 0i32,
                SpeechEvent::LowerHandSuggestion => 1i32,
            },
    {
        match self {
            SpeechEvent::StoppedSpeaking => 0,
            SpeechEvent::LowerHandSuggestion => 1,
        }
    }
}

/// Why the observer is told about new remote device states.
#[derive(Debug, Clone, Copy, PartialEq, Eq, Structural)]
pub enum RemoteDevicesChangedReason {
    DemuxIdsChanged,
    MediaKeyReceived(DemuxId),
    SpeakerTimeChanged(DemuxId),
    HeartbeatStateChanged(DemuxId),
    ForwardedVideosChanged,
    HigherResolutionPendingChanged,
}

/// The connection states of a device connecting to a group call.
#[derive(Clone, Copy, Debug, PartialEq, Eq, Structural)]
pub enum ConnectionState {
    /// Connect() has not yet been called or disconnect() has been called
    /// or connect() was called but failed.
    NotConnected,
    /// Connect() has been called but connectivity is pending.
    Connecting,
    /// Connect() has been called and connectivity has been established.
    Connected,
    /// Connectivity was established but is temporarily failing.
    Reconnecting,
}

impl ConnectionState {
    /// The number the platforms use for this state.
    pub fn ordinal(&self) -> (n: i32)
        ensures
            n == match self {
                ConnectionState::NotConnected => 0i32,
                ConnectionState::Connecting => 1i32,
                ConnectionState::Connected => 2i32,
                ConnectionState::Reconnecting => 3i32,
            },
    {
        match self {
            ConnectionState::NotConnected => 0,
            ConnectionState::Connecting => 1,
            ConnectionState::Connected => 2,
            ConnectionState::Reconnecting => 3,
        }
    }
}

/// The join states of a device joining a group call.
#[derive(Clone, Copy, Debug, PartialEq, Eq, Structural)]
pub enum JoinState {
    /// Not joined.  If the ring ID is present, joining will send an
    /// "accepted" message to the user's other devices.
    NotJoined(Option<RingId>),
    /// Join() has been called but a response from the SFU is pending.
    Joining,
    /// The SFU assigned a demux ID but the join awaits approval.
    Pending(DemuxId),
    /// The SFU assigned a demux ID and the device is in the call.
    Joined(DemuxId),
}

impl JoinState {
    /// The number the platforms use for this state.
    pub fn ordinal(&self) -> (n: i32)
        ensures
            n == match self {
                JoinState::NotJoined(_) => 0i32,
                JoinState::Joining => 1i32,
                JoinState::Pending(_) => 2i32,
                JoinState::Joined(_) => 3i32,
            },
    {
        match self {
            JoinState::NotJoined(_) => 0,
            JoinState::Joining => 1,
            JoinState::Pending(_) => 2,
            JoinState::Joined(_) => 3,
        }
    }

    pub open spec fn local_demux_id_spec(self) -> Option<DemuxId> {
        match self {
            JoinState::Pending(d) => Some(d),
            JoinState::Joined(d) => Some(d),
            _ => None,
        }
    }

    /// The local demux ID, once the SFU has assigned one.
    pub fn local_demux_id(&self) -> (r: Option<DemuxId>)
        ensures
            r == self.local_demux_id_spec(),
    {
        match self {
            JoinState::Pending(d) => Some(*d),
            JoinState::Joined(d) => Some(*d),
            _ => None,
        }
    }

    /// The state after the app provides a ring ID for the call: a ring ID is
    /// recorded only when not joined and none is recorded yet; an earlier
    /// ring is preferred to a newer one.
    pub fn provide_ring_id_if_absent(self, ring_id: RingId) -> (r: JoinState)
        ensures
            r == match self {
                JoinState::NotJoined(None) => JoinState::NotJoined(Some(ring_id)),
                other => other,
            },
    {
        match self {
            JoinState::NotJoined(None) => JoinState::NotJoined(Some(ring_id)),
            other => other,
        }
    }
}

/// Whether the call is for a Signal group or a call link.
#[derive(Debug, Clone, Copy, PartialEq, Eq, Structural)]
pub enum GroupCallKind {
    SignalGroup,
    CallLink,
}

/// A reaction sent by a remote device.
#[derive(Clone, Debug)]
pub struct Reaction {
    pub demux_id: DemuxId,
    pub value: String,
}

/// A request for a resolution of a remote device's video.
#[derive(Clone, Debug)]
pub struct VideoRequest {
    pub demux_id: DemuxId,
    pub width: u16,
    pub height: u16,
    /// If not specified, it means unrestrained framerate.
    pub framerate: Option<u16>,
}

} // verus!
