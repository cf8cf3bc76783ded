//! Which handlers a message from the SFU to the device reaches.

use vstd::prelude::*;
use super::DemuxId;

verus! {

/// The parts of a message from the SFU that decide what is handled.
#[derive(Clone, Debug, PartialEq, Eq)]
pub struct SfuToDeviceParts {
    /// An encoded message nested in this one.
    pub content: Option<Vec<u8>>,
    /// A speaker report, with its demux ID if it has one.
    pub speaker: Option<Option<DemuxId>>,
    /// Whether send endorsements came along.
    pub has_endorsements: bool,
    /// A notice that a device joined or left, and whether it carries the
    /// call's peek info.
    pub device_joined_or_left: Option<bool>,
    /// Whether the current devices (forwarded videos) came along.
    pub has_current_devices: bool,
    /// Whether the device was removed from the call.
    pub removed: bool,
    /// A raised hands report, with its target sequence number if it has one.
    pub raised_hands: Option<Option<u32>>,
}

/// What a notice that a device joined or left leads to.
#[derive(Clone, Copy, Debug, PartialEq, Eq, Structural)]
pub enum PeekUpdate {
    /// No such notice.
    Unchanged,
    /// Apply the peek info it carries (asking the SFU for the remote devices
    /// instead if it cannot be read).
    ApplyPeekInfo,
    /// Ask the SFU for the remote devices at once.
    RequestRemoteDevices,
}

/// The handlers a message reaches.
#[derive(Clone, Debug, PartialEq, Eq)]
pub struct SfuToDeviceActions {
    /// Decode the nested message and handle it instead.
    pub decode_content: Option<Vec<u8>>,
    /// Handle the speaker with this demux ID.
    pub speaker: Option<DemuxId>,
    /// Handle the send endorsements.
    pub endorsements: bool,
    /// Update the remote devices.
    pub peek: PeekUpdate,
    /// Handle the forwarded videos.
    pub forwarding_video: bool,
    /// End the call as removed.
    pub removed: bool,
    /// Handle the raised hands up to this target sequence number.
    pub raised_hands: Option<u32>,
}

/// A nested message is handled alone: the other parts are ignored so that
/// nothing is handled out of order.  Otherwise each part present reaches its
/// handler; a speaker without a demux ID and raised hands without a target
/// sequence number are ignored.
pub open spec fn sfu_to_device_actions(m: SfuToDeviceParts) -> SfuToDeviceActions {
    match m.content {
        Some(content) => SfuToDeviceActions {
            decode_content: Some(content),
            speaker: None,
            endorsements: false,
            peek: PeekUpdate::Unchanged,
            forwarding_video: false,
            removed: false,
            raised_hands: None,
        },
        None => SfuToDeviceActions {
            decode_content: None,
            speaker: match m.speaker {
                Some(Some(d)) => Some(d),
                _ => None,
            },
            endorsements: m.has_endorsements,
            peek: match m.device_joined_or_left {
                Some(true) => PeekUpdate::ApplyPeekInfo,
                Some(false) => PeekUpdate::RequestRemoteDevices,
                None => PeekUpdate::Unchanged,
            },
            forwarding_video: m.has_current_devices,
            removed: m.removed,
            raised_hands: match m.raised_hands {
                Some(Some(t)) => Some(t),
                _ => None,
            },
        },
    }
}

/// The handlers a message from the SFU reaches.
pub fn dispatch_sfu_to_device(m: SfuToDeviceParts) -> (r: SfuToDeviceActions)
    ensures
        r == sfu_to_device_actions(m),
{
    match m.content {
        Some(content) => SfuToDeviceActions {
            decode_content: Some(content),
            speaker: None,
            endorsements: false,
            peek: PeekUpdate::Unchanged,
            forwarding_video: false,
            removed: false,
            raised_hands: None,
        },
        None => SfuToDeviceActions {
            decode_content: None,
            speaker: match m.speaker {
                Some(Some(d)) => Some(d),
                _ => None,
            },
            endorsements: m.has_endorsements,
            peek: match m.device_joined_or_left {
                Some(true) => PeekUpdate::ApplyPeekInfo,
                Some(false) => PeekUpdate::RequestRemoteDevices,
                None => PeekUpdate::Unchanged,
            },
            forwarding_video: m.has_current_devices,
            removed: m.removed,
            raised_hands: match m.raised_hands {
                Some(Some(t)) => Some(t),
                _ => None,
            },
        },
    }
}

} // verus!
