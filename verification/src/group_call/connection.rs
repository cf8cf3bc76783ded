//! Connection state changes and the reasons a group call ends.

use vstd::prelude::*;
use super::{ConnectionState, DemuxId, JoinState};
use super::timers::{TickTimers, MEMBERSHIP_PROOF_REQUEST_INTERVAL_MS};
use crate::error::RingRtcError;

verus! {

/// Why a group call client ended.
#[derive(Clone, Copy, Debug, PartialEq, Eq, Structural)]
pub enum CallEndReason {
    DeviceExplicitlyDisconnected,
    ServerExplicitlyDisconnected,
    DeniedRequestToJoinCall,
    RemovedFromCall,
    CallManagerIsBusy,
    SfuClientFailedToJoin,
    FailedToCreatePeerConnectionFactory,
    FailedToNegotiatedSrtpKeys,
    FailedToCreatePeerConnection,
    FailedToStartPeerConnection,
    FailedToUpdatePeerConnection,
    FailedToSetMaxSendBitrate,
    IceFailedWhileConnecting,
    IceFailedAfterConnected,
    ServerChangedDemuxId,
    HasMaxDevices,
}

/// ICE connection states reported by WebRTC.
#[derive(Clone, Copy, Debug, PartialEq, Eq, Structural)]
pub enum IceConnectionState {
    New,
    Checking,
    Connected,
    Completed,
    Failed,
    Disconnected,
    Closed,
}

/// What an ICE connection state change does to the group call.
#[derive(Clone, Copy, Debug, PartialEq, Eq, Structural)]
pub enum IceTransition {
    /// Nothing to do.
    Ignore,
    /// The connection state becomes the given one.
    SetState(ConnectionState),
    /// The call ends.
    End(CallEndReason),
}

pub open spec fn ice_transition(c: ConnectionState, ice: IceConnectionState) -> IceTransition {
    match (c, ice) {
        (ConnectionState::Connecting, IceConnectionState::Disconnected)
        | (ConnectionState::Connecting, IceConnectionState::Closed)
        | (ConnectionState::Connecting, IceConnectionState::Failed) => IceTransition::End(CallEndReason::IceFailedWhileConnecting),
        (ConnectionState::Connecting, IceConnectionState::Checking) => IceTransition::Ignore,
        (ConnectionState::Connecting, IceConnectionState::Connected)
        | (ConnectionState::Connecting, IceConnectionState::Completed) => IceTransition::SetState(ConnectionState::Connected),
        (ConnectionState::Connected, IceConnectionState::Checking)
        | (ConnectionState::Connected, IceConnectionState::Disconnected) => IceTransition::SetState(ConnectionState::Reconnecting),
        (ConnectionState::Reconnecting, IceConnectionState::Connected)
        | (ConnectionState::Reconnecting, IceConnectionState::Completed) => IceTransition::SetState(ConnectionState::Connected),
        (_, IceConnectionState::Failed) | (_, IceConnectionState::Closed) => IceTransition::End(CallEndReason::IceFailedAfterConnected),
        _ => IceTransition::Ignore,
    }
}

/// What an ICE connection state change means for the group call's
/// connection (see `ice_transition`).
pub fn on_ice_connection_state_changed(c: ConnectionState, ice: IceConnectionState) -> (r: IceTransition)
    ensures
        r == ice_transition(c, ice),
{
    match (c, ice) {
        (ConnectionState::Connecting, IceConnectionState::Disconnected)
        | (ConnectionState::Connecting, IceConnectionState::Closed)
        | (ConnectionState::Connecting, IceConnectionState::Failed) => IceTransition::End(CallEndReason::IceFailedWhileConnecting),
        (ConnectionState::Connecting, IceConnectionState::Checking) => IceTransition::Ignore,
        (ConnectionState::Connecting, IceConnectionState::Connected)
        | (ConnectionState::Connecting, IceConnectionState::Completed) => IceTransition::SetState(ConnectionState::Connected),
        (ConnectionState::Connected, IceConnectionState::Checking)
        | (ConnectionState::Connected, IceConnectionState::Disconnected) => IceTransition::SetState(ConnectionState::Reconnecting),
        (ConnectionState::Reconnecting, IceConnectionState::Connected)
        | (ConnectionState::Reconnecting, IceConnectionState::Completed) => IceTransition::SetState(ConnectionState::Connected),
        (_, IceConnectionState::Failed) | (_, IceConnectionState::Closed) => IceTransition::End(CallEndReason::IceFailedAfterConnected),
        _ => IceTransition::Ignore,
    }
}

/// The end reason for a failed attempt to join: a full call, or a general
/// failure.
pub fn end_reason_for_join_failure(err: &RingRtcError) -> (r: CallEndReason)
    ensures
        r == (if *err is GroupCallFull {
            CallEndReason::HasMaxDevices
        } else {
            CallEndReason::SfuClientFailedToJoin
        }),
{
    match err {
        RingRtcError::GroupCallFull => CallEndReason::HasMaxDevices,
        _ => CallEndReason::SfuClientFailedToJoin,
    }
}

/// The end reason when the SFU removes the device: removed from the call if
/// it had joined, otherwise denied the request to join.
pub fn end_reason_for_removal(join_state: JoinState) -> (r: CallEndReason)
    ensures
        r == (if join_state is Joined {
            CallEndReason::RemovedFromCall
        } else {
            CallEndReason::DeniedRequestToJoinCall
        }),
{
    match join_state {
        JoinState::Joined(_) => CallEndReason::RemovedFromCall,
        _ => CallEndReason::DeniedRequestToJoinCall,
    }
}

/// The connection state after `connect()`: only a device not connected
/// starts connecting.  Returns whether it did.
pub fn connect_transition(c: ConnectionState) -> (r: (ConnectionState, bool))
    ensures
        r == (if c is NotConnected {
            (ConnectionState::Connecting, true)
        } else {
            (c, false)
        }),
{
    match c {
        ConnectionState::NotConnected => (ConnectionState::Connecting, true),
        _ => (c, false),
    }
}

/// `connect()`: a device not connected starts connecting and starts its
/// heartbeats, audio level and speech polls and raised hand resends at
/// once; for a Signal group call it requests a membership proof and the
/// group members at once, and the next proof a day later.  Returns whether
/// it started (then the caller requests what is due and ticks at once).
pub fn connect_step(
    connection_state: &mut ConnectionState,
    timers: &mut TickTimers,
    signal_group: bool,
    now: u64,
) -> (r: bool)
    requires
        now + MEMBERSHIP_PROOF_REQUEST_INTERVAL_MS <= u64::MAX,
    ensures
        r == (*old(connection_state) is NotConnected),
        r ==> *final(connection_state) == ConnectionState::Connecting && *final(timers) == (TickTimers {
            next_heartbeat_time: Some(now),
            next_audio_levels_time: Some(now),
            next_speaking_audio_levels_time: Some(now),
            next_raise_hand_time: Some(now),
            next_membership_proof_request_time: if signal_group {
                Some((now + MEMBERSHIP_PROOF_REQUEST_INTERVAL_MS) as u64)
            } else {
                old(timers).next_membership_proof_request_time
            },
            ..*old(timers)
        }),
        !r ==> *final(connection_state) == *old(connection_state) && *final(timers) == *old(timers),
{
    let (next, started) = connect_transition(*connection_state);
    if started {
        *connection_state = next;
        timers.next_heartbeat_time = Some(now);
        timers.next_audio_levels_time = Some(now);
        timers.next_speaking_audio_levels_time = Some(now);
        timers.next_raise_hand_time = Some(now);
        if signal_group {
            timers.next_membership_proof_request_time = Some(now + MEMBERSHIP_PROOF_REQUEST_INTERVAL_MS);
        }
    }
    started
}

/// What `join()` does: only a device not joined joins, and only if the call
/// manager isn't busy with another call (else the call ends, busy).
#[derive(Clone, Copy, Debug, PartialEq, Eq, Structural)]
pub enum JoinAction {
    /// Already joining or joined: nothing happens.
    Ignore,
    /// Start joining, accepting the ring if one is recorded.
    Join { accept_ring: Option<super::RingId> },
    /// End the call because another call is in progress.
    EndBusy,
}

pub fn join_action(join_state: JoinState, busy: bool) -> (r: JoinAction)
    ensures
        r == match join_state {
            JoinState::NotJoined(ring_id) => if busy {
                JoinAction::EndBusy
            } else {
                JoinAction::Join { accept_ring: ring_id }
            },
            _ => JoinAction::Ignore,
        },
{
    match join_state {
        JoinState::NotJoined(ring_id) => {
            if busy {
                JoinAction::EndBusy
            } else {
                JoinAction::Join { accept_ring: ring_id }
            }
        },
        _ => JoinAction::Ignore,
    }
}

/// `join()`: a device not joined and not busy with another call takes the
/// call manager (busy becomes true) and is joining; for a Signal group call
/// a membership proof is requested at once and then daily.  Returns the
/// action and whether to request a membership proof now.  A busy call
/// manager ends the call (`JoinAction::EndBusy`, which the caller carries
/// out); in every other case nothing changes.
pub fn join_step(
    join_state: &mut JoinState,
    busy: &mut bool,
    timers: &mut TickTimers,
    signal_group: bool,
    now: u64,
) -> (r: (JoinAction, bool))
    requires
        now + MEMBERSHIP_PROOF_REQUEST_INTERVAL_MS <= u64::MAX,
    ensures
        r.0 == match *old(join_state) {
            JoinState::NotJoined(ring_id) => if *old(busy) {
                JoinAction::EndBusy
            } else {
                JoinAction::Join { accept_ring: ring_id }
            },
            _ => JoinAction::Ignore,
        },
        r.1 == (r.0 is Join && signal_group),
        r.0 is Join ==> {
            &&& *final(join_state) == JoinState::Joining
            &&& *final(busy)
            &&& *final(timers) == if signal_group {
                TickTimers {
                    next_membership_proof_request_time: Some((now + MEMBERSHIP_PROOF_REQUEST_INTERVAL_MS) as u64),
                    ..*old(timers)
                }
            } else {
                *old(timers)
            }
        },
        !(r.0 is Join) ==> *final(join_state) == *old(join_state) && *final(busy) == *old(busy)
            && *final(timers) == *old(timers),
{
    let action = join_action(*join_state, *busy);
    match action {
        JoinAction::Join { .. } => {
            *busy = true;
            *join_state = JoinState::Joining;
            if signal_group {
                timers.next_membership_proof_request_time = Some(now + MEMBERSHIP_PROOF_REQUEST_INTERVAL_MS);
            }
            (action, signal_group)
        },
        _ => (action, false),
    }
}

/// What `leave()` does by join state.
#[derive(Clone, Copy, Debug, PartialEq, Eq, Structural)]
pub enum LeaveAction {
    /// Not joined: nothing to leave.
    Ignore,
    /// Joining: stop media; nothing was announced yet.
    StopMedia,
    /// Pending or joined with the demux ID: stop media, tell the other
    /// devices and the SFU that this device is leaving.
    StopMediaAndAnnounce(DemuxId),
}

/// What leaving does in the join state: the ring, if one is outstanding, is
/// cancelled first in any case, and afterwards the device is not joined.
pub fn leave_action(join_state: JoinState) -> (r: LeaveAction)
    ensures
        r == match join_state {
            JoinState::NotJoined(_) => LeaveAction::Ignore,
            JoinState::Joining => LeaveAction::StopMedia,
            JoinState::Pending(d) => LeaveAction::StopMediaAndAnnounce(d),
            JoinState::Joined(d) => LeaveAction::StopMediaAndAnnounce(d),
        },
{
    match join_state {
        JoinState::NotJoined(_) => LeaveAction::Ignore,
        JoinState::Joining => LeaveAction::StopMedia,
        JoinState::Pending(d) => LeaveAction::StopMediaAndAnnounce(d),
        JoinState::Joined(d) => LeaveAction::StopMediaAndAnnounce(d),
    }
}

/// `leave()`: a device that is joining or in the call stops its media (and,
/// with a demux ID, announces it is leaving), releases the call manager,
/// is not joined, and stops its heartbeats, stats, audio level and speech
/// polls and membership proof requests.  A device not joined changes
/// nothing.
pub fn leave_step(join_state: &mut JoinState, busy: &mut bool, timers: &mut TickTimers) -> (r: LeaveAction)
    ensures
        r == match *old(join_state) {
            JoinState::NotJoined(_) => LeaveAction::Ignore,
            JoinState::Joining => LeaveAction::StopMedia,
            JoinState::Pending(d) => LeaveAction::StopMediaAndAnnounce(d),
            JoinState::Joined(d) => LeaveAction::StopMediaAndAnnounce(d),
        },
        *old(join_state) is NotJoined ==> *final(join_state) == *old(join_state) && *final(busy) == *old(busy)
            && *final(timers) == *old(timers),
        !(*old(join_state) is NotJoined) ==> {
            &&& *final(join_state) == JoinState::NotJoined(None)
            &&& !*final(busy)
            &&& *final(timers) == (TickTimers {
                next_heartbeat_time: None,
                next_stats_time: None,
                next_audio_levels_time: None,
                next_speaking_audio_levels_time: None,
                next_membership_proof_request_time: None,
                ..*old(timers)
            })
        },
{
    let action = leave_action(*join_state);
    match action {
        LeaveAction::Ignore => action,
        _ => {
            *busy = false;
            *join_state = JoinState::NotJoined(None);
            timers.next_heartbeat_time = None;
            timers.next_stats_time = None;
            timers.next_audio_levels_time = None;
            timers.next_speaking_audio_levels_time = None;
            timers.next_membership_proof_request_time = None;
            action
        },
    }
}

/// Whether a remote mute request for `target` may be sent: never to the
/// local device itself.
pub fn may_send_remote_mute_request(join_state: JoinState, target: DemuxId) -> (r: bool)
    ensures
        r == !(join_state.local_demux_id_spec() == Some(target)),
{
    match join_state.local_demux_id() {
        Some(local) => local != target,
        None => true,
    }
}
/// ICE decides the connection as follows.  Once ICE is connected (or
/// completed), a connecting or reconnecting call is connected; a connected
/// call whose ICE goes back to checking or disconnects is reconnecting; a
/// call still connecting ends when ICE fails, closes or disconnects, and any
/// other call ends when ICE fails or closes.  Every other change leaves the
/// connection as it is.
pub proof fn law_ice_connection_transitions(c: ConnectionState, ice: IceConnectionState)
    ensures
        ((c is Connecting || c is Reconnecting) && (ice is Connected || ice is Completed))
            ==> ice_transition(c, ice) == IceTransition::SetState(ConnectionState::Connected),
        (c is Connected && (ice is Checking || ice is Disconnected))
            ==> ice_transition(c, ice) == IceTransition::SetState(ConnectionState::Reconnecting),
        (c is Connecting && (ice is Failed || ice is Closed || ice is Disconnected))
            ==> ice_transition(c, ice) == IceTransition::End(CallEndReason::IceFailedWhileConnecting),
        (!(c is Connecting) && (ice is Failed || ice is Closed))
            ==> ice_transition(c, ice) == IceTransition::End(CallEndReason::IceFailedAfterConnected),
        ice_transition(c, ice) matches IceTransition::SetState(next) ==> next != c
            && (next is Connected || next is Reconnecting),
        ice_transition(c, ice) == IceTransition::SetState(ConnectionState::Connected)
            ==> (c is Connecting || c is Reconnecting) && (ice is Connected || ice is Completed),
        ice_transition(c, ice) == IceTransition::SetState(ConnectionState::Reconnecting)
            ==> c is Connected && (ice is Checking || ice is Disconnected),
{
}

} // verus!
