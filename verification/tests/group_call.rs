use std::collections::{HashMap, HashSet};

use ringrtc::error::RingRtcError;
use ringrtc::group_call::connection::{
    connect_transition, end_reason_for_join_failure, end_reason_for_removal, join_action, leave_action,
    may_send_remote_mute_request, LeaveAction,
    on_ice_connection_state_changed, CallEndReason, IceConnectionState, IceTransition, JoinAction,
};
use ringrtc::group_call::frame::{
    get_ciphertext_buffer_size, get_plaintext_buffer_size, parse_encrypted_frame,
    write_encrypted_frame, Reader, Writer,
};
use ringrtc::group_call::media_keys::{key_route, split_own_user, KeyRotationState, KeyRoute};
use ringrtc::group_call::peek::{added_demux_ids, join_state_after_peek, some_user_left, PeekDeviceInfo};
use ringrtc::group_call::polling::RemoteDevicesRequestState;
use ringrtc::group_call::raise_hand::{
    accept_remote_mute_request, reaction_value_is_valid, RaiseHandState,
};
use ringrtc::group_call::rates::{compute_send_rates, set_send_rates, BweCheckState, DataRate, SendRates};
use ringrtc::group_call::remote_devices::{RemoteDeviceState, RemoteDevices};
use ringrtc::group_call::ring::OutgoingRingState;
use ringrtc::group_call::speaking::SpeakingState;
use ringrtc::group_call::transceivers::{assign_added_transceivers, clear_removed_transceivers};
use ringrtc::group_call::video::{forwarding_videos, handle_forwarding_video, video_request_heights};
use ringrtc::group_call::{
    ConnectionState, GroupCallKind, JoinState, RingCancelReason, RingId, SpeechEvent, VideoRequest,
};

fn device(id: u32) -> RemoteDeviceState {
    RemoteDeviceState::new(id, id.to_be_bytes().to_vec(), 0)
}

#[test]
fn ordinals() {
    assert_eq!(0, SpeechEvent::StoppedSpeaking.ordinal());
    assert_eq!(1, SpeechEvent::LowerHandSuggestion.ordinal());
    assert_eq!(3, ConnectionState::Reconnecting.ordinal());
    assert_eq!(0, JoinState::NotJoined(None).ordinal());
    assert_eq!(2, JoinState::Pending(5).ordinal());
    assert_eq!(3, JoinState::Joined(5).ordinal());
    assert_eq!(Some(RingCancelReason::Busy), RingCancelReason::try_from_i32(1));
    assert_eq!(None, RingCancelReason::try_from_i32(2));
}

#[test]
fn ring_ids_from_era_ids() {
    assert_eq!(0x1122334455667788i64, i64::from(RingId::from_era_id("1122334455667788")));
    assert_eq!(-7373874951294615808i64, i64::from(RingId::from_era_id("99aabbccddeeff00")));
    assert_eq!(-1i64, i64::from(RingId::from_era_id("0000000000000000")));
    assert_eq!(1i64, i64::from(RingId::from_era_id("+000000000000001")));
    // Anything else is hashed.
    assert_eq!(-8675572703097654512i64, i64::from(RingId::from_era_id("mesozoic")));
    assert_eq!(1449310910991872227i64, i64::from(RingId::from_era_id("")));
    assert_eq!(42i64, i64::from(RingId::from(42i64)));
}

#[test]
fn ring_id_from_digest_reads_little_endian() {
    let digest = [0x88u8, 0x77, 0x66, 0x55, 0x44, 0x33, 0x22, 0x11, 0xff, 0xff];
    assert_eq!(0x1122334455667788i64, i64::from(RingId::from_digest(&digest)));
    assert_eq!(-1i64, i64::from(RingId::from_digest(&[0xffu8; 8])));
    assert_eq!(0i64, i64::from(RingId::from_digest(&[0u8; 32])));
}

#[test]
fn join_state_ring_ids() {
    let ring = RingId::from(7i64);
    assert_eq!(JoinState::NotJoined(Some(ring)), JoinState::NotJoined(None).provide_ring_id_if_absent(ring));
    let earlier = RingId::from(3i64);
    assert_eq!(
        JoinState::NotJoined(Some(earlier)),
        JoinState::NotJoined(Some(earlier)).provide_ring_id_if_absent(ring)
    );
    assert_eq!(JoinState::Joining, JoinState::Joining.provide_ring_id_if_absent(ring));
    assert_eq!(Some(9), JoinState::Joined(9).local_demux_id());
    assert_eq!(None, JoinState::Joining.local_demux_id());
}

#[test]
fn outgoing_ring_lifecycle() {
    let ring = RingId::from(11i64);
    let (state, sent) = OutgoingRingState::Unknown.ring(None, true);
    assert!(sent.is_none());
    let (state, wanted) = state.on_creator_known(true, ring);
    assert_eq!(Some(None), wanted);
    let (state, sent) = state.ring(None, true);
    assert_eq!(Some(ring), sent);
    assert_eq!(Some(ring), state.ring_to_cancel());
    let state = state.on_remote_devices(false);
    assert_eq!(None, state.ring_to_cancel());
    let (state, _) = OutgoingRingState::Unknown.on_creator_known(false, ring);
    let (_, sent) = state.ring(None, true);
    assert_eq!(None, sent);
}

#[test]
fn ice_connection_transitions() {
    assert_eq!(
        IceTransition::End(CallEndReason::IceFailedWhileConnecting),
        on_ice_connection_state_changed(ConnectionState::Connecting, IceConnectionState::Failed)
    );
    assert_eq!(
        IceTransition::SetState(ConnectionState::Connected),
        on_ice_connection_state_changed(ConnectionState::Connecting, IceConnectionState::Completed)
    );
    assert_eq!(
        IceTransition::SetState(ConnectionState::Reconnecting),
        on_ice_connection_state_changed(ConnectionState::Connected, IceConnectionState::Disconnected)
    );
    assert_eq!(
        IceTransition::End(CallEndReason::IceFailedAfterConnected),
        on_ice_connection_state_changed(ConnectionState::Reconnecting, IceConnectionState::Closed)
    );
    assert_eq!(
        IceTransition::Ignore,
        on_ice_connection_state_changed(ConnectionState::Connected, IceConnectionState::New)
    );
}

#[test]
fn connecting_and_joining() {
    assert_eq!((ConnectionState::Connecting, true), connect_transition(ConnectionState::NotConnected));
    assert_eq!((ConnectionState::Connected, false), connect_transition(ConnectionState::Connected));
    let ring = RingId::from(5i64);
    assert_eq!(JoinAction::Join { accept_ring: Some(ring) }, join_action(JoinState::NotJoined(Some(ring)), false));
    assert_eq!(JoinAction::EndBusy, join_action(JoinState::NotJoined(None), true));
    assert_eq!(JoinAction::Ignore, join_action(JoinState::Joined(1), false));
    assert_eq!(CallEndReason::HasMaxDevices, end_reason_for_join_failure(&RingRtcError::GroupCallFull));
    assert_eq!(CallEndReason::SfuClientFailedToJoin, end_reason_for_join_failure(&RingRtcError::SfuClientRequestFailed));
    assert_eq!(CallEndReason::RemovedFromCall, end_reason_for_removal(JoinState::Joined(3)));
    assert_eq!(CallEndReason::DeniedRequestToJoinCall, end_reason_for_removal(JoinState::Pending(3)));
}

#[test]
fn raised_hands() {
    let state = RaiseHandState::new().raise_hand(true);
    assert_eq!(RaiseHandState { seqnum: 1, raise: true, outstanding: true }, state);
    // An older report changes nothing.
    let (same, list) = RaiseHandState { seqnum: 5, ..state }.handle_raised_hands(&vec![1], vec![2], 4);
    assert_eq!(5, same.seqnum);
    assert_eq!(None, list);
    // A report as new as the request settles it.
    let (settled, list) = state.handle_raised_hands(&vec![], vec![3], 1);
    assert!(!settled.outstanding);
    assert_eq!(Some(vec![3]), list);
    // A newer report with the same list tells nobody.
    let (_, list) = settled.handle_raised_hands(&vec![3], vec![3], 2);
    assert_eq!(None, list);
}

#[test]
fn remote_mute_requests() {
    assert_eq!(Some(4), accept_remote_mute_request(JoinState::Joined(1), None, 4, 1));
    assert_eq!(Some(2), accept_remote_mute_request(JoinState::Joined(1), Some(2), 4, 1));
    assert_eq!(None, accept_remote_mute_request(JoinState::Joined(1), None, 1, 1));
    assert_eq!(None, accept_remote_mute_request(JoinState::Joined(1), None, 4, 7));
    assert_eq!(None, accept_remote_mute_request(JoinState::Joining, None, 4, 1));
}

#[test]
fn reaction_values() {
    assert!(!reaction_value_is_valid(""));
    assert!(reaction_value_is_valid("hello"));
    assert!(reaction_value_is_valid(&"x".repeat(256)));
    assert!(!reaction_value_is_valid(&"x".repeat(257)));
}

#[test]
fn send_rate_limits() {
    assert_eq!(Some(DataRate::from_kbps(1)), compute_send_rates(0, false).max);
    assert_eq!(Some(DataRate::from_kbps(1000)), compute_send_rates(7, false).max);
    assert_eq!(Some(DataRate::from_kbps(671)), compute_send_rates(8, false).max);
    let screen = compute_send_rates(20, true);
    assert_eq!(Some(DataRate::from_kbps(500)), screen.min);
    assert_eq!(Some(DataRate::from_kbps(1000)), screen.start);
    assert_eq!(Some(DataRate::from_kbps(2000)), screen.max);
    assert_eq!(671, DataRate::from_kbps(671).as_kbps());
    assert_eq!(2_000_000, DataRate::from_mbps(2).bps);
}

#[test]
fn setting_send_rates_pauses_and_resumes_checks() {
    let small = compute_send_rates(1, false);
    let alone = compute_send_rates(0, false);
    let decision = set_send_rates(small, None, alone, BweCheckState::At(50), 100);
    assert_eq!(Some(alone), decision.rates);
    assert!(!decision.media_enabled);
    assert_eq!(BweCheckState::Disabled, decision.bwe_check_state);
    let decision = set_send_rates(alone, None, small, BweCheckState::Disabled, 100);
    assert!(decision.media_enabled);
    assert_eq!(BweCheckState::At(1100), decision.bwe_check_state);
    let decision = set_send_rates(small, None, small, BweCheckState::Stopped, 100);
    assert_eq!(None, decision.rates);
    let override_rates = SendRates { min: None, start: None, max: Some(DataRate::from_kbps(300)) };
    let decision = set_send_rates(small, Some(override_rates), alone, BweCheckState::Stopped, 100);
    assert_eq!(Some(override_rates), decision.rates);
}

#[test]
fn bandwidth_callbacks_come_once_each() {
    let low = DataRate::from_kbps(10);
    let high = DataRate::from_kbps(100);
    let (state, callback) = BweCheckState::At(0).tick(0, false, low);
    assert_eq!((BweCheckState::At(10_000), None), (state, callback));
    let (state, callback) = state.tick(10_000, true, low);
    assert_eq!(Some(false), callback);
    let (state2, callback) = state.tick(11_000, true, high);
    assert_eq!(None, callback);
    assert_eq!(state, state2);
    let (state, callback) = state.tick(16_000, true, high);
    assert_eq!((BweCheckState::Stopped, Some(true)), (state, callback));
    assert_eq!((BweCheckState::Stopped, None), state.tick(30_000, true, low));
}

#[test]
fn speaking_notifications() {
    let state = SpeakingState::new();
    let (state, event) = state.poll(0, 5000, Some(false));
    assert_eq!(None, event);
    let (state, event) = state.poll(5000, 5000, Some(false));
    assert_eq!(Some(SpeechEvent::LowerHandSuggestion), event);
    let (state, event) = state.poll(6000, 5000, Some(false));
    assert_eq!(None, event);
    let (state, event) = state.poll(7000, 0, Some(false));
    assert_eq!(None, event);
    let (_, event) = state.poll(10_000, 0, Some(false));
    assert_eq!(Some(SpeechEvent::StoppedSpeaking), event);
    // Muted audio is never speech.
    let (state, _) = SpeakingState::new().poll(0, 5000, Some(true));
    assert_eq!(None, state.started_speaking);
}

#[test]
fn remote_device_polling() {
    let state = RemoteDevicesRequestState::WaitingForMembershipProof;
    assert_eq!((state, false), state.maybe_request(0, 1000, false));
    let (state, now) = state.on_membership_proof();
    assert!(now);
    let (state, requested) = state.maybe_request(10, 1000, false);
    assert!(requested);
    let (state, requested) = state.maybe_request(20, 1000, true);
    assert!(!requested);
    let (state, again) = state.on_peek_result(true, 30);
    assert!(again);
    assert_eq!((state, false), state.maybe_request(1029, 1000, false));
    assert!(state.maybe_request(1030, 1000, false).1);
    let (state, _) = state.on_peek_result(false, 40);
    assert!(!state.maybe_request(5040, 1000, false).1);
    assert!(state.maybe_request(5041, 1000, false).1);
}

#[test]
fn frame_round_trip() {
    let payload = [1u8, 2, 3];
    let mac = [9u8; 16];
    let mut buffer = [0u8; 30];
    let size = write_encrypted_frame(&mut buffer, &payload, 7, 0x01020304, &mac).unwrap();
    assert_eq!(24, size);
    assert_eq!(get_ciphertext_buffer_size(3), size);
    assert_eq!(3, get_plaintext_buffer_size(size));
    let parts = parse_encrypted_frame(&buffer[..size]).unwrap();
    assert_eq!(&payload[..], parts.encrypted_payload);
    assert_eq!(7, parts.ratchet_counter);
    assert_eq!(0x01020304, parts.frame_counter);
    assert_eq!(&mac[..], parts.mac);
    assert!(matches!(parse_encrypted_frame(&buffer[..20]), Err(RingRtcError::BufferTooSmall)));
    assert!(matches!(
        write_encrypted_frame(&mut buffer, &payload, 7, 1 << 32, &mac),
        Err(RingRtcError::FrameCounterTooBig)
    ));
    assert!(matches!(
        write_encrypted_frame(&mut [0u8; 23], &payload, 7, 1, &mac),
        Err(RingRtcError::BufferTooSmall)
    ));
    assert!(matches!(
        write_encrypted_frame(&mut [0u8; 2], &payload, 7, 1 << 32, &mac),
        Err(RingRtcError::BufferTooSmall)
    ));
    assert!(matches!(
        write_encrypted_frame(&mut [0u8; 10], &payload, 7, 1 << 32, &mac),
        Err(RingRtcError::FrameCounterTooBig)
    ));
    assert_eq!(usize::MAX, get_ciphertext_buffer_size(usize::MAX));
    assert_eq!(0, get_plaintext_buffer_size(20));
}

#[test]
fn writer_and_reader() {
    let mut buffer = [0u8; 6];
    let mut writer = Writer::new(&mut buffer);
    writer.write_u8(0xaa).unwrap();
    writer.write_u32(0x01020304).unwrap();
    assert_eq!(1, writer.remaining_len());
    assert!(matches!(writer.write_slice(&[1, 2]), Err(RingRtcError::BufferTooSmall)));
    writer.write_slice(&[0xbb]).unwrap();
    assert_eq!([0xaa, 1, 2, 3, 4, 0xbb], buffer);
    let mut reader = Reader::new(&buffer);
    assert_eq!(0xbb, reader.read_u8_from_end().unwrap());
    assert_eq!(0x01020304, reader.read_u32_from_end().unwrap());
    assert_eq!(&[0xaa][..], reader.remaining());
    assert!(matches!(reader.read_slice_from_end(2), Err(RingRtcError::BufferTooSmall)));
}

#[test]
fn written_region_is_handed_back() {
    let mut buffer = [0u8; 5];
    let mut writer = Writer::new(&mut buffer);
    writer.write_u8(7).unwrap();
    let region = writer.write_slice(&[1, 2, 3]).unwrap();
    assert_eq!(&[1, 2, 3][..], &region[..]);
    for b in region.iter_mut() {
        *b ^= 0xff;
    }
    assert_eq!(1, writer.remaining_len());
    let overlapping = writer.write_slice_overlapping(&[4]).unwrap();
    overlapping[0] = 5;
    assert_eq!([7, 0xfe, 0xfd, 0xfc, 5], buffer);
}

#[test]
fn transceiver_slots() {
    let mut slots = vec![Some(1), None, Some(2), Some(3)];
    let current: HashSet<u32> = [1, 3, 4, 5].iter().copied().collect();
    assert!(clear_removed_transceivers(&mut slots, &current));
    assert_eq!(vec![Some(1), None, None, Some(3)], slots);
    assert!(!clear_removed_transceivers(&mut slots, &current));
    assign_added_transceivers(&mut slots, &current, &vec![4, 5, 6]);
    assert_eq!(vec![Some(1), Some(4), Some(5), Some(3), Some(6)], slots);
}

#[test]
fn peek_updates_devices() {
    let mut kept = device(2);
    kept.speaker_time = Some(5);
    let devices = RemoteDevices::from_iter(vec![device(1), kept.clone()]);
    let peek = vec![
        PeekDeviceInfo { demux_id: 2, user_id: Some(2u32.to_be_bytes().to_vec()) },
        PeekDeviceInfo { demux_id: 9, user_id: Some(vec![9]) },
        PeekDeviceInfo { demux_id: 7, user_id: None },
        PeekDeviceInfo { demux_id: 4, user_id: Some(vec![4]) },
    ];
    let (updated, participant) = devices.updated_from_peek(peek, 4, 100);
    assert!(participant);
    assert_eq!(2, updated.len());
    assert_eq!(Some(&kept), updated.find_by_demux_id(2));
    let fresh = updated.find_by_demux_id(9).unwrap();
    assert_eq!(100, fresh.added_time);
    assert_eq!(vec![9], fresh.user_id);
    assert_eq!(None, updated.find_by_demux_id(1));
}

#[test]
fn forwarded_videos_update_devices() {
    let mut devices = RemoteDevices::from_iter(vec![device(1), device(2)]);
    devices.find_by_demux_id_mut(1).unwrap().client_decoded_height = Some(480);
    let mut current: HashMap<u32, u16> = HashMap::new();
    assert!(handle_forwarding_video(&mut devices, &mut current, &vec![2, 3], &vec![240, 120]));
    let one = devices.find_by_demux_id(1).unwrap();
    assert_eq!(Some(false), one.forwarding_video);
    assert_eq!(None, one.client_decoded_height);
    let two = devices.find_by_demux_id(2).unwrap();
    assert_eq!(Some(true), two.forwarding_video);
    assert_eq!(240, two.server_allocated_height);
    assert!(two.is_higher_resolution_pending);
    assert_eq!(2, current.len());
    // The same report again changes nothing.
    assert!(!handle_forwarding_video(&mut devices, &mut current, &vec![3, 2], &vec![120, 240]));
    // Later pairs win, and extra entries are ignored.
    let map = forwarding_videos(&vec![5, 5, 6], &vec![10, 70000]);
    assert_eq!(Some(&(70000u32 as u16)), map.get(&5));
    assert_eq!(None, map.get(&6));
}

#[test]
fn video_requests_use_the_smaller_side() {
    let devices = RemoteDevices::from_iter(vec![device(1), device(2)]);
    let requests = vec![
        VideoRequest { demux_id: 2, width: 1920, height: 1080, framerate: None },
        VideoRequest { demux_id: 3, width: 80, height: 120, framerate: None },
        VideoRequest { demux_id: 1, width: 120, height: 160, framerate: Some(30) },
    ];
    assert_eq!(vec![(2, 1080), (1, 120)], video_request_heights(&requests, &devices));
}

#[test]
fn heartbeats_and_speakers() {
    let mut devices = RemoteDevices::from_iter(vec![device(1)]);
    let news = devices.handle_leaving_received(1);
    assert!(news);
    assert!(!devices.handle_leaving_received(1));
    assert!(!devices.handle_leaving_received(8));
}

#[test]
fn key_rotation() {
    let state: KeyRotationState<u8> = KeyRotationState::Applied;
    let (state, make) = state.rotation_requested();
    assert!(make);
    let state = state.key_made(7);
    assert_eq!(KeyRotationState::Pending { secret: 7, needs_another_rotation: false }, state);
    let (state, make) = state.rotation_requested();
    assert!(!make);
    let (state, make) = state.rotation_requested();
    assert!(!make);
    assert_eq!((KeyRotationState::Applied, Some(7), true), state.delay_passed());
    assert_eq!((KeyRotationState::Applied, None, false), KeyRotationState::<u8>::Applied.delay_passed());
}

#[test]
fn media_key_routes() {
    assert_eq!(KeyRoute::Nobody, key_route(GroupCallKind::SignalGroup, false, 0));
    assert_eq!(KeyRoute::Group, key_route(GroupCallKind::SignalGroup, false, 2));
    assert_eq!(KeyRoute::Individually, key_route(GroupCallKind::SignalGroup, true, 1));
    assert_eq!(KeyRoute::AdhocGroup, key_route(GroupCallKind::CallLink, true, 1));
    assert_eq!(KeyRoute::Individually, key_route(GroupCallKind::CallLink, false, 5));
    let (rest, own) = split_own_user(vec![vec![1], vec![2], vec![3]], &Some(vec![2]));
    assert_eq!(vec![vec![1], vec![3]], rest);
    assert!(own);
    let (rest, own) = split_own_user(vec![vec![1]], &Some(vec![2]));
    assert_eq!(vec![vec![1]], rest);
    assert!(!own);
    assert_eq!((vec![vec![4]], false), split_own_user(vec![vec![4]], &None));
}

#[test]
fn peek_differences() {
    let old = RemoteDevices::from_iter(vec![device(1), device(2)]);
    let new = RemoteDevices::from_iter(vec![device(2), device(5), device(3), device(5)]);
    assert_eq!(vec![5, 3], added_demux_ids(&old, &new));
    assert_eq!((JoinState::Joined(4), true), join_state_after_peek(JoinState::Pending(4), true));
    assert_eq!((JoinState::Pending(4), false), join_state_after_peek(JoinState::Pending(4), false));
    assert_eq!((JoinState::Joined(4), false), join_state_after_peek(JoinState::Joined(4), true));
    assert!(some_user_left(&vec![vec![1], vec![2]], &vec![vec![2]]));
    assert!(!some_user_left(&vec![vec![2]], &vec![vec![2], vec![3]]));
}

/// The remote devices of local device 1 after a peek listing the devices with
/// demux IDs `1..=n`, each with its own user.
fn remote_devices_after_peek(devices: RemoteDevices, n: u32) -> RemoteDevices {
    let peek: Vec<PeekDeviceInfo> = (1..=n)
        .map(|demux_id| PeekDeviceInfo {
            demux_id,
            user_id: Some(format!("{}", demux_id).as_bytes().to_vec()),
        })
        .collect();
    devices.updated_from_peek(peek, 1, 0).0
}

#[test]
fn send_rates() {
    let max_only = |kbps| SendRates { min: None, start: None, max: Some(DataRate::from_kbps(kbps)) };
    let screenshare = SendRates {
        min: Some(DataRate::from_kbps(500)),
        start: Some(DataRate::from_kbps(1000)),
        max: Some(DataRate::from_kbps(2000)),
    };
    let devices = RemoteDevices::default();
    assert_eq!(max_only(1), compute_send_rates(devices.len(), false));
    let devices = remote_devices_after_peek(devices, 0);
    assert_eq!(max_only(1), compute_send_rates(devices.len(), false));
    let devices = remote_devices_after_peek(devices, 1);
    assert_eq!(max_only(1), compute_send_rates(devices.len(), false));
    let devices = remote_devices_after_peek(devices, 2);
    assert_eq!(max_only(1000), compute_send_rates(devices.len(), false));
    let devices = remote_devices_after_peek(devices, 5);
    assert_eq!(max_only(1000), compute_send_rates(devices.len(), false));
    let devices = remote_devices_after_peek(devices, 20);
    assert_eq!(max_only(671), compute_send_rates(devices.len(), false));
    assert_eq!(screenshare, compute_send_rates(devices.len(), true));
    assert_eq!(max_only(671), compute_send_rates(devices.len(), false));
    let devices = remote_devices_after_peek(devices, 1);
    assert_eq!(max_only(1), compute_send_rates(devices.len(), false));
    assert_eq!(max_only(1), compute_send_rates(devices.len(), true));
    let devices = remote_devices_after_peek(devices, 20);
    assert_eq!(screenshare, compute_send_rates(devices.len(), true));
}

fn forwarding_state(devices: &RemoteDevices) -> Vec<(u32, Option<bool>, u16)> {
    devices
        .0
        .iter()
        .map(|remote| (remote.demux_id, remote.forwarding_video, remote.server_allocated_height))
        .collect()
}

#[test]
fn forwarding_video() {
    let mut devices = RemoteDevices::from_iter(vec![device(2), device(3)]);
    let mut current: HashMap<u32, u16> = HashMap::new();
    assert_eq!(vec![(2, None, 0), (3, None, 0)], forwarding_state(&devices));
    handle_forwarding_video(&mut devices, &mut current, &vec![2, 3], &vec![240, 120]);
    assert_eq!(vec![(2, Some(true), 240), (3, Some(true), 120)], forwarding_state(&devices));
    handle_forwarding_video(&mut devices, &mut current, &vec![2], &vec![120]);
    assert_eq!(vec![(2, Some(true), 120), (3, Some(false), 0)], forwarding_state(&devices));
}

#[test]
fn client_decoded_height() {
    let mut devices = RemoteDevices::from_iter(vec![device(2)]);
    let mut current: HashMap<u32, u16> = HashMap::new();
    assert_eq!(None, devices.0[0].client_decoded_height);
    handle_forwarding_video(&mut devices, &mut current, &vec![2], &vec![480]);
    devices.0[0].client_decoded_height = Some(480);
    // There is no video when forwarding stops, so the height is None.
    handle_forwarding_video(&mut devices, &mut current, &vec![], &vec![]);
    assert_eq!(None, devices.0[0].client_decoded_height);
}

#[test]
fn is_higher_resolution_pending() {
    let mut devices = RemoteDevices::from_iter(vec![device(2)]);
    let mut current: HashMap<u32, u16> = HashMap::new();
    assert_eq!(vec![(2, 0)], devices.0.iter().map(|d| (d.demux_id, d.server_allocated_height)).collect::<Vec<_>>());
    assert!(!devices.0[0].is_higher_resolution_pending);
    handle_forwarding_video(&mut devices, &mut current, &vec![2], &vec![240]);
    assert_eq!(vec![(2, 240)], devices.0.iter().map(|d| (d.demux_id, d.server_allocated_height)).collect::<Vec<_>>());
    // A higher resolution is pending because the server allocated a height of
    // 240, but no video has been decoded yet.
    assert!(devices.0[0].is_higher_resolution_pending);
    // After receiving the higher resolution video, the pending status is cleared.
    devices.0[0].client_decoded_height = Some(240);
    devices.0[0].recalculate_higher_resolution_pending();
    assert!(!devices.0[0].is_higher_resolution_pending);
}

#[test]
fn leaving_and_muting_others() {
    assert_eq!(LeaveAction::Ignore, leave_action(JoinState::NotJoined(None)));
    assert_eq!(LeaveAction::StopMedia, leave_action(JoinState::Joining));
    assert_eq!(LeaveAction::StopMediaAndAnnounce(4), leave_action(JoinState::Pending(4)));
    assert_eq!(LeaveAction::StopMediaAndAnnounce(5), leave_action(JoinState::Joined(5)));
    assert!(!may_send_remote_mute_request(JoinState::Joined(5), 5));
    assert!(may_send_remote_mute_request(JoinState::Joined(5), 6));
    assert!(may_send_remote_mute_request(JoinState::Joining, 5));
}

fn peek_of(ids: &[u32]) -> Vec<PeekDeviceInfo> {
    ids.iter()
        .map(|&demux_id| PeekDeviceInfo { demux_id, user_id: Some(vec![demux_id as u8]) })
        .collect()
}

/// Demux IDs by latest speaker, then by when added, then by demux ID.
fn speakers_of(devices: &RemoteDevices) -> Vec<u32> {
    let mut sorted: Vec<&RemoteDeviceState> = devices.0.iter().collect();
    sorted.sort_by_key(|device| {
        (
            std::cmp::Reverse(device.speaker_time_as_unix_millis()),
            device.added_time_as_unix_millis(),
            device.demux_id,
        )
    });
    sorted.iter().map(|device| device.demux_id).collect()
}

#[test]
fn speakers() {
    let ms = 1_000_000u64;
    let (devices, _) = RemoteDevices::default().updated_from_peek(peek_of(&[1, 3, 4]), 1, ms);
    assert_eq!(vec![3, 4], speakers_of(&devices));
    // New people put at the end regardless of demux ID.
    let (mut devices, _) = devices.updated_from_peek(peek_of(&[2, 4, 3]), 1, 2 * ms);
    assert_eq!(vec![3, 4, 2], speakers_of(&devices));
    let mut last = None;
    let mut step = 3;
    let mut receive = |devices: &mut RemoteDevices, timestamp: u32, demux_id: u32| -> bool {
        let (next, changed) = devices.handle_speaker_received(last, timestamp, demux_id, step * ms);
        last = next;
        step += 1;
        changed
    };
    // Changed.
    assert!(receive(&mut devices, 1, 4));
    assert_eq!(vec![4, 3, 2], speakers_of(&devices));
    // Didn't change.
    assert!(!receive(&mut devices, 2, 4));
    assert_eq!(vec![4, 3, 2], speakers_of(&devices));
    // Changed back.
    assert!(receive(&mut devices, 3, 3));
    assert_eq!(vec![3, 4, 2], speakers_of(&devices));
    // Ignore unknown demux ID.
    assert!(!receive(&mut devices, 4, 5));
    assert_eq!(vec![3, 4, 2], speakers_of(&devices));
    // Didn't change.
    assert!(!receive(&mut devices, 6, 3));
    assert_eq!(vec![3, 4, 2], speakers_of(&devices));
    // Ignore old messages.
    assert!(!receive(&mut devices, 5, 4));
    assert_eq!(vec![3, 4, 2], speakers_of(&devices));
    // Ignore when the local device is the current speaker.
    assert!(!receive(&mut devices, 7, 1));
    assert_eq!(vec![3, 4, 2], speakers_of(&devices));
    // Finally give 2 a chance.
    assert!(receive(&mut devices, 8, 2));
    assert_eq!(vec![2, 3, 4], speakers_of(&devices));
    // Swap only the top two; leave the third alone.
    assert!(receive(&mut devices, 9, 3));
    assert_eq!(vec![3, 2, 4], speakers_of(&devices));
    // Unchanged.
    assert!(!receive(&mut devices, 10, 3));
    assert_eq!(vec![3, 2, 4], speakers_of(&devices));
}
