use std::collections::HashSet;

use ringrtc::group_call::remote_devices::{RemoteDeviceState, RemoteDevices};

/// Nanoseconds since the UNIX epoch of `timestamp` seconds.
fn time(timestamp: u64) -> u64 {
    timestamp * 1_000_000_000
}

fn remote_device_state(id: u32, spoken_at: Option<u64>) -> RemoteDeviceState {
    let mut remote_device_state = RemoteDeviceState::new(id, id.to_be_bytes().to_vec(), time(1));
    remote_device_state.speaker_time = spoken_at;
    remote_device_state
}

#[test]
fn latest_speaker_of_empty_devices() {
    let remote_devices = RemoteDevices::default();
    assert_eq!(None, remote_devices.latest_speaker_demux_id());
}

#[test]
fn latest_speaker_of_zero_speaking_devices() {
    let device_1 = remote_device_state(1, None);
    let device_2 = remote_device_state(2, None);
    let device_3 = remote_device_state(3, None);
    let remote_devices = RemoteDevices::from_iter(vec![device_1, device_2, device_3]);
    assert_eq!(None, remote_devices.latest_speaker_demux_id());
}

#[test]
fn latest_speaker_of_multiple_speaking_devices() {
    let device_1 = remote_device_state(1, Some(time(100)));
    let device_2 = remote_device_state(2, Some(time(101)));
    let device_3 = remote_device_state(3, None);
    let remote_devices = RemoteDevices::from_iter(vec![device_1, device_2, device_3]);
    assert_eq!(Some(2), remote_devices.latest_speaker_demux_id());
}

#[test]
fn find_by_demux_id_when_key_is_not_found() {
    let device_1 = remote_device_state(1, None);
    let device_2 = remote_device_state(2, None);
    let device_3 = remote_device_state(3, None);
    let absent_id = 4;
    let remote_devices = RemoteDevices::from_iter(vec![device_1, device_2, device_3]);
    let device_state = remote_devices.find_by_demux_id(absent_id);
    assert_eq!(None, device_state);
}

#[test]
fn find_by_demux_id() {
    let device_1 = remote_device_state(1, None);
    let device_2 = remote_device_state(2, None);
    let device_3 = remote_device_state(3, None);
    let remote_devices = RemoteDevices::from_iter(vec![device_1, device_2.clone(), device_3]);
    assert_eq!(
        Some(&device_2),
        remote_devices.find_by_demux_id(device_2.demux_id)
    );
}

#[test]
fn find_by_demux_id_mut_when_key_is_not_found() {
    let device_1 = remote_device_state(1, None);
    let device_2 = remote_device_state(2, None);
    let device_3 = remote_device_state(3, None);
    let absent_id = 4;
    let mut remote_devices = RemoteDevices::from_iter(vec![device_1, device_2, device_3]);
    let device_state = remote_devices.find_by_demux_id_mut(absent_id);
    assert_eq!(None, device_state);
}

#[test]
fn find_by_demux_id_mut_and_edit_is_persisted() {
    let device_1 = remote_device_state(1, None);
    let device_2 = remote_device_state(2, None);
    let device_3 = remote_device_state(3, None);
    let device_2_demux_id = device_2.demux_id;
    let mut remote_devices = RemoteDevices::from_iter(vec![device_1, device_2, device_3]);
    let device_state = remote_devices
        .find_by_demux_id_mut(device_2_demux_id)
        .unwrap();
    device_state.speaker_time = Some(time(300));
    let device_state = remote_devices
        .find_by_demux_id_mut(device_2_demux_id)
        .unwrap();
    assert_eq!(Some(time(300)), device_state.speaker_time);
}

#[test]
fn demux_id_set() {
    let device_1 = remote_device_state(1, None);
    let device_2 = remote_device_state(2, None);
    let device_3 = remote_device_state(3, None);
    let remote_devices = RemoteDevices::from_iter(vec![device_1, device_2, device_3]);
    assert_eq!(
        vec![1, 2, 3].into_iter().collect::<HashSet<_>>(),
        remote_devices.demux_id_set()
    );
}

#[test]
fn latest_speaker_ties_go_to_the_last_listed() {
    let device_1 = remote_device_state(1, Some(time(100)));
    let device_2 = remote_device_state(2, Some(time(100)));
    let remote_devices = RemoteDevices::from_iter(vec![device_1, device_2]);
    assert_eq!(Some(2), remote_devices.latest_speaker_demux_id());
}

#[test]
fn unix_millis_of_device_times() {
    let mut device = remote_device_state(7, Some(time(2) + 3_500_000));
    assert_eq!(1000, device.added_time_as_unix_millis());
    assert_eq!(2003, device.speaker_time_as_unix_millis());
    device.speaker_time = None;
    assert_eq!(0, device.speaker_time_as_unix_millis());
}

#[test]
fn higher_resolution_pending_follows_heights() {
    let mut device = remote_device_state(2, None);
    device.recalculate_higher_resolution_pending();
    assert!(!device.is_higher_resolution_pending);
    device.server_allocated_height = 240;
    device.recalculate_higher_resolution_pending();
    assert!(device.is_higher_resolution_pending);
    device.client_decoded_height = Some(240);
    device.recalculate_higher_resolution_pending();
    assert!(!device.is_higher_resolution_pending);
}
