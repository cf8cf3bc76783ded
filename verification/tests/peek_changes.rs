use ringrtc::group_call::connection::CallEndReason;
use ringrtc::group_call::media_keys::store_pending_receive_key;
use ringrtc::group_call::peek::{
    peek_changed, peek_follow_ups, peer_connection_update_outcome, pending_users_signature, same_users,
    unique_user_ids, PeekDeviceInfo, PeekFollowUps,
};
use ringrtc::group_call::{GroupCallKind, JoinState};

fn dev(demux_id: u32, user: Option<u8>) -> PeekDeviceInfo {
    PeekDeviceInfo { demux_id, user_id: user.map(|u| vec![u]) }
}

#[test]
fn joined_users_are_listed_once() {
    let devices = vec![dev(1, Some(1)), dev(2, None), dev(3, Some(2)), dev(4, Some(1))];
    assert_eq!(vec![vec![1u8], vec![2u8]], unique_user_ids(&devices));
    assert!(unique_user_ids(&vec![dev(5, None)]).is_empty());
}

#[test]
fn users_compare_as_sets() {
    assert!(same_users(&vec![vec![1], vec![2]], &vec![vec![2], vec![1], vec![2]]));
    assert!(!same_users(&vec![vec![1]], &vec![vec![1], vec![3]]));
    assert!(!same_users(&vec![vec![1], vec![3]], &vec![vec![1]]));
    assert!(same_users(&vec![], &vec![]));
}

#[test]
fn pending_signature_wraps_and_ignores_order() {
    assert_eq!(2 + 10 + 20, pending_users_signature(2, &[10, 20]));
    assert_eq!(pending_users_signature(2, &[20, 10]), pending_users_signature(2, &[10, 20]));
    assert_eq!(1, pending_users_signature(3, &[u64::MAX - 1]));
    assert_eq!(0, pending_users_signature(0, &[]));
}

#[test]
fn peek_changes_are_reported() {
    let a = vec![vec![1u8], vec![2u8]];
    let b = vec![vec![2u8], vec![1u8]];
    let c = vec![vec![1u8]];
    assert!(!peek_changed(false, &a, &b, Some("era"), Some("era"), 5, 5));
    assert!(peek_changed(true, &a, &b, Some("era"), Some("era"), 5, 5));
    assert!(peek_changed(false, &a, &c, Some("era"), Some("era"), 5, 5));
    assert!(peek_changed(false, &a, &b, Some("era"), Some("new"), 5, 5));
    assert!(peek_changed(false, &a, &b, None, Some("era"), 5, 5));
    assert!(!peek_changed(false, &a, &b, None, None, 5, 5));
    assert!(peek_changed(false, &a, &b, None, None, 5, 6));
}

#[test]
fn peek_follow_ups_compose() {
    assert_eq!(
        PeekFollowUps {
            apply_transceiver_removals: true,
            apply_transceiver_additions: true,
            notify_remote_devices_changed: true,
            becomes_joined: true,
            advance_send_key: true,
            rotate_send_key: false,
            update_send_rates: true,
        },
        peek_follow_ups(true, true, true, true, true, JoinState::Pending(3), true, false)
    );
    let r = peek_follow_ups(true, false, true, true, false, JoinState::Joined(3), false, true);
    assert!(!r.apply_transceiver_removals && !r.apply_transceiver_additions);
    assert!(r.notify_remote_devices_changed && !r.becomes_joined && r.rotate_send_key && !r.update_send_rates);
    let r = peek_follow_ups(false, true, true, true, true, JoinState::Joined(3), false, false);
    assert!(!r.apply_transceiver_removals && !r.notify_remote_devices_changed && !r.becomes_joined);
    assert_eq!(None, peer_connection_update_outcome(true));
    assert_eq!(Some(CallEndReason::FailedToUpdatePeerConnection), peer_connection_update_outcome(false));
}

#[test]
fn unknown_senders_keys_wait() {
    let mut pending: Vec<(u32, u8)> = Vec::new();
    assert!(store_pending_receive_key(&mut pending, (1, 0), GroupCallKind::SignalGroup));
    assert!(!store_pending_receive_key(&mut pending, (2, 0), GroupCallKind::SignalGroup));
    assert_eq!(vec![(1, 0), (2, 0)], pending);
    let mut link: Vec<(u32, u8)> = Vec::new();
    assert!(!store_pending_receive_key(&mut link, (1, 0), GroupCallKind::CallLink));
}
