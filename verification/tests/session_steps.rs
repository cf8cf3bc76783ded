use ringrtc::group_call::connection::{connect_step, join_step, leave_step, JoinAction, LeaveAction};
use ringrtc::group_call::timers::TickTimers;
use ringrtc::group_call::{ConnectionState, JoinState, RingId};

fn idle_timers() -> TickTimers {
    TickTimers {
        next_heartbeat_time: None,
        next_stats_time: None,
        stats_interval: 10_000,
        next_decryption_error_time: None,
        next_audio_levels_time: None,
        audio_levels_interval: Some(500),
        next_membership_proof_request_time: None,
        next_raise_hand_time: None,
        next_speaking_audio_levels_time: None,
        speaking_interval: 200,
    }
}

#[test]
fn connecting_starts_the_timers() {
    let mut c = ConnectionState::NotConnected;
    let mut t = idle_timers();
    assert!(connect_step(&mut c, &mut t, true, 1000));
    assert_eq!(ConnectionState::Connecting, c);
    assert_eq!(Some(1000), t.next_heartbeat_time);
    assert_eq!(Some(1000), t.next_audio_levels_time);
    assert_eq!(Some(1000), t.next_speaking_audio_levels_time);
    assert_eq!(Some(1000), t.next_raise_hand_time);
    assert_eq!(Some(86_401_000), t.next_membership_proof_request_time);
    assert_eq!(None, t.next_stats_time);

    let before = t;
    assert!(!connect_step(&mut c, &mut t, true, 2000));
    assert_eq!(ConnectionState::Connecting, c);
    assert_eq!(before, t);

    let mut c = ConnectionState::NotConnected;
    let mut t = idle_timers();
    assert!(connect_step(&mut c, &mut t, false, 5));
    assert_eq!(None, t.next_membership_proof_request_time);
}

#[test]
fn joining_takes_the_call_manager() {
    let ring = RingId::from(12i64);
    let mut js = JoinState::NotJoined(Some(ring));
    let mut busy = false;
    let mut t = idle_timers();
    let (action, proof) = join_step(&mut js, &mut busy, &mut t, true, 100);
    assert_eq!(JoinAction::Join { accept_ring: Some(ring) }, action);
    assert!(proof);
    assert_eq!(JoinState::Joining, js);
    assert!(busy);
    assert_eq!(Some(86_400_100), t.next_membership_proof_request_time);

    let (action, proof) = join_step(&mut js, &mut busy, &mut t, true, 200);
    assert_eq!(JoinAction::Ignore, action);
    assert!(!proof);
    assert_eq!(JoinState::Joining, js);

    let mut other = JoinState::NotJoined(None);
    let mut t2 = idle_timers();
    let (action, _) = join_step(&mut other, &mut busy, &mut t2, false, 300);
    assert_eq!(JoinAction::EndBusy, action);
    assert_eq!(JoinState::NotJoined(None), other);
    assert!(busy);
    assert_eq!(idle_timers(), t2);
}

#[test]
fn leaving_releases_the_call_manager_and_stops_timers() {
    let mut js = JoinState::Joined(5);
    let mut busy = true;
    let mut t = idle_timers();
    t.next_heartbeat_time = Some(1);
    t.next_stats_time = Some(2);
    t.next_audio_levels_time = Some(3);
    t.next_speaking_audio_levels_time = Some(4);
    t.next_membership_proof_request_time = Some(5);
    t.next_raise_hand_time = Some(6);
    assert_eq!(LeaveAction::StopMediaAndAnnounce(5), leave_step(&mut js, &mut busy, &mut t));
    assert_eq!(JoinState::NotJoined(None), js);
    assert!(!busy);
    assert_eq!(None, t.next_heartbeat_time);
    assert_eq!(None, t.next_stats_time);
    assert_eq!(None, t.next_audio_levels_time);
    assert_eq!(None, t.next_speaking_audio_levels_time);
    assert_eq!(None, t.next_membership_proof_request_time);
    assert_eq!(Some(6), t.next_raise_hand_time);

    let mut busy_elsewhere = true;
    let before = t;
    assert_eq!(LeaveAction::Ignore, leave_step(&mut js, &mut busy_elsewhere, &mut t));
    assert!(busy_elsewhere);
    assert_eq!(before, t);

    let mut joining = JoinState::Joining;
    let mut busy = true;
    assert_eq!(LeaveAction::StopMedia, leave_step(&mut joining, &mut busy, &mut t));
    assert!(!busy);
}
