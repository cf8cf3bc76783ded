use ringrtc::group_call::timers::{tick_timers, timers_on_join, TickQueues, TickTimers, TickWork};
use ringrtc::group_call::JoinState;

fn timers() -> TickTimers {
    TickTimers {
        next_heartbeat_time: Some(1000),
        next_stats_time: Some(5000),
        stats_interval: 10_000,
        next_decryption_error_time: Some(900),
        next_audio_levels_time: Some(1000),
        audio_levels_interval: None,
        next_membership_proof_request_time: Some(0),
        next_raise_hand_time: Some(500),
        next_speaking_audio_levels_time: None,
        speaking_interval: 150,
    }
}

#[test]
fn due_timers_fire_and_are_rearmed() {
    let r = tick_timers(timers(), TickQueues::new(), 1000, true, true);
    assert_eq!(
        TickWork {
            heartbeat: true,
            stats: false,
            decryption_errors: true,
            audio_levels: false,
            membership_proof: true,
            raise_hand: true,
            speaking: false,
        },
        r.work
    );
    let next = r.timers;
    assert_eq!(Some(2000), next.next_heartbeat_time);
    assert_eq!(Some(5000), next.next_stats_time);
    assert_eq!(Some(1500), next.next_decryption_error_time);
    assert_eq!(Some(1000), next.next_audio_levels_time);
    assert_eq!(Some(86_401_000), next.next_membership_proof_request_time);
    assert_eq!(Some(1500), next.next_raise_hand_time);
    assert_eq!(1200, r.next_tick_time);
    assert!(r.deliveries.reactions.is_none());
    assert_eq!(None, r.deliveries.mute_request);
}

#[test]
fn conditions_hold_back_work() {
    let mut t = timers();
    t.audio_levels_interval = Some(200);
    let r = tick_timers(t, TickQueues::new(), 999, false, false);
    assert!(!r.work.heartbeat && !r.work.membership_proof && !r.work.raise_hand && !r.work.audio_levels);
    assert!(r.work.decryption_errors);
    assert_eq!(Some(0), r.timers.next_membership_proof_request_time);
    let r = tick_timers(t, TickQueues::new(), 1000, false, false);
    assert!(r.work.audio_levels);
    assert_eq!(Some(1200), r.timers.next_audio_levels_time);
    let mut unscheduled = t;
    unscheduled.next_heartbeat_time = None;
    let r = tick_timers(unscheduled, TickQueues::new(), 50_000, false, false);
    assert!(!r.work.heartbeat && r.work.stats);
    assert_eq!(None, r.timers.next_heartbeat_time);
    assert_eq!(Some(60_000), r.timers.next_stats_time);
    assert_eq!(50_200, r.next_tick_time);
}

#[test]
fn queued_reactions_and_mute_requests_are_delivered_once() {
    let mut queues = TickQueues::new();
    queues.queue_reaction(4, "👍".to_string());
    queues.queue_reaction(5, String::new());
    queues.queue_reaction(6, "x".repeat(257));
    queues.queue_reaction(7, "x".repeat(256));
    let joined = JoinState::Joined(9);
    queues.queue_mute_request(joined, 3, 9);
    queues.queue_mute_request(joined, 8, 9);
    queues.queue_mute_request(joined, 2, 10);
    assert_eq!(Some(3), queues.mute_request);

    let r = tick_timers(timers(), queues, 100, false, false);
    let delivered = r.deliveries.reactions.unwrap();
    assert_eq!(vec![4, 7], delivered.iter().map(|r| r.demux_id).collect::<Vec<_>>());
    assert_eq!("👍", delivered[0].value);
    assert_eq!(Some(3), r.deliveries.mute_request);
    assert!(r.queues.reactions.is_empty());
    assert_eq!(None, r.queues.mute_request);

    let again = tick_timers(r.timers, r.queues, r.next_tick_time, false, false);
    assert!(again.deliveries.reactions.is_none());
    assert_eq!(None, again.deliveries.mute_request);
    assert_eq!(500, again.next_tick_time);
}

#[test]
fn mute_requests_need_a_local_demux_id_and_another_source() {
    let mut queues = TickQueues::new();
    queues.queue_mute_request(JoinState::Joining, 3, 9);
    assert_eq!(None, queues.mute_request);
    queues.queue_mute_request(JoinState::Pending(9), 9, 9);
    assert_eq!(None, queues.mute_request);
    queues.queue_mute_request(JoinState::Pending(9), 1, 9);
    assert_eq!(Some(1), queues.mute_request);
}

#[test]
fn joining_schedules_reports() {
    let t = timers_on_join(timers(), 100);
    assert_eq!(Some(2100), t.next_stats_time);
    assert_eq!(Some(600), t.next_decryption_error_time);
    assert_eq!(Some(1000), t.next_heartbeat_time);
}

#[test]
fn speech_polls_follow_their_interval() {
    let mut t = timers();
    t.next_speaking_audio_levels_time = Some(100);
    let r = tick_timers(t, TickQueues::new(), 100, false, false);
    assert!(r.work.speaking);
    assert_eq!(Some(250), r.timers.next_speaking_audio_levels_time);
    let r = tick_timers(r.timers, TickQueues::new(), 200, false, false);
    assert!(!r.work.speaking);
}
