//! The periodic work of a group call client's tick, and what it hands on.
//! Times are milliseconds on the client's monotonic clock.

use vstd::prelude::*;
use super::{DemuxId, JoinState, Reaction};
use super::raise_hand::{accept_remote_mute_request, reaction_value_is_valid, REACTION_STRING_MAX_SIZE};

verus! {

/// Time between ticks.
pub const TICK_INTERVAL_MS: u64 = 200;

/// Time between heartbeats (and video requests) to the SFU.
pub const HEARTBEAT_INTERVAL_MS: u64 = 1000;

/// Delay of the first stats report after joining.
pub const STATS_INITIAL_OFFSET_MS: u64 = 2000;

/// Time between decryption error reports.
pub const DECRYPTION_ERROR_INTERVAL_MS: u64 = 500;

/// Time between requests for a fresh membership proof.
pub const MEMBERSHIP_PROOF_REQUEST_INTERVAL_MS: u64 = 86_400_000;

/// Time between resends of an outstanding raised hand.
pub const RAISE_HAND_INTERVAL_MS: u64 = 500;

/// When the periodic work of a tick is next due.  `None` means not
/// scheduled.
#[derive(Clone, Copy, Debug, PartialEq, Eq, Structural)]
pub struct TickTimers {
    pub next_heartbeat_time: Option<u64>,
    pub next_stats_time: Option<u64>,
    pub stats_interval: u64,
    pub next_decryption_error_time: Option<u64>,
    pub next_audio_levels_time: Option<u64>,
    pub audio_levels_interval: Option<u64>,
    pub next_membership_proof_request_time: Option<u64>,
    pub next_raise_hand_time: Option<u64>,
    pub next_speaking_audio_levels_time: Option<u64>,
    pub speaking_interval: u64,
}

/// The work a tick does besides the state machines it polls.
#[derive(Clone, Copy, Debug, PartialEq, Eq, Structural)]
pub struct TickWork {
    /// Send a heartbeat and the video requests to the SFU.
    pub heartbeat: bool,
    /// Ask the peer connection for stats.
    pub stats: bool,
    /// Report the decryption errors.
    pub decryption_errors: bool,
    /// Report the audio levels to the observer.
    pub audio_levels: bool,
    /// Ask the observer for a membership proof.
    pub membership_proof: bool,
    /// Send the raised hand again.
    pub raise_hand: bool,
    /// Poll the captured audio level for speech detection.
    pub speaking: bool,
}

/// Whether a timer is due.
pub open spec fn due(next: Option<u64>, now: u64) -> bool {
    next matches Some(t) && now >= t
}

/// A due timer is set again an interval from now; others stay.
pub open spec fn rearmed(next: Option<u64>, now: u64, interval: u64, fire: bool) -> Option<u64> {
    if fire {
        Some((now + interval) as u64)
    } else {
        next
    }
}

pub open spec fn tick_work(t: TickTimers, now: u64, signal_group: bool, raise_hand_outstanding: bool) -> TickWork {
    TickWork {
        heartbeat: due(t.next_heartbeat_time, now),
        stats: due(t.next_stats_time, now),
        decryption_errors: due(t.next_decryption_error_time, now),
        audio_levels: t.audio_levels_interval is Some && due(t.next_audio_levels_time, now),
        membership_proof: signal_group && due(t.next_membership_proof_request_time, now),
        raise_hand: due(t.next_raise_hand_time, now) && raise_hand_outstanding,
        speaking: due(t.next_speaking_audio_levels_time, now),
    }
}

/// No rearmed timer passes the end of the clock.
pub open spec fn timers_fit(t: TickTimers, now: u64) -> bool {
    &&& now + HEARTBEAT_INTERVAL_MS <= u64::MAX
    &&& now + t.stats_interval <= u64::MAX
    &&& now + DECRYPTION_ERROR_INTERVAL_MS <= u64::MAX
    &&& (t.audio_levels_interval matches Some(i) ==> now + i <= u64::MAX)
    &&& now + MEMBERSHIP_PROOF_REQUEST_INTERVAL_MS <= u64::MAX
    &&& now + RAISE_HAND_INTERVAL_MS <= u64::MAX
    &&& now + TICK_INTERVAL_MS <= u64::MAX
    &&& now + t.speaking_interval <= u64::MAX
}

/// Reactions and a remote mute request received since the last tick, to be
/// handed to the observer at the next one.
#[derive(Clone, Debug)]
pub struct TickQueues {
    pub reactions: Vec<Reaction>,
    pub mute_request: Option<DemuxId>,
}

impl TickQueues {
    /// Nothing queued.
    pub fn new() -> (r: TickQueues)
        ensures
            r.reactions@.len() == 0,
            r.mute_request is None,
    {
        TickQueues { reactions: Vec::new(), mute_request: None }
    }

    /// Queues a reaction from a remote device, unless its value is empty or
    /// longer than `REACTION_STRING_MAX_SIZE` bytes.
    pub fn queue_reaction(&mut self, demux_id: DemuxId, value: String)
        ensures
            final(self).mute_request == old(self).mute_request,
            final(self).reactions@ == if 0 < vstd::utf8::encode_utf8(value@).len() <= REACTION_STRING_MAX_SIZE {
                old(self).reactions@.push(Reaction { demux_id, value })
            } else {
                old(self).reactions@
            },
    {
        if reaction_value_is_valid(value.as_str()) {
            self.reactions.push(Reaction { demux_id, value });
        }
    }

    /// Queues a remote mute request aimed at the local device, if none is
    /// queued yet (see `accept_remote_mute_request`).
    pub fn queue_mute_request(&mut self, join_state: JoinState, source: DemuxId, target: DemuxId)
        ensures
            final(self).reactions@ == old(self).reactions@,
            final(self).mute_request == (match join_state.local_demux_id_spec() {
                Some(local) => if local == target && old(self).mute_request is None && source != local {
                    Some(source)
                } else {
                    old(self).mute_request
                },
                None => old(self).mute_request,
            }),
    {
        self.mute_request = accept_remote_mute_request(join_state, self.mute_request, source, target);
    }
}

/// What a tick hands to the observer from the queues.
#[derive(Clone, Debug)]
pub struct TickDeliveries {
    /// The reactions, if any were queued.
    pub reactions: Option<Vec<Reaction>>,
    /// The source of the remote mute request, if one was queued.
    pub mute_request: Option<DemuxId>,
}

/// The outcome of a tick.
#[derive(Clone, Debug)]
pub struct TickOutcome {
    pub timers: TickTimers,
    pub queues: TickQueues,
    pub work: TickWork,
    pub deliveries: TickDeliveries,
    /// When the next tick runs.
    pub next_tick_time: u64,
}

/// A tick at `now`: each due timer's work is done and the timer is set again
/// an interval from now.  Audio levels are reported only while an interval
/// is set, membership proofs are requested only for Signal group calls, and
/// a raised hand is resent only while the SFU has not confirmed it.  The
/// queued reactions and remote mute request are handed on and the queues
/// emptied, so each is delivered once.  The next tick runs
/// `TICK_INTERVAL_MS` later.
pub fn tick_timers(
    t: TickTimers,
    queues: TickQueues,
    now: u64,
    signal_group: bool,
    raise_hand_outstanding: bool,
) -> (r: TickOutcome)
    requires
        timers_fit(t, now),
    ensures
        r.work == tick_work(t, now, signal_group, raise_hand_outstanding),
        r.timers == (TickTimers {
            next_heartbeat_time: rearmed(t.next_heartbeat_time, now, HEARTBEAT_INTERVAL_MS, r.work.heartbeat),
            next_stats_time: rearmed(t.next_stats_time, now, t.stats_interval, r.work.stats),
            stats_interval: t.stats_interval,
            next_decryption_error_time: rearmed(
                t.next_decryption_error_time,
                now,
                DECRYPTION_ERROR_INTERVAL_MS,
                r.work.decryption_errors,
            ),
            next_audio_levels_time: if r.work.audio_levels {
                Some((now + t.audio_levels_interval.unwrap()) as u64)
            } else {
                t.next_audio_levels_time
            },
            audio_levels_interval: t.audio_levels_interval,
            next_membership_proof_request_time: rearmed(
                t.next_membership_proof_request_time,
                now,
                MEMBERSHIP_PROOF_REQUEST_INTERVAL_MS,
                r.work.membership_proof,
            ),
            next_raise_hand_time: rearmed(t.next_raise_hand_time, now, RAISE_HAND_INTERVAL_MS, r.work.raise_hand),
            next_speaking_audio_levels_time: rearmed(
                t.next_speaking_audio_levels_time,
                now,
                t.speaking_interval,
                r.work.speaking,
            ),
            speaking_interval: t.speaking_interval,
        }),
        r.deliveries.reactions == (if queues.reactions@.len() > 0 { Some(queues.reactions) } else { None::<Vec<Reaction>> }),
        r.deliveries.mute_request == queues.mute_request,
        r.queues.reactions@.len() == 0,
        r.queues.mute_request is None,
        r.next_tick_time == now + TICK_INTERVAL_MS,
{
    let mut next = t;
    let heartbeat = match t.next_heartbeat_time {
        Some(at) => now >= at,
        None => false,
    };
    if heartbeat {
        next.next_heartbeat_time = Some(now + HEARTBEAT_INTERVAL_MS);
    }
    let stats = match t.next_stats_time {
        Some(at) => now >= at,
        None => false,
    };
    if stats {
        next.next_stats_time = Some(now + t.stats_interval);
    }
    let decryption_errors = match t.next_decryption_error_time {
        Some(at) => now >= at,
        None => false,
    };
    if decryption_errors {
        next.next_decryption_error_time = Some(now + DECRYPTION_ERROR_INTERVAL_MS);
    }
    let mut audio_levels = false;
    if let Some(interval) = t.audio_levels_interval {
        if let Some(at) = t.next_audio_levels_time {
            if now >= at {
                audio_levels = true;
                next.next_audio_levels_time = Some(now + interval);
            }
        }
    }
    let membership_proof = signal_group && match t.next_membership_proof_request_time {
        Some(at) => now >= at,
        None => false,
    };
    if membership_proof {
        next.next_membership_proof_request_time = Some(now + MEMBERSHIP_PROOF_REQUEST_INTERVAL_MS);
    }
    let raise_hand = raise_hand_outstanding && match t.next_raise_hand_time {
        Some(at) => now >= at,
        None => false,
    };
    if raise_hand {
        next.next_raise_hand_time = Some(now + RAISE_HAND_INTERVAL_MS);
    }
    let speaking = match t.next_speaking_audio_levels_time {
        Some(at) => now >= at,
        None => false,
    };
    if speaking {
        next.next_speaking_audio_levels_time = Some(now + t.speaking_interval);
    }
    let work = TickWork { heartbeat, stats, decryption_errors, audio_levels, membership_proof, raise_hand, speaking };
    let reactions = if queues.reactions.len() > 0 {
        Some(queues.reactions)
    } else {
        None
    };
    TickOutcome {
        timers: next,
        queues: TickQueues::new(),
        work,
        deliveries: TickDeliveries { reactions, mute_request: queues.mute_request },
        next_tick_time: now + TICK_INTERVAL_MS,
    }
}

/// The timers once the SFU accepted the join: stats are first reported after
/// the initial offset and decryption errors after their interval.
pub fn timers_on_join(t: TickTimers, now: u64) -> (r: TickTimers)
    requires
        now + STATS_INITIAL_OFFSET_MS <= u64::MAX,
    ensures
        r == (TickTimers {
            next_stats_time: Some((now + STATS_INITIAL_OFFSET_MS) as u64),
            next_decryption_error_time: Some((now + DECRYPTION_ERROR_INTERVAL_MS) as u64),
            ..t
        }),
{
    TickTimers {
        next_stats_time: Some(now + STATS_INITIAL_OFFSET_MS),
        next_decryption_error_time: Some(now + DECRYPTION_ERROR_INTERVAL_MS),
        ..t
    }
}

} // verus!
