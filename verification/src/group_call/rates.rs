//! Send rate limits and the bandwidth estimate checks.

use vstd::prelude::*;

verus! {

/// A data rate in bits per second.
#[derive(Clone, Copy, Debug, PartialEq, Eq, Structural)]
pub struct DataRate {
    pub bps: u64,
}

impl DataRate {
    pub fn from_kbps(kbps: u64) -> (r: DataRate)
        requires
            kbps * 1000 <= u64::MAX,
        ensures
            r.bps == kbps * 1000,
    {
        DataRate { bps: kbps * 1000 }
    }

    pub fn from_mbps(mbps: u64) -> (r: DataRate)
        requires
            mbps * 1_000_000 <= u64::MAX,
        ensures
            r.bps == mbps * 1_000_000,
    {
        DataRate { bps: mbps * 1_000_000 }
    }

    pub fn as_kbps(&self) -> (r: u64)
        ensures
            r == self.bps / 1000,
    {
        self.bps / 1000
    }
}

/// Limits on the rate at which media is sent.
#[derive(Clone, Copy, Debug, PartialEq, Eq, Structural)]
pub struct SendRates {
    pub min: Option<DataRate>,
    pub start: Option<DataRate>,
    pub max: Option<DataRate>,
}

/// When alone, send as little as possible while keeping the bandwidth
/// estimator going.
pub const ALL_ALONE_MAX_SEND_RATE_KBPS: u64 = 1;

pub const SMALL_CALL_MAX_SEND_RATE_KBPS: u64 = 1000;

/// The smallest rate at which WebRTC seems to still send VGA.
pub const LARGE_CALL_MAX_SEND_RATE_KBPS: u64 = 671;

pub const SCREENSHARE_MIN_SEND_RATE_KBPS: u64 = 500;

pub const SCREENSHARE_START_SEND_RATE_KBPS: u64 = 1000;

pub const SCREENSHARE_MAX_SEND_RATE_KBPS: u64 = 2000;

pub const BWE_THRESHOLD_FOR_LOW_NOTIFICATION_KBPS: u64 = 70;

pub const BWE_THRESHOLD_FOR_RECOVERED_NOTIFICATION_KBPS: u64 = 80;

/// Milliseconds between bandwidth estimate checks.
pub const BWE_INTERVAL_MS: u64 = 1000;

/// Milliseconds to let the estimator settle when not yet connected.
pub const DELAYED_BWE_CHECK_MS: u64 = 10_000;

/// Milliseconds after a low bandwidth callback before a recovery callback.
pub const DELAY_FOR_RECOVERED_BWE_CALLBACK_MS: u64 = 6000;

pub open spec fn kbps(k: u64) -> DataRate {
    DataRate { bps: (k * 1000) as u64 }
}

pub open spec fn max_only(k: u64) -> SendRates {
    SendRates { min: None, start: None, max: Some(kbps(k)) }
}

/// The send rates for a call with the given number of other devices.
pub open spec fn send_rates_for(joined_member_count: usize, sharing_screen: bool) -> SendRates {
    if joined_member_count == 0 {
        max_only(ALL_ALONE_MAX_SEND_RATE_KBPS)
    } else if sharing_screen {
        SendRates {
            min: Some(kbps(SCREENSHARE_MIN_SEND_RATE_KBPS)),
            start: Some(kbps(SCREENSHARE_START_SEND_RATE_KBPS)),
            max: Some(kbps(SCREENSHARE_MAX_SEND_RATE_KBPS)),
        }
    } else if joined_member_count <= 7 {
        max_only(SMALL_CALL_MAX_SEND_RATE_KBPS)
    } else {
        max_only(LARGE_CALL_MAX_SEND_RATE_KBPS)
    }
}

fn max_only_exec(k: u64) -> (r: SendRates)
    requires
        k <= 2000,
    ensures
        r == max_only(k),
{
    SendRates { min: None, start: None, max: Some(DataRate::from_kbps(k)) }
}

/// Send rates by the number of other devices in the call (`send_rates_for`):
/// almost nothing when alone, screen sharing rates when sharing, otherwise a
/// cap that is lower for calls of more than seven other devices.
pub fn compute_send_rates(joined_member_count: usize, sharing_screen: bool) -> (r: SendRates)
    ensures
        r == send_rates_for(joined_member_count, sharing_screen),
{
    if joined_member_count == 0 {
        max_only_exec(ALL_ALONE_MAX_SEND_RATE_KBPS)
    } else if sharing_screen {
        SendRates {
            min: Some(DataRate::from_kbps(SCREENSHARE_MIN_SEND_RATE_KBPS)),
            start: Some(DataRate::from_kbps(SCREENSHARE_START_SEND_RATE_KBPS)),
            max: Some(DataRate::from_kbps(SCREENSHARE_MAX_SEND_RATE_KBPS)),
        }
    } else if joined_member_count <= 7 {
        max_only_exec(SMALL_CALL_MAX_SEND_RATE_KBPS)
    } else {
        max_only_exec(LARGE_CALL_MAX_SEND_RATE_KBPS)
    }
}

/// The next time to check WebRTC's bandwidth estimate.  Times are
/// milliseconds on a monotonic clock.
#[derive(Debug, Clone, Copy, PartialEq, Eq, Structural)]
pub enum BweCheckState {
    /// Check again after the time has passed.
    At(u64),
    /// Check whether the estimate has recovered after `next_bwe_time`.
    RecoveredAt { next_bwe_time: u64, last_callback: u64 },
    /// Don't check now, but there might be another check later in the call.
    Disabled,
    /// Don't check again for the remainder of the call.
    Stopped,
}

/// What applying requested send rates amounts to.
#[derive(Debug, Clone, Copy, PartialEq, Eq, Structural)]
pub struct SendRatesDecision {
    /// The rates to give to the peer connection, if they change.
    pub rates: Option<SendRates>,
    /// Whether outgoing media and audio are to be enabled (when the rates
    /// change).
    pub media_enabled: bool,
    /// The bandwidth check state afterwards.
    pub bwe_check_state: BweCheckState,
}

pub open spec fn decide_send_rates(
    current: SendRates,
    override_rates: Option<SendRates>,
    requested: SendRates,
    bwe: BweCheckState,
    now: u64,
) -> SendRatesDecision {
    let rates = match override_rates {
        Some(o) => o,
        None => requested,
    };
    if rates == current {
        SendRatesDecision { rates: None, media_enabled: true, bwe_check_state: bwe }
    } else if rates.max == Some(kbps(ALL_ALONE_MAX_SEND_RATE_KBPS)) {
        SendRatesDecision {
            rates: Some(rates),
            media_enabled: false,
            bwe_check_state: if bwe is At { BweCheckState::Disabled } else { bwe },
        }
    } else {
        SendRatesDecision {
            rates: Some(rates),
            media_enabled: true,
            bwe_check_state: if bwe == BweCheckState::Disabled {
                BweCheckState::At((now + BWE_INTERVAL_MS) as u64)
            } else {
                bwe
            },
        }
    }
}

/// Decides what setting send rates does: an override, if set, wins; nothing
/// changes when the rates are the current ones; the "all alone" rate
/// disables outgoing media and pauses the bandwidth checks, other rates
/// enable media and resume paused checks.
pub fn set_send_rates(
    current: SendRates,
    override_rates: Option<SendRates>,
    requested: SendRates,
    bwe: BweCheckState,
    now: u64,
) -> (r: SendRatesDecision)
    requires
        now <= u64::MAX - BWE_INTERVAL_MS,
    ensures
        r == decide_send_rates(current, override_rates, requested, bwe, now),
{
    let rates = match override_rates {
        Some(o) => o,
        None => requested,
    };
    if rates == current {
        return SendRatesDecision { rates: None, media_enabled: true, bwe_check_state: bwe };
    }
    let all_alone = DataRate::from_kbps(ALL_ALONE_MAX_SEND_RATE_KBPS);
    if rates.max == Some(all_alone) {
        let next = match bwe {
            BweCheckState::At(_) => BweCheckState::Disabled,
            other => other,
        };
        SendRatesDecision { rates: Some(rates), media_enabled: false, bwe_check_state: next }
    } else {
        let next = if bwe == BweCheckState::Disabled {
            BweCheckState::At(now + BWE_INTERVAL_MS)
        } else {
            bwe
        };
        SendRatesDecision { rates: Some(rates), media_enabled: true, bwe_check_state: next }
    }
}

/// The bandwidth check state after a tick, and the low bandwidth callback to
/// make (`Some(false)` for low, `Some(true)` for recovered).
pub open spec fn bwe_tick(state: BweCheckState, now: u64, connected: bool, bwe: DataRate) -> (BweCheckState, Option<bool>) {
    match state {
        BweCheckState::At(next) => if connected {
            if now >= next {
                if bwe.bps < kbps(BWE_THRESHOLD_FOR_LOW_NOTIFICATION_KBPS).bps {
                    (
                        BweCheckState::RecoveredAt { next_bwe_time: (now + BWE_INTERVAL_MS) as u64, last_callback: now },
                        Some(false),
                    )
                } else {
                    (BweCheckState::At((now + BWE_INTERVAL_MS) as u64), None)
                }
            } else {
                (state, None)
            }
        } else {
            (BweCheckState::At((now + DELAYED_BWE_CHECK_MS) as u64), None)
        },
        BweCheckState::RecoveredAt { next_bwe_time, last_callback } => {
            if now >= next_bwe_time && now >= last_callback + DELAY_FOR_RECOVERED_BWE_CALLBACK_MS {
                if bwe.bps > kbps(BWE_THRESHOLD_FOR_RECOVERED_NOTIFICATION_KBPS).bps {
                    (BweCheckState::Stopped, Some(true))
                } else {
                    (
                        BweCheckState::RecoveredAt { next_bwe_time: (now + BWE_INTERVAL_MS) as u64, last_callback },
                        None,
                    )
                }
            } else {
                (state, None)
            }
        },
        _ => (state, None),
    }
}

impl BweCheckState {
    /// One periodic check of the bandwidth estimate `bwe` (see `bwe_tick`):
    /// while connected, a low estimate triggers a "low" callback and then
    /// checks for recovery, which is reported at most once.
    pub fn tick(self, now: u64, connected: bool, bwe: DataRate) -> (r: (BweCheckState, Option<bool>))
        requires
            now <= u64::MAX - DELAYED_BWE_CHECK_MS,
        ensures
            r == bwe_tick(self, now, connected, bwe),
    {
        match self {
            BweCheckState::At(next) => {
                if connected {
                    if now >= next {
                        if bwe.bps < BWE_THRESHOLD_FOR_LOW_NOTIFICATION_KBPS * 1000 {
                            (
                                BweCheckState::RecoveredAt { next_bwe_time: now + BWE_INTERVAL_MS, last_callback: now },
                                Some(false),
                            )
                        } else {
                            (BweCheckState::At(now + BWE_INTERVAL_MS), None)
                        }
                    } else {
                        (self, None)
                    }
                } else {
                    (BweCheckState::At(now + DELAYED_BWE_CHECK_MS), None)
                }
            },
            BweCheckState::RecoveredAt { next_bwe_time, last_callback } => {
                let waited = now >= last_callback && now - last_callback >= DELAY_FOR_RECOVERED_BWE_CALLBACK_MS;
                if now >= next_bwe_time && waited {
                    if bwe.bps > BWE_THRESHOLD_FOR_RECOVERED_NOTIFICATION_KBPS * 1000 {
                        (BweCheckState::Stopped, Some(true))
                    } else {
                        (BweCheckState::RecoveredAt { next_bwe_time: now + BWE_INTERVAL_MS, last_callback }, None)
                    }
                } else {
                    (self, None)
                }
            },
            _ => (self, None),
        }
    }
}

/// How far the bandwidth checks have come: 0 before a low estimate was
/// reported (checking or paused), 1 while waiting for recovery, 2 once
/// recovery was reported.
pub open spec fn bwe_phase(s: BweCheckState) -> int {
    match s {
        BweCheckState::At(_) | BweCheckState::Disabled => 0,
        BweCheckState::RecoveredAt { .. } => 1,
        BweCheckState::Stopped => 2,
    }
}

/// Neither ticks nor send rate changes ever go back a phase; a tick reports a
/// low estimate exactly when it moves from the first phase to the second, and
/// recovery exactly when it moves from the second to the third.  So each
/// callback is made at most once.
pub proof fn law_bwe_callbacks_at_most_once(
    s: BweCheckState,
    now: u64,
    connected: bool,
    bwe: DataRate,
    current: SendRates,
    override_rates: Option<SendRates>,
    requested: SendRates,
)
    ensures
        ({
            let (next, callback) = bwe_tick(s, now, connected, bwe);
            &&& bwe_phase(s) <= bwe_phase(next)
            &&& (callback == Some(false)) == (bwe_phase(s) == 0 && bwe_phase(next) == 1)
            &&& (callback == Some(true)) == (bwe_phase(s) == 1 && bwe_phase(next) == 2)
            &&& bwe_phase(s) == bwe_phase(next) ==> callback is None
        }),
        bwe_phase(decide_send_rates(current, override_rates, requested, s, now).bwe_check_state) == bwe_phase(s),
{
}
/// A due check while connected reports low bandwidth for video exactly when
/// the estimate is below 70 kbps, and then waits for recovery; at or above
/// it the next check is a second later, with no callback.  Recovery, once
/// its check is due, is reported exactly when the estimate is above
/// 80 kbps, and ends the checks.  A check that is not due, or a state that
/// isn't checking, changes nothing.
pub proof fn law_bwe_thresholds(state: BweCheckState, now: u64, connected: bool, bwe: DataRate)
    requires
        now <= u64::MAX - DELAYED_BWE_CHECK_MS,
    ensures
        ({
            let (next, callback) = bwe_tick(state, now, connected, bwe);
            &&& (state matches BweCheckState::At(at) && connected && now >= at) ==> {
                &&& bwe.bps < 70_000 ==> callback == Some(false)
                    && next == (BweCheckState::RecoveredAt { next_bwe_time: (now + 1000) as u64, last_callback: now })
                &&& bwe.bps >= 70_000 ==> callback is None && next == BweCheckState::At((now + 1000) as u64)
            }
            &&& (state matches BweCheckState::At(at) && connected && now < at) ==> callback is None && next == state
            &&& (state is At && !connected) ==> callback is None && next == BweCheckState::At((now + 10_000) as u64)
            &&& (state matches BweCheckState::RecoveredAt { next_bwe_time, last_callback }
                && now >= next_bwe_time && now >= last_callback + 6000) ==> {
                &&& bwe.bps > 80_000 ==> callback == Some(true) && next is Stopped
                &&& bwe.bps <= 80_000 ==> callback is None
            }
            &&& callback == Some(false) ==> bwe.bps < 70_000
            &&& callback == Some(true) ==> bwe.bps > 80_000
            &&& (state is Disabled || state is Stopped) ==> next == state && callback is None
        }),
{
}

} // verus!
