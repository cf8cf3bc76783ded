//! Detecting when the local user starts and stops speaking.

use vstd::prelude::*;
use super::SpeechEvent;

verus! {

/// The level above which captured audio likely is speech.
pub const MIN_NON_SILENT_LEVEL: u16 = 1000;

/// Milliseconds of silence after which the user stopped speaking.
pub const STOPPED_SPEAKING_DURATION_MS: u64 = 3000;

/// Milliseconds of continuous speech after which lowering a raised hand is
/// suggested.
pub const MIN_SPEAKING_HAND_LOWER_MS: u64 = 5000;

/// The speech tracking state.  Times are milliseconds on a monotonic clock.
#[derive(Clone, Copy, Debug, PartialEq, Eq, Structural)]
pub struct SpeakingState {
    /// When the current speech began, if the user is not silent.
    pub started_speaking: Option<u64>,
    /// When the current silence began, if the user is not speaking.
    pub silence_started: Option<u64>,
    /// The last notification sent.
    pub last_notification: Option<SpeechEvent>,
}

pub open spec fn sat_sub(a: u64, b: u64) -> u64 {
    if a >= b { (a - b) as u64 } else { 0 }
}

/// The state after polling the captured audio level, and the notification
/// to send, if any.
pub open spec fn speaking_poll(
    s: SpeakingState,
    now: u64,
    captured_level: u16,
    audio_muted: Option<bool>,
) -> (SpeakingState, Option<SpeechEvent>) {
    let speaking = captured_level > MIN_NON_SILENT_LEVEL && !(match audio_muted { Some(m) => m, None => true });
    let silence_started = if speaking {
        None
    } else {
        match s.silence_started { Some(t) => Some(t), None => Some(now) }
    };
    let time_silent: u64 = if speaking { 0 } else { sat_sub(now, silence_started.unwrap()) };
    let started_speaking = if speaking {
        match s.started_speaking { Some(t) => Some(t), None => Some(now) }
    } else if time_silent >= STOPPED_SPEAKING_DURATION_MS {
        None
    } else {
        s.started_speaking
    };
    let time_speaking = sat_sub(sat_sub(now, match started_speaking { Some(t) => t, None => now }), time_silent);
    let event = if time_speaking >= MIN_SPEAKING_HAND_LOWER_MS {
        Some(SpeechEvent::LowerHandSuggestion)
    } else if time_speaking == 0 && s.last_notification is Some {
        Some(SpeechEvent::StoppedSpeaking)
    } else {
        None
    };
    let notify = if event is Some && s.last_notification != event { event } else { None };
    (
        SpeakingState {
            started_speaking,
            silence_started,
            last_notification: if notify is Some { notify } else { s.last_notification },
        },
        notify,
    )
}

impl SpeakingState {
    pub fn new() -> (r: SpeakingState)
        ensures
            r.started_speaking is None && r.silence_started is None && r.last_notification is None,
    {
        SpeakingState { started_speaking: None, silence_started: None, last_notification: None }
    }

    /// Polls the captured audio level (see `speaking_poll`): speech that
    /// continues, with pauses shorter than the stop duration, long enough
    /// suggests lowering a raised hand; when speech stops after a
    /// notification, "stopped speaking" is reported.  A notification is not
    /// repeated.
    pub fn poll(self, now: u64, captured_level: u16, audio_muted: Option<bool>) -> (r: (SpeakingState, Option<SpeechEvent>))
        ensures
            r == speaking_poll(self, now, captured_level, audio_muted),
    {
        let muted = match audio_muted {
            Some(m) => m,
            None => true,
        };
        let speaking = captured_level > MIN_NON_SILENT_LEVEL && !muted;
        let mut time_silent: u64 = 0;
        let silence_started;
        let started_speaking;
        if speaking {
            silence_started = None;
            started_speaking = match self.started_speaking {
                Some(t) => Some(t),
                None => Some(now),
            };
        } else {
            let since = match self.silence_started {
                Some(t) => t,
                None => now,
            };
            silence_started = Some(since);
            time_silent = now.saturating_sub(since);
            started_speaking = if time_silent >= STOPPED_SPEAKING_DURATION_MS {
                None
            } else {
                self.started_speaking
            };
        }
        let began = match started_speaking {
            Some(t) => t,
            None => now,
        };
        let time_speaking = now.saturating_sub(began).saturating_sub(time_silent);
        let event = if time_speaking >= MIN_SPEAKING_HAND_LOWER_MS {
            Some(SpeechEvent::LowerHandSuggestion)
        } else if time_speaking == 0 && self.last_notification.is_some() {
            Some(SpeechEvent::StoppedSpeaking)
        } else {
            None
        };
        let notify = match event {
            Some(e) => if self.last_notification != Some(e) {
                Some(e)
            } else {
                None
            },
            None => None,
        };
        let last_notification = match notify {
            Some(e) => Some(e),
            None => self.last_notification,
        };
        (SpeakingState { started_speaking, silence_started, last_notification }, notify)
    }
}

/// A notification is never the one sent last: each poll that notifies
/// records what it sent, and the next notification must differ from it.
pub proof fn law_speech_notification_not_repeated(s: SpeakingState, now: u64, captured_level: u16, audio_muted: Option<bool>)
    ensures
        ({
            let (next, event) = speaking_poll(s, now, captured_level, audio_muted);
            &&& event is Some ==> event != s.last_notification && next.last_notification == event
            &&& event is None ==> next.last_notification == s.last_notification
        }),
{
}
} // verus!
