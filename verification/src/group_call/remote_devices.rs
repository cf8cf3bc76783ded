//! What the local device knows of the other devices in a group call.

use vstd::prelude::*;
use super::{DemuxId, UserId, RtpTimestamp};
use crate::util::bytes::{bytes_eq, copy_bytes};

verus! {

broadcast use {
    vstd::std_specs::hash::axiom_u32_obeys_hash_table_key_model,
    vstd::std_specs::hash::axiom_random_state_builds_valid_hashers,
};

/// The media state a device reports in its heartbeats.
#[derive(Clone, Copy, Debug, PartialEq, Eq, Structural)]
pub struct HeartbeatState {
    pub audio_muted: Option<bool>,
    pub video_muted: Option<bool>,
    pub presenting: Option<bool>,
    pub sharing_screen: Option<bool>,
    pub muted_by_demux_id: Option<u32>,
}

/// A heartbeat state with nothing known.
pub open spec fn unknown_heartbeat() -> HeartbeatState {
    HeartbeatState {
        audio_muted: None,
        video_muted: None,
        presenting: None,
        sharing_screen: None,
        muted_by_demux_id: None,
    }
}

impl Default for HeartbeatState {
    fn default() -> (r: HeartbeatState)
        ensures
            r == unknown_heartbeat(),
    {
        HeartbeatState {
            audio_muted: None,
            video_muted: None,
            presenting: None,
            sharing_screen: None,
            muted_by_demux_id: None,
        }
    }
}

/// The info about a remote device received from the SFU.  Times are
/// nanoseconds since the UNIX epoch.
#[derive(Clone, Debug, PartialEq, Eq)]
pub struct RemoteDeviceState {
    pub demux_id: DemuxId,
    pub user_id: UserId,
    pub media_keys_received: bool,
    pub heartbeat_state: HeartbeatState,
    /// The latest RTP timestamp of a heartbeat from the device.
    pub heartbeat_rtp_timestamp: Option<RtpTimestamp>,
    /// When the device was added to the list of devices.
    pub added_time: u64,
    /// When the device most recently became the primary speaker.
    pub speaker_time: Option<u64>,
    pub leaving_received: bool,
    pub forwarding_video: Option<bool>,
    pub server_allocated_height: u16,
    pub client_decoded_height: Option<u32>,
    pub is_higher_resolution_pending: bool,
}

/// Milliseconds since the UNIX epoch of a time in nanoseconds since the
/// epoch, or 0 for no time.
pub open spec fn unix_millis(t: Option<u64>) -> u64 {
    match t {
        Some(t) => (t / 1_000_000) as u64,
        None => 0,
    }
}

fn as_unix_millis(t: Option<u64>) -> (r: u64)
    ensures
        r == unix_millis(t),
{
    match t {
        Some(t) => t / 1_000_000,
        None => 0,
    }
}

/// Whether the SFU allocates a taller video than the device has decoded.
pub open spec fn higher_resolution_pending(server_allocated_height: u16, client_decoded_height: Option<u32>) -> bool {
    server_allocated_height as u32 > match client_decoded_height {
        Some(h) => h,
        None => 0u32,
    }
}

impl RemoteDeviceState {
    /// A device just learned of: no keys, heartbeat, speech or video yet.
    pub fn new(demux_id: DemuxId, user_id: UserId, added_time: u64) -> (r: RemoteDeviceState)
        ensures
            r.demux_id == demux_id,
            r.user_id == user_id,
            r.added_time == added_time,
            !r.media_keys_received,
            r.heartbeat_state == unknown_heartbeat(),
            r.heartbeat_rtp_timestamp is None,
            r.speaker_time is None,
            !r.leaving_received,
            r.forwarding_video is None,
            r.server_allocated_height == 0,
            r.client_decoded_height is None,
            !r.is_higher_resolution_pending,
    {
        RemoteDeviceState {
            demux_id,
            user_id,
            media_keys_received: false,
            heartbeat_state: HeartbeatState::default(),
            heartbeat_rtp_timestamp: None,
            added_time,
            speaker_time: None,
            leaving_received: false,
            forwarding_video: None,
            server_allocated_height: 0,
            client_decoded_height: None,
            is_higher_resolution_pending: false,
        }
    }

    pub fn speaker_time_as_unix_millis(&self) -> (r: u64)
        ensures
            r == unix_millis(self.speaker_time),
    {
        as_unix_millis(self.speaker_time)
    }

    pub fn added_time_as_unix_millis(&self) -> (r: u64)
        ensures
            r == unix_millis(Some(self.added_time)),
    {
        as_unix_millis(Some(self.added_time))
    }

    /// Recomputes whether a higher resolution is pending; nothing else
    /// changes.
    pub fn recalculate_higher_resolution_pending(&mut self)
        ensures
            *final(self) == (RemoteDeviceState {
                is_higher_resolution_pending: higher_resolution_pending(
                    old(self).server_allocated_height,
                    old(self).client_decoded_height,
                ),
                ..*old(self)
            }),
    {
        let decoded: u32 = match self.client_decoded_height {
            Some(h) => h,
            None => 0,
        };
        self.is_higher_resolution_pending = self.server_allocated_height as u32 > decoded;
    }
}

/// The remote devices in the call, in the order the SFU lists them.
pub struct RemoteDevices(pub Vec<RemoteDeviceState>);

impl View for RemoteDevices {
    type V = Seq<RemoteDeviceState>;

    open spec fn view(&self) -> Seq<RemoteDeviceState> {
        self.0@
    }
}

/// Index of the first device with the demux ID, if any.
pub open spec fn first_index_of(devices: Seq<RemoteDeviceState>, demux_id: DemuxId) -> Option<int> {
    if exists|i: int| 0 <= i < devices.len() && devices[i].demux_id == demux_id {
        Some(choose|i: int|
            0 <= i < devices.len() && devices[i].demux_id == demux_id
                && forall|j: int| 0 <= j < i ==> devices[j].demux_id != demux_id)
    } else {
        None
    }
}

/// `a` is before `b` in the order `None < Some(0) < Some(1) < ...`.
pub open spec fn time_lt(a: Option<u64>, b: Option<u64>) -> bool {
    match (a, b) {
        (None, Some(_)) => true,
        (Some(x), Some(y)) => x < y,
        _ => false,
    }
}

/// The device that `max_by_key(speaker_time)` picks: the last of those with
/// the greatest speaker time.
pub open spec fn is_latest_speaker_index(devices: Seq<RemoteDeviceState>, i: int) -> bool {
    &&& 0 <= i < devices.len()
    &&& forall|j: int| 0 <= j < devices.len() ==> !time_lt(devices[i].speaker_time, #[trigger] devices[j].speaker_time)
    &&& forall|j: int| i < j < devices.len() ==> time_lt(#[trigger] devices[j].speaker_time, devices[i].speaker_time)
}

/// The demux ID of the most recent speaker, if anyone has spoken.
pub open spec fn latest_speaker(devices: Seq<RemoteDeviceState>) -> Option<DemuxId> {
    if exists|i: int| 0 <= i < devices.len() && devices[i].speaker_time is Some {
        let i = choose|i: int| is_latest_speaker_index(devices, i);
        Some(devices[i].demux_id)
    } else {
        None
    }
}

proof fn lemma_first_index(devices: Seq<RemoteDeviceState>, demux_id: DemuxId, i: int)
    requires
        0 <= i < devices.len(),
        devices[i].demux_id == demux_id,
        forall|j: int| 0 <= j < i ==> devices[j].demux_id != demux_id,
    ensures
        first_index_of(devices, demux_id) == Some(i),
{
    let k = choose|k: int|
        0 <= k < devices.len() && devices[k].demux_id == demux_id
            && forall|j: int| 0 <= j < k ==> devices[j].demux_id != demux_id;
    if k < i {
        assert(devices[k].demux_id != demux_id);
    } else if k > i {
        assert(devices[i].demux_id != demux_id);
    }
}

proof fn lemma_latest_speaker_unique(devices: Seq<RemoteDeviceState>, i: int, k: int)
    requires
        is_latest_speaker_index(devices, i),
        is_latest_speaker_index(devices, k),
    ensures
        i == k,
{
    if i < k {
        assert(time_lt(devices[k].speaker_time, devices[i].speaker_time));
    } else if k < i {
        assert(time_lt(devices[i].speaker_time, devices[k].speaker_time));
    }
}

impl RemoteDevices {
    pub fn default() -> (r: RemoteDevices)
        ensures
            r@ == Seq::<RemoteDeviceState>::empty(),
    {
        RemoteDevices(Vec::new())
    }

    pub fn from_iter(devices: Vec<RemoteDeviceState>) -> (r: RemoteDevices)
        ensures
            r@ == devices@,
    {
        RemoteDevices(devices)
    }

    pub fn len(&self) -> (n: usize)
        ensures
            n == self@.len(),
    {
        self.0.len()
    }

    pub fn is_empty(&self) -> (b: bool)
        ensures
            b == (self@.len() == 0),
    {
        self.0.len() == 0
    }

    /// The demux ID of the latest speaker, or `None` when nobody has spoken.
    pub fn latest_speaker_demux_id(&self) -> (r: Option<DemuxId>)
        ensures
            r == latest_speaker(self@),
    {
        let n = self.0.len();
        if n == 0 {
            return None;
        }
        let mut best: usize = 0;
        let mut i: usize = 1;
        while i < n
            invariant
                n == self@.len(),
                0 <= best < i <= n,
                forall|j: int| 0 <= j < i ==> !time_lt(self@[best as int].speaker_time, #[trigger] self@[j].speaker_time),
                forall|j: int| best < j < i ==> time_lt(#[trigger] self@[j].speaker_time, self@[best as int].speaker_time),
            decreases n - i,
        {
            let better = match (self.0[best].speaker_time, self.0[i].speaker_time) {
                (None, _) => true,
                (Some(x), Some(y)) => x <= y,
                (Some(_), None) => false,
            };
            if better {
                best = i;
            }
            i = i + 1;
        }
        proof {
            assert(is_latest_speaker_index(self@, best as int));
            let k = choose|k: int| is_latest_speaker_index(self@, k);
            lemma_latest_speaker_unique(self@, best as int, k);
        }
        match self.0[best].speaker_time {
            None => {
                proof {
                    assert forall|j: int| 0 <= j < self@.len() implies !(self@[j].speaker_time is Some) by {
                        assert(!time_lt(self@[best as int].speaker_time, self@[j].speaker_time));
                    }
                }
                None
            },
            Some(_) => Some(self.0[best].demux_id),
        }
    }

    /// The first device with the demux ID, if any.
    pub fn find_by_demux_id(&self, demux_id: DemuxId) -> (r: Option<&RemoteDeviceState>)
        ensures
            r == match first_index_of(self@, demux_id) {
                Some(i) => Some(&self@[i]),
                None => None::<&RemoteDeviceState>,
            },
    {
        match self.index_of(demux_id) {
            Some(i) => Some(&self.0[i]),
            None => None,
        }
    }

    fn index_of(&self, demux_id: DemuxId) -> (r: Option<usize>)
        ensures
            match r {
                Some(k) => first_index_of(self@, demux_id) == Some(k as int) && k < self@.len(),
                None => first_index_of(self@, demux_id) is None,
            },
    {
        let n = self.0.len();
        let mut i: usize = 0;
        while i < n
            invariant
                n == self@.len(),
                i <= n,
                forall|j: int| 0 <= j < i ==> self@[j].demux_id != demux_id,
            decreases n - i,
        {
            if self.0[i].demux_id == demux_id {
                proof {
                    lemma_first_index(self@, demux_id, i as int);
                }
                return Some(i);
            }
            i = i + 1;
        }
        None
    }

    /// Whether some device has the demux ID.
    pub fn contains_demux_id(&self, demux_id: DemuxId) -> (b: bool)
        ensures
            b == (exists|i: int| 0 <= i < self@.len() && self@[i].demux_id == demux_id),
    {
        match self.index_of(demux_id) {
            Some(i) => true,
            None => false,
        }
    }

    /// The first device with the demux ID, for changing it in place.
    pub fn find_by_demux_id_mut(&mut self, demux_id: DemuxId) -> (r: Option<&mut RemoteDeviceState>)
        ensures
            match first_index_of(old(self)@, demux_id) {
                Some(i) => r matches Some(d) && *d == old(self)@[i]
                    && final(self)@ == old(self)@.update(i, *final(d)),
                None => r is None && final(self)@ == old(self)@,
            },
    {
        match self.index_of(demux_id) {
            Some(i) => Some(&mut self.0[i]),
            None => None,
        }
    }

    /// The set of demux IDs of the devices.
    pub fn demux_id_set(&self) -> (r: std::collections::HashSet<DemuxId>)
        ensures
            r@ == Set::new(|d: DemuxId| exists|i: int| 0 <= i < self@.len() && self@[i].demux_id == d),
    {
        let mut r: std::collections::HashSet<DemuxId> = std::collections::HashSet::new();
        let n = self.0.len();
        let mut i: usize = 0;
        while i < n
            invariant
                n == self@.len(),
                i <= n,
                r@ == Set::new(|d: DemuxId| exists|j: int| 0 <= j < i && self@[j].demux_id == d),
            decreases n - i,
        {
            r.insert(self.0[i].demux_id);
            proof {
                assert(r@ =~= Set::new(|d: DemuxId| exists|j: int| 0 <= j < i + 1 && self@[j].demux_id == d)) by {
                    assert forall|d: DemuxId| (exists|j: int| 0 <= j < i + 1 && self@[j].demux_id == d)
                        implies r@.contains(d) by {
                        let j = choose|j: int| 0 <= j < i + 1 && self@[j].demux_id == d;
                        if j < i {
                            assert(exists|j2: int| 0 <= j2 < i && self@[j2].demux_id == d);
                        }
                    }
                }
            }
            i = i + 1;
        }
        assert(r@ =~= Set::new(|d: DemuxId| exists|i: int| 0 <= i < self@.len() && self@[i].demux_id == d));
        r
    }
}


/// The device after a heartbeat with a newer RTP timestamp than any before.
pub open spec fn after_heartbeat(d: RemoteDeviceState, timestamp: RtpTimestamp, hb: HeartbeatState) -> RemoteDeviceState {
    let d1 = RemoteDeviceState { heartbeat_rtp_timestamp: Some(timestamp), ..d };
    if d.heartbeat_state == hb {
        d1
    } else if hb.video_muted == Some(true) {
        RemoteDeviceState {
            heartbeat_state: hb,
            client_decoded_height: None,
            is_higher_resolution_pending: higher_resolution_pending(d.server_allocated_height, None),
            ..d1
        }
    } else {
        RemoteDeviceState { heartbeat_state: hb, ..d1 }
    }
}

/// The device that muted this one, when a heartbeat shows the device newly
/// muted by a device other than before.
pub open spec fn observed_remote_mute(old: HeartbeatState, hb: HeartbeatState) -> Option<DemuxId> {
    if hb.muted_by_demux_id != old.muted_by_demux_id && hb.muted_by_demux_id is Some
        && hb.audio_muted == Some(true) && old.audio_muted == Some(false) {
        hb.muted_by_demux_id
    } else {
        None
    }
}

/// The outcome of a heartbeat from a device.
#[derive(Clone, Copy, Debug, PartialEq, Eq, Structural)]
pub struct HeartbeatOutcome {
    /// The heartbeat state changed, so the observer is told.
    pub changed: bool,
    /// The device that remotely muted this one, if the heartbeat shows it.
    pub observed_remote_mute: Option<DemuxId>,
}

impl RemoteDeviceState {
    /// Applies a heartbeat received with an RTP timestamp.  Heartbeats not
    /// newer than the last one are ignored; a newer one is recorded even if
    /// nothing changed so an old packet can't override a new one.
    pub fn handle_heartbeat(&mut self, timestamp: RtpTimestamp, heartbeat: HeartbeatState) -> (r: HeartbeatOutcome)
        ensures
            if timestamp > match old(self).heartbeat_rtp_timestamp { Some(t) => t, None => 0u32 } {
                &&& *final(self) == after_heartbeat(*old(self), timestamp, heartbeat)
                &&& r.changed == (old(self).heartbeat_state != heartbeat)
                &&& r.observed_remote_mute == (if r.changed {
                    observed_remote_mute(old(self).heartbeat_state, heartbeat)
                } else {
                    None
                })
            } else {
                &&& *final(self) == *old(self)
                &&& !r.changed
                &&& r.observed_remote_mute is None
            },
    {
        let last: u32 = match self.heartbeat_rtp_timestamp {
            Some(t) => t,
            None => 0,
        };
        if timestamp <= last {
            return HeartbeatOutcome { changed: false, observed_remote_mute: None };
        }
        self.heartbeat_rtp_timestamp = Some(timestamp);
        if self.heartbeat_state == heartbeat {
            return HeartbeatOutcome { changed: false, observed_remote_mute: None };
        }
        if heartbeat.video_muted == Some(true) {
            self.client_decoded_height = None;
            self.recalculate_higher_resolution_pending();
        }
        let new_source = if heartbeat.muted_by_demux_id != self.heartbeat_state.muted_by_demux_id {
            heartbeat.muted_by_demux_id
        } else {
            None
        };
        let observed = match new_source {
            Some(source) => {
                if heartbeat.audio_muted == Some(true) && self.heartbeat_state.audio_muted == Some(false) {
                    Some(source)
                } else {
                    None
                }
            },
            None => None,
        };
        self.heartbeat_state = heartbeat;
        HeartbeatOutcome { changed: true, observed_remote_mute: observed }
    }

    /// Records the height of a decoded video frame, unless it is already
    /// known or video is muted.  Returns whether the "higher resolution
    /// pending" flag changed.
    pub fn handle_decoded_height(&mut self, height: u32) -> (changed: bool)
        ensures
            if old(self).client_decoded_height != Some(height) && old(self).heartbeat_state.video_muted != Some(true) {
                &&& *final(self) == (RemoteDeviceState {
                    client_decoded_height: Some(height),
                    is_higher_resolution_pending: higher_resolution_pending(old(self).server_allocated_height, Some(height)),
                    ..*old(self)
                })
                &&& changed == (final(self).is_higher_resolution_pending != old(self).is_higher_resolution_pending)
            } else {
                *final(self) == *old(self) && !changed
            },
    {
        if self.client_decoded_height != Some(height) && self.heartbeat_state.video_muted != Some(true) {
            self.client_decoded_height = Some(height);
            let was_pending = self.is_higher_resolution_pending;
            self.recalculate_higher_resolution_pending();
            self.is_higher_resolution_pending != was_pending
        } else {
            false
        }
    }
}

/// Whether the media key's sender is known, and whether this is its first key.
#[derive(Clone, Copy, Debug, PartialEq, Eq, Structural)]
pub enum MediaKeyOutcome {
    /// The device is known and its user matches; `first` if it had no key yet.
    Accepted { first: bool },
    /// A device with the demux ID belongs to another user: the key is ignored.
    WrongUser,
    /// No device has the demux ID yet: the key waits until one appears.
    UnknownDevice,
}

impl RemoteDevices {
    /// Handles the speaker reported by the SFU with an RTP timestamp.
    /// Returns the new latest speaker timestamp and whether the speaker's
    /// time was set to `now` (so the observer is told).
    pub fn handle_speaker_received(
        &mut self,
        last_timestamp: Option<RtpTimestamp>,
        timestamp: RtpTimestamp,
        demux_id: DemuxId,
        now: u64,
    ) -> (r: (Option<RtpTimestamp>, bool))
        ensures
            if last_timestamp matches Some(l) && timestamp <= l {
                r == (last_timestamp, false) && final(self)@ == old(self)@
            } else {
                &&& r.0 == Some(timestamp)
                &&& match first_index_of(old(self)@, demux_id) {
                    Some(i) => if latest_speaker(old(self)@) == Some(demux_id) {
                        !r.1 && final(self)@ == old(self)@
                    } else {
                        r.1 && final(self)@ == old(self)@.update(
                            i,
                            RemoteDeviceState { speaker_time: Some(now), ..old(self)@[i] },
                        )
                    },
                    None => !r.1 && final(self)@ == old(self)@,
                }
            },
    {
        if let Some(l) = last_timestamp {
            if timestamp <= l {
                return (last_timestamp, false);
            }
        }
        let latest = self.latest_speaker_demux_id();
        match self.index_of(demux_id) {
            Some(i) => {
                if latest == Some(demux_id) {
                    (Some(timestamp), false)
                } else {
                    self.0[i].speaker_time = Some(now);
                    (Some(timestamp), true)
                }
            },
            None => (Some(timestamp), false),
        }
    }

    /// Notes that a device announced it is leaving.  Returns whether this is
    /// news (so remote devices are requested again).
    pub fn handle_leaving_received(&mut self, demux_id: DemuxId) -> (news: bool)
        ensures
            match first_index_of(old(self)@, demux_id) {
                Some(i) => if old(self)@[i].leaving_received {
                    !news && final(self)@ == old(self)@
                } else {
                    news && final(self)@ == old(self)@.update(
                        i,
                        RemoteDeviceState { leaving_received: true, ..old(self)@[i] },
                    )
                },
                None => !news && final(self)@ == old(self)@,
            },
    {
        match self.index_of(demux_id) {
            Some(i) => {
                if self.0[i].leaving_received {
                    false
                } else {
                    self.0[i].leaving_received = true;
                    true
                }
            },
            None => false,
        }
    }

    /// Records that a media key arrived from a user for a demux ID.
    pub fn handle_media_key(&mut self, user_id: &UserId, demux_id: DemuxId) -> (r: MediaKeyOutcome)
        ensures
            match first_index_of(old(self)@, demux_id) {
                Some(i) => if old(self)@[i].user_id@ == user_id@ {
                    r == (MediaKeyOutcome::Accepted { first: !old(self)@[i].media_keys_received })
                        && final(self)@ == old(self)@.update(
                            i,
                            RemoteDeviceState { media_keys_received: true, ..old(self)@[i] },
                        )
                } else {
                    r == MediaKeyOutcome::WrongUser && final(self)@ == old(self)@
                },
                None => r == MediaKeyOutcome::UnknownDevice && final(self)@ == old(self)@,
            },
    {
        match self.index_of(demux_id) {
            Some(i) => {
                if bytes_eq(self.0[i].user_id.as_slice(), user_id.as_slice()) {
                    let first = !self.0[i].media_keys_received;
                    self.0[i].media_keys_received = true;
                    MediaKeyOutcome::Accepted { first }
                } else {
                    MediaKeyOutcome::WrongUser
                }
            },
            None => MediaKeyOutcome::UnknownDevice,
        }
    }
}

/// An edit made through `find_by_demux_id_mut` that keeps the demux ID is
/// what `find_by_demux_id` finds afterwards.
pub proof fn law_edit_through_find_is_persisted(devices: Seq<RemoteDeviceState>, demux_id: DemuxId, edited: RemoteDeviceState)
    requires
        first_index_of(devices, demux_id) is Some,
        edited.demux_id == demux_id,
    ensures
        ({
            let i = first_index_of(devices, demux_id)->0;
            let after = devices.update(i, edited);
            &&& first_index_of(after, demux_id) == Some(i)
            &&& after[i] == edited
        }),
{
    let j = choose|j: int| 0 <= j < devices.len() && devices[j].demux_id == demux_id;
    lemma_first_index_exists(devices, demux_id, j);
    let i = first_index_of(devices, demux_id)->0;
    let after = devices.update(i, edited);
    assert forall|m: int| 0 <= m < i implies after[m].demux_id != demux_id by {
        assert(after[m] == devices[m]);
    }
    lemma_first_index(after, demux_id, i);
}

proof fn lemma_first_index_exists(devices: Seq<RemoteDeviceState>, demux_id: DemuxId, j: int)
    requires
        0 <= j < devices.len(),
        devices[j].demux_id == demux_id,
    ensures
        exists|k: int|
            0 <= k < devices.len() && devices[k].demux_id == demux_id
                && forall|m: int| 0 <= m < k ==> devices[m].demux_id != demux_id,
    decreases j,
{
    if exists|m: int| 0 <= m < j && devices[m].demux_id == demux_id {
        let m = choose|m: int| 0 <= m < j && devices[m].demux_id == demux_id;
        lemma_first_index_exists(devices, demux_id, m);
    } else {
        assert(forall|m: int| 0 <= m < j ==> devices[m].demux_id != demux_id);
    }
}
/// A heartbeat newer than any before is recorded: the device's heartbeat
/// state becomes the one received and its timestamp the heartbeat's, so
/// the same heartbeat again, later, changes nothing; what else changes is
/// only the decoded height (and the flag that follows it) when video is
/// newly muted.
pub proof fn law_newer_heartbeat_is_recorded(d: RemoteDeviceState, timestamp: RtpTimestamp, hb: HeartbeatState, later: RtpTimestamp)
    requires
        timestamp < later,
    ensures
        after_heartbeat(d, timestamp, hb).heartbeat_state == hb,
        after_heartbeat(d, timestamp, hb).heartbeat_rtp_timestamp == Some(timestamp),
        after_heartbeat(after_heartbeat(d, timestamp, hb), later, hb)
            == (RemoteDeviceState { heartbeat_rtp_timestamp: Some(later), ..after_heartbeat(d, timestamp, hb) }),
        ({
            let e = after_heartbeat(d, timestamp, hb);
            &&& e.demux_id == d.demux_id && e.user_id == d.user_id
            &&& e.media_keys_received == d.media_keys_received
            &&& e.speaker_time == d.speaker_time && e.added_time == d.added_time
            &&& e.forwarding_video == d.forwarding_video
            &&& e.server_allocated_height == d.server_allocated_height
            &&& (e.client_decoded_height != d.client_decoded_height
                ==> hb.video_muted == Some(true) && e.client_decoded_height is None)
        }),
{
}

} // verus!
