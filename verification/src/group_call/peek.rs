//! Updating the remote devices and the transceivers from a peek of the call.

use vstd::prelude::*;
use super::{DemuxId, JoinState, UserId};
use super::connection::CallEndReason;
use super::remote_devices::{RemoteDeviceState, RemoteDevices, unknown_heartbeat};
use vstd::string::StringSliceAdditionalSpecFns;
use crate::util::bytes::bytes_eq;

verus! {

/// A device listed by the SFU when peeking the call.  The user ID is absent
/// for devices of users that aren't members of the group.
#[derive(Clone, Debug, PartialEq, Eq)]
pub struct PeekDeviceInfo {
    pub demux_id: DemuxId,
    pub user_id: Option<UserId>,
}

/// A device just learned of (as `RemoteDeviceState::new` makes it).
pub open spec fn fresh_device(demux_id: DemuxId, user_id: UserId, added_time: u64) -> RemoteDeviceState {
    RemoteDeviceState {
        demux_id,
        user_id,
        media_keys_received: false,
        heartbeat_state: unknown_heartbeat(),
        heartbeat_rtp_timestamp: None,
        added_time,
        speaker_time: None,
        leaving_received: false,
        forwarding_video: None,
        server_allocated_height: 0,
        client_decoded_height: None,
        is_higher_resolution_pending: false,
    }
}

/// Index of the last device with the demux ID: the one a map keyed by demux
/// ID keeps.
pub open spec fn last_index_of(devices: Seq<RemoteDeviceState>, demux_id: DemuxId) -> Option<int>
    decreases devices.len(),
{
    if devices.len() == 0 {
        None
    } else if devices.last().demux_id == demux_id {
        Some(devices.len() - 1)
    } else {
        last_index_of(devices.drop_last(), demux_id)
    }
}

proof fn lemma_last_index_of(devices: Seq<RemoteDeviceState>, demux_id: DemuxId)
    ensures
        match last_index_of(devices, demux_id) {
            Some(k) => 0 <= k < devices.len() && devices[k].demux_id == demux_id
                && forall|j: int| k < j < devices.len() ==> devices[j].demux_id != demux_id,
            None => forall|j: int| 0 <= j < devices.len() ==> devices[j].demux_id != demux_id,
        },
    decreases devices.len(),
{
    if devices.len() > 0 {
        let init = devices.drop_last();
        lemma_last_index_of(init, demux_id);
        assert forall|j: int| 0 <= j < init.len() implies init[j] == devices[j] by {}
    }
}

/// The remote devices after a peek listing `peek`, with whether the local
/// device is listed and the demux IDs whose old state has been used up.
/// Each listed device other than the local one, and with a known user,
/// becomes a remote device, in order.  It keeps its old state when the old
/// devices had it (the last one with the demux ID, used at most once) with
/// the same user; otherwise it is new, added at `added_time`.
pub open spec fn peek_update(
    old: Seq<RemoteDeviceState>,
    peek: Seq<PeekDeviceInfo>,
    local_demux_id: DemuxId,
    added_time: u64,
) -> (Seq<RemoteDeviceState>, bool, Set<DemuxId>)
    decreases peek.len(),
{
    if peek.len() == 0 {
        (Seq::empty(), false, Set::empty())
    } else {
        let (res, participant, taken) = peek_update(old, peek.drop_last(), local_demux_id, added_time);
        let p = peek.last();
        if p.demux_id == local_demux_id {
            (res, true, taken)
        } else {
            match p.user_id {
                None => (res, participant, taken),
                Some(u) => {
                    let kept = match last_index_of(old, p.demux_id) {
                        Some(k) => if !taken.contains(p.demux_id) && old[k].user_id@ == u@ {
                            old[k]
                        } else {
                            fresh_device(p.demux_id, u, added_time)
                        },
                        None => fresh_device(p.demux_id, u, added_time),
                    };
                    (res.push(kept), participant, taken.insert(p.demux_id))
                },
            }
        }
    }
}

/// Finds the index of the last device with the demux ID.
fn find_last(demux_ids: &Vec<DemuxId>, Ghost(devices): Ghost<Seq<RemoteDeviceState>>, demux_id: DemuxId) -> (r: Option<usize>)
    requires
        demux_ids@.len() == devices.len(),
        forall|j: int| 0 <= j < devices.len() ==> demux_ids@[j] == #[trigger] devices[j].demux_id,
    ensures
        match r {
            Some(k) => last_index_of(devices, demux_id) == Some(k as int),
            None => last_index_of(devices, demux_id) is None,
        },
{
    proof {
        lemma_last_index_of(devices, demux_id);
    }
    let mut j = demux_ids.len();
    while j > 0
        invariant
            j <= devices.len(),
            demux_ids@.len() == devices.len(),
            forall|m: int| 0 <= m < devices.len() ==> demux_ids@[m] == #[trigger] devices[m].demux_id,
            forall|m: int| j <= m < devices.len() ==> #[trigger] devices[m].demux_id != demux_id,
            match last_index_of(devices, demux_id) {
                Some(k) => 0 <= k < devices.len() && devices[k].demux_id == demux_id
                    && forall|m: int| k < m < devices.len() ==> devices[m].demux_id != demux_id,
                None => forall|m: int| 0 <= m < devices.len() ==> devices[m].demux_id != demux_id,
            },
        decreases j,
    {
        j = j - 1;
        if demux_ids[j] == demux_id {
            proof {
                assert(devices[j as int].demux_id == demux_id);
                if let Some(k) = last_index_of(devices, demux_id) {
                    if k < j {
                        assert(devices[j as int].demux_id != demux_id);
                    } else if k > j {
                        assert(devices[k].demux_id != demux_id);
                    }
                }
            }
            return Some(j);
        }
    }
    proof {
        if let Some(k) = last_index_of(devices, demux_id) {
            assert(devices[k].demux_id != demux_id);
        }
    }
    None
}

impl RemoteDevices {
    /// The remote devices after a peek (see `peek_update`), and whether the
    /// local device is a participant.
    pub fn updated_from_peek(
        self,
        peek_devices: Vec<PeekDeviceInfo>,
        local_demux_id: DemuxId,
        added_time: u64,
    ) -> (r: (RemoteDevices, bool))
        ensures
            r.0@ == peek_update(self@, peek_devices@, local_demux_id, added_time).0,
            r.1 == peek_update(self@, peek_devices@, local_demux_id, added_time).1,
    {
        let ghost old = self@;
        let mut old_vec = self.0;
        let mut demux_ids: Vec<DemuxId> = Vec::new();
        let mut x: usize = 0;
        while x < old_vec.len()
            invariant
                old_vec@ == old,
                x <= old.len(),
                demux_ids@.len() == x,
                forall|j: int| 0 <= j < x ==> demux_ids@[j] == #[trigger] old[j].demux_id,
            decreases old.len() - x,
        {
            demux_ids.push(old_vec[x].demux_id);
            x = x + 1;
        }
        let ghost peek = peek_devices@;
        let mut rest = peek_devices;
        let mut res: Vec<RemoteDeviceState> = Vec::new();
        let mut participant = false;
        let ghost mut taken: Set<DemuxId> = Set::empty();
        let ghost mut i: int = 0;
        assert(peek.subrange(0, 0) =~= Seq::<PeekDeviceInfo>::empty());
        while rest.len() > 0
            invariant
                0 <= i <= peek.len(),
                rest@ == peek.subrange(i, peek.len() as int),
                peek_update(old, peek.subrange(0, i), local_demux_id, added_time) == (res@, participant, taken),
                demux_ids@.len() == old.len(),
                forall|j: int| 0 <= j < old.len() ==> demux_ids@[j] == #[trigger] old[j].demux_id,
                old_vec@.len() == old.len(),
                forall|j: int| 0 <= j < old.len() && !taken.contains(#[trigger] old[j].demux_id) ==> old_vec@[j] == old[j],
            decreases rest@.len(),
        {
            let p = rest.remove(0);
            assert(p == peek[i]);
            assert(peek.subrange(0, i + 1).drop_last() =~= peek.subrange(0, i));
            assert(peek.subrange(0, i + 1).last() == peek[i]);
            if p.demux_id == local_demux_id {
                participant = true;
            } else {
                match p.user_id {
                    None => {},
                    Some(u) => {
                        let d = p.demux_id;
                        let found = find_last(&demux_ids, Ghost(old), d);
                        proof {
                            lemma_last_index_of(old, d);
                        }
                        let mut kept: Option<RemoteDeviceState> = None;
                        if let Some(k) = found {
                            if !contains_demux(&res, d) {
                                proof {
                                    lemma_taken_is_listed(old, peek.subrange(0, i), local_demux_id, added_time, d);
                                }
                                let e = old_vec.remove(k);
                                old_vec.insert(k, RemoteDeviceState::new(0, Vec::new(), 0));
                                assert(e == old[k as int]);
                                kept = Some(e);
                                proof {
                                    assert forall|j: int| 0 <= j < old.len() && !taken.insert(d).contains(#[trigger] old[j].demux_id)
                                        implies old_vec@[j] == old[j] by {
                                        assert(j != k);
                                    }
                                }
                            } else {
                                proof {
                                    lemma_taken_is_listed(old, peek.subrange(0, i), local_demux_id, added_time, d);
                                }
                            }
                        } else {
                            proof {
                                lemma_taken_is_listed(old, peek.subrange(0, i), local_demux_id, added_time, d);
                            }
                        }
                        match kept {
                            Some(e) => {
                                if bytes_eq(e.user_id.as_slice(), u.as_slice()) {
                                    res.push(e);
                                } else {
                                    res.push(RemoteDeviceState::new(d, u, added_time));
                                }
                            },
                            None => {
                                res.push(RemoteDeviceState::new(d, u, added_time));
                            },
                        }
                        proof {
                            taken = taken.insert(d);
                        }
                    },
                }
            }
            proof {
                i = i + 1;
            }
            assert(rest@ =~= peek.subrange(i, peek.len() as int));
        }
        assert(peek.subrange(0, peek.len() as int) =~= peek);
        (RemoteDevices(res), participant)
    }
}

/// Whether a device in the list has the demux ID.
fn contains_demux(devices: &Vec<RemoteDeviceState>, demux_id: DemuxId) -> (b: bool)
    ensures
        b == has_demux(devices@, demux_id),
{
    let mut i: usize = 0;
    while i < devices.len()
        invariant
            i <= devices@.len(),
            forall|a: int| 0 <= a < i ==> devices@[a].demux_id != demux_id,
        decreases devices@.len() - i,
    {
        if devices[i].demux_id == demux_id {
            return true;
        }
        i = i + 1;
    }
    false
}

/// Whether some device in the list has the demux ID.
pub open spec fn has_demux(devices: Seq<RemoteDeviceState>, demux_id: DemuxId) -> bool {
    exists|a: int| 0 <= a < devices.len() && devices[a].demux_id == demux_id
}

/// The demux IDs used up by a peek update are those of the remote devices
/// it produced.
proof fn lemma_taken_is_listed(
    old: Seq<RemoteDeviceState>,
    peek: Seq<PeekDeviceInfo>,
    local_demux_id: DemuxId,
    added_time: u64,
    d: DemuxId,
)
    ensures
        peek_update(old, peek, local_demux_id, added_time).2.contains(d)
            == has_demux(peek_update(old, peek, local_demux_id, added_time).0, d),
    decreases peek.len(),
{
    if peek.len() > 0 {
        lemma_taken_is_listed(old, peek.drop_last(), local_demux_id, added_time, d);
        let (res, participant, taken) = peek_update(old, peek.drop_last(), local_demux_id, added_time);
        let p = peek.last();
        if p.demux_id != local_demux_id {
            if let Some(u) = p.user_id {
                let (res2, participant2, taken2) = peek_update(old, peek, local_demux_id, added_time);
                assert(res2.last().demux_id == p.demux_id) by {
                    lemma_last_index_of(old, p.demux_id);
                }
                if has_demux(res, d) {
                    let a = choose|a: int| 0 <= a < res.len() && res[a].demux_id == d;
                    assert(res2[a] == res[a]);
                }
                if has_demux(res2, d) {
                    let a = choose|a: int| 0 <= a < res2.len() && res2[a].demux_id == d;
                    if a < res.len() {
                        assert(res2[a] == res[a]);
                    }
                }
            }
        }
    }
}

/// The demux IDs of `new` that are not in `old`, in the order `new` lists
/// them, each once.
pub open spec fn added_ids(old: Seq<RemoteDeviceState>, new: Seq<RemoteDeviceState>) -> Seq<DemuxId>
    decreases new.len(),
{
    if new.len() == 0 {
        seq![]
    } else {
        let rest = added_ids(old, new.drop_last());
        let d = new.last().demux_id;
        if has_demux(old, d) || rest.contains(d) {
            rest
        } else {
            rest.push(d)
        }
    }
}

/// The demux IDs that a peek added: they get transceivers, and their users
/// get the media send key.
pub fn added_demux_ids(old: &RemoteDevices, new: &RemoteDevices) -> (r: Vec<DemuxId>)
    ensures
        r@ == added_ids(old@, new@),
{
    let mut r: Vec<DemuxId> = Vec::new();
    let mut i: usize = 0;
    let n = new.0.len();
    while i < n
        invariant
            n == new@.len(),
            i <= n,
            r@ == added_ids(old@, new@.subrange(0, i as int)),
        decreases n - i,
    {
        let d = new.0[i].demux_id;
        proof {
            assert(new@.subrange(0, i + 1).drop_last() =~= new@.subrange(0, i as int));
        }
        if !old.contains_demux_id(d) && !vec_contains(&r, d) {
            r.push(d);
        }
        i = i + 1;
    }
    assert(new@.subrange(0, n as int) =~= new@);
    r
}

fn vec_contains(v: &Vec<DemuxId>, d: DemuxId) -> (r: bool)
    ensures
        r == v@.contains(d),
{
    let mut i: usize = 0;
    while i < v.len()
        invariant
            i <= v@.len(),
            forall|j: int| 0 <= j < i ==> v@[j] != d,
        decreases v@.len() - i,
    {
        if v[i] == d {
            assert(v@[i as int] == d);
            return true;
        }
        i = i + 1;
    }
    false
}

/// The join state once a peek lists the local device: a pending device is
/// now joined.  Returns whether it just joined.
pub fn join_state_after_peek(join_state: JoinState, local_device_is_participant: bool) -> (r: (JoinState, bool))
    ensures
        r == match join_state {
            JoinState::Pending(d) => if local_device_is_participant {
                (JoinState::Joined(d), true)
            } else {
                (join_state, false)
            },
            _ => (join_state, false),
        },
{
    match join_state {
        JoinState::Pending(d) => {
            if local_device_is_participant {
                (JoinState::Joined(d), true)
            } else {
                (join_state, false)
            }
        },
        _ => (join_state, false),
    }
}

/// Whether some user of `old` is not in `new`: then the media send key must
/// be rotated.
pub fn some_user_left(old: &Vec<UserId>, new: &Vec<UserId>) -> (r: bool)
    ensures
        r == exists|i: int| 0 <= i < old@.len() && !has_user(new@, #[trigger] old@[i]@),
{
    let mut i: usize = 0;
    while i < old.len()
        invariant
            i <= old@.len(),
            forall|j: int| 0 <= j < i ==> has_user(new@, #[trigger] old@[j]@),
        decreases old@.len() - i,
    {
        if !contains_user(new, &old[i]) {
            return true;
        }
        i = i + 1;
    }
    false
}

/// Whether some user ID in `users` is `u`.
pub open spec fn has_user(users: Seq<UserId>, u: Seq<u8>) -> bool {
    exists|k: int| 0 <= k < users.len() && #[trigger] users[k]@ == u
}

fn contains_user(users: &Vec<UserId>, u: &UserId) -> (r: bool)
    ensures
        r == has_user(users@, u@),
{
    let mut k: usize = 0;
    while k < users.len()
        invariant
            k <= users@.len(),
            forall|j: int| 0 <= j < k ==> #[trigger] users@[j]@ != u@,
        decreases users@.len() - k,
    {
        if bytes_eq(users[k].as_slice(), u.as_slice()) {
            return true;
        }
        k = k + 1;
    }
    false
}

/// Whether some device of the peek belongs to the user.
pub open spec fn lists_user(devices: Seq<PeekDeviceInfo>, u: Seq<u8>) -> bool {
    exists|k: int| 0 <= k < devices.len() && belongs_to(#[trigger] devices[k], u)
}

/// Whether the device belongs to the user.
pub open spec fn belongs_to(device: PeekDeviceInfo, u: Seq<u8>) -> bool {
    device.user_id is Some && device.user_id.unwrap()@ == u
}

/// No user ID occurs twice.
pub open spec fn distinct_users(users: Seq<UserId>) -> bool {
    forall|i: int, j: int| 0 <= i < j < users.len() ==> (#[trigger] users[i])@ != (#[trigger] users[j])@
}

/// The users of the listed devices, each once, in the order first listed.
/// Devices of users that aren't members of the group have no user ID and
/// are left out; the local user is included.
pub fn unique_user_ids(devices: &Vec<PeekDeviceInfo>) -> (r: Vec<UserId>)
    ensures
        distinct_users(r@),
        forall|u: Seq<u8>| has_user(r@, u) <==> lists_user(devices@, u),
{
    let mut r: Vec<UserId> = Vec::new();
    let mut i: usize = 0;
    while i < devices.len()
        invariant
            i <= devices@.len(),
            distinct_users(r@),
            forall|u: Seq<u8>| has_user(r@, u) <==> lists_user(devices@.subrange(0, i as int), u),
        decreases devices@.len() - i,
    {
        let ghost before = r@;
        assert(forall|u: Seq<u8>| has_user(before, u) <==> lists_user(devices@.subrange(0, i as int), u));
        let ghost dev = devices@[i as int];
        let ghost mut pushed = false;
        match &devices[i].user_id {
            Some(u) => {
                if !contains_user(&r, u) {
                    let c = u.clone();
                    assert(c@ == u@);
                    r.push(c);
                    proof {
                        pushed = true;
                        assert forall|a: int, b: int| 0 <= a < b < r@.len() implies (#[trigger] r@[a])@ != (#[trigger] r@[b])@ by {
                            if b == r@.len() - 1 {
                                assert(r@[a] == before[a]);
                                assert(!(before[a]@ == u@));
                            } else {
                                assert(r@[a] == before[a] && r@[b] == before[b]);
                            }
                        }
                    }
                }
            },
            None => {},
        }
        proof {
            let ds = devices@.subrange(0, i + 1);
            let prev = devices@.subrange(0, i as int);
            assert(ds[i as int] == dev);
            assert(forall|m: int| 0 <= m < i ==> #[trigger] ds[m] == prev[m]);
            assert(pushed ==> r@.len() == before.len() + 1 && belongs_to(dev, r@[before.len() as int]@) && !has_user(before, r@[before.len() as int]@)
                && forall|k: int| 0 <= k < before.len() ==> #[trigger] r@[k] == before[k]);
            assert(!pushed ==> r@ == before && (dev.user_id is Some ==> has_user(before, dev.user_id.unwrap()@)));
            assert forall|v: Seq<u8>| has_user(r@, v) <==> lists_user(ds, v) by {
                if has_user(r@, v) {
                    let k = choose|k: int| 0 <= k < r@.len() && #[trigger] r@[k]@ == v;
                    if k < before.len() {
                        assert(r@[k] == before[k]);
                        assert(has_user(before, v));
                        assert(lists_user(prev, v));
                        let m = choose|m: int| 0 <= m < prev.len() && belongs_to(#[trigger] prev[m], v);
                        assert(ds[m] == prev[m]);
                    } else {
                        assert(belongs_to(ds[i as int], v));
                    }
                }
                if lists_user(ds, v) {
                    let m = choose|m: int| 0 <= m < ds.len() && belongs_to(#[trigger] ds[m], v);
                    if m < i {
                        assert(ds[m] == prev[m]);
                        assert(lists_user(prev, v));
                        assert(has_user(before, v));
                        let k = choose|k: int| 0 <= k < before.len() && #[trigger] before[k]@ == v;
                        if pushed {
                            assert(r@[k] == before[k]);
                        }
                    } else {
                        if pushed {
                            if !has_user(before, v) {
                                assert(r@[before.len() as int]@ == v);
                            } else {
                                let k = choose|k: int| 0 <= k < before.len() && #[trigger] before[k]@ == v;
                                assert(r@[k] == before[k]);
                            }
                        }
                    }
                }
            }
        }
        i = i + 1;
    }
    assert(devices@.subrange(0, devices@.len() as int) =~= devices@);
    r
}

/// Whether two lists hold the same users, as sets.
pub fn same_users(a: &Vec<UserId>, b: &Vec<UserId>) -> (r: bool)
    ensures
        r == forall|u: Seq<u8>| has_user(a@, u) <==> has_user(b@, u),
{
    let a_left = some_user_left(a, b);
    let b_left = some_user_left(b, a);
    proof {
        if !a_left && !b_left {
            assert forall|u: Seq<u8>| has_user(a@, u) <==> has_user(b@, u) by {
                if has_user(a@, u) {
                    let k = choose|k: int| 0 <= k < a@.len() && #[trigger] a@[k]@ == u;
                    assert(has_user(b@, a@[k]@));
                }
                if has_user(b@, u) {
                    let k = choose|k: int| 0 <= k < b@.len() && #[trigger] b@[k]@ == u;
                    assert(has_user(a@, b@[k]@));
                }
            }
        }
        if a_left {
            let i = choose|i: int| 0 <= i < a@.len() && !has_user(b@, #[trigger] a@[i]@);
            assert(has_user(a@, a@[i]@));
        }
        if b_left {
            let i = choose|i: int| 0 <= i < b@.len() && !has_user(a@, #[trigger] b@[i]@);
            assert(has_user(b@, b@[i]@));
        }
    }
    !a_left && !b_left
}

/// The number of pending devices plus the hashes of the unique pending
/// users, wrapping at 2^64: a summary of the pending users that doesn't
/// depend on their order.
pub open spec fn pending_signature(pending_count: nat, user_hashes: Seq<u64>) -> int {
    (pending_count + seq_sum(user_hashes)) % 0x1_0000_0000_0000_0000
}

pub open spec fn seq_sum(s: Seq<u64>) -> int
    decreases s.len(),
{
    if s.len() == 0 {
        0
    } else {
        seq_sum(s.drop_last()) + s.last()
    }
}

/// Computes `pending_signature`.
pub fn pending_users_signature(pending_count: usize, user_hashes: &[u64]) -> (r: u64)
    ensures
        r == pending_signature(pending_count as nat, user_hashes@),
{
    let mut acc: u64 = pending_count as u64;
    let mut i: usize = 0;
    while i < user_hashes.len()
        invariant
            i <= user_hashes@.len(),
            acc as int == (pending_count + seq_sum(user_hashes@.subrange(0, i as int))) % 0x1_0000_0000_0000_0000,
        decreases user_hashes@.len() - i,
    {
        let h = user_hashes[i];
        proof {
            assert(user_hashes@.subrange(0, i + 1).drop_last() =~= user_hashes@.subrange(0, i as int));
            let s = pending_count + seq_sum(user_hashes@.subrange(0, i as int));
            assert((s % 0x1_0000_0000_0000_0000 + h) % 0x1_0000_0000_0000_0000 == (s + h) % 0x1_0000_0000_0000_0000) by (nonlinear_arith);
        }
        acc = acc.wrapping_add(h);
        i = i + 1;
    }
    assert(user_hashes@.subrange(0, user_hashes@.len() as int) =~= user_hashes@);
    acc
}

/// Whether the observer hears of a peek: for the first one, and whenever the
/// joined users (as a set), the era or the pending users changed.
pub fn peek_changed(
    is_first_peek: bool,
    old_users: &Vec<UserId>,
    new_users: &Vec<UserId>,
    old_era_id: Option<&str>,
    new_era_id: Option<&str>,
    old_pending_signature: u64,
    new_pending_signature: u64,
) -> (r: bool)
    ensures
        r == (is_first_peek
            || !(forall|u: Seq<u8>| has_user(old_users@, u) <==> has_user(new_users@, u))
            || !(match (old_era_id, new_era_id) {
                (Some(a), Some(b)) => a.spec_bytes() == b.spec_bytes(),
                (None, None) => true,
                _ => false,
            })
            || old_pending_signature != new_pending_signature),
{
    if is_first_peek {
        return true;
    }
    if !same_users(old_users, new_users) {
        return true;
    }
    let same_era = match (old_era_id, new_era_id) {
        (Some(a), Some(b)) => {
            bytes_eq(a.as_bytes(), b.as_bytes())
        },
        (None, None) => true,
        _ => false,
    };
    !same_era || old_pending_signature != new_pending_signature
}

/// What follows a peek once the remote devices were updated from it (the
/// local device has a demux ID and SRTP keys).
#[derive(Clone, Copy, Debug, PartialEq, Eq, Structural)]
pub struct PeekFollowUps {
    /// Give the peer connection the transceivers freed from departed demux
    /// IDs, before any are reused (see `peer_connection_update_outcome`).
    pub apply_transceiver_removals: bool,
    /// Give the peer connection the transceivers of added demux IDs.
    pub apply_transceiver_additions: bool,
    /// Tell the observer that the demux IDs changed.
    pub notify_remote_devices_changed: bool,
    /// The pending local device is now joined.
    pub becomes_joined: bool,
    /// Advance the media send key and send it to users with added devices.
    pub advance_send_key: bool,
    /// Rotate the media send key because a user left.
    pub rotate_send_key: bool,
    /// Set the send rates for the new number of devices.
    pub update_send_rates: bool,
}

/// The follow-ups of a peek.  The peer connection is updated only when the
/// demux IDs changed and the SFU's info is known: first for freed
/// transceivers, then for added demux IDs.  The observer hears of changed
/// demux IDs; a pending device listed by the peek is joined; the send key
/// advances for users with added devices and rotates when a user left; the
/// send rates follow the device count once the local device is listed.
pub fn peek_follow_ups(
    demux_ids_changed: bool,
    sfu_info_known: bool,
    transceivers_freed: bool,
    demux_ids_added: bool,
    local_device_is_participant: bool,
    join_state: JoinState,
    users_with_added_devices: bool,
    some_user_left: bool,
) -> (r: PeekFollowUps)
    ensures
        r == (PeekFollowUps {
            apply_transceiver_removals: demux_ids_changed && sfu_info_known && transceivers_freed,
            apply_transceiver_additions: demux_ids_changed && sfu_info_known && demux_ids_added,
            notify_remote_devices_changed: demux_ids_changed,
            becomes_joined: local_device_is_participant && join_state is Pending,
            advance_send_key: users_with_added_devices,
            rotate_send_key: some_user_left,
            update_send_rates: local_device_is_participant,
        }),
{
    let update = demux_ids_changed && sfu_info_known;
    PeekFollowUps {
        apply_transceiver_removals: update && transceivers_freed,
        apply_transceiver_additions: update && demux_ids_added,
        notify_remote_devices_changed: demux_ids_changed,
        becomes_joined: local_device_is_participant && matches!(join_state, JoinState::Pending(_)),
        advance_send_key: users_with_added_devices,
        rotate_send_key: some_user_left,
        update_send_rates: local_device_is_participant,
    }
}

/// After the peer connection was given new transceivers: if that failed,
/// the call ends and the rest of the peek is not applied.
pub fn peer_connection_update_outcome(ok: bool) -> (r: Option<CallEndReason>)
    ensures
        r == if ok { None } else { Some(CallEndReason::FailedToUpdatePeerConnection) },
{
    if ok {
        None
    } else {
        Some(CallEndReason::FailedToUpdatePeerConnection)
    }
}

} // verus!
