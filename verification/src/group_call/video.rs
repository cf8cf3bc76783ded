//! Which videos the SFU forwards to this device, and the heights this device
//! asks it for.

use vstd::prelude::*;
use std::collections::HashMap;
use super::{DemuxId, VideoRequest};
use super::remote_devices::{RemoteDeviceState, RemoteDevices, first_index_of, higher_resolution_pending};

verus! {

broadcast use {
    vstd::std_specs::hash::axiom_u32_obeys_hash_table_key_model,
    vstd::std_specs::hash::axiom_random_state_builds_valid_hashers,
    vstd::std_specs::hash::axiom_contains_deref_key,
    vstd::std_specs::hash::axiom_maps_deref_key_to_value,
    vstd::std_specs::hash::axiom_hashmap_view_finite_dom,
    vstd::std_specs::hash::axiom_spec_hash_map_len,
};

/// The forwarded videos' allocated heights by demux ID, from the first `n`
/// pairs of the SFU's two lists: a height is kept in 16 bits, and a later
/// pair for the same demux ID wins.
pub open spec fn forwarding_map(ids: Seq<DemuxId>, heights: Seq<u32>, n: nat) -> Map<DemuxId, u16>
    decreases n,
{
    if n == 0 {
        Map::empty()
    } else {
        forwarding_map(ids, heights, (n - 1) as nat).insert(ids[n - 1], heights[n - 1] as u16)
    }
}

/// The number of pairs the two lists make.
pub open spec fn pair_count(ids: Seq<DemuxId>, heights: Seq<u32>) -> nat {
    if ids.len() <= heights.len() {
        ids.len()
    } else {
        heights.len()
    }
}

proof fn lemma_forwarding_map_keys(ids: Seq<DemuxId>, heights: Seq<u32>, n: nat, k: DemuxId)
    requires
        n <= ids.len(),
        n <= heights.len(),
    ensures
        forwarding_map(ids, heights, n).contains_key(k) <==> exists|i: int| 0 <= i < n && ids[i] == k,
        forwarding_map(ids, heights, n).dom().finite(),
    decreases n,
{
    if n > 0 {
        lemma_forwarding_map_keys(ids, heights, (n - 1) as nat, k);
        if forwarding_map(ids, heights, n).contains_key(k) && k != ids[n - 1] {
            let i = choose|i: int| 0 <= i < n - 1 && ids[i] == k;
            assert(0 <= i < n && ids[i] == k);
        }
    }
}

/// The forwarded videos the SFU reports, as a map from demux ID to height.
pub fn forwarding_videos(ids: &Vec<DemuxId>, heights: &Vec<u32>) -> (r: HashMap<DemuxId, u16>)
    ensures
        r@ == forwarding_map(ids@, heights@, pair_count(ids@, heights@)),
{
    let n = if ids.len() <= heights.len() {
        ids.len()
    } else {
        heights.len()
    };
    let mut r: HashMap<DemuxId, u16> = HashMap::new();
    let mut i: usize = 0;
    while i < n
        invariant
            n == pair_count(ids@, heights@),
            n <= ids@.len(),
            n <= heights@.len(),
            i <= n,
            r@ == forwarding_map(ids@, heights@, i as nat),
        decreases n - i,
    {
        r.insert(ids[i], heights[i] as u16);
        i = i + 1;
    }
    r
}

/// Whether two maps are the same, where `b` is the map of the given pairs.
fn same_forwarding(
    a: &HashMap<DemuxId, u16>,
    b: &HashMap<DemuxId, u16>,
    ids: &Vec<DemuxId>,
    heights: &Vec<u32>,
) -> (r: bool)
    requires
        b@ == forwarding_map(ids@, heights@, pair_count(ids@, heights@)),
    ensures
        r == (a@ == b@),
{
    let n = if ids.len() <= heights.len() {
        ids.len()
    } else {
        heights.len()
    };
    if a.len() != b.len() {
        return false;
    }
    let mut i: usize = 0;
    while i < n
        invariant
            n == pair_count(ids@, heights@),
            n <= ids@.len(),
            n <= heights@.len(),
            i <= n,
            b@ == forwarding_map(ids@, heights@, n as nat),
            a@.len() == b@.len(),
            forall|j: int| 0 <= j < i ==> a@.contains_key(#[trigger] ids@[j]) && a@[ids@[j]] == b@[ids@[j]],
        decreases n - i,
    {
        proof {
            lemma_forwarding_map_keys(ids@, heights@, n as nat, ids@[i as int]);
        }
        let id = ids[i];
        let expected = match b.get(&id) {
            Some(h) => *h,
            None => 0,
        };
        match a.get(&id) {
            Some(h) => {
                if *h != expected {
                    return false;
                }
            },
            None => {
                return false;
            },
        }
        i = i + 1;
    }
    proof {
        assert forall|k: DemuxId| b@.dom().contains(k) implies a@.dom().contains(k) && a@[k] == b@[k] by {
            lemma_forwarding_map_keys(ids@, heights@, n as nat, k);
            let j = choose|j: int| 0 <= j < n && ids@[j] == k;
            assert(a@.contains_key(ids@[j]));
        }
        assert(b@.dom().subset_of(a@.dom())) by {
            assert forall|k: DemuxId| #[trigger] b@.dom().contains(k) implies a@.dom().contains(k) by {
                lemma_forwarding_map_keys(ids@, heights@, n as nat, k);
                let j = choose|j: int| 0 <= j < n && ids@[j] == k;
                assert(a@.contains_key(ids@[j]));
            }
        }
        assert(b@.dom().finite());
        assert(a@.dom().finite());
        assert(b@.dom().len() == a@.dom().len());
        vstd::set_lib::lemma_subset_equality(b@.dom(), a@.dom());
        assert(a@ =~= b@);
    }
    true
}

/// A device after the SFU reports the forwarded videos `m`: it is marked as
/// forwarding or not, takes its allocated height (0 if none), forgets its
/// decoded height if no longer forwarded, and recomputes whether a higher
/// resolution is pending.
pub open spec fn forwarded_device(d: RemoteDeviceState, m: Map<DemuxId, u16>) -> RemoteDeviceState {
    let forwarding = m.contains_key(d.demux_id);
    let height: u16 = if forwarding {
        m[d.demux_id]
    } else {
        0
    };
    let decoded = if forwarding {
        d.client_decoded_height
    } else {
        None
    };
    RemoteDeviceState {
        forwarding_video: Some(forwarding),
        server_allocated_height: height,
        client_decoded_height: decoded,
        is_higher_resolution_pending: higher_resolution_pending(height, decoded),
        ..d
    }
}

/// Applies a new report of forwarded videos.  When it differs from `current`,
/// every device is updated, `current` takes the new map, and the result is
/// true; otherwise nothing changes.
pub fn handle_forwarding_video(
    devices: &mut RemoteDevices,
    current: &mut HashMap<DemuxId, u16>,
    ids: &Vec<DemuxId>,
    heights: &Vec<u32>,
) -> (changed: bool)
    ensures
        changed == (old(current)@ != forwarding_map(ids@, heights@, pair_count(ids@, heights@))),
        changed ==> final(current)@ == forwarding_map(ids@, heights@, pair_count(ids@, heights@)),
        changed ==> final(devices)@ == old(devices)@.map_values(
            |d: RemoteDeviceState| forwarded_device(d, forwarding_map(ids@, heights@, pair_count(ids@, heights@))),
        ),
        !changed ==> final(current)@ == old(current)@ && final(devices)@ == old(devices)@,
{
    let m = forwarding_videos(ids, heights);
    if same_forwarding(current, &m, ids, heights) {
        return false;
    }
    let ghost start = devices@;
    let n = devices.0.len();
    let mut i: usize = 0;
    while i < n
        invariant
            n == start.len() == devices@.len(),
            i <= n,
            forall|j: int| 0 <= j < i ==> devices@[j] == forwarded_device(#[trigger] start[j], m@),
            forall|j: int| i <= j < n ==> devices@[j] == start[j],
        decreases n - i,
    {
        let demux_id = devices.0[i].demux_id;
        let height: Option<u16> = match m.get(&demux_id) {
            Some(h) => Some(*h),
            None => None,
        };
        let d = &mut devices.0[i];
        match height {
            Some(h) => {
                d.forwarding_video = Some(true);
                d.server_allocated_height = h;
            },
            None => {
                d.forwarding_video = Some(false);
                d.server_allocated_height = 0;
                d.client_decoded_height = None;
            },
        }
        d.recalculate_higher_resolution_pending();
        i = i + 1;
    }
    assert(devices@ =~= start.map_values(|d: RemoteDeviceState| forwarded_device(d, m@)));
    *current = m;
    true
}

/// The height a request asks for: the smaller of its height and width, since
/// the SFU knows nothing of rotation and video travels in landscape.
pub open spec fn requested_height(r: VideoRequest) -> u32 {
    if r.height <= r.width {
        r.height as u32
    } else {
        r.width as u32
    }
}

/// The demux IDs and heights to ask the SFU for: the requests for devices
/// in the call, in order.
pub open spec fn requested_heights(reqs: Seq<VideoRequest>, devices: Seq<RemoteDeviceState>) -> Seq<(DemuxId, u32)>
    decreases reqs.len(),
{
    if reqs.len() == 0 {
        seq![]
    } else {
        let rest = requested_heights(reqs.drop_last(), devices);
        let r = reqs.last();
        if first_index_of(devices, r.demux_id) is Some {
            rest.push((r.demux_id, requested_height(r)))
        } else {
            rest
        }
    }
}

/// The video requests to send to the SFU.
pub fn video_request_heights(requests: &Vec<VideoRequest>, devices: &RemoteDevices) -> (r: Vec<(DemuxId, u32)>)
    ensures
        r@ == requested_heights(requests@, devices@),
{
    let mut r: Vec<(DemuxId, u32)> = Vec::new();
    let mut i: usize = 0;
    while i < requests.len()
        invariant
            i <= requests@.len(),
            r@ == requested_heights(requests@.subrange(0, i as int), devices@),
        decreases requests@.len() - i,
    {
        let request = &requests[i];
        proof {
            assert(requests@.subrange(0, i + 1).drop_last() =~= requests@.subrange(0, i as int));
        }
        if devices.contains_demux_id(request.demux_id) {
            let height: u32 = if request.height <= request.width {
                request.height as u32
            } else {
                request.width as u32
            };
            r.push((request.demux_id, height));
        }
        i = i + 1;
    }
    assert(requests@.subrange(0, requests@.len() as int) =~= requests@);
    r
}
} // verus!
