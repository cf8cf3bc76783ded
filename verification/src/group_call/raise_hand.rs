//! Raised hands, remote mute requests and reactions.

use vstd::prelude::*;
use vstd::string::StringSliceAdditionalSpecFns;
use super::{DemuxId, JoinState};

verus! {

/// The local device's hand raise requests.
#[derive(Clone, Copy, Debug, PartialEq, Eq, Structural)]
pub struct RaiseHandState {
    pub seqnum: u32,
    pub raise: bool,
    pub outstanding: bool,
}

/// Whether two lists of demux IDs are equal.
pub fn demux_ids_eq(a: &Vec<DemuxId>, b: &Vec<DemuxId>) -> (r: bool)
    ensures
        r == (a@ == b@),
{
    if a.len() != b.len() {
        return false;
    }
    let mut i: usize = 0;
    while i < a.len()
        invariant
            a@.len() == b@.len(),
            i <= a@.len(),
            forall|j: int| 0 <= j < i ==> a@[j] == b@[j],
        decreases a@.len() - i,
    {
        if a[i] != b[i] {
            return false;
        }
        i = i + 1;
    }
    assert(a@ =~= b@);
    true
}

/// The raise hand state and the raised hands after the SFU reports its list
/// for its latest sequence number, and whether the observer is told.
pub open spec fn raised_hands_update(
    s: RaiseHandState,
    current: Seq<DemuxId>,
    reported: Seq<DemuxId>,
    server_seqnum: u32,
) -> (RaiseHandState, Seq<DemuxId>, bool) {
    if server_seqnum != 0 {
        if server_seqnum >= s.seqnum {
            let s1 = RaiseHandState { seqnum: server_seqnum, ..s };
            if s.outstanding {
                (RaiseHandState { outstanding: false, ..s1 }, reported, true)
            } else if current != reported {
                (s1, reported, true)
            } else {
                (s1, current, false)
            }
        } else {
            (s, current, false)
        }
    } else if s.seqnum == 0 && current != reported {
        (s, reported, true)
    } else {
        (s, current, false)
    }
}

impl RaiseHandState {
    pub fn new() -> (r: RaiseHandState)
        ensures
            r == (RaiseHandState { seqnum: 0, raise: false, outstanding: false }),
    {
        RaiseHandState { seqnum: 0, raise: false, outstanding: false }
    }

    /// A new request to raise or lower the hand, outstanding until the SFU
    /// acknowledges it.
    pub fn raise_hand(self, raise: bool) -> (r: RaiseHandState)
        requires
            self.seqnum < u32::MAX,
        ensures
            r == (RaiseHandState { seqnum: (self.seqnum + 1) as u32, raise, outstanding: true }),
    {
        RaiseHandState { seqnum: self.seqnum + 1, raise, outstanding: true }
    }

    /// Handles the raised hands the SFU reports (see `raised_hands_update`):
    /// a report at least as new as the local request settles an outstanding
    /// request, and the observer is told when the request settles or the
    /// list changes.
    pub fn handle_raised_hands(
        self,
        current: &Vec<DemuxId>,
        reported: Vec<DemuxId>,
        server_seqnum: u32,
    ) -> (r: (RaiseHandState, Option<Vec<DemuxId>>))
        ensures
            ({
                let (s, list, notify) = raised_hands_update(self, current@, reported@, server_seqnum);
                &&& r.0 == s
                &&& match r.1 {
                    Some(l) => l@ == list && list == reported@,
                    None => list == current@,
                }
                &&& r.1 is Some == notify
            }),
    {
        if server_seqnum != 0 {
            if server_seqnum >= self.seqnum {
                let s1 = RaiseHandState { seqnum: server_seqnum, ..self };
                if self.outstanding {
                    (RaiseHandState { outstanding: false, ..s1 }, Some(reported))
                } else if !demux_ids_eq(current, &reported) {
                    (s1, Some(reported))
                } else {
                    (s1, None)
                }
            } else {
                (self, None)
            }
        } else if self.seqnum == 0 && !demux_ids_eq(current, &reported) {
            (self, Some(reported))
        } else {
            (self, None)
        }
    }
}

/// The pending remote mute request after one arrives from `source` for
/// `target`: only the first request in a tick, aimed at the local device by
/// another device of a joined or pending call, is kept.
pub fn accept_remote_mute_request(
    join_state: JoinState,
    pending: Option<DemuxId>,
    source: DemuxId,
    target: DemuxId,
) -> (r: Option<DemuxId>)
    ensures
        r == (match join_state.local_demux_id_spec() {
            Some(local) => if local == target && pending is None && source != local {
                Some(source)
            } else {
                pending
            },
            None => pending,
        }),
{
    match join_state.local_demux_id() {
        Some(local) => {
            if local == target && pending.is_none() && source != local {
                Some(source)
            } else {
                pending
            }
        },
        None => pending,
    }
}

/// The longest reaction, in bytes.
pub const REACTION_STRING_MAX_SIZE: usize = 256;

/// Whether a reaction may be sent or accepted: not empty and at most 256
/// bytes.
pub fn reaction_value_is_valid(value: &str) -> (b: bool)
    ensures
        b == (0 < value.spec_bytes().len() <= REACTION_STRING_MAX_SIZE),
{
    let n = value.as_bytes().len();
    n > 0 && n <= REACTION_STRING_MAX_SIZE
}

/// How the SFU's report of raised hands is taken.  A report for a sequence
/// number of at least the local one (and not zero) is adopted: it settles
/// an outstanding request, which is always reported; with none outstanding
/// the list is reported exactly when it differs from the current one.  An
/// older report changes nothing.  A report without a sequence number is
/// taken only before the local device ever asked, when it differs.  Whatever is reported is the SFU's list,
/// and the list kept is the reported one whenever it is reported.
pub proof fn law_raised_hands_reported_when_changed(
    s: RaiseHandState,
    current: Seq<DemuxId>,
    reported: Seq<DemuxId>,
    server_seqnum: u32,
)
    ensures
        ({
            let (next, list, notify) = raised_hands_update(s, current, reported, server_seqnum);
            &&& (server_seqnum != 0 && server_seqnum >= s.seqnum) ==> {
                &&& next.seqnum == server_seqnum && next.raise == s.raise && !next.outstanding
                &&& s.outstanding ==> notify
                &&& !s.outstanding ==> (notify <==> current != reported)
            }
            &&& (server_seqnum != 0 && server_seqnum < s.seqnum) ==> next == s && !notify && list == current
            &&& server_seqnum == 0 ==> next == s && (notify <==> s.seqnum == 0 && current != reported)
            &&& notify ==> list == reported
            &&& !notify ==> list == current
            &&& !notify ==> next.seqnum == s.seqnum || server_seqnum != 0
        }),
{
}

} // verus!
