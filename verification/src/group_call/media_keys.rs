//! Media send keys: rotating them when someone leaves, and how they are sent
//! to the other users.

use vstd::prelude::*;
use super::{GroupCallKind, UserId};
use crate::util::bytes::bytes_eq;

verus! {

/// Rotating the media send key when a user leaves: a new key is made and
/// sent, and only applied after a delay, so that everyone has it first.
#[derive(Clone, Copy, Debug, PartialEq, Eq)]
pub enum KeyRotationState<S> {
    /// The last key made has been applied.
    Applied,
    /// A key was made and sent but is not applied yet; another rotation was
    /// asked for in the meantime if `needs_another_rotation`.
    Pending { secret: S, needs_another_rotation: bool },
}

impl<S: Copy> KeyRotationState<S> {
    /// Someone left.  Returns the state and whether to make and send a new
    /// key now: only when the last one was applied; otherwise another
    /// rotation is remembered for when the pending key is applied.
    pub fn rotation_requested(self) -> (r: (KeyRotationState<S>, bool))
        ensures
            r == match self {
                KeyRotationState::Applied => (KeyRotationState::Applied, true),
                KeyRotationState::Pending { secret, .. } => (
                    KeyRotationState::Pending { secret, needs_another_rotation: true },
                    false,
                ),
            },
    {
        match self {
            KeyRotationState::Applied => (KeyRotationState::Applied, true),
            KeyRotationState::Pending { secret, .. } => (
                KeyRotationState::Pending { secret, needs_another_rotation: true },
                false,
            ),
        }
    }

    /// A new key was made and sent; it waits to be applied.
    pub fn key_made(self, secret: S) -> (r: KeyRotationState<S>)
        requires
            self is Applied,
        ensures
            r == (KeyRotationState::Pending { secret, needs_another_rotation: false }),
    {
        KeyRotationState::Pending { secret, needs_another_rotation: false }
    }

    /// The delay passed.  Returns the state, the key to apply, and whether
    /// to rotate again at once.
    pub fn delay_passed(self) -> (r: (KeyRotationState<S>, Option<S>, bool))
        ensures
            r == match self {
                KeyRotationState::Pending { secret, needs_another_rotation } => (
                    KeyRotationState::<S>::Applied,
                    Some(secret),
                    needs_another_rotation,
                ),
                KeyRotationState::Applied => (KeyRotationState::<S>::Applied, None::<S>, false),
            },
    {
        match self {
            KeyRotationState::Pending { secret, needs_another_rotation } => (
                KeyRotationState::Applied,
                Some(secret),
                needs_another_rotation,
            ),
            KeyRotationState::Applied => (KeyRotationState::Applied, None, false),
        }
    }
}

/// The state after `n` requests for rotation, none of which makes a key.
pub open spec fn after_requests<S>(s: KeyRotationState<S>, n: nat) -> KeyRotationState<S>
    decreases n,
{
    if n == 0 {
        s
    } else {
        match after_requests(s, (n - 1) as nat) {
            KeyRotationState::Applied => KeyRotationState::Applied,
            KeyRotationState::Pending { secret, .. } => KeyRotationState::Pending {
                secret,
                needs_another_rotation: true,
            },
        }
    }
}

/// While a key is pending no other key is made, and no request is lost: the
/// pending key is the one applied, and another rotation follows exactly when
/// someone left in the meantime.
pub proof fn law_pending_key_rotation<S>(secret: S, n: nat)
    ensures
        ({
            let s = after_requests(KeyRotationState::Pending { secret, needs_another_rotation: false }, n);
            &&& s == (KeyRotationState::Pending { secret, needs_another_rotation: n > 0 })
        }),
    decreases n,
{
    if n > 0 {
        law_pending_key_rotation(secret, (n - 1) as nat);
    }
}

/// How a media key goes to its recipients.
#[derive(Clone, Copy, Debug, PartialEq, Eq)]
pub enum KeyRoute {
    /// None to send to.
    Nobody,
    /// One message to the group.
    Group,
    /// One message to an ad hoc group of the recipients, if endorsements for
    /// them can be had (else one message to each).
    AdhocGroup,
    /// One message to each recipient.
    Individually,
}

/// The route for a media key: nothing for no recipients; the group for a
/// Signal group with more than one; an ad hoc group for a call link whose
/// endorsements are known; otherwise each recipient alone.
pub open spec fn key_route_for(kind: GroupCallKind, has_endorsements: bool, recipient_count: nat) -> KeyRoute {
    if recipient_count == 0 {
        KeyRoute::Nobody
    } else if kind == GroupCallKind::SignalGroup && recipient_count > 1 {
        KeyRoute::Group
    } else if kind == GroupCallKind::CallLink && has_endorsements {
        KeyRoute::AdhocGroup
    } else {
        KeyRoute::Individually
    }
}

/// The route for a media key (see `key_route_for`).
pub fn key_route(kind: GroupCallKind, has_endorsements: bool, recipient_count: usize) -> (r: KeyRoute)
    ensures
        r == key_route_for(kind, has_endorsements, recipient_count as nat),
{
    if recipient_count == 0 {
        KeyRoute::Nobody
    } else {
        match kind {
            GroupCallKind::SignalGroup => if recipient_count > 1 {
                KeyRoute::Group
            } else {
                KeyRoute::Individually
            },
            GroupCallKind::CallLink => if has_endorsements {
                KeyRoute::AdhocGroup
            } else {
                KeyRoute::Individually
            },
        }
    }
}

/// The recipients other than `own`, in order.
pub open spec fn others(recipients: Seq<Seq<u8>>, own: Seq<u8>) -> Seq<Seq<u8>>
    decreases recipients.len(),
{
    if recipients.len() == 0 {
        seq![]
    } else if recipients.last() == own {
        others(recipients.drop_last(), own)
    } else {
        others(recipients.drop_last(), own).push(recipients.last())
    }
}

/// The user IDs as byte sequences.
pub open spec fn user_ids(v: Seq<UserId>) -> Seq<Seq<u8>> {
    v.map_values(|u: UserId| u@)
}

/// Splits the local user off the recipients: a group or ad hoc group message
/// must not go to oneself, so the local user, if among them, gets a message
/// of its own.  Returns the other recipients and whether the local user was
/// among them.
pub fn split_own_user(recipients: Vec<UserId>, own: &Option<UserId>) -> (r: (Vec<UserId>, bool))
    ensures
        match own {
            Some(o) => user_ids(r.0@) == others(user_ids(recipients@), o@)
                && r.1 == user_ids(recipients@).contains(o@),
            None => r.0@ == recipients@ && !r.1,
        },
{
    match own {
        None => (recipients, false),
        Some(o) => {
            let ghost all = user_ids(recipients@);
            let mut rest: Vec<UserId> = Vec::new();
            let mut found = false;
            let mut i: usize = 0;
            let n = recipients.len();
            while i < n
                invariant
                    n == recipients@.len() == all.len(),
                    all == user_ids(recipients@),
                    i <= n,
                    user_ids(rest@) == others(all.subrange(0, i as int), o@),
                    found == all.subrange(0, i as int).contains(o@),
                decreases n - i,
            {
                let u = &recipients[i];
                proof {
                    assert(all.subrange(0, i + 1).drop_last() =~= all.subrange(0, i as int));
                    assert(all.subrange(0, i + 1).last() == u@);
                }
                if bytes_eq(u.as_slice(), o.as_slice()) {
                    found = true;
                    proof {
                        assert(all.subrange(0, i + 1)[i as int] == o@);
                    }
                } else {
                    let ghost before = rest@;
                    rest.push(crate::util::bytes::copy_bytes(u));
                    assert(user_ids(rest@) =~= user_ids(before).push(u@));
                    proof {
                        if all.subrange(0, i + 1).contains(o@) {
                            let k = choose|k: int| 0 <= k < i + 1 && #[trigger] all.subrange(0, i + 1)[k] == o@;
                            assert(all.subrange(0, i as int)[k] == o@);
                        }
                    }
                }
                proof {
                    if all.subrange(0, i as int).contains(o@) {
                        let k = choose|k: int| 0 <= k < i && #[trigger] all.subrange(0, i as int)[k] == o@;
                        assert(all.subrange(0, i + 1)[k] == o@);
                    }
                }
                i = i + 1;
            }
            assert(all.subrange(0, n as int) =~= all);
            (rest, found)
        },
    }
}

/// Keeps a media receive key from a device that isn't known yet, to be
/// tried again after the next peek.  Returns whether to ask the app for the
/// group members again: for a Signal group call, when this is the first key
/// waiting (later ones wait for the same answer).
pub fn store_pending_receive_key<K>(pending: &mut Vec<K>, key: K, kind: GroupCallKind) -> (r: bool)
    ensures
        final(pending)@ == old(pending)@.push(key),
        r == (old(pending)@.len() == 0 && kind == GroupCallKind::SignalGroup),
{
    let request_group_members = pending.len() == 0 && matches!(kind, GroupCallKind::SignalGroup);
    pending.push(key);
    request_group_members
}

} // verus!
