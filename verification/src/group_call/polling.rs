//! When to ask the SFU for the list of remote devices.

use vstd::prelude::*;

verus! {

/// Milliseconds to wait for a response, or after a failure, before asking
/// again.
pub const REMOTE_DEVICES_RETRY_MS: u64 = 5000;

/// At most one request for remote devices is pending at a time.  Times are
/// milliseconds on a monotonic clock.
#[derive(Debug, Clone, Copy, PartialEq, Eq, Structural)]
pub enum RemoteDevicesRequestState {
    WaitingForMembershipProof,
    NeverRequested,
    Requested {
        /// While waiting, something happened that makes us ask again.
        should_request_again: bool,
        at: u64,
    },
    Updated { at: u64 },
    Failed { at: u64 },
}

/// Whether `now` is more than `wait` after `at`.
pub open spec fn waited_more(now: u64, at: u64, wait: u64) -> bool {
    now > at + wait
}

/// Whether to request now, given data may be at most `max_age` old.
pub open spec fn should_request_now(s: RemoteDevicesRequestState, now: u64, max_age: u64) -> bool {
    match s {
        RemoteDevicesRequestState::WaitingForMembershipProof => false,
        RemoteDevicesRequestState::NeverRequested => true,
        RemoteDevicesRequestState::Requested { at, .. } => waited_more(now, at, REMOTE_DEVICES_RETRY_MS),
        RemoteDevicesRequestState::Updated { at } => now >= at + max_age,
        RemoteDevicesRequestState::Failed { at } => waited_more(now, at, REMOTE_DEVICES_RETRY_MS),
    }
}

/// The state after considering a request, and whether to request now.
pub open spec fn maybe_request(
    s: RemoteDevicesRequestState,
    now: u64,
    max_age: u64,
    rerequest_if_pending: bool,
) -> (RemoteDevicesRequestState, bool) {
    if should_request_now(s, now, max_age) {
        (RemoteDevicesRequestState::Requested { should_request_again: false, at: now }, true)
    } else if rerequest_if_pending {
        match s {
            RemoteDevicesRequestState::Requested { at, .. } => (
                RemoteDevicesRequestState::Requested { should_request_again: true, at },
                false,
            ),
            _ => (s, false),
        }
    } else {
        (s, false)
    }
}

fn later_than(now: u64, at: u64, wait: u64) -> (r: bool)
    ensures
        r == (now > at + wait),
{
    now > at && now - at > wait
}

impl RemoteDevicesRequestState {
    /// Decides whether to ask the SFU for remote devices now (see
    /// `maybe_request`): never before a membership proof; at once if never
    /// asked; after a timeout while a request is pending or after a
    /// failure; once the last update is `max_age` old.  A request asked for
    /// while one is pending may be remembered to be made after it.
    pub fn maybe_request(self, now: u64, max_age: u64, rerequest_if_pending: bool) -> (r: (RemoteDevicesRequestState, bool))
        ensures
            r == maybe_request(self, now, max_age, rerequest_if_pending),
    {
        let request_now = match self {
            RemoteDevicesRequestState::WaitingForMembershipProof => false,
            RemoteDevicesRequestState::NeverRequested => true,
            RemoteDevicesRequestState::Requested { at, .. } => later_than(now, at, REMOTE_DEVICES_RETRY_MS),
            RemoteDevicesRequestState::Updated { at } => now >= at && now - at >= max_age,
            RemoteDevicesRequestState::Failed { at } => later_than(now, at, REMOTE_DEVICES_RETRY_MS),
        };
        if request_now {
            (RemoteDevicesRequestState::Requested { should_request_again: false, at: now }, true)
        } else if rerequest_if_pending {
            match self {
                RemoteDevicesRequestState::Requested { at, .. } => (
                    RemoteDevicesRequestState::Requested { should_request_again: true, at },
                    false,
                ),
                _ => (self, false),
            }
        } else {
            (self, false)
        }
    }

    /// The state after a peek result arrives, and whether to ask again at
    /// once because a request was asked for while this one was pending.
    pub fn on_peek_result(self, succeeded: bool, now: u64) -> (r: (RemoteDevicesRequestState, bool))
        ensures
            r == (if succeeded {
                (
                    RemoteDevicesRequestState::Updated { at: now },
                    self matches RemoteDevicesRequestState::Requested { should_request_again: true, .. },
                )
            } else {
                (RemoteDevicesRequestState::Failed { at: now }, false)
            }),
    {
        if succeeded {
            let again = match self {
                RemoteDevicesRequestState::Requested { should_request_again, .. } => should_request_again,
                _ => false,
            };
            (RemoteDevicesRequestState::Updated { at: now }, again)
        } else {
            (RemoteDevicesRequestState::Failed { at: now }, false)
        }
    }

    /// The state once a membership proof arrives, and whether to request
    /// remote devices as soon as possible.
    pub fn on_membership_proof(self) -> (r: (RemoteDevicesRequestState, bool))
        ensures
            r == (if self is WaitingForMembershipProof {
                (RemoteDevicesRequestState::NeverRequested, true)
            } else {
                (self, false)
            }),
    {
        match self {
            RemoteDevicesRequestState::WaitingForMembershipProof => (RemoteDevicesRequestState::NeverRequested, true),
            _ => (self, false),
        }
    }
}

/// At most one request is pending: none is made before a membership proof,
/// nor while one is pending and has not timed out; a request asked for in
/// the meantime is only remembered.
pub proof fn law_one_pending_request(s: RemoteDevicesRequestState, now: u64, max_age: u64, rerequest_if_pending: bool)
    ensures
        s is WaitingForMembershipProof ==> maybe_request(s, now, max_age, rerequest_if_pending) == (s, false),
        (s matches RemoteDevicesRequestState::Requested { at, .. } && !waited_more(now, at, REMOTE_DEVICES_RETRY_MS))
            ==> !maybe_request(s, now, max_age, rerequest_if_pending).1
            && maybe_request(s, now, max_age, rerequest_if_pending).0 is Requested,
        maybe_request(s, now, max_age, rerequest_if_pending).1 ==> maybe_request(s, now, max_age, rerequest_if_pending).0
            == (RemoteDevicesRequestState::Requested { should_request_again: false, at: now }),
{
}
} // verus!
