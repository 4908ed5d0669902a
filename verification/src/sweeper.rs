//! The per-server liveness state machine.
//!
//! Every registered server is either up or down.  A sweep pass compares the
//! silence since the server's last heartbeat with the liveness threshold and
//! reports a transition where the verdict differs from the recorded state.

use crate::id::ServerId;
use vstd::prelude::*;

verus! {

/// Silence, in nanoseconds, after which a server is considered down.
pub const LIVENESS_THRESHOLD_NANOS: u64 = 10_000_000_000;

/// Pause, in seconds, between two sweep passes.
pub const SWEEP_INTERVAL_SECS: u64 = 5;

/// The state of one server.
#[derive(Clone, Copy, PartialEq, Eq, Structural, Debug)]
pub enum Health {
    Up,
    Down,
}

/// What the store keeps for one server: the reading of the monotonic clock, in
/// nanoseconds, at its last heartbeat, and the state that the last sweep pass
/// left it in.
#[derive(Clone, Copy, PartialEq, Eq, Structural, Debug)]
pub struct LivenessEntry {
    pub last_seen: u64,
    pub health: Health,
}

/// A change of state that a sweep pass found, to be announced once.
#[derive(Clone, Copy, PartialEq, Eq, Structural, Debug)]
pub struct Transition {
    pub id: ServerId,
    pub to: Health,
}

/// Time elapsed from `last_seen` to `now`; zero when `last_seen` is the later one.
pub open spec fn elapsed(now: u64, last_seen: u64) -> int {
    if now >= last_seen {
        now - last_seen
    } else {
        0
    }
}

/// Whether the silence since `last_seen` strictly exceeds the liveness threshold.
pub open spec fn overdue(now: u64, last_seen: u64) -> bool {
    elapsed(now, last_seen) > LIVENESS_THRESHOLD_NANOS
}

/// The state that a sweep pass at `now` finds for a server last heard at `last_seen`.
pub open spec fn verdict(now: u64, last_seen: u64) -> Health {
    if overdue(now, last_seen) {
        Health::Down
    } else {
        Health::Up
    }
}

/// An entry after a sweep pass at `now`: the heartbeat time stays, the state
/// becomes the verdict.
pub open spec fn judged(now: u64, entry: LivenessEntry) -> LivenessEntry {
    LivenessEntry { last_seen: entry.last_seen, health: verdict(now, entry.last_seen) }
}

/// The new state where a sweep pass at `now` changes the entry's state, `None`
/// where it leaves the state as it is.
pub open spec fn change(now: u64, entry: LivenessEntry) -> Option<Health> {
    if verdict(now, entry.last_seen) != entry.health {
        Some(verdict(now, entry.last_seen))
    } else {
        None
    }
}

/// Decides whether the silence since `last_seen` exceeds the threshold.  Exactly
/// ten seconds of silence are still within it.
pub fn is_overdue(now: u64, last_seen: u64) -> (r: bool)
    ensures
        r == overdue(now, last_seen),
{
    now > last_seen && now - last_seen > LIVENESS_THRESHOLD_NANOS
}

/// One step of the state machine: the state to move to, if the entry's state
/// has to change at `now`.
pub fn decide(now: u64, entry: LivenessEntry) -> (r: Option<Health>)
    ensures
        r == change(now, entry),
{
    let late = is_overdue(now, entry.last_seen);
    match entry.health {
        Health::Up => if late {
            Some(Health::Down)
        } else {
            None
        },
        Health::Down => if late {
            None
        } else {
            Some(Health::Up)
        },
    }
}

} // verus!
