//! The liveness tracker of one connection: the time of the last activity
//! seen from the peer, held against a fixed timeout.
//!
//! Times are readings of a monotonic clock in milliseconds, counted from an
//! origin that the caller fixes once.

use vstd::prelude::*;

verus! {

/// A connection that has been silent for this long is considered dead.
pub const CLIENT_TIMEOUT_MS: u64 = 30_000;

/// The interval at which a session probes its own liveness and pings its
/// peer.
pub const HEARTBEAT_INTERVAL_MS: u64 = 5_000;

/// The time for which nothing has been heard at `now`, if the last activity
/// was at `last`. A reading before `last` counts as no silence at all.
pub open spec fn silence(last: u64, now: u64) -> nat {
    if now >= last {
        (now - last) as nat
    } else {
        0
    }
}

/// Whether a connection last heard of at `last` counts as alive at `now`.
pub open spec fn alive_at(last: u64, now: u64) -> bool {
    silence(last, now) < CLIENT_TIMEOUT_MS
}

/// The time of the last activity of one connection.
#[derive(Debug, Clone, Copy, PartialEq, Eq)]
pub struct Heartbeat {
    last_heartbeat: u64,
}

impl View for Heartbeat {
    type V = u64;

    /// The time of the last activity.
    closed spec fn view(&self) -> u64 {
        self.last_heartbeat
    }
}

impl Heartbeat {
    /// A tracker for a connection that is first heard of at `now`.
    pub fn new(now: u64) -> (heartbeat: Self)
        ensures
            heartbeat@ == now,
    {
        Heartbeat { last_heartbeat: now }
    }

    /// Records activity at `now`.
    pub fn heartbeat(&mut self, now: u64)
        ensures
            final(self)@ == now,
    {
        self.last_heartbeat = now;
    }

    /// Whether the connection counts as alive at `now`: it was heard of
    /// less than the timeout ago.
    pub fn is_alive(&self, now: u64) -> (alive: bool)
        ensures
            alive == alive_at(self@, now),
    {
        if now >= self.last_heartbeat {
            now - self.last_heartbeat < CLIENT_TIMEOUT_MS
        } else {
            true
        }
    }

    /// The time of the last activity.
    pub fn last_heartbeat(&self) -> (last: u64)
        ensures
            last == self@,
    {
        self.last_heartbeat
    }
}

} // verus!
