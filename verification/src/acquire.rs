//! Waiting for the tunnel client to be assigned an address.
//!
//! The client publishes a whole-value snapshot of its connection state; this
//! module decides, from one snapshot and the time elapsed, whether the wait
//! is over. The caller polls the live status object at a fixed interval and
//! sleeps between polls; `acquire_from_polls` is the same decision procedure
//! run over an already-recorded sequence of snapshots, one per interval.

use crate::ip::Ipv4;
use vstd::prelude::*;

verus! {

/// Milliseconds between two looks at the status snapshot.
pub const POLL_INTERVAL_MS: u64 = 200;

/// Milliseconds after which the wait is abandoned and the process runs
/// without DNS service.
pub const ACQUIRE_TIMEOUT_MS: u64 = 10000;

#[derive(Clone, Copy, Debug, PartialEq, Eq, Structural)]
pub enum ConnectState {
    Disconnected,
    Connecting,
    Connected,
    Stopped,
}

/// One atomically-published snapshot of the client's connection status.
#[derive(Clone, Copy, Debug, PartialEq, Eq, Structural)]
pub struct StatusSnapshot {
    pub state: ConnectState,
    pub assigned: Ipv4,
}

/// An address is usable once the client is connected and the address is not
/// the all-zero placeholder.
pub open spec fn snapshot_ready(s: StatusSnapshot) -> bool {
    s.state == ConnectState::Connected && !s.assigned.is_unspecified()
}

#[derive(Clone, Copy, Debug, PartialEq, Eq, Structural)]
pub enum PollDecision {
    /// The snapshot carries a usable address: stop polling and use it.
    Ready(Ipv4),
    /// No address appeared within the timeout: stop polling, run without DNS.
    TimedOut,
    /// Keep waiting: sleep one interval and look again.
    Poll,
}

/// Decide what one look at the status means. The snapshot is examined before
/// the clock, so an address that appears right at the deadline still wins.
pub fn poll_decision(snap: StatusSnapshot, elapsed_ms: u64) -> (d: PollDecision)
    ensures
        snapshot_ready(snap) ==> d == PollDecision::Ready(snap.assigned),
        !snapshot_ready(snap) && elapsed_ms > ACQUIRE_TIMEOUT_MS ==> d == PollDecision::TimedOut,
        !snapshot_ready(snap) && elapsed_ms <= ACQUIRE_TIMEOUT_MS ==> d == PollDecision::Poll,
{
    let zero = Ipv4 { a: 0, b: 0, c: 0, d: 0 };
    if matches!(snap.state, ConnectState::Connected) && !(snap.assigned == zero) {
        PollDecision::Ready(snap.assigned)
    } else if elapsed_ms > ACQUIRE_TIMEOUT_MS {
        PollDecision::TimedOut
    } else {
        PollDecision::Poll
    }
}

/// The index of the first ready snapshot in `t[from..n]`, or `n` if none.
pub open spec fn first_ready_from(t: Seq<StatusSnapshot>, from: int, n: int) -> int
    decreases n - from,
{
    if from >= n {
        n
    } else if snapshot_ready(t[from]) {
        from
    } else {
        first_ready_from(t, from + 1, n)
    }
}

/// What the first-ready index means: it lies in `[from, n]`, everything
/// before it is not ready, and when it lies below `n` it points at a ready
/// snapshot — so the acquirer returns the earliest usable address and never
/// skips one.
pub proof fn lemma_first_ready_from_spec(t: Seq<StatusSnapshot>, from: int, n: int)
    requires
        0 <= from <= n,
    ensures
        from <= first_ready_from(t, from, n) <= n,
        first_ready_from(t, from, n) < n ==> snapshot_ready(t[first_ready_from(t, from, n)]),
        forall|j: int|
            from <= j < first_ready_from(t, from, n) ==> !snapshot_ready(#[trigger] t[j]),
    decreases n - from,
{
    if from >= n {
    } else if snapshot_ready(t[from]) {
    } else {
        lemma_first_ready_from_spec(t, from + 1, n);
    }
}

/// How many polls fit before the wait gives up: one per interval while the
/// elapsed time has not passed the timeout, plus the final look taken
/// together with the timeout check.
pub open spec fn max_polls() -> int {
    ACQUIRE_TIMEOUT_MS as int / POLL_INTERVAL_MS as int + 2
}

/// Run the acquisition decision over recorded snapshots, poll `i` standing
/// for the status seen `i` intervals after the wait began. Returns the first
/// usable address seen before the timeout decision falls, `None` when the
/// timeout (or the end of the recording) comes first.
pub fn acquire_from_polls(trace: &Vec<StatusSnapshot>) -> (r: Option<Ipv4>)
    ensures
        ({
            let n = if trace@.len() < max_polls() {
                trace@.len() as int
            } else {
                max_polls()
            };
            let f = first_ready_from(trace@, 0, n);
            if f < n {
                r == Some(trace@[f].assigned)
            } else {
                r is None
            }
        }),
{
    let ghost n: int = if trace@.len() < max_polls() {
        trace@.len() as int
    } else {
        max_polls()
    };
    let mut i: usize = 0;
    while i < trace.len()
        invariant
            i <= trace@.len(),
            (i as int) < max_polls(),
            n == if trace@.len() < max_polls() {
                trace@.len() as int
            } else {
                max_polls()
            },
            first_ready_from(trace@, 0, n) == first_ready_from(trace@, i as int, n),
        decreases trace@.len() - i,
    {
        let snap = trace[i];
        match poll_decision(snap, (i as u64) * POLL_INTERVAL_MS) {
            PollDecision::Ready(addr) => {
                proof {
                    assert(first_ready_from(trace@, i as int, n) == i as int);
                }
                return Some(addr);
            },
            PollDecision::TimedOut => {
                proof {
                    if (i as int) < n {
                        assert(first_ready_from(trace@, i as int, n) == first_ready_from(
                            trace@,
                            i as int + 1,
                            n,
                        ));
                        assert(first_ready_from(trace@, i as int + 1, n) == n);
                    }
                }
                return None;
            },
            PollDecision::Poll => {
                proof {
                    if (i as int) < n {
                        assert(first_ready_from(trace@, i as int, n) == first_ready_from(
                            trace@,
                            i as int + 1,
                            n,
                        ));
                    }
                }
                i = i + 1;
            },
        }
    }
    proof {
        assert(first_ready_from(trace@, n, n) == n);
    }
    None
}

} // verus!
