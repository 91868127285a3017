//! Single-fire shutdown coordination.
//!
//! A `ShutdownCoordinator` starts `Armed` and moves to `Fired` on the first
//! stop request (an OS termination signal, or any internal fatal condition).
//! Only that first transition asks the caller to propagate the stop — to halt
//! the tunnel client and wake the DNS task's cancellation path. Any later
//! request is a no-op.

use vstd::prelude::*;

verus! {

#[derive(Clone, Copy, Debug, PartialEq, Eq, Structural)]
pub enum CoordState {
    Armed,
    Fired,
}

/// The at-most-once state machine behind shutdown propagation: every stop
/// request lands in `Fired`, and propagation happens only on the
/// `Armed -> Fired` edge.
pub open spec fn fire_transition(s: CoordState) -> (CoordState, bool) {
    (CoordState::Fired, s == CoordState::Armed)
}

pub struct ShutdownCoordinator {
    pub state: CoordState,
}

impl ShutdownCoordinator {
    pub fn new() -> (r: ShutdownCoordinator)
        ensures
            r.state == CoordState::Armed,
    {
        ShutdownCoordinator { state: CoordState::Armed }
    }

    /// Record a stop request. Returns true exactly when the caller must
    /// propagate it (stop the client, broadcast the shutdown signal, release
    /// the signal listener); a repeated request returns false.
    pub fn fire(&mut self) -> (propagate: bool)
        ensures
            (final(self).state, propagate) == fire_transition(old(self).state),
    {
        let was_armed = matches!(self.state, CoordState::Armed);
        self.state = CoordState::Fired;
        was_armed
    }

    pub fn is_fired(&self) -> (r: bool)
        ensures
            r == (self.state == CoordState::Fired),
    {
        matches!(self.state, CoordState::Fired)
    }
}

/// Law: however many stop requests arrive, exactly one of them propagates.
/// From any starting state, the first fire propagates exactly when the
/// coordinator was still armed, and every fire after the first is a no-op
/// that never propagates again.
pub proof fn lemma_fire_at_most_once(s: CoordState)
    ensures
        ({
            let (s1, p1) = fire_transition(s);
            let (s2, p2) = fire_transition(s1);
            &&& (s == CoordState::Armed ==> p1)
            &&& s1 == CoordState::Fired
            &&& !p2
            &&& s2 == CoordState::Fired
        }),
{
}

} // verus!
