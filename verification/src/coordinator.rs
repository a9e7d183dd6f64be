//! The coordinator's termination protocol: it consumes match events until
//! the requested number has been received, and at exactly that event it
//! issues the single termination broadcast to the workers.

use vstd::prelude::*;

verus! {

/// The coordinator's consumption state: the requested number of matches and
/// the number received so far.
#[derive(Debug, Clone, Copy, PartialEq, Eq, Structural)]
pub struct Coordinator {
    pub target: u64,
    pub received: u64,
}

impl Coordinator {
    /// No more events are counted than were requested.
    pub open spec fn wf(self) -> bool {
        self.received <= self.target
    }

    /// The run is complete: the requested number of matches was received.
    pub open spec fn spec_done(self) -> bool {
        self.received == self.target
    }

    /// The state after one more match event, paired with whether the
    /// termination broadcast is issued with that event.
    pub open spec fn spec_record(self) -> (Coordinator, bool)
        recommends
            self.received < self.target,
    {
        let next = Coordinator { target: self.target, received: (self.received + 1) as u64 };
        (next, next.received == next.target)
    }

    /// A fresh coordinator that will consume `target` match events.
    pub fn new(target: u64) -> (c: Coordinator)
        ensures
            c.target == target,
            c.received == 0,
            c.wf(),
            target > 0 ==> !c.spec_done(),
    {
        Coordinator { target, received: 0 }
    }

    /// The run is complete.
    pub fn is_done(&self) -> (done: bool)
        ensures
            done == self.spec_done(),
    {
        self.received == self.target
    }

    /// Count one received match event.  Returns `true` exactly when this
    /// event reaches the target, that is, exactly when the termination
    /// broadcast must be sent: once per run, with the final event.
    pub fn record_match(&mut self) -> (terminate: bool)
        requires
            old(self).wf(),
            !old(self).spec_done(),
        ensures
            (*final(self), terminate) == old(self).spec_record(),
            final(self).wf(),
            final(self).received == old(self).received + 1,
            final(self).target == old(self).target,
            terminate <==> final(self).spec_done(),
    {
        self.received = self.received + 1;
        self.received == self.target
    }
}

/// The coordinator state after a fresh coordinator with the given target has
/// consumed `n` match events.
pub open spec fn spec_run(target: u64, n: nat) -> Coordinator
    recommends
        n <= target,
    decreases n,
{
    if n == 0 {
        Coordinator { target, received: 0 }
    } else {
        spec_run(target, (n - 1) as nat).spec_record().0
    }
}

/// Coordinator protocol: consuming events one at a time, the coordinator
/// has counted every event, is done exactly at the `target`-th event, and
/// the termination broadcast accompanies that event and no earlier one.
pub proof fn lemma_coordinator_protocol(target: u64, n: nat)
    requires
        n <= target,
    ensures
        spec_run(target, n).target == target,
        spec_run(target, n).received == n,
        spec_run(target, n).spec_done() <==> n == target,
        n >= 1 ==> (spec_run(target, (n - 1) as nat).spec_record().1 <==> n == target),
    decreases n,
{
    if n >= 1 {
        lemma_coordinator_protocol(target, (n - 1) as nat);
    }
}

} // verus!
