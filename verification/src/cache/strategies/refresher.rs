//! Admission for stale background refreshes.
//!
//! Capacity is deliberately not a queue: when every slot is taken, new work
//! is declined, because the caller already has a still-servable stale value
//! and a later reader can try again. Shutdown stops admission and then waits
//! until admitted work has finished.

use vstd::prelude::*;

verus! {

/// Whether background work may start, how much is running, and the bound.
#[derive(Debug)]
pub struct RefresherState {
    closed: bool,
    running: usize,
    limit: usize,
}

impl RefresherState {
    #[verifier::type_invariant]
    closed spec fn inv(self) -> bool {
        1 <= self.limit && self.running <= self.limit
    }

    /// Whether admission has stopped.
    pub closed spec fn spec_closed(&self) -> bool {
        self.closed
    }

    /// The number of admitted tasks still running.
    pub closed spec fn spec_running(&self) -> usize {
        self.running
    }

    /// The most tasks that may run at once.
    pub closed spec fn spec_limit(&self) -> usize {
        self.limit
    }

    /// A refresher that admits up to `limit` tasks at once; a zero limit
    /// still admits one.
    pub fn new(limit: usize) -> (r: RefresherState)
        ensures
            !r.spec_closed(),
            r.spec_running() == 0,
            r.spec_limit() == if limit == 0 { 1 } else { limit },
    {
        RefresherState { closed: false, running: 0, limit: if limit == 0 { 1 } else { limit } }
    }

    /// The number of admitted tasks still running, never above the limit.
    pub fn running(&self) -> (n: usize)
        ensures
            n == self.spec_running(),
            n <= self.spec_limit(),
            1 <= self.spec_limit(),
    {
        proof { use_type_invariant(self); }
        self.running
    }

    /// Tries to admit one task without waiting. `lock_free` tells whether
    /// the caller got the state without contention; a contended, closed or
    /// full refresher declines.
    pub fn try_start(&mut self, lock_free: bool) -> (admitted: bool)
        ensures
            admitted == (lock_free && !old(self).spec_closed() && old(self).spec_running() < old(self).spec_limit()),
            admitted == refresher_admits((old(self).spec_closed(), old(self).spec_running() as nat),
                old(self).spec_limit() as nat, if lock_free { 0 } else { 1 }),
            (final(self).spec_closed(), final(self).spec_running() as nat) == refresher_step(
                (old(self).spec_closed(), old(self).spec_running() as nat), old(self).spec_limit() as nat,
                if lock_free { 0 } else { 1 }),
            admitted ==> final(self).spec_running() == old(self).spec_running() + 1,
            !admitted ==> final(self).spec_running() == old(self).spec_running(),
            final(self).spec_closed() == old(self).spec_closed(),
            final(self).spec_limit() == old(self).spec_limit(),
    {
        proof { use_type_invariant(&*self); }
        if !lock_free || self.closed || self.running >= self.limit {
            return false;
        }
        self.running = self.running + 1;
        true
    }

    /// Records that one admitted task finished; returns whether none remain.
    pub fn finish(&mut self) -> (idle: bool)
        ensures
            final(self).spec_running() == if old(self).spec_running() == 0 { 0 } else { (old(self).spec_running() - 1) as usize },
            idle == (final(self).spec_running() == 0),
            (final(self).spec_closed(), final(self).spec_running() as nat) == refresher_step(
                (old(self).spec_closed(), old(self).spec_running() as nat), old(self).spec_limit() as nat, 2),
            final(self).spec_closed() == old(self).spec_closed(),
            final(self).spec_limit() == old(self).spec_limit(),
    {
        proof { use_type_invariant(&*self); }
        if self.running > 0 {
            self.running = self.running - 1;
        }
        self.running == 0
    }

    /// Stops admission for good; returns whether nothing is running, so the
    /// drain is already complete.
    pub fn close(&mut self) -> (idle: bool)
        ensures
            final(self).spec_closed(),
            final(self).spec_running() == old(self).spec_running(),
            final(self).spec_limit() == old(self).spec_limit(),
            idle == (old(self).spec_running() == 0),
            (final(self).spec_closed(), final(self).spec_running() as nat) == refresher_step(
                (old(self).spec_closed(), old(self).spec_running() as nat), old(self).spec_limit() as nat, 3),
    {
        proof { use_type_invariant(&*self); }
        self.closed = true;
        self.running == 0
    }
}

/// What one refresher event does to (closed, running): an uncontended
/// `try_start` (`0`) admits when open with a free slot, a contended one
/// (`1`) changes nothing, `finish` (`2`) ends one task, `close` (`3`) stops
/// admission, as those functions state.
pub open spec fn refresher_step(state: (bool, nat), limit: nat, event: int) -> (bool, nat) {
    if event == 0 {
        if !state.0 && state.1 < limit { (state.0, state.1 + 1) } else { state }
    } else if event == 2 {
        (state.0, if state.1 == 0 { 0 } else { (state.1 - 1) as nat })
    } else if event == 3 {
        (true, state.1)
    } else {
        state
    }
}

/// Whether an event is admitted work: an uncontended start while open with
/// a free slot.
pub open spec fn refresher_admits(state: (bool, nat), limit: nat, event: int) -> bool {
    event == 0 && !state.0 && state.1 < limit
}

/// The state after a sequence of events from a new refresher.
pub open spec fn refresher_run(events: Seq<int>, limit: nat) -> (bool, nat)
    decreases events.len(),
{
    if events.len() == 0 {
        (false, 0)
    } else {
        refresher_step(refresher_run(events.drop_last(), limit), limit, events.last())
    }
}

/// Shutdown is final and capacity is a bound, not a queue: in any sequence
/// of events, no more tasks run than the limit, and after a close no event
/// is ever admitted again.
pub proof fn law_closed_admits_nothing(events: Seq<int>, limit: nat, c: int, j: int)
    requires
        limit >= 1,
        0 <= c < j < events.len(),
        events[c] == 3,
    ensures
        refresher_run(events.take(j), limit).1 <= limit,
        refresher_run(events.take(j), limit).0,
        !refresher_admits(refresher_run(events.take(j), limit), limit, events[j]),
    decreases j - c,
{
    lemma_running_bounded(events, limit, j);
    assert(events.take(j).drop_last() =~= events.take(j - 1));
    assert(events.take(j).last() == events[j - 1]);
    if j > c + 1 {
        law_closed_admits_nothing(events, limit, c, j - 1);
    }
}

/// No more tasks run than the limit.
proof fn lemma_running_bounded(events: Seq<int>, limit: nat, n: int)
    requires
        0 <= n <= events.len(),
    ensures
        refresher_run(events.take(n), limit).1 <= limit,
    decreases n,
{
    if n > 0 {
        lemma_running_bounded(events, limit, n - 1);
        assert(events.take(n).drop_last() =~= events.take(n - 1));
    }
}

} // verus!
