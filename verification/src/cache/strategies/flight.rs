//! Single-flight admission for read-through loads.
//!
//! A cold or expired hot key can attract many readers at once. Flight maps an
//! ID to one pending load so every reader in this process shares one
//! execution, and bounds how many distinct loads run at a time. Joining an
//! existing key never consumes capacity and is never rejected; only the first
//! caller for a new key needs a free slot.

use vstd::prelude::*;
use crate::text::str_eq;

verus! {

/// How one caller is admitted for a key.
#[derive(Debug, PartialEq, Eq, Structural)]
pub enum Admission {
    /// A load for the key is running; wait for its result.
    Join,
    /// No load for the key is running and a slot was claimed; run it.
    Start,
    /// No load for the key is running and every slot is taken.
    Overloaded,
}

/// The keys with a load in flight, and the bound on how many there may be.
#[derive(Debug)]
pub struct FlightState {
    calls: Vec<String>,
    budget: usize,
}

/// The texts of a list of strings.
pub open spec fn texts(v: Seq<String>) -> Seq<Seq<char>> {
    v.map_values(|s: String| s@)
}

impl View for FlightState {
    type V = Set<Seq<char>>;

    /// The keys with a load in flight.
    closed spec fn view(&self) -> Set<Seq<char>> {
        texts(self.calls@).to_set()
    }
}

impl FlightState {
    #[verifier::type_invariant]
    closed spec fn inv(self) -> bool {
        &&& texts(self.calls@).no_duplicates()
        &&& self.calls@.len() <= self.budget
        &&& self.budget >= 1
    }

    /// The most distinct loads that may run at once.
    pub closed spec fn spec_budget(&self) -> usize {
        self.budget
    }

    /// The number of loads in flight.
    pub closed spec fn spec_in_flight(&self) -> nat {
        self.calls@.len()
    }

    /// The number of loads in flight: each holds one slot, and no more loads
    /// than slots run.
    pub fn in_flight(&self) -> (n: usize)
        ensures
            n == self.spec_in_flight(),
            self.spec_in_flight() == self@.len(),
            self.spec_in_flight() <= self.spec_budget(),
            self.spec_budget() >= 1,
    {
        proof {
            use_type_invariant(self);
            texts(self.calls@).unique_seq_to_set();
        }
        self.calls.len()
    }

    /// A flight group with a distinct-load limit. A zero limit still permits
    /// one load; leaving it at zero would reject every cold key.
    pub fn new(concurrency: usize) -> (f: FlightState)
        ensures
            f@ == Set::<Seq<char>>::empty(),
            f.spec_in_flight() == 0,
            f.spec_budget() == if concurrency == 0 { 1 } else { concurrency },
    {
        let f = FlightState { calls: Vec::new(), budget: if concurrency == 0 { 1 } else { concurrency } };
        assert(texts(f.calls@).to_set() =~= Set::<Seq<char>>::empty());
        f
    }

    fn position(&self, key: &str) -> (r: Option<usize>)
        ensures
            r matches Some(i) ==> i < self.calls@.len() && self.calls@[i as int]@ == key@,
            r is Some ==> self@.contains(key@),
            r is None ==> !self@.contains(key@),
    {
        let mut i: usize = 0;
        while i < self.calls.len()
            invariant
                i <= self.calls@.len(),
                forall|j: int| 0 <= j < i ==> self.calls@[j]@ != key@,
            decreases self.calls@.len() - i,
        {
            if str_eq(self.calls[i].as_str(), key) {
                assert(texts(self.calls@)[i as int] == key@);
                return Some(i);
            }
            i += 1;
        }
        proof {
            if texts(self.calls@).to_set().contains(key@) {
                let j = choose|j: int| 0 <= j < texts(self.calls@).len() && texts(self.calls@)[j] == key@;
                assert(self.calls@[j]@ == key@);
            }
        }
        None
    }

    /// Admits one caller for `key`: joins a running load, or starts one when
    /// a slot is free, or refuses with `Overloaded`.
    pub fn join_or_start(&mut self, key: &str) -> (a: Admission)
        ensures
            old(self)@.contains(key@) ==> a == Admission::Join && final(self)@ == old(self)@
                && final(self).spec_in_flight() == old(self).spec_in_flight(),
            !old(self)@.contains(key@) && old(self).spec_in_flight() < old(self).spec_budget()
                ==> a == Admission::Start && final(self)@ == old(self)@.insert(key@)
                && final(self).spec_in_flight() == old(self).spec_in_flight() + 1,
            !old(self)@.contains(key@) && old(self).spec_in_flight() >= old(self).spec_budget()
                ==> a == Admission::Overloaded && final(self)@ == old(self)@
                && final(self).spec_in_flight() == old(self).spec_in_flight(),
            final(self).spec_budget() == old(self).spec_budget(),
            a == Admission::Start ==> final(self)@ == flight_step(old(self)@, (0, key@)),
            a != Admission::Start ==> final(self)@ == flight_step(old(self)@, (1, key@)),
    {
        proof { use_type_invariant(&*self); }
        if self.position(key).is_some() {
            return Admission::Join;
        }
        if self.calls.len() >= self.budget {
            return Admission::Overloaded;
        }
        let ghost before = self.calls@;
        let mut calls = Vec::new();
        std::mem::swap(&mut calls, &mut self.calls);
        calls.push(crate::text::owned(key));
        proof {
            assert(texts(calls@) =~= texts(before).push(key@));
            assert(!texts(before).contains(key@));
            assert(texts(calls@).no_duplicates()) by {
                assert forall|a: int, b: int| 0 <= a < texts(calls@).len() && 0 <= b < texts(calls@).len() && a != b
                    implies texts(calls@)[a] != texts(calls@)[b] by {
                    if a < before.len() && b < before.len() {
                        assert(texts(calls@)[a] == texts(before)[a]);
                        assert(texts(calls@)[b] == texts(before)[b]);
                    } else if a < before.len() {
                        assert(texts(calls@)[a] == texts(before)[a]);
                    } else if b < before.len() {
                        assert(texts(calls@)[b] == texts(before)[b]);
                    }
                }
            }
            texts(before).lemma_push_to_set_commute(key@);
        }
        self.calls = calls;
        Admission::Start
    }

    /// Ends the load for `key`: the key leaves the flight map before its
    /// result is published, so a later caller starts a fresh load, and its
    /// slot is freed.
    pub fn finish(&mut self, key: &str)
        ensures
            final(self)@ == old(self)@.remove(key@),
            final(self)@ == flight_step(old(self)@, (2, key@)),
            old(self)@.contains(key@) ==> final(self).spec_in_flight() + 1 == old(self).spec_in_flight(),
            !old(self)@.contains(key@) ==> final(self).spec_in_flight() == old(self).spec_in_flight(),
            final(self).spec_budget() == old(self).spec_budget(),
    {
        proof { use_type_invariant(&*self); }
        match self.position(key) {
            None => {
                assert(self@.remove(key@) =~= self@);
            },
            Some(i) => {
                let ghost before = self.calls@;
                let mut calls = Vec::new();
                std::mem::swap(&mut calls, &mut self.calls);
                calls.remove(i);
                proof {
                    assert(calls@ =~= before.remove(i as int));
                    assert(texts(calls@) =~= texts(before).remove(i as int));
                    assert(texts(calls@).no_duplicates()) by {
                        assert forall|a: int, b: int| 0 <= a < texts(calls@).len() && 0 <= b < texts(calls@).len() && a != b
                            implies texts(calls@)[a] != texts(calls@)[b] by {
                            let oa = if a < i { a } else { a + 1 };
                            let ob = if b < i { b } else { b + 1 };
                            assert(texts(calls@)[a] == texts(before)[oa]);
                            assert(texts(calls@)[b] == texts(before)[ob]);
                        }
                    }
                    assert forall|k: Seq<char>| texts(calls@).to_set().contains(k)
                        <==> texts(before).to_set().remove(key@).contains(k) by {
                        if texts(calls@).to_set().contains(k) {
                            let j = choose|j: int| 0 <= j < texts(calls@).len() && texts(calls@)[j] == k;
                            let oj = if j < i { j } else { j + 1 };
                            assert(texts(before)[oj] == k);
                            assert(texts(before)[i as int] == key@);
                            assert(oj != i);
                            assert(k != key@);
                        }
                        if texts(before).to_set().remove(key@).contains(k) {
                            let j = choose|j: int| 0 <= j < texts(before).len() && texts(before)[j] == k;
                            assert(j != i);
                            let nj = if j < i { j } else { j - 1 };
                            assert(texts(calls@)[nj] == k);
                        }
                    }
                    assert(texts(calls@).to_set() =~= texts(before).to_set().remove(key@));
                }
                self.calls = calls;
            },
        }
    }
}

/// Finishing undoes starting: a load that starts for a key not in flight
/// and then finishes leaves the keys in flight as they were.
pub proof fn law_finish_undoes_start(keys: Set<Seq<char>>, key: Seq<char>)
    requires
        !keys.contains(key),
    ensures
        keys.insert(key).remove(key) == keys,
{
    assert(keys.insert(key).remove(key) =~= keys);
}

/// What one flight event does to the keys in flight: an admission that
/// started a load adds its key (`0`), an admission that joined or was
/// refused changes nothing (`1`), and a finished load removes its key (`2`),
/// as `join_or_start` and `finish` state.
pub open spec fn flight_step(keys: Set<Seq<char>>, event: (int, Seq<char>)) -> Set<Seq<char>> {
    if event.0 == 0 {
        keys.insert(event.1)
    } else if event.0 == 2 {
        keys.remove(event.1)
    } else {
        keys
    }
}

/// The keys in flight after a sequence of events from an empty group.
pub open spec fn flight_run(events: Seq<(int, Seq<char>)>) -> Set<Seq<char>>
    decreases events.len(),
{
    if events.len() == 0 {
        Set::empty()
    } else {
        flight_step(flight_run(events.drop_last()), events.last())
    }
}

/// One run per flight: once a load has started for a key, the key stays in
/// flight until that key finishes, so every admission for it in between
/// joins the running load (`join_or_start` answers `Join` for a key in
/// flight) and never starts the work again nor is refused.
pub proof fn law_one_run_per_flight(events: Seq<(int, Seq<char>)>, i: int, j: int)
    requires
        0 <= i < j <= events.len(),
        events[i].0 == 0,
        forall|m: int| i < m < j ==> !(#[trigger] events[m].0 == 2 && events[m].1 == events[i].1),
    ensures
        flight_run(events.take(j)).contains(events[i].1),
    decreases j - i,
{
    let k = events[i].1;
    assert(events.take(j).drop_last() =~= events.take(j - 1));
    assert(events.take(j).last() == events[j - 1]);
    if j == i + 1 {
        assert(flight_run(events.take(j)) == flight_run(events.take(i)).insert(k));
    } else {
        law_one_run_per_flight(events, i, j - 1);
        assert(!(events[j - 1].0 == 2 && events[j - 1].1 == k));
    }
}

} // verus!
