use vstd::prelude::*;

use crate::event::Event;

verus! {

/// The counted delta of each measured event: one entry per distinct event.
#[derive(Debug, Clone, Copy, PartialEq, Eq, Structural)]
pub struct Results {
    cycles: Option<u64>,
    instructions: Option<u64>,
    branches: Option<u64>,
    branch_misses: Option<u64>,
}

impl Results {
    /// The entry held for one event.
    pub closed spec fn slot(&self, e: Event) -> Option<u64> {
        match e {
            Event::Cycles => self.cycles,
            Event::Instructions => self.instructions,
            Event::Branches => self.branches,
            Event::BranchMisses => self.branch_misses,
        }
    }
}

/// The place of an event in declaration order.
pub open spec fn event_rank(e: Event) -> int {
    match e {
        Event::Cycles => 0,
        Event::Instructions => 1,
        Event::Branches => 2,
        Event::BranchMisses => 3,
    }
}

impl View for Results {
    type V = Map<Event, u64>;

    closed spec fn view(&self) -> Map<Event, u64> {
        Map::new(|e: Event| self.slot(e) is Some, |e: Event| self.slot(e)->0)
    }
}

impl Results {
    /// A mapping with no entries.
    pub fn new() -> (r: Results)
        ensures
            r@ == Map::<Event, u64>::empty(),
    {
        let r = Results { cycles: None, instructions: None, branches: None, branch_misses: None };
        assert(r@ =~= Map::<Event, u64>::empty());
        r
    }

    /// Records `v` for `e`, replacing any earlier entry.
    pub fn set(&mut self, e: Event, v: u64)
        ensures
            final(self)@ == old(self)@.insert(e, v),
    {
        match e {
            Event::Cycles => self.cycles = Some(v),
            Event::Instructions => self.instructions = Some(v),
            Event::Branches => self.branches = Some(v),
            Event::BranchMisses => self.branch_misses = Some(v),
        }
        assert(self@ =~= old(self)@.insert(e, v));
    }

    /// The delta recorded for `e`, if it was measured.
    pub fn get(&self, e: Event) -> (r: Option<u64>)
        ensures
            r == (if self@.contains_key(e) {
                Some(self@[e])
            } else {
                None
            }),
    {
        match e {
            Event::Cycles => self.cycles,
            Event::Instructions => self.instructions,
            Event::Branches => self.branches,
            Event::BranchMisses => self.branch_misses,
        }
    }

    /// The entries, in the declaration order of the events.
    pub fn entries(&self) -> (r: Vec<(Event, u64)>)
        ensures
            forall|i: int|
                0 <= i < r@.len() ==> #[trigger] self@.contains_key(r@[i].0) && self@[r@[i].0]
                    == r@[i].1,
            forall|e: Event| #[trigger]
                self@.contains_key(e) ==> exists|i: int| 0 <= i < r@.len() && r@[i].0 == e,
            forall|i: int, j: int|
                0 <= i < j < r@.len() ==> event_rank(r@[i].0) < event_rank(r@[j].0),
    {
        let all = Event::all();
        let mut r: Vec<(Event, u64)> = Vec::new();
        let mut k: usize = 0;
        while k < all.len()
            invariant
                all@ == seq![
                    Event::Cycles,
                    Event::Instructions,
                    Event::Branches,
                    Event::BranchMisses,
                ],
                k <= all@.len(),
                forall|i: int|
                    0 <= i < r@.len() ==> #[trigger] self@.contains_key(r@[i].0) && self@[r@[i].0]
                        == r@[i].1,
                forall|i: int|
                    0 <= i < r@.len() ==> exists|j: int| 0 <= j < k && all@[j] == #[trigger] r@[i].0,
                forall|j: int|
                    0 <= j < k && self@.contains_key(#[trigger] all@[j]) ==> exists|i: int|
                        0 <= i < r@.len() && r@[i].0 == all@[j],
                forall|i: int| 0 <= i < r@.len() ==> event_rank(#[trigger] r@[i].0) < k,
                forall|i: int, j: int|
                    0 <= i < j < r@.len() ==> event_rank(r@[i].0) < event_rank(r@[j].0),
            decreases all@.len() - k,
        {
            let e = all[k];
            assert(event_rank(e) == k);
            let ghost r0 = r@;
            match self.get(e) {
                Some(v) => {
                    r.push((e, v));
                },
                None => {},
            }
            proof {
                assert forall|j: int|
                    0 <= j < k + 1 && self@.contains_key(#[trigger] all@[j]) implies exists|i: int|
                    0 <= i < r@.len() && r@[i].0 == all@[j] by {
                    if j < k {
                        let i = choose|i: int| 0 <= i < r0.len() && r0[i].0 == all@[j];
                        assert(r@[i] == r0[i]);
                    } else {
                        assert(r@[r@.len() - 1].0 == e);
                    }
                }
            }
            k = k + 1;
        }
        assert forall|e: Event| #[trigger] self@.contains_key(e) implies exists|i: int|
            0 <= i < r@.len() && r@[i].0 == e by {
            let j: int = match e {
                Event::Cycles => 0,
                Event::Instructions => 1,
                Event::Branches => 2,
                Event::BranchMisses => 3,
            };
            assert(all@[j] == e);
        }
        r
    }

    /// Whether no event was measured.
    pub fn is_empty(&self) -> (r: bool)
        ensures
            r == (self@ == Map::<Event, u64>::empty()),
    {
        let r = self.cycles.is_none() && self.instructions.is_none() && self.branches.is_none()
            && self.branch_misses.is_none();
        if r {
            assert(self@ =~= Map::<Event, u64>::empty());
        } else {
            assert(self@.contains_key(Event::Cycles) || self@.contains_key(Event::Instructions)
                || self@.contains_key(Event::Branches) || self@.contains_key(Event::BranchMisses));
        }
        r
    }
}

} // verus!
