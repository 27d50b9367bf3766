use vstd::prelude::*;

verus! {

/// Countable simulation events.
#[derive(Clone, Copy, PartialEq, Eq, Structural, Debug)]
pub enum Event {
    CallAnimateCrab,
    CallNavigateCrab,
    NavigationStuck,
    CallRelax,
    GiveWorkOk,
    GiveWorkErr,
    PickUpOk,
    PickUpErr,
    DropOffOk,
    DropOffErr,
}

/// Number of kinds of events.
pub const NUM_EVENTS: usize = 10;

impl Event {
    /// Position of the event in the counters.
    pub open spec fn spec_index(self) -> int {
        match self {
            Event::CallAnimateCrab => 0,
            Event::CallNavigateCrab => 1,
            Event::NavigationStuck => 2,
            Event::CallRelax => 3,
            Event::GiveWorkOk => 4,
            Event::GiveWorkErr => 5,
            Event::PickUpOk => 6,
            Event::PickUpErr => 7,
            Event::DropOffOk => 8,
            Event::DropOffErr => 9,
        }
    }

    pub fn index(self) -> (r: usize)
        ensures
            r == self.spec_index(),
            r < NUM_EVENTS,
    {
        match self {
            Event::CallAnimateCrab => 0,
            Event::CallNavigateCrab => 1,
            Event::NavigationStuck => 2,
            Event::CallRelax => 3,
            Event::GiveWorkOk => 4,
            Event::GiveWorkErr => 5,
            Event::PickUpOk => 6,
            Event::PickUpErr => 7,
            Event::DropOffOk => 8,
            Event::DropOffErr => 9,
        }
    }

    /// Every event, in counter order.
    pub fn all() -> (r: Vec<Event>)
        ensures
            r@.len() == NUM_EVENTS,
            forall|i: int| 0 <= i < NUM_EVENTS ==> (#[trigger] r@[i]).spec_index() == i,
    {
        let r = vec![
            Event::CallAnimateCrab,
            Event::CallNavigateCrab,
            Event::NavigationStuck,
            Event::CallRelax,
            Event::GiveWorkOk,
            Event::GiveWorkErr,
            Event::PickUpOk,
            Event::PickUpErr,
            Event::DropOffOk,
            Event::DropOffErr,
        ];
        r
    }
}

/// Per-frame and running totals of each event.
#[derive(Clone, Debug)]
pub struct Stats {
    pub frame: Vec<u64>,
    pub total: Vec<u64>,
}

pub open spec fn sat_sum(a: u64, b: u64) -> u64 {
    if a + b > u64::MAX {
        u64::MAX
    } else {
        (a + b) as u64
    }
}

impl Stats {
    /// `self` is `o` with one more occurrence of `e` in this frame.
    pub open spec fn inc_from(&self, o: &Stats, e: Event) -> bool {
        &&& self.total == o.total
        &&& self.frame@ == o.frame@.update(e.spec_index(), sat_sum(o.frame@[e.spec_index()], 1))
    }

    pub open spec fn wf(&self) -> bool {
        self.frame@.len() == NUM_EVENTS && self.total@.len() == NUM_EVENTS
    }

    /// All counters zero.
    pub fn new() -> (r: Stats)
        ensures
            r.wf(),
            forall|i: int| 0 <= i < NUM_EVENTS ==> r.frame@[i] == 0 && r.total@[i] == 0,
    {
        Stats { frame: vec![0u64; NUM_EVENTS], total: vec![0u64; NUM_EVENTS] }
    }

    /// Counts one occurrence of `stat` in this frame (saturating).
    pub fn inc(&mut self, stat: Event)
        requires
            old(self).wf(),
        ensures
            final(self).wf(),
            final(self).inc_from(old(self), stat),
    {
        let i = stat.index();
        let v = self.frame[i];
        self.frame.set(i, v.saturating_add(1));
    }

    /// Adds this frame's counts to the totals (saturating) and starts a new frame.
    pub fn next_frame(&mut self)
        requires
            old(self).wf(),
        ensures
            final(self).wf(),
            forall|i: int| 0 <= i < NUM_EVENTS ==> #[trigger] final(self).frame@[i] == 0,
            forall|i: int|
                0 <= i < NUM_EVENTS ==> #[trigger] final(self).total@[i] == sat_sum(
                    old(self).total@[i],
                    old(self).frame@[i],
                ),
    {
        let ghost f0 = self.frame@;
        let ghost t0 = self.total@;
        let mut i: usize = 0;
        while i < NUM_EVENTS
            invariant
                self.wf(),
                f0.len() == NUM_EVENTS,
                t0.len() == NUM_EVENTS,
                i <= NUM_EVENTS,
                forall|j: int| 0 <= j < i ==> #[trigger] self.frame@[j] == 0,
                forall|j: int| 0 <= j < i ==> #[trigger] self.total@[j] == sat_sum(t0[j], f0[j]),
                forall|j: int| i <= j < NUM_EVENTS ==> #[trigger] self.frame@[j] == f0[j],
                forall|j: int| i <= j < NUM_EVENTS ==> #[trigger] self.total@[j] == t0[j],
            decreases NUM_EVENTS - i,
        {
            let t = self.total[i];
            let f = self.frame[i];
            self.total.set(i, t.saturating_add(f));
            self.frame.set(i, 0);
            i = i + 1;
        }
    }

    /// `(event, this frame's count, running total)` for every event.
    pub fn iter(&self) -> (r: Vec<(Event, u64, u64)>)
        requires
            self.wf(),
        ensures
            r@.len() == NUM_EVENTS,
            forall|i: int|
                0 <= i < NUM_EVENTS ==> (#[trigger] r@[i]).0.spec_index() == i && r@[i].1
                    == self.frame@[i] && r@[i].2 == self.total@[i],
    {
        let all = Event::all();
        let mut r: Vec<(Event, u64, u64)> = Vec::new();
        let mut i: usize = 0;
        while i < NUM_EVENTS
            invariant
                self.wf(),
                all@.len() == NUM_EVENTS,
                forall|j: int| 0 <= j < NUM_EVENTS ==> (#[trigger] all@[j]).spec_index() == j,
                i <= NUM_EVENTS,
                r@.len() == i,
                forall|j: int|
                    0 <= j < i ==> (#[trigger] r@[j]).0.spec_index() == j && r@[j].1
                        == self.frame@[j] && r@[j].2 == self.total@[j],
            decreases NUM_EVENTS - i,
        {
            r.push((all[i], self.frame[i], self.total[i]));
            i = i + 1;
        }
        r
    }
}

} // verus!
