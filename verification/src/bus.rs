//! The event bus: a single bounded, ordered, multi-consumer channel. A
//! publish is appended to one global log; each reader walks that log with
//! its own cursor and sees events in publish order. A reader that falls
//! behind the retained window skips ahead and loses the missed events —
//! it observes a strict subsequence of the log, never a reordering.

use vstd::prelude::*;
use crate::event::{ChatMessage, EventView};

verus! {

/// The bus: the retained window of recent events, the count of events
/// dropped off its front, and the full publish history as ghost state.
pub struct Bus {
    buffer: Vec<ChatMessage>,
    start: u64,
    capacity: usize,
    history: Ghost<Seq<EventView>>,
}

/// One subscription: a cursor into the bus's publish history, plus the
/// ghost list of log positions this reader has been handed.
pub struct BusReader {
    cursor: u64,
    taken: Ghost<Seq<int>>,
}

/// What one receive attempt yields: nothing published yet beyond the
/// cursor; or a gap (the reader lagged past the retained window and
/// skipped ahead); or the next event in publish order.
pub enum RecvOutcome {
    Pending,
    Lagged,
    Event(ChatMessage),
}

impl Bus {
    /// The full publish history, oldest first.
    pub closed spec fn log(&self) -> Seq<EventView> {
        self.history@
    }

    /// Index of the oldest event still retained: everything before it has
    /// been dropped off the bounded window.
    pub closed spec fn spec_start(&self) -> int {
        self.start as int
    }

    pub closed spec fn spec_capacity(&self) -> int {
        self.capacity as int
    }

    /// The retained window covers `[start, log.len())`, holds at most
    /// `capacity` events, and mirrors the log.
    pub closed spec fn wf(&self) -> bool {
        &&& 1 <= self.spec_capacity()
        &&& self.spec_start() + self.buffer@.len() == self.log().len()
        &&& self.buffer@.len() <= self.spec_capacity()
        &&& self.log().len() <= u64::MAX
        &&& forall|k: int|
            0 <= k < self.buffer@.len() ==> (#[trigger] self.buffer@[k])@ == self.log()[
                self.spec_start() + k
            ]
    }

    pub fn new(capacity: usize) -> (r: Self)
        requires
            capacity >= 1,
        ensures
            r.wf(),
            r.log() == Seq::<EventView>::empty(),
            r.spec_capacity() == capacity,
    {
        Bus { buffer: Vec::new(), start: 0, capacity, history: Ghost(Seq::empty()) }
    }

    /// Publish appends to the history; when the window is full its oldest
    /// retained event is dropped. Publishing never blocks and never
    /// reorders.
    pub fn publish(&mut self, m: ChatMessage)
        requires
            old(self).wf(),
            old(self).log().len() < u64::MAX,
        ensures
            final(self).wf(),
            final(self).log() == old(self).log().push(m@),
            final(self).spec_capacity() == old(self).spec_capacity(),
            final(self).spec_start() >= old(self).spec_start(),
    {
        let ghost mv = m@;
        self.buffer.push(m);
        self.history = Ghost(self.history@.push(mv));
        if self.buffer.len() > self.capacity {
            self.buffer.remove(0);
            self.start = self.start + 1;
        }
    }

    /// Where a new subscription starts: events published earlier are
    /// never seen by it.
    pub fn subscribe(&self) -> (r: BusReader)
        requires
            self.wf(),
        ensures
            r.spec_cursor() == self.log().len(),
            r.taken() == Seq::<int>::empty(),
            r.wf_for(self),
    {
        BusReader { cursor: self.start + self.buffer.len() as u64, taken: Ghost(Seq::empty()) }
    }
}

impl BusReader {
    pub closed spec fn spec_cursor(&self) -> int {
        self.cursor as int
    }

    /// The log positions this reader has been handed, in the order it
    /// received them.
    pub closed spec fn taken(&self) -> Seq<int> {
        self.taken@
    }

    /// The reader's positions are strictly increasing — what it has seen
    /// is a subsequence of the publish order, only ever thinned — and all
    /// lie before its cursor.
    pub open spec fn wf_for(&self, bus: &Bus) -> bool {
        &&& 0 <= self.spec_cursor() <= bus.log().len()
        &&& forall|i: int, j: int| 0 <= i < j < self.taken().len() ==> self.taken()[i] < self.taken()[j]
        &&& forall|i: int|
            0 <= i < self.taken().len() ==> 0 <= #[trigger] self.taken()[i] < self.spec_cursor()
    }

    /// One receive attempt against the current bus state.
    pub fn recv(&mut self, bus: &Bus) -> (r: RecvOutcome)
        requires
            bus.wf(),
            old(self).wf_for(bus),
        ensures
            final(self).wf_for(bus),
            old(self).spec_cursor() == bus.log().len() ==> (r is Pending && *final(self) == *old(
                self,
            )),
            old(self).spec_cursor() < bus.spec_start() ==> (r is Lagged && final(self).spec_cursor()
                == bus.spec_start() && final(self).taken() == old(self).taken()),
            (bus.spec_start() <= old(self).spec_cursor() < bus.log().len()) ==> {
                &&& r matches RecvOutcome::Event(e) && e@ == bus.log()[old(self).spec_cursor()]
                &&& final(self).spec_cursor() == old(self).spec_cursor() + 1
                &&& final(self).taken() == old(self).taken().push(old(self).spec_cursor())
            },
    {
        let end = bus.start + bus.buffer.len() as u64;
        if self.cursor >= end {
            RecvOutcome::Pending
        } else if self.cursor < bus.start {
            self.cursor = bus.start;
            proof {
                assert forall|i: int| 0 <= i < self.taken().len() implies 0 <= #[trigger] self.taken()[i]
                    < self.spec_cursor() by {
                    assert(0 <= old(self).taken()[i] < old(self).spec_cursor());
                }
                assert forall|i: int, j: int|
                    0 <= i < j < self.taken().len() implies self.taken()[i] < self.taken()[j] by {
                    assert(old(self).taken()[i] < old(self).taken()[j]);
                }
            }
            RecvOutcome::Lagged
        } else {
            let idx = (self.cursor - bus.start) as usize;
            let m = bus.buffer[idx].clone();
            let ghost prev = self.taken@;
            let ghost c = self.cursor as int;
            self.taken = Ghost(self.taken@.push(self.cursor as int));
            self.cursor = self.cursor + 1;
            proof {
                assert(prev == old(self).taken());
                assert(c == old(self).spec_cursor());
                assert forall|i: int, j: int|
                    0 <= i < j < self.taken().len() implies self.taken()[i] < self.taken()[j] by {
                    if j < prev.len() {
                        assert(self.taken()[i] == prev[i] && self.taken()[j] == prev[j]);
                        assert(old(self).taken()[i] < old(self).taken()[j]);
                    } else {
                        assert(self.taken()[j] == c);
                        assert(self.taken()[i] == prev[i]);
                        assert(old(self).taken()[i] < old(self).spec_cursor());
                    }
                }
                assert forall|i: int| 0 <= i < self.taken().len() implies 0 <= #[trigger] self.taken()[i]
                    < self.spec_cursor() by {
                    if i < prev.len() {
                        assert(self.taken()[i] == prev[i]);
                        assert(0 <= old(self).taken()[i] < old(self).spec_cursor());
                    } else {
                        assert(self.taken()[i] == c);
                    }
                }
            }
            RecvOutcome::Event(m)
        }
    }
}

} // verus!
