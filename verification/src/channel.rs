//! The multiplexed output channel: a bounded queue carrying event records
//! from the tracking engine to the monitoring process.
//!
//! Producers only ever push; a push onto a full channel drops the record
//! and bumps a monotonically increasing drop counter instead of blocking.
//! Records are handed out in the order they were pushed.

use vstd::prelude::*;
use crate::event::Event;

verus! {

/// One bounded channel partition.
pub struct Channel {
    items: Vec<Event>,
    capacity: usize,
    dropped: u64,
}

impl Channel {
    /// The records currently queued, oldest first.
    pub closed spec fn contents(&self) -> Seq<Event> {
        self.items@
    }

    /// The fixed bound on queued records.
    pub closed spec fn capacity(&self) -> nat {
        self.capacity as nat
    }

    /// How many records were dropped because the channel was full.
    pub closed spec fn dropped(&self) -> u64 {
        self.dropped
    }

    /// Well-formedness: the queue respects its bound.
    pub closed spec fn wf(&self) -> bool {
        self.items@.len() <= self.capacity
    }

    /// A fresh, empty channel.
    pub fn new(capacity: usize) -> (r: Channel)
        ensures
            r.wf(),
            r.contents() == Seq::<Event>::empty(),
            r.capacity() == capacity,
            r.dropped() == 0,
    {
        let c = Channel { items: Vec::new(), capacity, dropped: 0 };
        proof {
            assert(c.contents() =~= Seq::<Event>::empty());
        }
        c
    }

    /// Pushes a record.  On a full channel the record is dropped and only
    /// the drop counter moves; the push never blocks and never fails.
    pub fn push(&mut self, ev: Event)
        requires
            old(self).wf(),
        ensures
            final(self).wf(),
            final(self).capacity() == old(self).capacity(),
            old(self).contents().len() < old(self).capacity() ==> {
                &&& final(self).contents() == old(self).contents().push(ev)
                &&& final(self).dropped() == old(self).dropped()
            },
            old(self).contents().len() >= old(self).capacity() ==> {
                &&& final(self).contents() == old(self).contents()
                &&& final(self).dropped() == if old(self).dropped() < u64::MAX {
                    (old(self).dropped() + 1) as u64
                } else {
                    u64::MAX
                }
            },
    {
        if self.items.len() < self.capacity {
            self.items.push(ev);
        } else {
            if self.dropped < u64::MAX {
                self.dropped = self.dropped + 1;
            }
        }
    }

    /// Takes the oldest queued record, if any.
    pub fn pop(&mut self) -> (r: Option<Event>)
        requires
            old(self).wf(),
        ensures
            final(self).wf(),
            final(self).capacity() == old(self).capacity(),
            final(self).dropped() == old(self).dropped(),
            old(self).contents().len() == 0 ==> {
                &&& r is None
                &&& final(self).contents() == old(self).contents()
            },
            old(self).contents().len() > 0 ==> {
                &&& r == Some(old(self).contents()[0])
                &&& final(self).contents() == old(self).contents().drop_first()
            },
    {
        if self.items.len() == 0 {
            None
        } else {
            let ev = self.items.remove(0);
            proof {
                assert(self.items@ =~= old(self).items@.drop_first());
            }
            Some(ev)
        }
    }

    /// How many records are queued right now.
    pub fn len(&self) -> (r: usize)
        ensures
            r == self.contents().len(),
    {
        self.items.len()
    }

    /// The drop counter, for health reporting.
    pub fn dropped_count(&self) -> (r: u64)
        ensures
            r == self.dropped(),
    {
        self.dropped
    }
}

} // verus!
