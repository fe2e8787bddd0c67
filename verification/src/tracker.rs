//! The call-timing tracker: one instance per instrumented call identity.
//!
//! A tracker owns a bounded table mapping task id to the monotonic start
//! timestamp recorded at call entry.  On the matching exit it computes the
//! elapsed time, removes the key, and decides whether the call overran its
//! deadline and therefore deserves an event record.

use vstd::prelude::*;
use crate::event::{Event, EventType};

verus! {

/// Default deadline (1 second) applied when no deadline is configured.
pub const DEFAULT_DEADLINE_NS: u64 = 1_000_000_000;

/// Returned by an entry observation when the start-time table is full and
/// the task id is not already tracked.  Non-fatal: the instrumented call
/// proceeds unaffected, it is merely not timed.
#[derive(Copy, Clone, Debug, PartialEq, Eq, Structural)]
pub struct CapacityExceeded;

/// Whether some pair of `s` carries key `k`.
pub open spec fn has_key(s: Seq<(u32, u64)>, k: u32) -> bool {
    exists|i: int| 0 <= i < s.len() && (#[trigger] s[i]).0 == k
}

/// The value paired with `k` in `s` (meaningful when the keys of `s` are
/// distinct and `k` occurs).
pub open spec fn value_at(s: Seq<(u32, u64)>, k: u32) -> u64 {
    s[choose|i: int| 0 <= i < s.len() && (#[trigger] s[i]).0 == k].1
}

/// No key occurs twice in `s`.
pub open spec fn distinct_keys(s: Seq<(u32, u64)>) -> bool {
    forall|i: int, j: int| 0 <= i < j < s.len() ==> (#[trigger] s[i]).0 != (#[trigger] s[j]).0
}

/// The finite map denoted by the association list `s`.
pub open spec fn table_of(s: Seq<(u32, u64)>) -> Map<u32, u64> {
    Map::new(|k: u32| has_key(s, k), |k: u32| value_at(s, k))
}

/// With distinct keys, the pair at index `i` determines the map's value at
/// its key.
proof fn lemma_value_at_index(s: Seq<(u32, u64)>, i: int)
    requires
        distinct_keys(s),
        0 <= i < s.len(),
    ensures
        has_key(s, s[i].0),
        value_at(s, s[i].0) == s[i].1,
{
    assert(has_key(s, s[i].0));
    let j = choose|j: int| 0 <= j < s.len() && (#[trigger] s[j]).0 == s[i].0;
    assert(j == i);
}

/// Overwriting the value at index `i` denotes inserting at that pair's key.
proof fn lemma_table_update(s: Seq<(u32, u64)>, i: int, v: u64)
    requires
        distinct_keys(s),
        0 <= i < s.len(),
    ensures
        distinct_keys(s.update(i, (s[i].0, v))),
        table_of(s.update(i, (s[i].0, v))) == table_of(s).insert(s[i].0, v),
{
    let k = s[i].0;
    let s2 = s.update(i, (k, v));
    assert(forall|j: int| 0 <= j < s.len() ==> (#[trigger] s2[j]).0 == s[j].0);
    assert forall|q: u32| has_key(s2, q) <==> has_key(s, q) by {
        if has_key(s2, q) {
            let w = choose|w: int| 0 <= w < s2.len() && (#[trigger] s2[w]).0 == q;
            assert(s[w].0 == q);
        }
        if has_key(s, q) {
            let w = choose|w: int| 0 <= w < s.len() && (#[trigger] s[w]).0 == q;
            assert(s2[w].0 == q);
        }
    }
    assert forall|q: u32| has_key(s2, q) implies value_at(s2, q) == table_of(s).insert(k, v)[q] by {
        let w = choose|w: int| 0 <= w < s2.len() && (#[trigger] s2[w]).0 == q;
        lemma_value_at_index(s2, w);
        if q == k {
            assert(w == i);
        } else {
            assert(w != i);
            lemma_value_at_index(s, w);
        }
    }
    assert(table_of(s2) =~= table_of(s).insert(k, v));
}

/// Appending a pair with a fresh key denotes inserting that key.
proof fn lemma_table_push(s: Seq<(u32, u64)>, k: u32, v: u64)
    requires
        distinct_keys(s),
        !has_key(s, k),
    ensures
        distinct_keys(s.push((k, v))),
        table_of(s.push((k, v))) == table_of(s).insert(k, v),
{
    let s2 = s.push((k, v));
    assert(forall|j: int| 0 <= j < s.len() ==> #[trigger] s2[j] == s[j]);
    assert(s2[s.len() as int].0 == k);
    assert forall|i: int, j: int| 0 <= i < j < s2.len() implies (#[trigger] s2[i]).0 != (
    #[trigger] s2[j]).0 by {
        if j == s.len() {
            assert(s[i].0 == s2[i].0);
        }
    }
    assert forall|q: u32| has_key(s2, q) <==> (has_key(s, q) || q == k) by {
        if has_key(s2, q) {
            let w = choose|w: int| 0 <= w < s2.len() && (#[trigger] s2[w]).0 == q;
            if w < s.len() {
                assert(s[w].0 == q);
            }
        }
        if has_key(s, q) {
            let w = choose|w: int| 0 <= w < s.len() && (#[trigger] s[w]).0 == q;
            assert(s2[w].0 == q);
        }
    }
    assert forall|q: u32| has_key(s2, q) implies value_at(s2, q) == table_of(s).insert(k, v)[q] by {
        let w = choose|w: int| 0 <= w < s2.len() && (#[trigger] s2[w]).0 == q;
        lemma_value_at_index(s2, w);
        if q == k {
            assert(w == s.len());
        } else {
            assert(w < s.len());
            lemma_value_at_index(s, w);
        }
    }
    assert(table_of(s2) =~= table_of(s).insert(k, v));
}

/// Deleting the pair at index `i` denotes removing its key.
proof fn lemma_table_remove(s: Seq<(u32, u64)>, i: int)
    requires
        distinct_keys(s),
        0 <= i < s.len(),
    ensures
        distinct_keys(s.remove(i)),
        table_of(s.remove(i)) == table_of(s).remove(s[i].0),
{
    let k = s[i].0;
    let s2 = s.remove(i);
    assert(forall|j: int| 0 <= j < i ==> #[trigger] s2[j] == s[j]);
    assert(forall|j: int| i <= j < s2.len() ==> #[trigger] s2[j] == s[j + 1]);
    assert forall|p: int, q: int| 0 <= p < q < s2.len() implies (#[trigger] s2[p]).0 != (
    #[trigger] s2[q]).0 by {
        let p1 = if p < i { p } else { p + 1 };
        let q1 = if q < i { q } else { q + 1 };
        assert(s2[p] == s[p1] && s2[q] == s[q1]);
    }
    assert forall|q: u32| has_key(s2, q) <==> (has_key(s, q) && q != k) by {
        if has_key(s2, q) {
            let w = choose|w: int| 0 <= w < s2.len() && (#[trigger] s2[w]).0 == q;
            let w1 = if w < i { w } else { w + 1 };
            assert(s[w1].0 == q);
            assert(w1 != i);
            assert(q != k);
        }
        if has_key(s, q) && q != k {
            let w = choose|w: int| 0 <= w < s.len() && (#[trigger] s[w]).0 == q;
            assert(w != i);
            if w < i {
                assert(s2[w].0 == q);
            } else {
                assert(s2[w - 1].0 == q);
            }
        }
    }
    assert forall|q: u32| has_key(s2, q) implies value_at(s2, q) == value_at(s, q) by {
        let w = choose|w: int| 0 <= w < s2.len() && (#[trigger] s2[w]).0 == q;
        lemma_value_at_index(s2, w);
        let w1 = if w < i { w } else { w + 1 };
        assert(s2[w] == s[w1]);
        lemma_value_at_index(s, w1);
    }
    assert(table_of(s2) =~= table_of(s).remove(k));
}

/// Whether an exit observed at `now` for task `pid` emits a record, given
/// the pending start times and the deadline: the task must be pending, the
/// clock must not have wrapped since its entry, and the elapsed time must
/// exceed the deadline.
pub open spec fn exit_emits(pending: Map<u32, u64>, pid: u32, now: u64, deadline_ns: u64) -> bool {
    &&& pending.contains_key(pid)
    &&& pending[pid] <= now
    &&& now - pending[pid] > deadline_ns
}

/// The record an emitting exit constructs.
pub open spec fn exit_record(call: EventType, pending: Map<u32, u64>, pid: u32, now: u64) -> Event {
    Event { pid, elapsed_ns: (now - pending[pid]) as u64, event_type: call }
}

/// One independent call-timing tracker: the bounded start-time table for a
/// single instrumented call, together with that call's deadline.
pub struct Tracker {
    entries: Vec<(u32, u64)>,
    capacity: usize,
    deadline_ns: u64,
    call_id: EventType,
}

impl Tracker {
    /// The start-time table as a map from task id to start timestamp.
    pub closed spec fn pending(&self) -> Map<u32, u64> {
        table_of(self.entries@)
    }

    /// How many task ids are currently pending.
    pub closed spec fn count(&self) -> nat {
        self.entries@.len()
    }

    /// The fixed bound on concurrently pending task ids.
    pub closed spec fn capacity(&self) -> nat {
        self.capacity as nat
    }

    /// The deadline in nanoseconds above which an exit emits a record.
    pub closed spec fn deadline_ns(&self) -> u64 {
        self.deadline_ns
    }

    /// Which instrumented call this tracker times.
    pub closed spec fn call_id(&self) -> EventType {
        self.call_id
    }

    /// Well-formedness: keys are distinct and the table respects its bound.
    pub closed spec fn wf(&self) -> bool {
        &&& distinct_keys(self.entries@)
        &&& self.entries@.len() <= self.capacity
    }

    /// A fresh tracker with an empty table.
    pub fn new(call_id: EventType, capacity: usize, deadline_ns: u64) -> (r: Tracker)
        ensures
            r.wf(),
            r.pending() == Map::<u32, u64>::empty(),
            r.count() == 0,
            r.capacity() == capacity,
            r.deadline_ns() == deadline_ns,
            r.call_id() == call_id,
    {
        let t = Tracker { entries: Vec::new(), capacity, deadline_ns, call_id };
        proof {
            assert(t.pending() =~= Map::<u32, u64>::empty());
        }
        t
    }

    /// A fresh tracker with the default 1-second deadline.
    pub fn with_default_deadline(call_id: EventType, capacity: usize) -> (r: Tracker)
        ensures
            r.wf(),
            r.pending() == Map::<u32, u64>::empty(),
            r.count() == 0,
            r.capacity() == capacity,
            r.deadline_ns() == DEFAULT_DEADLINE_NS,
            r.call_id() == call_id,
    {
        Tracker::new(call_id, capacity, DEFAULT_DEADLINE_NS)
    }

    /// The index of `pid` in the table, if present.
    fn find(&self, pid: u32) -> (r: Option<usize>)
        ensures
            match r {
                Some(i) => i < self.entries@.len() && self.entries@[i as int].0 == pid,
                None => !has_key(self.entries@, pid),
            },
    {
        let n = self.entries.len();
        let mut i: usize = 0;
        while i < n
            invariant
                i <= n,
                n == self.entries@.len(),
                forall|j: int| 0 <= j < i ==> (#[trigger] self.entries@[j]).0 != pid,
            decreases n - i,
        {
            if self.entries[i].0 == pid {
                return Some(i);
            }
            i += 1;
        }
        None
    }

    /// Records a call entry: task `pid` entered the instrumented call at
    /// monotonic time `now`.
    ///
    /// A task already pending has its start time overwritten.  A new task
    /// is admitted while the table has room; once it is full, a new task is
    /// rejected with `CapacityExceeded` and the table is left untouched.
    pub fn on_entry(&mut self, pid: u32, now: u64) -> (r: Result<(), CapacityExceeded>)
        requires
            old(self).wf(),
        ensures
            final(self).wf(),
            final(self).capacity() == old(self).capacity(),
            final(self).deadline_ns() == old(self).deadline_ns(),
            final(self).call_id() == old(self).call_id(),
            old(self).pending().contains_key(pid) ==> {
                &&& r is Ok
                &&& final(self).pending() == old(self).pending().insert(pid, now)
                &&& final(self).count() == old(self).count()
            },
            !old(self).pending().contains_key(pid) && old(self).count() < old(self).capacity()
                ==> {
                &&& r is Ok
                &&& final(self).pending() == old(self).pending().insert(pid, now)
                &&& final(self).count() == old(self).count() + 1
            },
            !old(self).pending().contains_key(pid) && old(self).count() >= old(self).capacity()
                ==> {
                &&& r == Err::<(), CapacityExceeded>(CapacityExceeded)
                &&& *final(self) == *old(self)
            },
    {
        match self.find(pid) {
            Some(i) => {
                proof {
                    lemma_value_at_index(self.entries@, i as int);
                    lemma_table_update(self.entries@, i as int, now);
                }
                self.entries.set(i, (pid, now));
                Ok(())
            }
            None => {
                if self.entries.len() < self.capacity {
                    proof {
                        lemma_table_push(self.entries@, pid, now);
                    }
                    self.entries.push((pid, now));
                    Ok(())
                } else {
                    Err(CapacityExceeded)
                }
            }
        }
    }

    /// Records a call exit: task `pid` left the instrumented call at
    /// monotonic time `now`.
    ///
    /// A pending task is removed from the table; the exit yields a record
    /// exactly when the elapsed time since its recorded entry exceeds the
    /// deadline.  A wrapped clock sample (exit time before the recorded
    /// entry) is discarded rather than emitted as a corrupt elapsed value.
    /// An exit with no prior entry is a no-op: no record, no error.
    pub fn on_exit(&mut self, pid: u32, now: u64) -> (r: Option<Event>)
        requires
            old(self).wf(),
        ensures
            final(self).wf(),
            final(self).capacity() == old(self).capacity(),
            final(self).deadline_ns() == old(self).deadline_ns(),
            final(self).call_id() == old(self).call_id(),
            old(self).pending().contains_key(pid) ==> {
                &&& final(self).pending() == old(self).pending().remove(pid)
                &&& final(self).count() == old(self).count() - 1
            },
            !old(self).pending().contains_key(pid) ==> *final(self) == *old(self),
            r == if exit_emits(old(self).pending(), pid, now, old(self).deadline_ns()) {
                Some(exit_record(old(self).call_id(), old(self).pending(), pid, now))
            } else {
                None::<Event>
            },
    {
        match self.find(pid) {
            Some(i) => {
                proof {
                    lemma_value_at_index(self.entries@, i as int);
                    lemma_table_remove(self.entries@, i as int);
                }
                let (_, start) = self.entries.remove(i);
                if start <= now {
                    let elapsed_ns = now - start;
                    if elapsed_ns > self.deadline_ns {
                        return Some(Event { pid, elapsed_ns, event_type: self.call_id });
                    }
                }
                None
            }
            None => None,
        }
    }

    /// The whole exit path: correlates the exit with its entry, filters by
    /// the deadline, and hands an over-deadline record to the output
    /// channel, where it is enqueued or — on a full channel — counted as
    /// dropped.  Returns the emitted record, if any.
    pub fn handle_exit(&mut self, pid: u32, now: u64, chan: &mut crate::channel::Channel) -> (r:
        Option<Event>)
        requires
            old(self).wf(),
            old(chan).wf(),
        ensures
            final(self).wf(),
            final(chan).wf(),
            final(self).capacity() == old(self).capacity(),
            final(self).deadline_ns() == old(self).deadline_ns(),
            final(self).call_id() == old(self).call_id(),
            final(chan).capacity() == old(chan).capacity(),
            old(self).pending().contains_key(pid) ==> {
                &&& final(self).pending() == old(self).pending().remove(pid)
                &&& final(self).count() == old(self).count() - 1
            },
            !old(self).pending().contains_key(pid) ==> *final(self) == *old(self),
            r == if exit_emits(old(self).pending(), pid, now, old(self).deadline_ns()) {
                Some(exit_record(old(self).call_id(), old(self).pending(), pid, now))
            } else {
                None::<Event>
            },
            exit_emits(old(self).pending(), pid, now, old(self).deadline_ns()) ==> {
                let ev = exit_record(old(self).call_id(), old(self).pending(), pid, now);
                if old(chan).contents().len() < old(chan).capacity() {
                    &&& final(chan).contents() == old(chan).contents().push(ev)
                    &&& final(chan).dropped() == old(chan).dropped()
                } else {
                    &&& final(chan).contents() == old(chan).contents()
                    &&& final(chan).dropped() == if old(chan).dropped() < u64::MAX {
                        (old(chan).dropped() + 1) as u64
                    } else {
                        u64::MAX
                    }
                }
            },
            !exit_emits(old(self).pending(), pid, now, old(self).deadline_ns()) ==> *final(chan)
                == *old(chan),
    {
        match self.on_exit(pid, now) {
            Some(ev) => {
                chan.push(ev);
                Some(ev)
            }
            None => None,
        }
    }
}

/// For any pending table, an entry for task `pid` at time `t_entry` followed
/// by the matching exit at time `t_exit` measures exactly
/// `t_exit - t_entry`, and emits a record carrying that elapsed time, the
/// task id and the call identity if and only if the elapsed time exceeds
/// the deadline.
pub proof fn lemma_entry_exit_elapsed(
    pending: Map<u32, u64>,
    call: EventType,
    pid: u32,
    t_entry: u64,
    t_exit: u64,
    deadline_ns: u64,
)
    requires
        t_entry <= t_exit,
    ensures
        ({
            let after_entry = pending.insert(pid, t_entry);
            &&& exit_emits(after_entry, pid, t_exit, deadline_ns) <==> t_exit - t_entry
                > deadline_ns
            &&& exit_record(call, after_entry, pid, t_exit) == (Event {
                pid,
                elapsed_ns: (t_exit - t_entry) as u64,
                event_type: call,
            })
        }),
{
}

/// Timing is correlated per task id alone: an entry or an exit for a
/// distinct task id leaves a pending task's start time untouched, so in
/// any sequence of entry/exit pairs with distinct task ids each exit is
/// measured against its own task's entry.
pub proof fn lemma_distinct_task_isolation(pending: Map<u32, u64>, pid: u32, other: u32, t: u64)
    requires
        pid != other,
        pending.contains_key(pid),
    ensures
        pending.insert(other, t).contains_key(pid),
        pending.insert(other, t)[pid] == pending[pid],
        pending.remove(other).contains_key(pid),
        pending.remove(other)[pid] == pending[pid],
{
}

/// A second entry for a task id already pending overwrites the prior start
/// time: the next exit measures its elapsed time from the second entry.
pub proof fn lemma_reentry_overwrites(
    pending: Map<u32, u64>,
    call: EventType,
    pid: u32,
    t_first: u64,
    t_second: u64,
    t_exit: u64,
    deadline_ns: u64,
)
    requires
        t_second <= t_exit,
    ensures
        ({
            let after_both = pending.insert(pid, t_first).insert(pid, t_second);
            &&& after_both == pending.insert(pid, t_second)
            &&& exit_emits(after_both, pid, t_exit, deadline_ns) <==> t_exit - t_second
                > deadline_ns
            &&& exit_record(call, after_both, pid, t_exit).elapsed_ns == t_exit - t_second
        }),
{
    assert(pending.insert(pid, t_first).insert(pid, t_second) =~= pending.insert(
        pid,
        t_second,
    ));
}

} // verus!
