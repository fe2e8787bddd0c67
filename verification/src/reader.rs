//! The consumption side: one reader per output-channel partition.
//!
//! A reader decodes raw buffers into event records, renders one alert
//! message per record, and hands the messages out for dispatch one at a
//! time.  Dispatch is fire-and-forget per message: a reported delivery
//! failure only moves a counter and never touches the messages still
//! queued, so one failed delivery cannot affect subsequent records.

use vstd::prelude::*;
use crate::alert::{get_message, message_spec};
use crate::codec::{all_chunks_decode, decode_buffer, decoded_at};

verus! {

/// One partition reader with its per-reader alert context.
pub struct Reader {
    call_name: String,
    hostname: String,
    pending: Vec<String>,
    dispatched: u64,
    failed: u64,
    skipped: u64,
}

impl Reader {
    /// The instrumented-call name this reader annotates its alerts with.
    pub closed spec fn call_name(&self) -> Seq<char> {
        self.call_name@
    }

    /// The host identity this reader annotates its alerts with.
    pub closed spec fn hostname(&self) -> Seq<char> {
        self.hostname@
    }

    /// The alert messages decoded but not yet handed out, oldest first.
    pub closed spec fn pending(&self) -> Seq<Seq<char>> {
        self.pending.deep_view()
    }

    /// How many dispatch attempts were reported successful.
    pub closed spec fn dispatched(&self) -> u64 {
        self.dispatched
    }

    /// How many dispatch attempts were reported failed.
    pub closed spec fn failed(&self) -> u64 {
        self.failed
    }

    /// How many malformed buffers were skipped whole.
    pub closed spec fn skipped(&self) -> u64 {
        self.skipped
    }

    /// The messages a well-formed buffer contributes, in buffer order.
    pub open spec fn buffer_messages(&self, b: Seq<u8>) -> Seq<Seq<char>> {
        Seq::new(
            b.len() / 16,
            |i: int| message_spec(self.call_name(), self.hostname(), decoded_at(b, 16 * i).unwrap()),
        )
    }

    /// A fresh reader with nothing pending.
    pub fn new(call_name: String, hostname: String) -> (r: Reader)
        ensures
            r.call_name() == call_name@,
            r.hostname() == hostname@,
            r.pending() == Seq::<Seq<char>>::empty(),
            r.dispatched() == 0,
            r.failed() == 0,
            r.skipped() == 0,
    {
        let r = Reader {
            call_name,
            hostname,
            pending: Vec::new(),
            dispatched: 0,
            failed: 0,
            skipped: 0,
        };
        proof {
            assert(r.pending() =~= Seq::<Seq<char>>::empty());
        }
        r
    }

    /// Consumes one raw buffer from the transport.
    ///
    /// A well-formed buffer appends one rendered alert message per record,
    /// in buffer order.  A malformed buffer is skipped whole — the skip
    /// counter moves, nothing else changes, and the reader continues.
    pub fn on_buffer(&mut self, buf: &Vec<u8>)
        ensures
            final(self).call_name() == old(self).call_name(),
            final(self).hostname() == old(self).hostname(),
            final(self).dispatched() == old(self).dispatched(),
            final(self).failed() == old(self).failed(),
            buf@.len() % 16 == 0 && all_chunks_decode(buf@) ==> {
                &&& final(self).pending() == old(self).pending() + old(self).buffer_messages(buf@)
                &&& final(self).skipped() == old(self).skipped()
            },
            !(buf@.len() % 16 == 0 && all_chunks_decode(buf@)) ==> {
                &&& final(self).pending() == old(self).pending()
                &&& final(self).skipped() == if old(self).skipped() < u64::MAX {
                    (old(self).skipped() + 1) as u64
                } else {
                    u64::MAX
                }
            },
    {
        match decode_buffer(buf) {
            Ok(evs) => {
                let n = evs.len();
                let mut i: usize = 0;
                while i < n
                    invariant
                        i <= n,
                        n == evs@.len(),
                        16 * n == buf@.len(),
                        forall|k: int|
                            0 <= k < n ==> Some(#[trigger] evs@[k]) == decoded_at(buf@, 16 * k),
                        self.call_name@ == old(self).call_name@,
                        self.hostname@ == old(self).hostname@,
                        self.dispatched == old(self).dispatched,
                        self.failed == old(self).failed,
                        self.skipped == old(self).skipped,
                        self.pending.deep_view() == old(self).pending.deep_view() + Seq::new(
                            i as nat,
                            |k: int|
                                message_spec(
                                    old(self).call_name@,
                                    old(self).hostname@,
                                    decoded_at(buf@, 16 * k).unwrap(),
                                ),
                        ),
                    decreases n - i,
                {
                    let msg = get_message(&self.call_name, &self.hostname, &evs[i]);
                    let ghost before = self.pending.deep_view();
                    self.pending.push(msg);
                    proof {
                        assert(self.pending.deep_view() =~= before.push(msg@));
                        assert(self.pending.deep_view() =~= old(self).pending.deep_view()
                            + Seq::new(
                            (i + 1) as nat,
                            |k: int|
                                message_spec(
                                    old(self).call_name@,
                                    old(self).hostname@,
                                    decoded_at(buf@, 16 * k).unwrap(),
                                ),
                        ));
                    }
                    i += 1;
                }
                proof {
                    assert(self.pending() =~= old(self).pending() + old(self).buffer_messages(
                        buf@,
                    ));
                }
            }
            Err(_) => {
                if self.skipped < u64::MAX {
                    self.skipped = self.skipped + 1;
                }
            }
        }
    }

    /// Hands out the oldest pending message for dispatch, if any.
    pub fn next_message(&mut self) -> (r: Option<String>)
        ensures
            final(self).call_name() == old(self).call_name(),
            final(self).hostname() == old(self).hostname(),
            final(self).dispatched() == old(self).dispatched(),
            final(self).failed() == old(self).failed(),
            final(self).skipped() == old(self).skipped(),
            old(self).pending().len() == 0 ==> {
                &&& r is None
                &&& final(self).pending() == old(self).pending()
            },
            old(self).pending().len() > 0 ==> {
                &&& r is Some
                &&& r->Some_0@ == old(self).pending()[0]
                &&& final(self).pending() == old(self).pending().drop_first()
            },
    {
        if self.pending.len() == 0 {
            None
        } else {
            let m = self.pending.remove(0);
            proof {
                assert(self.pending.deep_view() =~= old(self).pending.deep_view().drop_first());
            }
            Some(m)
        }
    }

    /// Records the outcome of one dispatch attempt.
    ///
    /// Only the matching counter moves: the messages still pending are
    /// untouched either way, so a delivery failure on one message never
    /// prevents a subsequent record's message from being handed out.
    pub fn on_delivery(&mut self, ok: bool)
        ensures
            final(self).call_name() == old(self).call_name(),
            final(self).hostname() == old(self).hostname(),
            final(self).pending() == old(self).pending(),
            final(self).skipped() == old(self).skipped(),
            ok ==> {
                &&& final(self).dispatched() == if old(self).dispatched() < u64::MAX {
                    (old(self).dispatched() + 1) as u64
                } else {
                    u64::MAX
                }
                &&& final(self).failed() == old(self).failed()
            },
            !ok ==> {
                &&& final(self).failed() == if old(self).failed() < u64::MAX {
                    (old(self).failed() + 1) as u64
                } else {
                    u64::MAX
                }
                &&& final(self).dispatched() == old(self).dispatched()
            },
    {
        if ok {
            if self.dispatched < u64::MAX {
                self.dispatched = self.dispatched + 1;
            }
        } else {
            if self.failed < u64::MAX {
                self.failed = self.failed + 1;
            }
        }
    }

    /// How many messages are pending right now.
    pub fn pending_len(&self) -> (r: usize)
        ensures
            r == self.pending().len(),
    {
        self.pending.len()
    }

    /// The success counter.
    pub fn dispatched_count(&self) -> (r: u64)
        ensures
            r == self.dispatched(),
    {
        self.dispatched
    }

    /// The failure counter.
    pub fn failed_count(&self) -> (r: u64)
        ensures
            r == self.failed(),
    {
        self.failed
    }

    /// The skipped-buffer counter.
    pub fn skipped_count(&self) -> (r: u64)
        ensures
            r == self.skipped(),
    {
        self.skipped
    }
}

} // verus!
