//! The bounded asynchronous delivery queue.
//!
//! Producers enqueue whole rendered records; one worker takes them out in
//! order and performs the writes. A full queue either suspends the producer
//! (the blocking policy, which never loses a record) or discards the new
//! record and counts it (the dropping policy). Shutting down drains
//! everything already accepted, whatever the policy: dropping only ever
//! happens on overflow, never on shutdown.

use vstd::prelude::*;

use crate::BackpressureBehaviour;
use crate::NonBlocking;

verus! {

/// The queue capacity used when the configuration names none.
pub const DEFAULT_BUFFER_LENGTH: usize = 128000;

/// The mathematical image of the queue: what waits, what the worker has
/// already delivered to the destination, and how many records overflow
/// has discarded.
#[verifier::ext_equal]
pub ghost struct QueueView {
    pub capacity: nat,
    pub policy: BackpressureBehaviour,
    pub queued: Seq<Seq<u8>>,
    pub delivered: Seq<Seq<u8>>,
    pub dropped: nat,
    pub shut_down: bool,
}

/// Everything the queue ever accepted, in acceptance order: what the
/// worker has delivered followed by what still waits.
pub open spec fn spec_accepted(v: QueueView) -> Seq<Seq<u8>> {
    v.delivered + v.queued
}

/// What one enqueue does: append when there is room; otherwise discard
/// and count under the dropping policy, or leave everything unchanged and
/// make the producer wait under the blocking policy.
pub open spec fn spec_enqueue(v: QueueView, rec: Seq<u8>) -> (QueueView, EnqueueOutcome) {
    if v.queued.len() < v.capacity {
        (QueueView { queued: v.queued.push(rec), ..v }, EnqueueOutcome::Enqueued)
    } else if v.policy == BackpressureBehaviour::Drop {
        (QueueView { dropped: v.dropped + 1, ..v }, EnqueueOutcome::Dropped)
    } else {
        (v, EnqueueOutcome::WouldBlock)
    }
}

/// What one worker turn does: deliver the oldest waiting record.
pub open spec fn spec_work(v: QueueView) -> QueueView {
    if v.queued.len() == 0 {
        v
    } else {
        QueueView {
            queued: v.queued.drop_first(),
            delivered: v.delivered.push(v.queued[0]),
            ..v
        }
    }
}

/// What shutdown does: deliver everything still waiting, in order, and
/// stop.
pub open spec fn spec_shutdown(v: QueueView) -> QueueView {
    QueueView {
        queued: Seq::empty(),
        delivered: v.delivered + v.queued,
        shut_down: true,
        ..v
    }
}

/// How one enqueue ended.
#[derive(Debug, Clone, Copy, PartialEq, Eq, Structural)]
pub enum EnqueueOutcome {
    /// The record was accepted.
    Enqueued,
    /// The queue is full and the producer must wait for the worker; the
    /// record was not taken and nothing changed.
    WouldBlock,
    /// The queue is full and the record was discarded and counted.
    Dropped,
}

/// A live delivery queue. What the worker has delivered so far is carried
/// as ghost history, so that contracts can speak about the whole run.
pub struct DeliveryQueue {
    pub capacity: usize,
    pub policy: BackpressureBehaviour,
    pub queued: Vec<Vec<u8>>,
    pub dropped: u64,
    pub shut_down: bool,
    pub delivered: Ghost<Seq<Seq<u8>>>,
}

impl View for DeliveryQueue {
    type V = QueueView;

    open spec fn view(&self) -> QueueView {
        QueueView {
            capacity: self.capacity as nat,
            policy: self.policy,
            queued: self.queued@.map_values(|r: Vec<u8>| r@),
            delivered: self.delivered@,
            dropped: self.dropped as nat,
            shut_down: self.shut_down,
        }
    }
}

impl DeliveryQueue {
    /// An empty queue with the configured capacity and overflow policy;
    /// an absent capacity takes the default, an absent policy drops.
    pub fn new(cfg: &NonBlocking) -> (q: DeliveryQueue)
        ensures
            q@.capacity == (match cfg.buffer_length {
                Some(n) => n as nat,
                Option::None => DEFAULT_BUFFER_LENGTH as nat,
            }),
            q@.policy == (match cfg.behaviour {
                Some(b) => b,
                Option::None => BackpressureBehaviour::Drop,
            }),
            q@.queued.len() == 0,
            q@.delivered.len() == 0,
            q@.dropped == 0,
            !q@.shut_down,
    {
        let capacity = match cfg.buffer_length {
            Some(n) => n,
            Option::None => DEFAULT_BUFFER_LENGTH,
        };
        let policy = match cfg.behaviour {
            Some(b) => b,
            Option::None => BackpressureBehaviour::Drop,
        };
        let q = DeliveryQueue {
            capacity,
            policy,
            queued: Vec::new(),
            dropped: 0,
            shut_down: false,
            delivered: Ghost(Seq::empty()),
        };
        proof {
            assert(q@.queued =~= Seq::<Seq<u8>>::empty());
        }
        q
    }

    /// Offer one record from a producer.
    pub fn enqueue(&mut self, rec: Vec<u8>) -> (out: EnqueueOutcome)
        requires
            !old(self)@.shut_down,
            old(self)@.dropped < u64::MAX,
        ensures
            final(self)@ == spec_enqueue(old(self)@, rec@).0,
            out == spec_enqueue(old(self)@, rec@).1,
    {
        let ghost recv = rec@;
        if self.queued.len() < self.capacity {
            self.queued.push(rec);
            proof {
                assert(self@ =~~= spec_enqueue(old(self)@, recv).0);
            }
            EnqueueOutcome::Enqueued
        } else if matches!(self.policy, BackpressureBehaviour::Drop) {
            self.dropped = self.dropped + 1;
            proof {
                assert(self@ =~~= spec_enqueue(old(self)@, recv).0);
            }
            EnqueueOutcome::Dropped
        } else {
            proof {
                assert(self@ =~~= spec_enqueue(old(self)@, recv).0);
            }
            EnqueueOutcome::WouldBlock
        }
    }

    /// One turn of the worker: take the oldest waiting record, to be
    /// written to the destination.
    pub fn worker_step(&mut self) -> (r: Option<Vec<u8>>)
        ensures
            final(self)@ == spec_work(old(self)@),
            match r {
                Some(rec) => old(self)@.queued.len() > 0 && rec@ == old(self)@.queued[0],
                Option::None => old(self)@.queued.len() == 0,
            },
    {
        if self.queued.len() == 0 {
            proof {
                assert(self@ =~~= spec_work(old(self)@));
            }
            Option::None
        } else {
            let rec = self.queued.remove(0);
            proof {
                self.delivered@ = self.delivered@.push(rec@);
            }
            proof {
                assert(self@.queued =~~= spec_work(old(self)@).queued);
                assert(self@ =~~= spec_work(old(self)@));
            }
            Some(rec)
        }
    }

    /// Shut down: hand back everything still waiting, in order, for the
    /// caller to write and flush; the queue ends empty and stopped, and
    /// the drained records count as delivered.
    pub fn shutdown(&mut self) -> (rest: Vec<Vec<u8>>)
        ensures
            final(self)@ == spec_shutdown(old(self)@),
            rest@.map_values(|r: Vec<u8>| r@) == old(self)@.queued,
    {
        let mut rest: Vec<Vec<u8>> = Vec::new();
        core::mem::swap(&mut rest, &mut self.queued);
        self.shut_down = true;
        proof {
            self.delivered@ = self.delivered@ + rest@.map_values(|r: Vec<u8>| r@);
        }
        proof {
            assert(self@.queued =~= Seq::<Seq<u8>>::empty());
            assert(self@ =~~= spec_shutdown(old(self)@));
        }
        rest
    }

    /// How many records overflow has discarded so far.
    pub fn dropped_count(&self) -> (n: u64)
        ensures
            n == self@.dropped,
    {
        self.dropped
    }

    /// How many records wait in the queue.
    pub fn queued_count(&self) -> (n: usize)
        ensures
            n == self@.queued.len(),
    {
        self.queued.len()
    }
}

/// A producer run under the blocking policy with a slow worker: each record
/// is offered once the queue has room, the worker taking one turn whenever
/// it is full first.
pub open spec fn spec_block_feed(v: QueueView, rs: Seq<Seq<u8>>) -> QueueView
    decreases rs.len(),
{
    if rs.len() == 0 {
        v
    } else {
        let v1 = if v.queued.len() < v.capacity {
            v
        } else {
            spec_work(v)
        };
        spec_block_feed(spec_enqueue(v1, rs[0]).0, rs.drop_first())
    }
}

/// A producer run with no worker turns at all: each record is offered
/// exactly once, so a full queue exercises the overflow policy.
pub open spec fn spec_enqueue_seq(v: QueueView, rs: Seq<Seq<u8>>) -> QueueView
    decreases rs.len(),
{
    if rs.len() == 0 {
        v
    } else {
        spec_enqueue_seq(spec_enqueue(v, rs[0]).0, rs.drop_first())
    }
}

/// Under the blocking policy nothing is ever lost or counted as dropped:
/// a run that offers any records, with the worker keeping the queue
/// passable, ends with exactly those records accepted, in offer order.
pub proof fn lemma_block_loses_nothing(v: QueueView, rs: Seq<Seq<u8>>)
    requires
        v.policy == BackpressureBehaviour::Block,
        v.capacity >= 1,
        v.queued.len() <= v.capacity,
    ensures
        spec_accepted(spec_block_feed(v, rs)) =~= spec_accepted(v) + rs,
        spec_block_feed(v, rs).dropped == v.dropped,
        spec_block_feed(v, rs).policy == v.policy,
        spec_block_feed(v, rs).capacity == v.capacity,
    decreases rs.len(),
{
    if rs.len() == 0 {
        assert(spec_accepted(v) + rs =~= spec_accepted(v));
    } else {
        let v1 = if v.queued.len() < v.capacity {
            v
        } else {
            spec_work(v)
        };
        assert(spec_accepted(v1) =~= spec_accepted(v));
        assert(v1.queued.len() < v1.capacity);
        let v2 = spec_enqueue(v1, rs[0]).0;
        assert(spec_accepted(v2) =~= spec_accepted(v) + seq![rs[0]]);
        lemma_block_loses_nothing(v2, rs.drop_first());
        assert(spec_accepted(spec_block_feed(v, rs)) =~= (spec_accepted(v) + seq![rs[0]])
            + rs.drop_first());
        assert((spec_accepted(v) + seq![rs[0]]) + rs.drop_first() =~= spec_accepted(v) + rs);
    }
}

/// Disposing the guard after a blocking run hands the destination every
/// record that was ever offered, in offer order, with the dropped counter
/// untouched.
pub proof fn lemma_block_shutdown_delivers_all(v: QueueView, rs: Seq<Seq<u8>>)
    requires
        v.policy == BackpressureBehaviour::Block,
        v.capacity >= 1,
        v.queued.len() <= v.capacity,
    ensures
        spec_shutdown(spec_block_feed(v, rs)).delivered =~= spec_accepted(v) + rs,
        spec_shutdown(spec_block_feed(v, rs)).dropped == v.dropped,
{
    lemma_block_loses_nothing(v, rs);
}

/// Under the dropping policy with an idle worker, the queue fills in offer
/// order and every further record is discarded and counted, one for one:
/// the records kept are exactly the first ones that fit, never reordered,
/// and the dropped counter grows by exactly the number that did not fit.
pub proof fn lemma_drop_overflow(v: QueueView, rs: Seq<Seq<u8>>)
    requires
        v.policy == BackpressureBehaviour::Drop,
        v.queued.len() <= v.capacity,
    ensures
        spec_enqueue_seq(v, rs).queued =~= v.queued + rs.take(
            if rs.len() <= v.capacity - v.queued.len() {
                rs.len() as int
            } else {
                v.capacity - v.queued.len()
            },
        ),
        spec_enqueue_seq(v, rs).dropped == v.dropped + (if rs.len() <= v.capacity
            - v.queued.len() {
            0
        } else {
            rs.len() - (v.capacity - v.queued.len())
        }),
        spec_enqueue_seq(v, rs).delivered == v.delivered,
        spec_enqueue_seq(v, rs).policy == v.policy,
        spec_enqueue_seq(v, rs).capacity == v.capacity,
    decreases rs.len(),
{
    if rs.len() == 0 {
        assert(spec_enqueue_seq(v, rs).queued =~= v.queued + rs.take(0));
    } else {
        let v2 = spec_enqueue(v, rs[0]).0;
        lemma_drop_overflow(v2, rs.drop_first());
        if v.queued.len() < v.capacity {
            let free = v.capacity - v.queued.len();
            let taken = if rs.len() <= free {
                rs.len() as int
            } else {
                free as int
            };
            assert(v2.queued =~= v.queued.push(rs[0]));
            assert(spec_enqueue_seq(v, rs).queued =~= v.queued.push(rs[0]) + rs.drop_first().take(
                taken - 1,
            ));
            assert(v.queued.push(rs[0]) + rs.drop_first().take(taken - 1) =~= v.queued + rs.take(
                taken,
            ));
        } else {
            assert(v2.queued == v.queued);
            assert(spec_enqueue_seq(v, rs).queued =~= v.queued + rs.drop_first().take(0));
            assert(v.queued + rs.drop_first().take(0) =~= v.queued + rs.take(0));
        }
    }
}

/// The exact overflow count of the dropping policy: offering `capacity + n`
/// records to an initially empty queue whose worker has not yet run keeps
/// the first `capacity` of them, in order, and counts exactly `n` dropped.
pub proof fn lemma_drop_counts_overflow_exactly(v: QueueView, rs: Seq<Seq<u8>>, n: nat)
    requires
        v.policy == BackpressureBehaviour::Drop,
        v.queued.len() == 0,
        rs.len() == v.capacity + n,
    ensures
        spec_enqueue_seq(v, rs).queued =~= rs.take(v.capacity as int),
        spec_enqueue_seq(v, rs).dropped == v.dropped + n,
        spec_enqueue_seq(v, rs).delivered == v.delivered,
{
    lemma_drop_overflow(v, rs);
    if n == 0 {
        assert(spec_enqueue_seq(v, rs).queued =~= rs.take(v.capacity as int));
    }
}

} // verus!
