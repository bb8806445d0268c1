//! The device context's delivery discipline.
//!
//! The device layer decodes raw bytes into typed events and queues them; the
//! context's `next` operation drains that queue in first-in-first-out order
//! and suspends while it is empty.  [`DeviceQueue`] carries the queue
//! together with the ghost history of everything decoded and everything
//! delivered so far, so the delivery guarantees — in decode order, each
//! event exactly once, never before one is available — are stated and
//! checked rather than assumed.

use vstd::assert_seqs_equal;
use vstd::prelude::*;

use crate::event::InputEvent;

verus! {

/// The restricted open/close capability that the device layer uses to
/// acquire the device's file descriptor.  Opening and closing are OS calls
/// and live with the device layer outside the verified core; this type only
/// names the capability.
pub struct BasicLibinputInterface;

/// What the context's `next` operation does in its current state: hand out
/// the oldest queued event, or suspend until the device becomes readable
/// (never a "not ready" result).
#[derive(Clone, Copy, Debug, PartialEq, Eq, Structural)]
pub enum PollStep {
    Deliver,
    Wait,
}

/// The queue of decoded-but-undelivered events, with the ghost history of
/// all events ever decoded and ever delivered.
pub struct DeviceQueue {
    /// The decoded events not yet delivered, oldest first.
    pub events: Vec<InputEvent>,
    /// Every event the decoding engine has produced, in decode order.
    pub decoded: Ghost<Seq<InputEvent>>,
    /// Every event handed to the caller so far, in delivery order.
    pub delivered: Ghost<Seq<InputEvent>>,
}

impl DeviceQueue {
    /// The events decoded but not yet delivered, oldest first.
    pub open spec fn pending(self) -> Seq<InputEvent> {
        self.events@
    }

    /// Well-formedness: the decode history is exactly the delivery history
    /// followed by the pending queue — nothing is dropped, duplicated or
    /// reordered.
    pub open spec fn wf(self) -> bool {
        self.decoded@ == self.delivered@ + self.events@
    }

    /// An empty queue with empty histories.
    pub fn new() -> (r: DeviceQueue)
        ensures
            r.wf(),
            r.pending() =~= Seq::<InputEvent>::empty(),
            r.decoded@ =~= Seq::<InputEvent>::empty(),
            r.delivered@ =~= Seq::<InputEvent>::empty(),
    {
        let r = DeviceQueue {
            events: Vec::new(),
            decoded: Ghost(Seq::empty()),
            delivered: Ghost(Seq::empty()),
        };
        proof {
            assert_seqs_equal!(r.decoded@, r.delivered@ + r.events@);
        }
        r
    }

    /// Number of decoded events waiting for delivery.
    pub fn len(&self) -> (n: usize)
        ensures
            n == self.pending().len(),
    {
        self.events.len()
    }

    /// Record one newly decoded event at the back of the queue.
    pub fn push_decoded(&mut self, e: InputEvent)
        requires
            old(self).wf(),
        ensures
            final(self).wf(),
            final(self).decoded@ == old(self).decoded@.push(e),
            final(self).delivered@ == old(self).delivered@,
            final(self).pending() == old(self).pending().push(e),
    {
        self.events.push(e);
        proof {
            self.decoded = Ghost(self.decoded@.push(e));
            assert_seqs_equal!(self.decoded@, self.delivered@ + self.events@);
        }
    }

    /// Deliver the oldest pending event: the next undelivered event of the
    /// decode history, exactly once.
    pub fn pop_next(&mut self) -> (e: InputEvent)
        requires
            old(self).wf(),
            old(self).pending().len() > 0,
        ensures
            final(self).wf(),
            e == old(self).decoded@[old(self).delivered@.len() as int],
            e == old(self).pending()[0],
            final(self).delivered@ == old(self).delivered@.push(e),
            final(self).decoded@ == old(self).decoded@,
            final(self).pending() == old(self).pending().drop_first(),
    {
        let e = self.events.remove(0);
        proof {
            self.delivered = Ghost(self.delivered@.push(e));
            assert_seqs_equal!(self.decoded@, self.delivered@ + self.events@);
            assert_seqs_equal!(self.events@, old(self).pending().drop_first());
        }
        e
    }

    /// The `next` operation's decision: deliver when an event is pending,
    /// otherwise suspend until the device is readable.  It never reports
    /// "not ready" to the caller.
    pub fn next_step(&self) -> (r: PollStep)
        ensures
            r == PollStep::Deliver <==> self.pending().len() > 0,
            r == PollStep::Wait <==> self.pending().len() == 0,
    {
        if self.events.len() > 0 {
            PollStep::Deliver
        } else {
            PollStep::Wait
        }
    }
}

/// Law: in every well-formed state, what has been delivered is exactly the
/// prefix of what has been decoded — events come out in decode order, each
/// one at most once, and none is skipped.
pub proof fn lemma_delivered_in_order(q: DeviceQueue)
    requires
        q.wf(),
    ensures
        q.delivered@ == q.decoded@.take(q.delivered@.len() as int),
        forall|i: int|
            0 <= i < q.delivered@.len() ==> #[trigger] q.delivered@[i] == q.decoded@[i],
{
    assert_seqs_equal!(q.delivered@, q.decoded@.take(q.delivered@.len() as int));
}

} // verus!
