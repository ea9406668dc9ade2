//! Gossip delivery queues: one bounded FIFO per subscriber, with
//! drop-oldest backpressure and a dropped-message metric.

use vstd::prelude::*;

verus! {

/// What one push does to the queued messages: append when there is room;
/// otherwise drop the oldest to make room, or drop the new message when
/// the queue has no room at all.
pub open spec fn push_model(cap: int, items: Seq<Vec<u8>>, m: Vec<u8>) -> Seq<Vec<u8>> {
    if items.len() < cap {
        items.push(m)
    } else if cap > 0 {
        items.skip(1).push(m)
    } else {
        items
    }
}

/// The queue contents after pushing every message of `msgs`, in order,
/// onto `q`.
pub open spec fn run_model(cap: int, q: Seq<Vec<u8>>, msgs: Seq<Vec<u8>>) -> Seq<Vec<u8>>
    decreases msgs.len(),
{
    if msgs.len() == 0 {
        q
    } else {
        run_model(cap, push_model(cap, q, msgs[0]), msgs.skip(1))
    }
}

/// A bounded delivery queue for one gossip topic subscriber. Messages
/// are opaque byte sequences; delivery order equals receipt order.
pub struct TopicQueue {
    capacity: usize,
    items: Vec<Vec<u8>>,
    dropped: u64,
}

impl TopicQueue {
    /// The queue never holds more than its capacity.
    pub closed spec fn wf(self) -> bool {
        self.items@.len() <= self.capacity
    }

    pub closed spec fn spec_capacity(self) -> usize {
        self.capacity
    }

    /// The queued messages, oldest first.
    pub closed spec fn messages(self) -> Seq<Vec<u8>> {
        self.items@
    }

    /// How many messages were dropped because the queue was full.
    pub closed spec fn spec_dropped(self) -> u64 {
        self.dropped
    }

    /// An empty queue for a subscription with the given capacity.
    pub fn new(capacity: usize) -> (q: TopicQueue)
        ensures
            q.wf(),
            q.spec_capacity() == capacity,
            q.messages() == Seq::<Vec<u8>>::empty(),
            q.spec_dropped() == 0,
    {
        TopicQueue { capacity, items: Vec::new(), dropped: 0 }
    }

    /// How many messages are waiting.
    pub fn len(&self) -> (n: usize)
        ensures
            n == self.messages().len(),
    {
        self.items.len()
    }

    /// Accepts one inbound message, following [`push_model`]: when the
    /// queue is full the oldest message is dropped and the metric grows
    /// (saturating).
    pub fn push(&mut self, m: Vec<u8>)
        requires
            old(self).wf(),
        ensures
            final(self).wf(),
            final(self).spec_capacity() == old(self).spec_capacity(),
            final(self).messages() == push_model(
                old(self).spec_capacity() as int,
                old(self).messages(),
                m,
            ),
            final(self).spec_dropped() == (if old(self).messages().len()
                < old(self).spec_capacity() {
                old(self).spec_dropped()
            } else if old(self).spec_dropped() < u64::MAX {
                (old(self).spec_dropped() + 1) as u64
            } else {
                old(self).spec_dropped()
            }),
    {
        if self.items.len() < self.capacity {
            self.items.push(m);
        } else {
            if self.dropped < u64::MAX {
                self.dropped = self.dropped + 1;
            }
            if self.capacity > 0 {
                let _oldest = self.items.remove(0);
                self.items.push(m);
                assert(self.items@ =~= old(self).items@.skip(1).push(m));
            }
        }
    }

    /// Takes the oldest waiting message, if any: delivery order equals
    /// receipt order.
    pub fn pop(&mut self) -> (r: Option<Vec<u8>>)
        requires
            old(self).wf(),
        ensures
            final(self).wf(),
            final(self).spec_capacity() == old(self).spec_capacity(),
            final(self).spec_dropped() == old(self).spec_dropped(),
            match r {
                Some(m) => old(self).messages().len() > 0 && m == old(self).messages()[0]
                    && final(self).messages() == old(self).messages().skip(1),
                None => old(self).messages().len() == 0 && *final(self) == *old(self),
            },
    {
        if self.items.len() == 0 {
            None
        } else {
            let m = self.items.remove(0);
            assert(self.items@ =~= old(self).items@.skip(1));
            Some(m)
        }
    }
}

/// Drop-oldest backpressure keeps exactly the newest messages, in
/// receipt order: pushing `msgs` onto a queue `q` with room for `cap`
/// leaves the last `cap` messages of `q + msgs` (all of them when they
/// fit), oldest first.
pub proof fn lemma_run_model_suffix(cap: int, q: Seq<Vec<u8>>, msgs: Seq<Vec<u8>>)
    requires
        0 <= cap,
        q.len() <= cap,
    ensures
        run_model(cap, q, msgs) == (q + msgs).skip(
            if q.len() + msgs.len() > cap {
                q.len() + msgs.len() - cap
            } else {
                0
            },
        ),
    decreases msgs.len(),
{
    if msgs.len() == 0 {
        assert(run_model(cap, q, msgs) =~= (q + msgs).skip(0));
    } else {
        let m = msgs[0];
        let q2 = push_model(cap, q, m);
        lemma_run_model_suffix(cap, q2, msgs.skip(1));
        if q.len() < cap {
            assert(q2 + msgs.skip(1) =~= q + msgs);
        } else if cap > 0 {
            assert(q2 + msgs.skip(1) =~= (q + msgs).skip(1));
            let total = q2.len() + msgs.skip(1).len();
            if total > cap {
                assert(run_model(cap, q, msgs) =~= (q + msgs).skip(q.len() + msgs.len() - cap));
            } else {
                assert(run_model(cap, q, msgs) =~= (q + msgs).skip(1));
            }
        } else {
            assert(q.len() == 0);
            assert(q2 =~= q);
            assert(q2 + msgs.skip(1) =~= msgs.skip(1));
            assert((q + msgs).skip(q.len() + msgs.len() - cap) =~= Seq::<Vec<u8>>::empty());
            assert(run_model(cap, q, msgs) =~= Seq::<Vec<u8>>::empty());
        }
    }
}

/// The delivery queue of a fresh subscription with capacity `cap`, after
/// the inbound messages `msgs`, holds the newest `cap` of them in
/// receipt order.
pub proof fn lemma_topic_delivery_order(cap: int, msgs: Seq<Vec<u8>>)
    requires
        0 <= cap,
    ensures
        run_model(cap, Seq::empty(), msgs) == msgs.skip(
            if msgs.len() > cap {
                msgs.len() - cap
            } else {
                0
            },
        ),
{
    lemma_run_model_suffix(cap, Seq::empty(), msgs);
    assert(Seq::<Vec<u8>>::empty() + msgs =~= msgs);
    if msgs.len() > cap {
        assert(run_model(cap, Seq::empty(), msgs) =~= msgs.skip(msgs.len() - cap));
    }
}

} // verus!
