//! Fan-out of published summaries to a dynamic set of subscribers.
//!
//! Each subscriber owns a bounded queue; publishing offers the summary to
//! every open queue, dropping that queue's oldest unread entry when it is
//! full, so the publisher is never blocked by a slow subscriber. A
//! subscriber's queue starts empty: it sees only summaries published after
//! it subscribed, never a replay of history.

use vstd::prelude::*;
use crate::summary::{Level, Summary};

verus! {

/// Bounded depth of one subscriber's queue.
pub const SUBSCRIBER_CAPACITY: usize = 16;

/// One subscriber's pending summaries, oldest first. A closed queue
/// belongs to a disconnected subscriber and receives nothing more.
pub struct SubscriberQueue {
    pub buf: Vec<Summary>,
    pub open: bool,
}

/// The pending summaries of a queue, by value.
pub open spec fn queue_contents(q: SubscriberQueue) -> Seq<(int, Seq<Level>, Seq<Level>)> {
    Seq::new(q.buf@.len(), |i: int| q.buf@[i]@)
}

/// A bounded queue after one more entry: appended, displacing the oldest
/// entry when the queue is full.
pub open spec fn push_bounded(
    c: Seq<(int, Seq<Level>, Seq<Level>)>,
    s: (int, Seq<Level>, Seq<Level>),
) -> Seq<(int, Seq<Level>, Seq<Level>)> {
    if c.len() < SUBSCRIBER_CAPACITY {
        c.push(s)
    } else {
        c.drop_first().push(s)
    }
}

/// How one publication of a summary with view `sv` leaves one subscriber
/// queue: an open queue gets it (bounded), a closed one is untouched.
pub open spec fn offered(
    q0: SubscriberQueue,
    q1: SubscriberQueue,
    sv: (int, Seq<Level>, Seq<Level>),
) -> bool {
    &&& q1.open == q0.open
    &&& if q0.open {
        queue_contents(q1) == push_bounded(queue_contents(q0), sv)
    } else {
        q1 == q0
    }
}

/// The publication point: one registry entry per subscriber, in
/// subscription order.
pub struct FanOut {
    subs: Vec<SubscriberQueue>,
}

impl View for FanOut {
    type V = Seq<SubscriberQueue>;

    closed spec fn view(&self) -> Seq<SubscriberQueue> {
        self.subs@
    }
}

impl FanOut {
    /// A publication point with no subscribers yet.
    pub fn new() -> (r: Self)
        ensures
            r@.len() == 0,
    {
        FanOut { subs: Vec::new() }
    }

    /// Registers a new subscriber and returns its id. Its queue starts
    /// empty: nothing published before this call can ever reach it.
    pub fn subscribe(&mut self) -> (id: usize)
        ensures
            id == old(self)@.len(),
            final(self)@.len() == old(self)@.len() + 1,
            final(self)@[id as int].open,
            queue_contents(final(self)@[id as int]).len() == 0,
            forall|k: int| 0 <= k < id ==> final(self)@[k] == old(self)@[k],
    {
        let id = self.subs.len();
        self.subs.push(SubscriberQueue { buf: Vec::new(), open: true });
        id
    }

    /// Offers one published summary to every open subscriber queue,
    /// dropping the oldest unread entry of a queue that is full; closed
    /// queues and subscriber order are untouched. Never blocks on any
    /// subscriber.
    pub fn publish(&mut self, s: &Summary)
        ensures
            final(self)@.len() == old(self)@.len(),
            forall|k: int| 0 <= k < old(self)@.len() ==> offered(
                old(self)@[k],
                final(self)@[k],
                s@,
            ),
    {
        let n = self.subs.len();
        let mut i: usize = 0;
        while i < n
            invariant
                n == old(self)@.len(),
                0 <= i <= n,
                self@.len() == n,
                forall|k: int| 0 <= k < i ==> offered(old(self)@[k], self@[k], s@),
                forall|k: int| i <= k < n ==> self@[k] == old(self)@[k],
            decreases n - i,
        {
            let ghost prev = self@;
            let mut q = self.subs.remove(i);
            if q.open {
                if q.buf.len() >= SUBSCRIBER_CAPACITY {
                    q.buf.remove(0);
                }
                q.buf.push(s.duplicate());
                proof {
                    assert(queue_contents(q) =~= push_bounded(
                        queue_contents(old(self)@[i as int]),
                        s@,
                    ));
                }
            }
            self.subs.insert(i, q);
            proof {
                assert(self@ =~= prev.update(i as int, q));
            }
            i += 1;
        }
    }

    /// Takes the oldest pending summary of subscriber `id`, if any.
    pub fn recv(&mut self, id: usize) -> (r: Option<Summary>)
        requires
            id < old(self)@.len(),
        ensures
            final(self)@.len() == old(self)@.len(),
            forall|k: int| 0 <= k < old(self)@.len() && k != id ==> final(self)@[k] == old(
                self,
            )@[k],
            final(self)@[id as int].open == old(self)@[id as int].open,
            match r {
                Some(s) => {
                    &&& queue_contents(old(self)@[id as int]).len() > 0
                    &&& s@ == queue_contents(old(self)@[id as int])[0]
                    &&& queue_contents(final(self)@[id as int]) == queue_contents(
                        old(self)@[id as int],
                    ).drop_first()
                },
                None => {
                    &&& queue_contents(old(self)@[id as int]).len() == 0
                    &&& final(self)@[id as int] == old(self)@[id as int]
                },
            },
    {
        let ghost prev = self@;
        let mut q = self.subs.remove(id);
        let ghost q0 = q;
        let r = if q.buf.len() == 0 {
            None
        } else {
            Some(q.buf.remove(0))
        };
        proof {
            if queue_contents(q0).len() > 0 {
                assert(queue_contents(q) =~= queue_contents(q0).drop_first());
            }
        }
        self.subs.insert(id, q);
        proof {
            assert(self@ =~= prev.update(id as int, q));
        }
        r
    }

    /// The subscriber disconnected: its queue closes, stops accepting
    /// publications, and drops what it still held; every other subscriber
    /// is untouched.
    pub fn drop_subscriber(&mut self, id: usize)
        requires
            id < old(self)@.len(),
        ensures
            final(self)@.len() == old(self)@.len(),
            forall|k: int| 0 <= k < old(self)@.len() && k != id ==> final(self)@[k] == old(
                self,
            )@[k],
            !final(self)@[id as int].open,
            queue_contents(final(self)@[id as int]).len() == 0,
    {
        let ghost prev = self@;
        let mut q = self.subs.remove(id);
        q.open = false;
        q.buf = Vec::new();
        self.subs.insert(id, q);
        proof {
            assert(self@ =~= prev.update(id as int, q));
        }
    }

    /// Number of registered subscribers, open or closed.
    pub fn subscriber_count(&self) -> (n: usize)
        ensures
            n == self@.len(),
    {
        self.subs.len()
    }
}

} // verus!
