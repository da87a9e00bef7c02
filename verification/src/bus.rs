//! Fan-out broadcast of change events: one producer, any number of
//! independent consumers, each with its own bounded queue. The producer
//! never blocks; a consumer that falls behind its queue's capacity loses
//! the oldest events, but what it receives stays in emission order.

use vstd::prelude::*;

use crate::events::PlayerStateChange;

verus! {

/// One consumer's bounded queue, plus the ghost record of everything it
/// has consumed.
pub struct EventQueue {
    /// The pending events, oldest first.
    pub items: Vec<PlayerStateChange>,
    /// Index into the emission log of the oldest pending event (equivalently,
    /// the number of log entries already dropped or consumed).
    pub base: Ghost<int>,
    /// Emission-log indices of the events this consumer has received.
    pub taken: Ghost<Seq<int>>,
    /// The events this consumer has received, in the order received.
    pub received: Ghost<Seq<PlayerStateChange>>,
}

/// A queue is a window onto the tail of the emission log, and its record
/// of consumed events points at ever-earlier log entries, in increasing
/// order.
pub open spec fn queue_wf(q: EventQueue, log: Seq<PlayerStateChange>, cap: int) -> bool {
    &&& 0 <= q.base@ <= log.len()
    &&& q.items@.len() <= cap
    &&& q.items@ == log.subrange(q.base@, log.len() as int)
    &&& q.received@.len() == q.taken@.len()
    &&& forall|k: int| 0 <= k < q.taken@.len() ==> 0 <= #[trigger] q.taken@[k] < q.base@
    &&& forall|j: int, k: int|
        0 <= j < k < q.taken@.len() ==> #[trigger] q.taken@[j] < #[trigger] q.taken@[k]
    &&& forall|k: int| 0 <= k < q.taken@.len() ==> #[trigger] q.received@[k] == log[q.taken@[k]]
}

/// The fan-out bus: an emission log (ghost) and one bounded queue per
/// subscriber.
pub struct EventBus {
    /// Bound on each subscriber's queue.
    pub capacity: usize,
    /// One queue per subscriber.
    pub queues: Vec<EventQueue>,
    /// Every event ever sent, in emission order.
    pub log: Ghost<Seq<PlayerStateChange>>,
}

impl EventBus {
    /// Every queue is a well-formed window onto the log.
    pub open spec fn wf(&self) -> bool {
        &&& self.capacity > 0
        &&& forall|i: int|
            0 <= i < self.queues@.len() ==> queue_wf(
                #[trigger] self.queues@[i],
                self.log@,
                self.capacity as int,
            )
    }

    /// A bus with the given queue bound and no subscribers yet.
    pub fn new(capacity: usize) -> (r: EventBus)
        requires
            capacity > 0,
        ensures
            r.wf(),
            r.queues@.len() == 0,
            r.log@ == Seq::<PlayerStateChange>::empty(),
            r.capacity == capacity,
    {
        EventBus { capacity, queues: Vec::new(), log: Ghost(Seq::empty()) }
    }

    /// Add a subscriber; it will see only events sent from now on. Returns
    /// the subscriber's handle.
    pub fn subscribe(&mut self) -> (idx: usize)
        requires
            old(self).wf(),
        ensures
            final(self).wf(),
            idx == old(self).queues@.len(),
            final(self).queues@.len() == old(self).queues@.len() + 1,
            final(self).log == old(self).log,
            final(self).capacity == old(self).capacity,
            forall|i: int|
                0 <= i < old(self).queues@.len() ==> final(self).queues@[i] == old(
                    self,
                ).queues@[i],
    {
        let idx = self.queues.len();
        let q = EventQueue {
            items: Vec::new(),
            base: Ghost(self.log@.len() as int),
            taken: Ghost(Seq::empty()),
            received: Ghost(Seq::empty()),
        };
        assert(q.items@ =~= self.log@.subrange(q.base@, self.log@.len() as int));
        self.queues.push(q);
        idx
    }

    /// Broadcast one event: it is appended to every subscriber's queue; a
    /// full queue first drops its oldest event. The producer never blocks.
    pub fn send(&mut self, e: PlayerStateChange)
        requires
            old(self).wf(),
        ensures
            final(self).wf(),
            final(self).log@ == old(self).log@.push(e),
            final(self).capacity == old(self).capacity,
            final(self).queues@.len() == old(self).queues@.len(),
            forall|i: int|
                0 <= i < old(self).queues@.len() ==> {
                    let pre = old(self).queues@[i];
                    let post = #[trigger] final(self).queues@[i];
                    &&& post.taken == pre.taken
                    &&& post.received == pre.received
                    &&& if pre.items@.len() < old(self).capacity {
                        post.items@ == pre.items@.push(e) && post.base == pre.base
                    } else {
                        post.items@ == pre.items@.drop_first().push(e) && post.base@ == pre.base@
                            + 1
                    }
                },
    {
        let ghost oldlog = self.log@;
        let newlog: Ghost<Seq<PlayerStateChange>> = Ghost(self.log@.push(e));
        let n = self.queues.len();
        let mut i: usize = 0;
        while i < n
            invariant
                0 <= i <= n,
                n == self.queues@.len(),
                self.capacity == old(self).capacity,
                self.capacity > 0,
                self.log@ == oldlog,
                newlog@ == oldlog.push(e),
                forall|k: int| i <= k < n ==> #[trigger] self.queues@[k] == old(self).queues@[k],
                forall|k: int|
                    0 <= k < i ==> {
                        let pre = old(self).queues@[k];
                        let post = #[trigger] self.queues@[k];
                        &&& post.taken == pre.taken
                        &&& post.received == pre.received
                        &&& queue_wf(post, newlog@, self.capacity as int)
                        &&& if pre.items@.len() < old(self).capacity {
                            post.items@ == pre.items@.push(e) && post.base == pre.base
                        } else {
                            post.items@ == pre.items@.drop_first().push(e) && post.base@
                                == pre.base@ + 1
                        }
                    },
                forall|k: int|
                    0 <= k < n ==> queue_wf(
                        #[trigger] old(self).queues@[k],
                        oldlog,
                        self.capacity as int,
                    ),
            decreases n - i,
        {
            let mut q = self.queues.remove(i);
            assert(q == old(self).queues@[i as int]);
            let ghost pre = q;
            if q.items.len() == self.capacity {
                q.items.remove(0);
                proof {
                    q.base@ = pre.base@ + 1;
                }
                assert(q.items@ =~= pre.items@.drop_first());
            }
            q.items.push(e);
            proof {
                let cap = self.capacity as int;
                assert(queue_wf(pre, oldlog, cap));
                assert(q.items@ =~= newlog@.subrange(q.base@, newlog@.len() as int));
                assert(queue_wf(q, newlog@, cap));
            }
            self.queues.insert(i, q);
            i = i + 1;
        }
        self.log = newlog;
    }

    /// Take the oldest pending event for subscriber `idx`, if any. The
    /// event returned is the emission-log entry the queue window starts at,
    /// and the consumed record grows by exactly that entry.
    pub fn recv(&mut self, idx: usize) -> (r: Option<PlayerStateChange>)
        requires
            old(self).wf(),
            idx < old(self).queues@.len(),
        ensures
            final(self).wf(),
            final(self).log == old(self).log,
            final(self).capacity == old(self).capacity,
            final(self).queues@.len() == old(self).queues@.len(),
            forall|i: int|
                0 <= i < old(self).queues@.len() && i != idx ==> final(self).queues@[i] == old(
                    self,
                ).queues@[i],
            ({
                let pre = old(self).queues@[idx as int];
                let post = final(self).queues@[idx as int];
                match r {
                    Some(e) => {
                        &&& pre.items@.len() > 0
                        &&& e == old(self).log@[pre.base@]
                        &&& post.base@ == pre.base@ + 1
                        &&& post.items@ == pre.items@.drop_first()
                        &&& post.taken@ == pre.taken@.push(pre.base@)
                        &&& post.received@ == pre.received@.push(e)
                    },
                    None => {
                        &&& pre.items@.len() == 0
                        &&& post == pre
                    },
                }
            }),
    {
        let mut q = self.queues.remove(idx);
        let ghost pre = q;
        assert(queue_wf(pre, self.log@, self.capacity as int));
        if q.items.len() == 0 {
            self.queues.insert(idx, q);
            return None;
        }
        let e = q.items.remove(0);
        proof {
            q.base@ = pre.base@ + 1;
            q.taken@ = pre.taken@.push(pre.base@);
            q.received@ = pre.received@.push(e);
            assert(e == self.log@[pre.base@]);
            assert(q.items@ =~= self.log@.subrange(q.base@, self.log@.len() as int));
            assert forall|k: int| 0 <= k < q.taken@.len() implies 0 <= #[trigger] q.taken@[k]
                < q.base@ by {
                if k < pre.taken@.len() {
                    assert(pre.taken@[k] < pre.base@);
                }
            }
            assert forall|j: int, k: int| 0 <= j < k < q.taken@.len() implies #[trigger] q
                .taken@[j] < #[trigger] q.taken@[k] by {
                if k < pre.taken@.len() {
                    assert(pre.taken@[j] < pre.taken@[k]);
                } else {
                    assert(q.taken@[j] < pre.base@);
                }
            }
            assert forall|k: int| 0 <= k < q.taken@.len() implies #[trigger] q.received@[k]
                == self.log@[q.taken@[k]] by {
                if k < pre.taken@.len() {
                    assert(pre.received@[k] == self.log@[pre.taken@[k]]);
                }
            }
            assert(queue_wf(q, self.log@, self.capacity as int));
        }
        self.queues.insert(idx, q);
        Some(e)
    }
}

/// The lossy-consumer guarantee: whatever a well-formed subscriber has
/// received is a subsequence of the emission log, in emission order —
/// events may be lost, but never reordered.
pub proof fn lemma_receive_in_order(bus: EventBus, i: int, j: int, k: int)
    requires
        bus.wf(),
        0 <= i < bus.queues@.len(),
        0 <= j < k < bus.queues@[i].taken@.len(),
    ensures
        bus.queues@[i].taken@[j] < bus.queues@[i].taken@[k],
        bus.queues@[i].received@[j] == bus.log@[bus.queues@[i].taken@[j]],
        bus.queues@[i].received@[k] == bus.log@[bus.queues@[i].taken@[k]],
{
    assert(queue_wf(bus.queues@[i], bus.log@, bus.capacity as int));
}

} // verus!
