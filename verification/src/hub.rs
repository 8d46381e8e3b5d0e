//! The broadcast hub: a registry of subscribers, each with a bounded FIFO
//! delivery queue, and fan-out of published change events to all of them.
//!
//! The hub's abstract state is a map from subscriber id to the contents of
//! that subscriber's queue. `publish` appends the event to every queue that
//! has room and drops it for a queue that is full, so one slow subscriber
//! never blocks the publisher or delivery to the others. Consumers drain
//! their queue through `recv`, which hands events out in publish order.

use vstd::prelude::*;
use vstd::map::*;

use crate::event::ChangeEvent;

verus! {

/// One registered subscriber: its unique id and its bounded FIFO delivery
/// queue. The hub owns the queue; the consumer drains it through
/// [`BroadcastHub::recv`] under the subscriber's id.
pub struct Subscriber {
    pub id: u64,
    pub queue: Vec<ChangeEvent>,
}

/// No two subscribers share an id.
pub open spec fn unique_ids(s: Seq<Subscriber>) -> bool {
    forall|i: int, j: int| 0 <= i < j < s.len() ==> s[i].id != s[j].id
}

/// The abstract state after one publish: every queue with room gains `e` at
/// the back; a full queue is left unchanged (the event is dropped for that
/// subscriber alone).
pub open spec fn publish_effect(
    m: Map<u64, Seq<ChangeEvent>>,
    capacity: nat,
    e: ChangeEvent,
) -> Map<u64, Seq<ChangeEvent>> {
    Map::new(
        |id: u64| m.dom().contains(id),
        |id: u64|
            if m[id].len() < capacity {
                m[id].push(e)
            } else {
                m[id]
            },
    )
}

/// The fan-out hub. Ids are handed out by a monotone counter, so an id is
/// never reused; every queue is bounded by `capacity`.
pub struct BroadcastHub {
    pub subscribers: Vec<Subscriber>,
    pub next_id: u64,
    pub capacity: usize,
}

impl BroadcastHub {
    /// Whether a subscriber with this id is currently registered.
    pub open spec fn contains_id(&self, id: u64) -> bool {
        exists|i: int| 0 <= i < self.subscribers@.len() && self.subscribers@[i].id == id
    }

    /// Position of the subscriber with this id (well defined under `wf`,
    /// since ids are unique).
    pub open spec fn index_of(&self, id: u64) -> int {
        choose|i: int| 0 <= i < self.subscribers@.len() && self.subscribers@[i].id == id
    }

    /// The hub's abstract state: each registered subscriber's queue contents,
    /// keyed by id.
    pub open spec fn queues(&self) -> Map<u64, Seq<ChangeEvent>> {
        Map::new(
            |id: u64| self.contains_id(id),
            |id: u64| self.subscribers@[self.index_of(id)].queue@,
        )
    }

    pub open spec fn wf(&self) -> bool {
        &&& 1 <= self.capacity
        &&& unique_ids(self.subscribers@)
        &&& forall|i: int|
            0 <= i < self.subscribers@.len() ==> #[trigger] self.subscribers@[i].id < self.next_id
        &&& forall|i: int|
            0 <= i < self.subscribers@.len() ==> #[trigger] self.subscribers@[i].queue@.len()
                <= self.capacity
    }

    /// A hub with no subscribers whose delivery queues will hold at most
    /// `capacity` undelivered events each.
    pub fn new(capacity: usize) -> (r: BroadcastHub)
        requires
            1 <= capacity,
        ensures
            r.wf(),
            r@ == Map::<u64, Seq<ChangeEvent>>::empty(),
            r.next_id == 0,
            r.capacity == capacity,
    {
        let r = BroadcastHub { subscribers: Vec::new(), next_id: 0, capacity };
        proof {
            assert_maps_equal!(r.queues(), Map::<u64, Seq<ChangeEvent>>::empty(), k => {});
        }
        r
    }

    /// Number of currently registered subscribers.
    pub fn subscriber_count(&self) -> (n: usize)
        ensures
            n == self.subscribers@.len(),
    {
        self.subscribers.len()
    }

    /// Registers a new subscriber with a fresh id (distinct from every id
    /// currently registered and from every id handed out before) and an
    /// empty delivery queue, and returns the id.
    pub fn subscribe(&mut self) -> (id: u64)
        requires
            old(self).wf(),
            old(self).next_id < u64::MAX,
        ensures
            final(self).wf(),
            id == old(self).next_id,
            !old(self)@.dom().contains(id),
            final(self)@ == old(self)@.insert(id, Seq::<ChangeEvent>::empty()),
            final(self).next_id == old(self).next_id + 1,
            final(self).capacity == old(self).capacity,
    {
        let id = self.next_id;
        self.next_id = self.next_id + 1;
        let s = Subscriber { id, queue: Vec::new() };
        proof {
            if old(self).contains_id(id) {
                let i = old(self).index_of(id);
                assert(old(self).subscribers@[i].id == id);
            }
            assert(!old(self)@.dom().contains(id));
        }
        let ghost sg = s;
        self.subscribers.push(s);
        proof {
            lemma_queues_push(*old(self), *self, sg);
            assert forall|i: int, j: int|
                0 <= i < j < self.subscribers@.len() implies self.subscribers@[i].id
                != self.subscribers@[j].id by {
                assert(self.subscribers@[i] == old(self).subscribers@[i]);
                if j < old(self).subscribers@.len() {
                    assert(self.subscribers@[j] == old(self).subscribers@[j]);
                }
            }
        }
        id
    }

    /// Removes the subscriber with this id if it is registered; removing an
    /// id that is absent (already removed, or never issued) is a no-op, not
    /// an error. Returns whether a subscriber was removed.
    pub fn unsubscribe(&mut self, id: u64) -> (removed: bool)
        requires
            old(self).wf(),
        ensures
            final(self).wf(),
            removed == old(self)@.dom().contains(id),
            final(self)@ == old(self)@.remove(id),
            final(self).next_id == old(self).next_id,
            final(self).capacity == old(self).capacity,
    {
        let n = self.subscribers.len();
        let mut i: usize = 0;
        while i < n
            invariant
                i <= n,
                n == self.subscribers@.len(),
                old(self).wf(),
                *self == *old(self),
                forall|j: int| 0 <= j < i ==> self.subscribers@[j].id != id,
            decreases n - i,
        {
            if self.subscribers[i].id == id {
                self.subscribers.remove(i);
                proof {
                    lemma_queues_remove(*old(self), *self, i as int);
                    assert(old(self).contains_id(id));
                    assert(old(self)@.dom().contains(id));
                    assert forall|a: int, b: int|
                        0 <= a < b < self.subscribers@.len() implies self.subscribers@[a].id
                        != self.subscribers@[b].id by {
                        let pa: int = if a < i { a } else { a + 1 };
                        let pb: int = if b < i { b } else { b + 1 };
                        assert(self.subscribers@[a] == old(self).subscribers@[pa]);
                        assert(self.subscribers@[b] == old(self).subscribers@[pb]);
                    }
                    assert forall|a: int|
                        0 <= a < self.subscribers@.len() implies #[trigger] self.subscribers@[a].id
                        < self.next_id && self.subscribers@[a].queue@.len() <= self.capacity by {
                        let pa: int = if a < i { a } else { a + 1 };
                        assert(self.subscribers@[a] == old(self).subscribers@[pa]);
                    }
                }
                return true;
            }
            i = i + 1;
        }
        proof {
            if old(self).contains_id(id) {
                let j = old(self).index_of(id);
                assert(old(self).subscribers@[j].id == id);
            }
            assert(!old(self)@.dom().contains(id));
            assert(old(self)@.remove(id) =~= old(self)@);
        }
        false
    }

    /// Fans one event out: appends it to the delivery queue of every
    /// registered subscriber whose queue has room, and drops it for every
    /// subscriber whose queue is full. Total and never blocking: a full or
    /// abandoned queue affects no other subscriber and not the caller.
    pub fn publish(&mut self, e: ChangeEvent)
        requires
            old(self).wf(),
        ensures
            final(self).wf(),
            final(self)@ == publish_effect(old(self)@, old(self).capacity as nat, e),
            final(self).next_id == old(self).next_id,
            final(self).capacity == old(self).capacity,
    {
        let n = self.subscribers.len();
        let cap = self.capacity;
        let mut i: usize = 0;
        while i < n
            invariant
                i <= n,
                n == self.subscribers@.len(),
                n == old(self).subscribers@.len(),
                self.next_id == old(self).next_id,
                self.capacity == old(self).capacity,
                cap == old(self).capacity,
                old(self).wf(),
                forall|j: int|
                    0 <= j < n ==> #[trigger] self.subscribers@[j].id
                        == old(self).subscribers@[j].id,
                forall|j: int|
                    i <= j < n ==> #[trigger] self.subscribers@[j].queue@
                        == old(self).subscribers@[j].queue@,
                forall|j: int|
                    0 <= j < i ==> #[trigger] self.subscribers@[j].queue@ == (if old(
                        self,
                    ).subscribers@[j].queue@.len() < old(self).capacity {
                        old(self).subscribers@[j].queue@.push(e)
                    } else {
                        old(self).subscribers@[j].queue@
                    }),
            decreases n - i,
        {
            let qlen = self.subscribers[i].queue.len();
            if qlen < cap {
                let slot = &mut self.subscribers[i];
                slot.queue.push(e);
            }
            i = i + 1;
        }
        proof {
            lemma_queues_publish(*old(self), *self, e);
            assert forall|a: int, b: int|
                0 <= a < b < self.subscribers@.len() implies self.subscribers@[a].id
                != self.subscribers@[b].id by {
                assert(self.subscribers@[a].id == old(self).subscribers@[a].id);
                assert(self.subscribers@[b].id == old(self).subscribers@[b].id);
            }
        }
    }

    /// Takes the oldest undelivered event for this subscriber, if any:
    /// events come out in the order they were published (FIFO). `None` when
    /// the id is not registered or its queue is empty.
    pub fn recv(&mut self, id: u64) -> (r: Option<ChangeEvent>)
        requires
            old(self).wf(),
        ensures
            final(self).wf(),
            final(self).next_id == old(self).next_id,
            final(self).capacity == old(self).capacity,
            match r {
                Some(ev) => old(self)@.dom().contains(id) && old(self)@[id].len() > 0 && ev == old(
                    self,
                )@[id][0] && final(self)@ == old(self)@.insert(
                    id,
                    old(self)@[id].subrange(1, old(self)@[id].len() as int),
                ),
                None => final(self)@ == old(self)@ && (!old(self)@.dom().contains(id) || old(
                    self,
                )@[id].len() == 0),
            },
    {
        let n = self.subscribers.len();
        let mut i: usize = 0;
        while i < n
            invariant
                i <= n,
                n == self.subscribers@.len(),
                old(self).wf(),
                *self == *old(self),
                forall|j: int| 0 <= j < i ==> self.subscribers@[j].id != id,
            decreases n - i,
        {
            if self.subscribers[i].id == id {
                proof {
                    assert(old(self).contains_id(id));
                    assert(old(self)@.dom().contains(id));
                    let j = old(self).index_of(id);
                    assert(old(self).subscribers@[j].id == id);
                    assert(j == i as int);
                    assert(old(self)@[id] == old(self).subscribers@[i as int].queue@);
                }
                if self.subscribers[i].queue.len() == 0 {
                    return None;
                }
                let slot = &mut self.subscribers[i];
                let ev = slot.queue.remove(0);
                proof {
                    let q = old(self).subscribers@[i as int].queue@;
                    assert(q.remove(0) =~= q.subrange(1, q.len() as int));
                    lemma_queues_update(
                        *old(self),
                        *self,
                        i as int,
                        self.subscribers@[i as int],
                    );
                    assert forall|a: int, b: int|
                        0 <= a < b < self.subscribers@.len() implies self.subscribers@[a].id
                        != self.subscribers@[b].id by {
                        assert(self.subscribers@[a].id == old(self).subscribers@[a].id);
                        assert(self.subscribers@[b].id == old(self).subscribers@[b].id);
                    }
                }
                return Some(ev);
            }
            i = i + 1;
        }
        proof {
            if old(self).contains_id(id) {
                let j = old(self).index_of(id);
                assert(old(self).subscribers@[j].id == id);
            }
            assert(!old(self)@.dom().contains(id));
        }
        None
    }
}

impl View for BroadcastHub {
    type V = Map<u64, Seq<ChangeEvent>>;

    open spec fn view(&self) -> Map<u64, Seq<ChangeEvent>> {
        self.queues()
    }
}

/// Appending a subscriber with a fresh id adds exactly one entry to the
/// abstract state.
proof fn lemma_queues_push(pre: BroadcastHub, post: BroadcastHub, s: Subscriber)
    requires
        unique_ids(pre.subscribers@),
        !pre.contains_id(s.id),
        post.subscribers@ == pre.subscribers@.push(s),
    ensures
        post.queues() == pre.queues().insert(s.id, s.queue@),
{
    let l = pre.subscribers@.len() as int;
    assert_maps_equal!(post.queues(), pre.queues().insert(s.id, s.queue@), k => {
        if post.contains_id(k) {
            let i = post.index_of(k);
            assert(0 <= i <= l && post.subscribers@[i].id == k);
            if i < l {
                assert(pre.subscribers@[i].id == k);
            }
        }
        if pre.contains_id(k) {
            let i = pre.index_of(k);
            assert(0 <= i < l && pre.subscribers@[i].id == k);
            assert(post.subscribers@[i].id == k);
        }
        if k == s.id {
            assert(post.subscribers@[l].id == k);
        }
        if post.queues().dom().contains(k)
            && pre.queues().insert(s.id, s.queue@).dom().contains(k) {
            let i = post.index_of(k);
            if k == s.id {
                if i < l {
                    assert(pre.subscribers@[i].id == k);
                    assert(false);
                }
            } else {
                let j = pre.index_of(k);
                assert(0 <= j < l && pre.subscribers@[j].id == k);
                assert(i < l);
                assert(post.subscribers@[i] == pre.subscribers@[i]);
                assert(i == j);
            }
        }
    });
}

/// Removing the subscriber at one position removes exactly its entry from
/// the abstract state.
proof fn lemma_queues_remove(pre: BroadcastHub, post: BroadcastHub, ri: int)
    requires
        unique_ids(pre.subscribers@),
        0 <= ri < pre.subscribers@.len(),
        post.subscribers@ == pre.subscribers@.remove(ri),
    ensures
        post.queues() == pre.queues().remove(pre.subscribers@[ri].id),
{
    let rid = pre.subscribers@[ri].id;
    let l = pre.subscribers@.len() as int;
    assert_maps_equal!(post.queues(), pre.queues().remove(rid), k => {
        if post.contains_id(k) {
            let i = post.index_of(k);
            assert(0 <= i < l - 1 && post.subscribers@[i].id == k);
            let pi: int = if i < ri { i } else { i + 1 };
            assert(post.subscribers@[i] == pre.subscribers@[pi]);
            assert(pre.subscribers@[pi].id == k);
            if k == rid {
                assert(pre.subscribers@[pi].id == pre.subscribers@[ri].id && pi != ri);
                assert(false);
            }
        }
        if pre.contains_id(k) && k != rid {
            let i = pre.index_of(k);
            assert(0 <= i < l && pre.subscribers@[i].id == k);
            assert(i != ri);
            if i < ri {
                assert(post.subscribers@[i] == pre.subscribers@[i]);
                assert(post.subscribers@[i].id == k);
            } else {
                assert(post.subscribers@[i - 1] == pre.subscribers@[i]);
                assert(post.subscribers@[i - 1].id == k);
            }
        }
        if post.queues().dom().contains(k) && pre.queues().remove(rid).dom().contains(k) {
            let i = post.index_of(k);
            let j = pre.index_of(k);
            assert(0 <= i < l - 1 && post.subscribers@[i].id == k);
            assert(0 <= j < l && pre.subscribers@[j].id == k);
            let pi: int = if i < ri { i } else { i + 1 };
            assert(post.subscribers@[i] == pre.subscribers@[pi]);
            assert(pi == j);
        }
    });
}

/// Replacing the subscriber at one position by one with the same id updates
/// exactly its entry in the abstract state.
proof fn lemma_queues_update(pre: BroadcastHub, post: BroadcastHub, ui: int, s: Subscriber)
    requires
        unique_ids(pre.subscribers@),
        0 <= ui < pre.subscribers@.len(),
        s.id == pre.subscribers@[ui].id,
        post.subscribers@ == pre.subscribers@.update(ui, s),
    ensures
        post.queues() == pre.queues().insert(s.id, s.queue@),
{
    let l = pre.subscribers@.len() as int;
    assert_maps_equal!(post.queues(), pre.queues().insert(s.id, s.queue@), k => {
        if post.contains_id(k) {
            let i = post.index_of(k);
            assert(0 <= i < l && post.subscribers@[i].id == k);
            if i == ui {
                assert(pre.subscribers@[ui].id == k);
            } else {
                assert(post.subscribers@[i] == pre.subscribers@[i]);
                assert(pre.subscribers@[i].id == k);
            }
        }
        if pre.contains_id(k) {
            let i = pre.index_of(k);
            assert(0 <= i < l && pre.subscribers@[i].id == k);
            if i == ui {
                assert(post.subscribers@[ui].id == k);
            } else {
                assert(post.subscribers@[i].id == k);
            }
        }
        if post.queues().dom().contains(k)
            && pre.queues().insert(s.id, s.queue@).dom().contains(k) {
            let i = post.index_of(k);
            assert(0 <= i < l && post.subscribers@[i].id == k);
            if k == s.id {
                if i != ui {
                    assert(post.subscribers@[i] == pre.subscribers@[i]);
                    assert(pre.subscribers@[i].id == pre.subscribers@[ui].id);
                    assert(false);
                }
            } else {
                assert(i != ui);
                assert(post.subscribers@[i] == pre.subscribers@[i]);
                let j = pre.index_of(k);
                assert(0 <= j < l && pre.subscribers@[j].id == k);
                assert(i == j);
            }
        }
    });
}

/// A pointwise conditional push of the same event onto every queue realizes
/// `publish_effect` on the abstract state.
proof fn lemma_queues_publish(pre: BroadcastHub, post: BroadcastHub, e: ChangeEvent)
    requires
        unique_ids(pre.subscribers@),
        post.subscribers@.len() == pre.subscribers@.len(),
        forall|i: int|
            0 <= i < pre.subscribers@.len() ==> #[trigger] post.subscribers@[i].id
                == pre.subscribers@[i].id,
        forall|i: int|
            0 <= i < pre.subscribers@.len() ==> #[trigger] post.subscribers@[i].queue@ == (if pre
                .subscribers@[i].queue@.len() < pre.capacity {
                pre.subscribers@[i].queue@.push(e)
            } else {
                pre.subscribers@[i].queue@
            }),
    ensures
        post.queues() == publish_effect(pre.queues(), pre.capacity as nat, e),
{
    let l = pre.subscribers@.len() as int;
    assert_maps_equal!(post.queues(), publish_effect(pre.queues(), pre.capacity as nat, e),
        k => {
        if post.contains_id(k) {
            let i = post.index_of(k);
            assert(0 <= i < l && post.subscribers@[i].id == k);
            assert(pre.subscribers@[i].id == k);
        }
        if pre.contains_id(k) {
            let i = pre.index_of(k);
            assert(0 <= i < l && pre.subscribers@[i].id == k);
            assert(post.subscribers@[i].id == k);
        }
        if post.queues().dom().contains(k)
            && publish_effect(pre.queues(), pre.capacity as nat, e).dom().contains(k) {
            let i = post.index_of(k);
            let j = pre.index_of(k);
            assert(0 <= i < l && post.subscribers@[i].id == k);
            assert(0 <= j < l && pre.subscribers@[j].id == k);
            assert(pre.subscribers@[i].id == k);
            assert(i == j);
        }
    });
}

/// Every registered id is below `next_id`. Since `subscribe` hands out
/// `next_id` and then increments it, an id it returns is distinct from every
/// id already registered and from every id any earlier call returned: N
/// calls yield N distinct ids.
pub proof fn lemma_ids_fresh(h: BroadcastHub)
    requires
        h.wf(),
    ensures
        forall|id: u64| h@.dom().contains(id) ==> id < h.next_id,
{
    assert forall|id: u64| h@.dom().contains(id) implies id < h.next_id by {
        let i = h.index_of(id);
        assert(h.subscribers@[i].id == id);
    }
}

/// One publish delivers the event to every subscriber registered at call
/// time whose queue has room, appending it at the back: per-subscriber
/// delivery order is publish order (FIFO). No subscriber is added or lost.
pub proof fn lemma_publish_delivers_to_all(
    m: Map<u64, Seq<ChangeEvent>>,
    capacity: nat,
    e: ChangeEvent,
)
    ensures
        publish_effect(m, capacity, e).dom() == m.dom(),
        forall|id: u64|
            m.dom().contains(id) && m[id].len() < capacity ==> #[trigger] publish_effect(
                m,
                capacity,
                e,
            )[id] == m[id].push(e),
{
    assert(publish_effect(m, capacity, e).dom() =~= m.dom());
}

/// Successive publishes append in order: a subscriber with room for both
/// events holds them in publish order, and `recv` hands the queue out from
/// the front, so per-subscriber delivery order is publish order (FIFO).
pub proof fn lemma_fifo_two_publishes(
    m: Map<u64, Seq<ChangeEvent>>,
    capacity: nat,
    e1: ChangeEvent,
    e2: ChangeEvent,
    id: u64,
)
    requires
        m.dom().contains(id),
        m[id].len() + 1 < capacity,
    ensures
        publish_effect(publish_effect(m, capacity, e1), capacity, e2)[id] == m[id].push(e1).push(
            e2,
        ),
{
}

/// A subscriber that was removed before a publish receives nothing from it:
/// after `unsubscribe` the hub holds no queue under that id, and publishing
/// does not bring it back.
pub proof fn lemma_removed_subscriber_receives_nothing(
    m: Map<u64, Seq<ChangeEvent>>,
    capacity: nat,
    e: ChangeEvent,
    id: u64,
)
    ensures
        !publish_effect(m.remove(id), capacity, e).dom().contains(id),
{
}

/// A subscriber whose queue is full has the event dropped for it alone: its
/// queue is unchanged, and every other subscriber with room still receives
/// the event.
pub proof fn lemma_full_queue_isolated(
    m: Map<u64, Seq<ChangeEvent>>,
    capacity: nat,
    e: ChangeEvent,
    full_id: u64,
)
    requires
        m.dom().contains(full_id),
        m[full_id].len() >= capacity,
    ensures
        publish_effect(m, capacity, e)[full_id] == m[full_id],
        forall|id: u64|
            id != full_id && m.dom().contains(id) && m[id].len() < capacity
                ==> #[trigger] publish_effect(m, capacity, e)[id] == m[id].push(e),
{
}

} // verus!
