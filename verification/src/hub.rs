//! The fan-out hub: one publisher, any number of subscribers, each with a
//! delivery queue of its own.

use crate::queue::{keep_last, DeliveryQueue};
use vstd::prelude::*;

verus! {

/// The capacity of each delivery queue of the relay's hub.
pub const DEFAULT_CAPACITY: usize = 999;

/// The handle of one subscription: the place of its queue in the hub's
/// registry.
#[derive(Clone, Copy, Debug, PartialEq, Eq, Structural)]
pub struct SubscriberId {
    pub slot: usize,
}

impl View for SubscriberId {
    type V = nat;

    open spec fn view(&self) -> nat {
        self.slot as nat
    }
}

/// The mathematical content of a [`Hub`].
pub struct HubView {
    /// The capacity of every delivery queue.
    pub capacity: nat,
    /// Whether the hub still accepts messages and subscribers.
    pub live: bool,
    /// The messages waiting for each current subscriber, oldest first.
    pub queues: Map<nat, Seq<Seq<char>>>,
}

impl HubView {
    /// What holds of every hub: no queue holds more than the capacity, and a
    /// closed hub has no queues.
    pub open spec fn wf(self) -> bool {
        &&& forall|id: nat| #[trigger]
            self.queues.contains_key(id) ==> self.queues[id].len() <= self.capacity
        &&& !self.live ==> forall|id: nat| !self.queues.contains_key(id)
    }

    /// Whether `id` is a current subscriber.
    pub open spec fn subscribed(self, id: nat) -> bool {
        self.queues.contains_key(id)
    }

    /// Whether `id` is the handle that the next subscription gets: the
    /// smallest one not in use.
    pub open spec fn first_free(self, id: nat) -> bool {
        &&& !self.queues.contains_key(id)
        &&& forall|j: nat| j < id ==> self.queues.contains_key(j)
    }

    /// The hub after `text` was published: every current queue takes it, a
    /// full one at the cost of its oldest message. A closed hub is unchanged.
    pub open spec fn publish(self, text: Seq<char>) -> HubView {
        if self.live {
            HubView {
                queues: self.queues.map_values(
                    |pending: Seq<Seq<char>>| keep_last(pending.push(text), self.capacity),
                ),
                ..self
            }
        } else {
            self
        }
    }

    /// The hub after a subscriber joined under `id`, with nothing waiting.
    pub open spec fn join(self, id: nat) -> HubView {
        HubView { queues: self.queues.insert(id, Seq::empty()), ..self }
    }

    /// The hub after the subscriber `id` left and its queue was discarded.
    pub open spec fn leave(self, id: nat) -> HubView {
        HubView { queues: self.queues.remove(id), ..self }
    }

    /// The hub after the oldest message waiting for `id` was handed out.
    pub open spec fn take(self, id: nat) -> HubView {
        HubView { queues: self.queues.insert(id, self.queues[id].drop_first()), ..self }
    }

    /// The hub after it was closed: it accepts nothing more and every queue
    /// is gone.
    pub open spec fn close(self) -> HubView {
        HubView { capacity: self.capacity, live: false, queues: Map::empty() }
    }

    /// The hub after the `n` oldest messages waiting for `id` were handed
    /// out, one by one.
    pub open spec fn take_n(self, id: nat, n: nat) -> HubView
        decreases n,
    {
        if n == 0 {
            self
        } else {
            self.take(id).take_n(id, (n - 1) as nat)
        }
    }

    /// The hub after every message of `texts` was published, first to last.
    pub open spec fn publish_all(self, texts: Seq<Seq<char>>) -> HubView
        decreases texts.len(),
    {
        if texts.len() == 0 {
            self
        } else {
            self.publish_all(texts.drop_last()).publish(texts.last())
        }
    }
}

/// Dropping the oldest elements early or late comes to the same: what a
/// bounded buffer retains after one more element is the same whether or not
/// it had already been cut down to its capacity.
pub proof fn lemma_keep_last_push<T>(s: Seq<T>, x: T, capacity: nat)
    ensures
        keep_last(keep_last(s, capacity).push(x), capacity) == keep_last(s.push(x), capacity),
{
    assert(keep_last(keep_last(s, capacity).push(x), capacity) =~= keep_last(
        s.push(x),
        capacity,
    ));
}

/// Publishing a sequence of messages changes neither the set of subscribers
/// nor the hub's capacity or liveness, and leaves each subscriber with the
/// most recent messages of what it had waiting followed by the new ones, as
/// many as its queue holds.
pub proof fn lemma_publish_all(hub: HubView, texts: Seq<Seq<char>>)
    requires
        hub.wf(),
        hub.live,
    ensures
        hub.publish_all(texts).wf(),
        hub.publish_all(texts).live,
        hub.publish_all(texts).capacity == hub.capacity,
        hub.publish_all(texts).queues.dom() == hub.queues.dom(),
        forall|id: nat| #[trigger]
            hub.subscribed(id) ==> hub.publish_all(texts).queues[id] == keep_last(
                hub.queues[id] + texts,
                hub.capacity,
            ),
    decreases texts.len(),
{
    if texts.len() == 0 {
        assert forall|id: nat| #[trigger] hub.subscribed(id) implies hub.queues[id] == keep_last(
            hub.queues[id] + texts,
            hub.capacity,
        ) by {
            assert(hub.queues[id] + texts =~= hub.queues[id]);
        }
    } else {
        let init = texts.drop_last();
        let mid = hub.publish_all(init);
        lemma_publish_all(hub, init);
        assert(mid.publish(texts.last()).queues.dom() =~= mid.queues.dom());
        assert forall|id: nat| #[trigger] hub.subscribed(id) implies hub.publish_all(
            texts,
        ).queues[id] == keep_last(hub.queues[id] + texts, hub.capacity) by {
            assert(mid.queues.dom().contains(id));
            lemma_keep_last_push(hub.queues[id] + init, texts.last(), hub.capacity);
            assert((hub.queues[id] + init).push(texts.last()) =~= hub.queues[id] + texts);
        }
    }
}

/// While no queue overflows, every subscriber that stays subscribed receives
/// exactly the published messages, in the order of publication, behind what
/// it already had waiting.
pub proof fn lemma_all_subscribers_receive_all(hub: HubView, texts: Seq<Seq<char>>)
    requires
        hub.wf(),
        hub.live,
        forall|id: nat| #[trigger]
            hub.subscribed(id) ==> hub.queues[id].len() + texts.len() <= hub.capacity,
    ensures
        forall|id: nat| #[trigger]
            hub.subscribed(id) ==> hub.publish_all(texts).subscribed(id) && hub.publish_all(
                texts,
            ).queues[id] == hub.queues[id] + texts,
{
    lemma_publish_all(hub, texts);
    assert forall|id: nat| #[trigger] hub.subscribed(id) implies hub.publish_all(texts).subscribed(
        id,
    ) && hub.publish_all(texts).queues[id] == hub.queues[id] + texts by {
        assert(hub.publish_all(texts).queues.dom().contains(id));
    }
}

/// A subscriber that joins after some messages were published receives none
/// of them: its queue holds the messages published after it joined, and only
/// those (the most recent ones, as many as the queue holds).
pub proof fn lemma_late_subscriber_receives_only_later(
    hub: HubView,
    earlier: Seq<Seq<char>>,
    id: nat,
    later: Seq<Seq<char>>,
)
    requires
        hub.wf(),
        hub.live,
        !hub.subscribed(id),
    ensures
        hub.publish_all(earlier).join(id).queues[id] == Seq::<Seq<char>>::empty(),
        hub.publish_all(earlier).join(id).publish_all(later).subscribed(id),
        hub.publish_all(earlier).join(id).publish_all(later).queues[id] == keep_last(
            later,
            hub.capacity,
        ),
        later.len() <= hub.capacity ==> hub.publish_all(earlier).join(id).publish_all(
            later,
        ).queues[id] == later,
{
    lemma_publish_all(hub, earlier);
    let joined = hub.publish_all(earlier).join(id);
    assert(joined.wf());
    assert(joined.subscribed(id));
    lemma_publish_all(joined, later);
    assert(joined.publish_all(later).queues.dom().contains(id));
    assert(joined.queues[id] + later =~= later);
}

/// A subscriber's leaving and the publishing of a message do not interfere:
/// either order gives the same hub.
pub proof fn lemma_leave_commutes_with_publish(hub: HubView, gone: nat, text: Seq<char>)
    ensures
        hub.leave(gone).publish(text) == hub.publish(text).leave(gone),
{
    assert(hub.leave(gone).publish(text).queues =~= hub.publish(text).leave(gone).queues);
}

/// Dropping one subscriber does not affect delivery to any other: whatever
/// is published afterwards, every other subscriber is still subscribed and
/// receives exactly what it would have received had nobody left.
pub proof fn lemma_leave_does_not_affect_others(
    hub: HubView,
    gone: nat,
    texts: Seq<Seq<char>>,
)
    ensures
        hub.leave(gone).publish_all(texts) == hub.publish_all(texts).leave(gone),
        forall|id: nat|
            id != gone ==> (#[trigger] hub.leave(gone).publish_all(texts).subscribed(id)
                <==> hub.publish_all(texts).subscribed(id)),
        forall|id: nat|
            id != gone && hub.publish_all(texts).subscribed(id)
                ==> #[trigger] hub.leave(gone).publish_all(texts).queues[id]
                    == hub.publish_all(texts).queues[id],
    decreases texts.len(),
{
    if texts.len() > 0 {
        lemma_leave_does_not_affect_others(hub, gone, texts.drop_last());
        lemma_leave_commutes_with_publish(hub.publish_all(texts.drop_last()), gone, texts.last());
    }
}

/// A burst that exceeds the capacity leaves a subscriber which consumes
/// nothing with exactly the most recent messages, as many as the capacity,
/// in their order: the oldest of the burst are dropped.
pub proof fn lemma_overflow_keeps_most_recent(
    hub: HubView,
    id: nat,
    texts: Seq<Seq<char>>,
    dropped: nat,
)
    requires
        hub.wf(),
        hub.live,
        hub.subscribed(id),
        texts.len() == hub.capacity + dropped,
    ensures
        hub.publish_all(texts).subscribed(id),
        hub.publish_all(texts).queues[id] == texts.subrange(dropped as int, texts.len() as int),
{
    lemma_publish_all(hub, texts);
    assert(hub.publish_all(texts).queues.dom().contains(id));
    assert(keep_last(hub.queues[id] + texts, hub.capacity) =~= texts.subrange(
        dropped as int,
        texts.len() as int,
    ));
}

/// Delivery is first in, first out: after `n` messages were handed out to a
/// subscriber, the rest is still waiting in order, so that the next one
/// handed out is the one that was in place `n`. Nobody else's queue changes.
pub proof fn lemma_delivery_is_fifo(hub: HubView, id: nat, n: nat)
    requires
        hub.subscribed(id),
        n <= hub.queues[id].len(),
    ensures
        hub.take_n(id, n).subscribed(id),
        hub.take_n(id, n).queues[id] == hub.queues[id].skip(n as int),
        n < hub.queues[id].len() ==> hub.take_n(id, n).queues[id][0] == hub.queues[id][n as int],
        forall|other: nat|
            other != id ==> (#[trigger] hub.take_n(id, n).subscribed(other) <==> hub.subscribed(
                other,
            )),
        forall|other: nat|
            other != id && hub.subscribed(other) ==> #[trigger] hub.take_n(id, n).queues[other]
                == hub.queues[other],
    decreases n,
{
    if n == 0 {
        assert(hub.queues[id].skip(0) =~= hub.queues[id]);
    } else {
        let next = hub.take(id);
        lemma_delivery_is_fifo(next, id, (n - 1) as nat);
        assert(next.queues[id].skip(n - 1) =~= hub.queues[id].skip(n as int));
    }
}

/// What a subscriber finds when it asks the hub for its next message.
#[derive(Debug, PartialEq, Eq)]
pub enum Delivery {
    /// The oldest waiting message, now removed from the queue.
    Message(String),
    /// The subscription stands, but nothing is waiting.
    Idle,
    /// The hub holds no queue under this handle.
    Closed,
}

/// The fan-out hub.
///
/// Every message that the hub accepts is appended, in arrival order, to the
/// queue of each subscriber registered at that moment. A queue created later
/// never sees it.
pub struct Hub {
    capacity: usize,
    live: bool,
    slots: Vec<Option<DeliveryQueue>>,
}

impl View for Hub {
    type V = HubView;

    closed spec fn view(&self) -> HubView {
        HubView {
            capacity: self.capacity as nat,
            live: self.live,
            queues: slot_queues(self.slots@),
        }
    }
}

/// The waiting messages of each occupied slot, keyed by the slot's index.
spec fn slot_queues(slots: Seq<Option<DeliveryQueue>>) -> Map<nat, Seq<Seq<char>>> {
    Map::new(
        |id: nat| id < slots.len() && slots[id as int] is Some,
        |id: nat| slots[id as int]->0@.pending,
    )
}

/// Every queue in `slots` has the capacity `capacity`.
spec fn uniform_capacity(slots: Seq<Option<DeliveryQueue>>, capacity: nat) -> bool {
    forall|i: int|
        0 <= i < slots.len() && slots[i] is Some ==> (#[trigger] slots[i])->0@.capacity
            == capacity
}

/// No queue in `slots` holds more than its capacity.
spec fn within_capacity(slots: Seq<Option<DeliveryQueue>>) -> bool {
    forall|i: int|
        0 <= i < slots.len() && slots[i] is Some ==> (#[trigger] slots[i])->0@.pending.len()
            <= slots[i]->0@.capacity
}

impl Hub {
    #[verifier::type_invariant]
    spec fn consistent(self) -> bool {
        &&& uniform_capacity(self.slots@, self.capacity as nat)
        &&& within_capacity(self.slots@)
        &&& !self.live ==> self.slots@.len() == 0
    }

    /// A live hub without subscribers, whose queues will hold `capacity`
    /// messages each.
    pub fn new(capacity: usize) -> (hub: Hub)
        ensures
            hub@ == (HubView { capacity: capacity as nat, live: true, queues: Map::empty() }),
            hub@.wf(),
    {
        let hub = Hub { capacity, live: true, slots: Vec::new() };
        assert(hub@.queues =~= Map::empty());
        hub
    }

    /// The capacity of each delivery queue.
    pub fn capacity(&self) -> (capacity: usize)
        ensures
            capacity == self@.capacity,
    {
        self.capacity
    }

    /// Whether the hub still accepts messages and subscribers.
    pub fn is_live(&self) -> (live: bool)
        ensures
            live == self@.live,
    {
        self.live
    }

    /// Whether `id` is a current subscriber.
    pub fn is_subscribed(&self, id: SubscriberId) -> (subscribed: bool)
        ensures
            subscribed == self@.subscribed(id@),
    {
        id.slot < self.slots.len() && self.slots[id.slot].is_some()
    }

    /// The number of messages waiting for `id`, or `None` if `id` is not a
    /// current subscriber.
    pub fn pending(&self, id: SubscriberId) -> (waiting: Option<usize>)
        ensures
            match waiting {
                Some(n) => self@.subscribed(id@) && n == self@.queues[id@].len() && n
                    <= self@.capacity,
                None => !self@.subscribed(id@),
            },
    {
        proof {
            use_type_invariant(self);
        }
        if id.slot < self.slots.len() {
            match &self.slots[id.slot] {
                Some(queue) => Some(queue.len()),
                None => None,
            }
        } else {
            None
        }
    }

    /// Registers a new subscriber with an empty queue and returns its handle,
    /// the smallest one not in use. Succeeds exactly while the hub is live.
    /// The new queue receives what is published from now on, and nothing
    /// that was published before.
    pub fn subscribe(&mut self) -> (id: Option<SubscriberId>)
        ensures
            match id {
                Some(id) => {
                    &&& old(self)@.live
                    &&& old(self)@.first_free(id@)
                    &&& final(self)@ == old(self)@.join(id@)
                },
                None => !old(self)@.live && final(self)@ == old(self)@,
            },
            final(self)@.wf(),
    {
        proof {
            use_type_invariant(&*self);
        }
        if !self.live {
            return None;
        }
        let queue = DeliveryQueue::new(self.capacity);
        let mut slots: Vec<Option<DeliveryQueue>> = Vec::new();
        std::mem::swap(&mut self.slots, &mut slots);
        let n: usize = slots.len();
        let mut i: usize = 0;
        while i < n && slots[i].is_some()
            invariant
                i <= n,
                n == slots@.len(),
                forall|j: int| 0 <= j < i ==> slots@[j] is Some,
            decreases n - i,
        {
            i += 1;
        }
        if i < n {
            slots[i] = Some(queue);
        } else {
            slots.push(Some(queue));
        }
        std::mem::swap(&mut self.slots, &mut slots);
        let id = SubscriberId { slot: i };
        assert(self@.queues =~= old(self)@.join(id@).queues);
        Some(id)
    }

    /// Removes the subscriber `id` and discards its queue. Returns whether
    /// `id` was subscribed. No other queue is touched.
    pub fn unsubscribe(&mut self, id: SubscriberId) -> (removed: bool)
        ensures
            removed == old(self)@.subscribed(id@),
            final(self)@ == old(self)@.leave(id@),
            final(self)@.wf(),
    {
        proof {
            use_type_invariant(&*self);
        }
        let mut slots: Vec<Option<DeliveryQueue>> = Vec::new();
        std::mem::swap(&mut self.slots, &mut slots);
        let mut removed = false;
        if id.slot < slots.len() {
            removed = slots[id.slot].is_some();
            slots[id.slot] = None;
        }
        std::mem::swap(&mut self.slots, &mut slots);
        assert(self@.queues =~= old(self)@.leave(id@).queues);
        removed
    }

    /// Hands out the oldest message waiting for `id`, if any.
    pub fn receive(&mut self, id: SubscriberId) -> (delivery: Delivery)
        ensures
            match delivery {
                Delivery::Message(m) => {
                    &&& old(self)@.subscribed(id@)
                    &&& old(self)@.queues[id@].len() > 0
                    &&& m@ == old(self)@.queues[id@][0]
                    &&& final(self)@ == old(self)@.take(id@)
                },
                Delivery::Idle => {
                    &&& old(self)@.subscribed(id@)
                    &&& old(self)@.queues[id@].len() == 0
                    &&& final(self)@ == old(self)@
                },
                Delivery::Closed => !old(self)@.subscribed(id@) && final(self)@ == old(self)@,
            },
            final(self)@.wf(),
    {
        proof {
            use_type_invariant(&*self);
        }
        if id.slot >= self.slots.len() {
            return Delivery::Closed;
        }
        let mut slots: Vec<Option<DeliveryQueue>> = Vec::new();
        std::mem::swap(&mut self.slots, &mut slots);
        let delivery = match &mut slots[id.slot] {
            Some(queue) => match queue.pop() {
                Some(message) => Delivery::Message(message),
                None => Delivery::Idle,
            },
            None => Delivery::Closed,
        };
        std::mem::swap(&mut self.slots, &mut slots);
        proof {
            match delivery {
                Delivery::Message(_) => {
                    assert(self@.queues =~= old(self)@.take(id@).queues);
                },
                _ => {
                    assert(self@.queues =~= old(self)@.queues);
                },
            }
        }
        delivery
    }

    /// Closes the hub: it accepts nothing more, and every queue is discarded
    /// with what was still waiting in it.
    pub fn close(&mut self)
        ensures
            final(self)@ == old(self)@.close(),
            final(self)@.wf(),
    {
        let mut slots: Vec<Option<DeliveryQueue>> = Vec::new();
        std::mem::swap(&mut self.slots, &mut slots);
        self.live = false;
        assert(self@.queues =~= Map::empty());
    }

    /// Publishes `message` to every current subscriber. Returns whether the
    /// hub accepted it, which it does exactly while it is live. Never blocks:
    /// a full queue drops its oldest message.
    pub fn publish(&mut self, message: &str) -> (accepted: bool)
        ensures
            accepted == old(self)@.live,
            final(self)@ == old(self)@.publish(message@),
            final(self)@.wf(),
    {
        proof {
            use_type_invariant(&*self);
        }
        if !self.live {
            return false;
        }
        let mut slots: Vec<Option<DeliveryQueue>> = Vec::new();
        std::mem::swap(&mut self.slots, &mut slots);
        let ghost before = slots@;
        let n: usize = slots.len();
        let mut i: usize = 0;
        while i < n
            invariant
                i <= n,
                n == before.len(),
                slots@.len() == n,
                forall|j: int| i <= j < n ==> slots@[j] == before[j],
                forall|j: int| 0 <= j < n ==> (slots@[j] is Some <==> before[j] is Some),
                forall|j: int|
                    0 <= j < i && before[j] is Some ==> (#[trigger] slots@[j])->0@
                        == before[j]->0@.enqueue(message@),
            decreases n - i,
        {
            match &mut slots[i] {
                Some(queue) => {
                    queue.push(message.to_owned());
                },
                None => {},
            }
            i += 1;
        }
        std::mem::swap(&mut self.slots, &mut slots);
        assert(self@.queues =~= old(self)@.publish(message@).queues);
        true
    }
}

} // verus!
