//! The bounded, ordered buffer that decouples publishing from delivery.

use std::collections::VecDeque;
use vstd::prelude::*;

verus! {

/// What a buffer with room for `capacity` elements retains of `s` when the
/// oldest elements give way: the last `capacity` elements, or all of `s` if
/// it holds no more than that.
pub open spec fn keep_last<T>(s: Seq<T>, capacity: nat) -> Seq<T> {
    if s.len() <= capacity {
        s
    } else {
        s.subrange(s.len() - capacity, s.len() as int)
    }
}

/// The text of each message of `items`, in order.
pub open spec fn texts(items: Seq<String>) -> Seq<Seq<char>> {
    items.map_values(|m: String| m@)
}

/// The mathematical content of a [`DeliveryQueue`].
pub struct QueueView {
    /// The most messages the queue holds at once.
    pub capacity: nat,
    /// The messages waiting for delivery, oldest first.
    pub pending: Seq<Seq<char>>,
}

impl QueueView {
    /// The queue after `text` arrived: it is appended, and where that
    /// exceeds the capacity the oldest messages are dropped.
    pub open spec fn enqueue(self, text: Seq<char>) -> QueueView {
        QueueView { capacity: self.capacity, pending: keep_last(self.pending.push(text), self.capacity) }
    }

    /// The queue after its oldest message was taken (unchanged when empty).
    pub open spec fn dequeue(self) -> QueueView {
        if self.pending.len() == 0 {
            self
        } else {
            QueueView { capacity: self.capacity, pending: self.pending.drop_first() }
        }
    }
}

/// A subscriber's bounded first-in, first-out queue of text messages.
///
/// The capacity is fixed at creation. A message that arrives at a full queue
/// displaces the oldest one, so that enqueueing never blocks or fails.
pub struct DeliveryQueue {
    capacity: usize,
    items: VecDeque<String>,
}

impl View for DeliveryQueue {
    type V = QueueView;

    closed spec fn view(&self) -> QueueView {
        QueueView { capacity: self.capacity as nat, pending: texts(self.items@) }
    }
}

impl DeliveryQueue {
    #[verifier::type_invariant]
    spec fn within_capacity(self) -> bool {
        self.items@.len() <= self.capacity
    }

    /// An empty queue that holds at most `capacity` messages.
    pub fn new(capacity: usize) -> (queue: DeliveryQueue)
        ensures
            queue@.capacity == capacity,
            queue@.pending == Seq::<Seq<char>>::empty(),
    {
        let queue = DeliveryQueue { capacity, items: VecDeque::new() };
        assert(queue@.pending =~= Seq::<Seq<char>>::empty());
        queue
    }

    /// The capacity the queue was created with.
    pub fn capacity(&self) -> (capacity: usize)
        ensures
            capacity == self@.capacity,
    {
        self.capacity
    }

    /// The number of messages waiting.
    pub fn len(&self) -> (len: usize)
        ensures
            len == self@.pending.len(),
            len <= self@.capacity,
    {
        proof {
            use_type_invariant(self);
        }
        self.items.len()
    }

    /// Whether no message is waiting.
    pub fn is_empty(&self) -> (empty: bool)
        ensures
            empty == (self@.pending.len() == 0),
    {
        self.items.len() == 0
    }

    /// Appends `message`; a full queue first drops its oldest message.
    pub fn push(&mut self, message: String)
        ensures
            final(self)@ == old(self)@.enqueue(message@),
    {
        proof {
            use_type_invariant(&*self);
        }
        if self.capacity == 0 {
            assert(self@.pending =~= old(self)@.enqueue(message@).pending);
            return ;
        }
        let mut items: VecDeque<String> = VecDeque::new();
        std::mem::swap(&mut self.items, &mut items);
        if items.len() == self.capacity {
            items.pop_front();
        }
        items.push_back(message);
        std::mem::swap(&mut self.items, &mut items);
        assert(self@.pending =~= old(self)@.enqueue(message@).pending);
    }

    /// Takes the oldest waiting message, if there is one.
    pub fn pop(&mut self) -> (message: Option<String>)
        ensures
            final(self)@ == old(self)@.dequeue(),
            match message {
                Some(m) => old(self)@.pending.len() > 0 && m@ == old(self)@.pending[0],
                None => old(self)@.pending.len() == 0,
            },
    {
        proof {
            use_type_invariant(&*self);
        }
        let mut items: VecDeque<String> = VecDeque::new();
        std::mem::swap(&mut self.items, &mut items);
        let message = items.pop_front();
        std::mem::swap(&mut self.items, &mut items);
        assert(self@.pending =~= old(self)@.dequeue().pending);
        message
    }
}

} // verus!
