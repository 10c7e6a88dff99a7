//! The broadcast bus: one writer, any number of subscribers.
//!
//! Each subscriber has a queue of its own, bounded by the capacity of the
//! bus. Publishing never waits: a subscriber whose queue is full loses its
//! oldest message to make room for the new one. A slow subscriber therefore
//! sees gaps, and the most recent messages are the ones it keeps.

use vstd::prelude::*;
use std::collections::VecDeque;
use crate::models::{MessageView, MessageWrapper};

verus! {

/// The last `capacity` items of `items`, or all of them where there are no
/// more than that.
pub open spec fn keep_last<T>(items: Seq<T>, capacity: nat) -> Seq<T> {
    if items.len() <= capacity {
        items
    } else {
        items.skip(items.len() - capacity)
    }
}

/// A queue after one message is published to it: the message goes to the
/// back, and the front gives way where the queue was full.
pub open spec fn enqueue(queue: Seq<MessageView>, message: MessageView, capacity: nat) -> Seq<
    MessageView,
> {
    keep_last(queue.push(message), capacity)
}

/// A queue after `messages` are published to it one after the other.
pub open spec fn enqueue_all(queue: Seq<MessageView>, messages: Seq<MessageView>, capacity: nat)
    -> Seq<MessageView>
    decreases messages.len(),
{
    if messages.len() == 0 {
        queue
    } else {
        enqueue_all(enqueue(queue, messages[0], capacity), messages.skip(1), capacity)
    }
}

/// The queues of a bus after one message is published: every subscriber is
/// still there, and each queue has taken the message.
pub open spec fn published(
    queues: Map<usize, Seq<MessageView>>,
    message: MessageView,
    capacity: nat,
) -> Map<usize, Seq<MessageView>> {
    Map::new(
        |id: usize| queues.contains_key(id),
        |id: usize| enqueue(queues[id], message, capacity),
    )
}

/// Publishing a run of messages to a queue leaves the last `capacity` of what
/// was queued followed by what was published.
pub proof fn lemma_enqueue_all(queue: Seq<MessageView>, messages: Seq<MessageView>, capacity: nat)
    requires
        queue.len() <= capacity,
    ensures
        enqueue_all(queue, messages, capacity) == keep_last(queue + messages, capacity),
    decreases messages.len(),
{
    if messages.len() == 0 {
        assert(queue + messages =~= queue);
    } else {
        let next = enqueue(queue, messages[0], capacity);
        lemma_enqueue_all(next, messages.skip(1), capacity);
        assert(queue.push(messages[0]) + messages.skip(1) =~= queue + messages);
        assert(keep_last(next + messages.skip(1), capacity) =~= keep_last(
            queue + messages,
            capacity,
        ));
    }
}

/// A subscriber that starts empty and whose capacity is not exceeded finds
/// exactly the published messages, in the order of publishing.
pub proof fn lemma_no_loss_within_capacity(messages: Seq<MessageView>, capacity: nat)
    requires
        messages.len() <= capacity,
    ensures
        enqueue_all(Seq::empty(), messages, capacity) == messages,
{
    lemma_enqueue_all(Seq::empty(), messages, capacity);
    assert(Seq::<MessageView>::empty() + messages =~= messages);
}

/// A subscriber that starts empty and is sent more than it can hold keeps
/// the most recent `capacity` messages, in the order of publishing, and
/// loses the ones before them.
pub proof fn lemma_lag_keeps_most_recent(messages: Seq<MessageView>, capacity: nat)
    requires
        messages.len() > capacity,
    ensures
        enqueue_all(Seq::empty(), messages, capacity) == messages.skip(
            messages.len() - capacity,
        ),
        enqueue_all(Seq::empty(), messages, capacity).len() == capacity,
{
    lemma_enqueue_all(Seq::empty(), messages, capacity);
    assert(Seq::<MessageView>::empty() + messages =~= messages);
}

/// A run of messages as contracts see it.
pub open spec fn messages_view(messages: Seq<MessageWrapper>) -> Seq<MessageView> {
    Seq::new(messages.len(), |i: int| messages[i]@)
}

/// The broadcast bus.
pub struct Bus {
    capacity: usize,
    slots: Vec<Option<VecDeque<MessageWrapper>>>,
}

impl View for Bus {
    type V = Map<usize, Seq<MessageView>>;

    /// For each subscriber, by its id, the messages that wait for it, oldest
    /// first.
    closed spec fn view(&self) -> Map<usize, Seq<MessageView>> {
        Map::new(
            |id: usize| id < self.slots@.len() && self.slots@[id as int] is Some,
            |id: usize| messages_view(self.slots@[id as int].unwrap()@),
        )
    }
}

/// Puts `message` at the back of `queue`, after making room for it.
fn push_bounded(queue: &mut VecDeque<MessageWrapper>, message: MessageWrapper, capacity: usize)
    requires
        old(queue)@.len() <= capacity,
    ensures
        messages_view(final(queue)@) == enqueue(
            messages_view(old(queue)@),
            message@,
            capacity as nat,
        ),
        final(queue)@.len() <= capacity,
{
    if capacity == 0 {
        assert(messages_view(queue@) =~= enqueue(
            messages_view(old(queue)@),
            message@,
            capacity as nat,
        ));
        return ;
    }
    if queue.len() >= capacity {
        let _ = queue.pop_front();
    }
    queue.push_back(message);
    assert(messages_view(queue@) =~= enqueue(
        messages_view(old(queue)@),
        message@,
        capacity as nat,
    ));
}

impl Bus {
    /// The bound on each subscriber's queue.
    pub closed spec fn spec_capacity(&self) -> nat {
        self.capacity as nat
    }

    /// No queue holds more than the capacity.
    pub closed spec fn wf(&self) -> bool {
        forall|id: int|
            0 <= id < self.slots@.len() ==> (#[trigger] self.slots@[id] matches Some(queue)
                ==> queue@.len() <= self.capacity)
    }

    /// Every queue is within the capacity.
    pub proof fn lemma_bounded(&self, id: usize)
        requires
            self.wf(),
            self@.contains_key(id),
        ensures
            self@[id].len() <= self.spec_capacity(),
    {
        assert(self.slots@[id as int] is Some);
    }

    /// A bus without subscribers, whose queues will hold up to `capacity`
    /// messages each.
    pub fn new(capacity: usize) -> (bus: Self)
        ensures
            bus.wf(),
            bus.spec_capacity() == capacity,
            bus@ == Map::<usize, Seq<MessageView>>::empty(),
    {
        let bus = Bus { capacity, slots: Vec::new() };
        assert(bus@ =~= Map::<usize, Seq<MessageView>>::empty());
        bus
    }

    /// The bound on each subscriber's queue.
    pub fn capacity(&self) -> (capacity: usize)
        ensures
            capacity == self.spec_capacity(),
    {
        self.capacity
    }

    /// Adds a subscriber and gives its id. Its queue starts empty: nothing
    /// that was published before is replayed. The other subscribers keep
    /// what they had.
    pub fn subscribe(&mut self) -> (id: usize)
        requires
            old(self).wf(),
        ensures
            final(self).wf(),
            final(self).spec_capacity() == old(self).spec_capacity(),
            !old(self)@.contains_key(id),
            final(self)@ == old(self)@.insert(id, Seq::empty()),
    {
        let mut i: usize = 0;
        while i < self.slots.len()
            invariant
                *self == *old(self),
                self.wf(),
                i <= self.slots@.len(),
            decreases self.slots@.len() - i,
        {
            if self.slots[i].is_none() {
                self.slots[i] = Some(VecDeque::new());
                proof {
                    assert(messages_view(self.slots@[i as int].unwrap()@) =~= Seq::empty());
                    assert(self@ =~= old(self)@.insert(i, Seq::empty()));
                    assert forall|j: int| 0 <= j < self.slots@.len() implies (
                    #[trigger] self.slots@[j] matches Some(queue) ==> queue@.len()
                        <= self.capacity) by {
                        if j != i {
                            assert(self.slots@[j] == old(self).slots@[j]);
                        }
                    }
                }
                return i;
            }
            i += 1;
        }
        self.slots.push(Some(VecDeque::new()));
        assert(messages_view(self.slots@[i as int].unwrap()@) =~= Seq::empty());
        assert(self@ =~= old(self)@.insert(i, Seq::empty()));
        i
    }

    /// Removes a subscriber and drops what waited for it. An id that names no
    /// subscriber changes nothing.
    pub fn unsubscribe(&mut self, id: usize)
        requires
            old(self).wf(),
        ensures
            final(self).wf(),
            final(self).spec_capacity() == old(self).spec_capacity(),
            final(self)@ == old(self)@.remove(id),
    {
        if id < self.slots.len() {
            self.slots[id] = None;
        }
        assert(self@ =~= old(self)@.remove(id));
    }

    /// Whether `id` names a subscriber.
    pub fn is_subscribed(&self, id: usize) -> (yes: bool)
        ensures
            yes == self@.contains_key(id),
    {
        id < self.slots.len() && self.slots[id].is_some()
    }

    /// How many messages wait for subscriber `id`; none where there is no
    /// such subscriber.
    pub fn pending(&self, id: usize) -> (count: Option<usize>)
        ensures
            match count {
                Some(n) => self@.contains_key(id) && n == self@[id].len(),
                None => !self@.contains_key(id),
            },
    {
        if id < self.slots.len() {
            match &self.slots[id] {
                Some(queue) => Some(queue.len()),
                None => None,
            }
        } else {
            None
        }
    }

    /// Publishes `message` to every subscriber. Each queue gets the message
    /// at its back; a queue that was full loses its oldest message. Never
    /// waits and never fails, whatever the state of the queues.
    pub fn publish(&mut self, message: &MessageWrapper)
        requires
            old(self).wf(),
        ensures
            final(self).wf(),
            final(self).spec_capacity() == old(self).spec_capacity(),
            final(self)@ == published(old(self)@, message@, old(self).spec_capacity()),
    {
        let capacity = self.capacity;
        let mut i: usize = 0;
        while i < self.slots.len()
            invariant
                i <= self.slots@.len(),
                self.capacity == capacity,
                capacity == old(self).capacity,
                self.slots@.len() == old(self).slots@.len(),
                self.wf(),
                forall|j: int|
                    0 <= j < self.slots@.len() ==> (#[trigger] self.slots@[j] is Some <==> old(self).slots@[j] is Some),
                forall|j: int|
                    i <= j < self.slots@.len() ==> #[trigger] self.slots@[j] == old(self).slots@[j],
                forall|j: int|
                    0 <= j < i && old(self).slots@[j] is Some ==> messages_view(
                        (#[trigger] self.slots@[j]).unwrap()@,
                    ) == enqueue(
                        messages_view(old(self).slots@[j].unwrap()@),
                        message@,
                        capacity as nat,
                    ),
            decreases self.slots@.len() - i,
        {
            match &mut self.slots[i] {
                Some(queue) => {
                    push_bounded(queue, message.clone(), capacity);
                },
                None => {},
            }
            i += 1;
        }
        assert(self@ =~= published(old(self)@, message@, old(self).spec_capacity()));
    }

    /// Takes the oldest message that waits for subscriber `id`. Gives `None`
    /// and changes nothing where none waits, or where there is no such
    /// subscriber: the caller then suspends until the next publish.
    pub fn try_receive(&mut self, id: usize) -> (received: Option<MessageWrapper>)
        requires
            old(self).wf(),
        ensures
            final(self).wf(),
            final(self).spec_capacity() == old(self).spec_capacity(),
            match received {
                Some(message) => {
                    &&& old(self)@.contains_key(id)
                    &&& old(self)@[id].len() > 0
                    &&& message@ == old(self)@[id][0]
                    &&& final(self)@ == old(self)@.insert(id, old(self)@[id].skip(1))
                },
                None => {
                    &&& old(self)@.contains_key(id) ==> old(self)@[id].len() == 0
                    &&& final(self)@ == old(self)@
                },
            },
    {
        if id >= self.slots.len() {
            return None;
        }
        match &mut self.slots[id] {
            Some(queue) => {
                let received = queue.pop_front();
                proof {
                    if received is Some {
                        assert(messages_view(queue@) =~= messages_view(
                            old(self).slots@[id as int].unwrap()@,
                        ).skip(1));
                    }
                }
                assert(self@ =~= if received is Some {
                    old(self)@.insert(id, old(self)@[id].skip(1))
                } else {
                    old(self)@
                });
                received
            },
            None => None,
        }
    }
}

} // verus!
