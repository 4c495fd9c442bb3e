//! The ingestion channel as a queue: many producers put entries in, one
//! consumer takes them out in the order they came, and the channel closes
//! when the last producer is gone and the queue is empty.

use vstd::prelude::*;
use crate::feed::Feed;
use crate::servo::{
    deliveries, inserts_attempted, lemma_closure_stops, open_throughout, state_after, ServoEvent,
    ServoState,
};

verus! {

/// The queue between the producers and the persistence loop.
pub struct Channel {
    queue: Vec<Feed>,
    capacity: Option<usize>,
    producers: usize,
}

/// What a channel is: the entries waiting, oldest first; the bound on their
/// number, if there is one; the number of producers that can still send.
pub struct ChannelView {
    pub queue: Seq<Feed>,
    pub capacity: Option<nat>,
    pub producers: nat,
}

impl ChannelView {
    /// No room is left: the channel is bounded and the bound is reached.
    pub open spec fn full(self) -> bool {
        match self.capacity {
            Some(c) => self.queue.len() >= c,
            None => false,
        }
    }

    /// No producer is left and no entry is waiting.
    pub open spec fn closed(self) -> bool {
        self.producers == 0 && self.queue.len() == 0
    }
}

/// Why an entry was not queued. The entry comes back with the reason.
#[derive(Debug)]
pub enum SendError {
    /// The channel is bounded and full: the producer has to wait.
    Full(Feed),
    /// No producer is registered with the channel.
    Disconnected(Feed),
}

/// What the consumer gets when it asks for the next entry.
#[derive(Debug)]
pub enum Delivery {
    /// The oldest waiting entry.
    Item(Feed),
    /// Nothing is waiting, but a producer may still send: the consumer has to
    /// wait.
    Empty,
    /// Nothing is waiting and nothing will come.
    Closed,
}

impl View for Channel {
    type V = ChannelView;

    closed spec fn view(&self) -> ChannelView {
        ChannelView {
            queue: self.queue@,
            capacity: match self.capacity {
                Some(c) => Some(c as nat),
                None => None,
            },
            producers: self.producers as nat,
        }
    }
}

impl Channel {
    /// A bounded channel never holds more than its bound, and the number of
    /// producers fits the machine.
    pub open spec fn wf(&self) -> bool {
        &&& self@.producers <= usize::MAX
        &&& match self@.capacity {
            Some(c) => self@.queue.len() <= c && c <= usize::MAX,
            None => true,
        }
    }

    /// An empty channel with one producer; bounded by `capacity` where one is
    /// given, unbounded otherwise.
    pub fn new(capacity: Option<usize>) -> (channel: Channel)
        ensures
            channel.wf(),
            channel@.queue.len() == 0,
            channel@.producers == 1,
            match capacity {
                Some(c) => channel@.capacity == Some(c as nat),
                None => channel@.capacity is None,
            },
    {
        Channel { queue: Vec::new(), capacity, producers: 1 }
    }

    /// Registers one more producer, as the copy of an existing one. Refused
    /// where no producer is left to copy, or the count would not fit.
    pub fn add_producer(&mut self) -> (added: bool)
        requires
            old(self).wf(),
        ensures
            final(self).wf(),
            added == (0 < old(self)@.producers < usize::MAX),
            final(self)@.queue == old(self)@.queue,
            final(self)@.capacity == old(self)@.capacity,
            final(self)@.producers == old(self)@.producers + if added {
                1nat
            } else {
                0nat
            },
    {
        if 0 < self.producers && self.producers < usize::MAX {
            self.producers = self.producers + 1;
            true
        } else {
            false
        }
    }

    /// Takes one producer away. What is queued stays queued.
    pub fn drop_producer(&mut self)
        requires
            old(self).wf(),
        ensures
            final(self).wf(),
            final(self)@.queue == old(self)@.queue,
            final(self)@.capacity == old(self)@.capacity,
            final(self)@.producers == if old(self)@.producers == 0 {
                0nat
            } else {
                (old(self)@.producers - 1) as nat
            },
    {
        if self.producers > 0 {
            self.producers = self.producers - 1;
        }
    }

    /// Puts an entry at the end of the queue, unchanged, unless the channel
    /// is full or has no producer; then the channel stays as it was and the
    /// entry comes back.
    pub fn try_send(&mut self, feed: Feed) -> (out: Result<(), SendError>)
        requires
            old(self).wf(),
        ensures
            final(self).wf(),
            final(self)@.capacity == old(self)@.capacity,
            final(self)@.producers == old(self)@.producers,
            match out {
                Ok(_) => {
                    &&& old(self)@.producers > 0
                    &&& !old(self)@.full()
                    &&& final(self)@.queue == old(self)@.queue.push(feed)
                },
                Err(SendError::Disconnected(back)) => {
                    &&& old(self)@.producers == 0
                    &&& back == feed
                    &&& final(self)@.queue == old(self)@.queue
                },
                Err(SendError::Full(back)) => {
                    &&& old(self)@.producers > 0
                    &&& old(self)@.full()
                    &&& back == feed
                    &&& final(self)@.queue == old(self)@.queue
                },
            },
    {
        if self.producers == 0 {
            return Err(SendError::Disconnected(feed));
        }
        match self.capacity {
            Some(c) => {
                if self.queue.len() >= c {
                    return Err(SendError::Full(feed));
                }
            },
            None => {},
        }
        self.queue.push(feed);
        Ok(())
    }

    /// Takes the oldest entry out of the queue. An empty queue gives `Closed`
    /// once no producer is left, and `Empty` before.
    pub fn try_recv(&mut self) -> (out: Delivery)
        requires
            old(self).wf(),
        ensures
            final(self).wf(),
            final(self)@.capacity == old(self)@.capacity,
            final(self)@.producers == old(self)@.producers,
            match out {
                Delivery::Item(feed) => {
                    &&& old(self)@.queue.len() > 0
                    &&& feed == old(self)@.queue[0]
                    &&& final(self)@.queue == old(self)@.queue.drop_first()
                },
                Delivery::Empty => {
                    &&& old(self)@.queue.len() == 0
                    &&& old(self)@.producers > 0
                    &&& final(self)@.queue == old(self)@.queue
                },
                Delivery::Closed => {
                    &&& old(self)@.closed()
                    &&& final(self)@.queue == old(self)@.queue
                },
            },
    {
        if self.queue.len() > 0 {
            let feed = self.queue.remove(0);
            assert(self.queue@ =~= old(self).queue@.drop_first());
            Delivery::Item(feed)
        } else if self.producers > 0 {
            Delivery::Empty
        } else {
            Delivery::Closed
        }
    }
}

/// What the persistence loop is told by a channel whose producers are gone,
/// while it takes out what is queued: each entry in order.
pub open spec fn deliveries_of(queue: Seq<Feed>) -> Seq<ServoEvent> {
    Seq::new(queue.len(), |i: int| ServoEvent::Received(queue[i]))
}

/// Once every producer is gone, the loop attempts exactly one insert for
/// each queued entry, then sees the closure and stops.
pub proof fn lemma_queue_drained_then_stopped(queue: Seq<Feed>)
    ensures
        open_throughout(deliveries_of(queue)),
        deliveries(deliveries_of(queue)) == queue.len(),
        inserts_attempted(ServoState::Running, deliveries_of(queue).push(ServoEvent::Closed))
            == queue.len(),
        state_after(ServoState::Running, deliveries_of(queue).push(ServoEvent::Closed))
            == ServoState::Stopped,
    decreases queue.len(),
{
    let events = deliveries_of(queue);
    if queue.len() != 0 {
        lemma_queue_drained_then_stopped(queue.drop_last());
        assert(events.drop_last() =~= deliveries_of(queue.drop_last()));
        assert(events.last() is Received);
    }
    lemma_closure_stops(events);
}

} // verus!
