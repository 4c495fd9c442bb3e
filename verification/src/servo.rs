//! The decisions of the persistence loop: what to do after each event of the
//! channel and of the storage engine.

use vstd::prelude::*;
use crate::feed::Feed;

verus! {

/// The loop is running until the channel closes; then it has stopped for
/// good.
#[derive(Clone, Copy, Debug, PartialEq, Eq, Structural)]
pub enum ServoState {
    Running,
    Stopped,
}

/// What the loop is told.
#[derive(Clone, Debug)]
pub enum ServoEvent {
    /// The channel delivered an entry.
    Received(Feed),
    /// The storage engine accepted the last insert.
    Inserted,
    /// The storage engine refused the last insert.
    InsertFailed,
    /// Every producer is gone and the queue is empty.
    Closed,
}

/// What the loop does next.
#[derive(Clone, Debug)]
pub enum ServoAction {
    /// Record the entry for observability, then try once to insert it.
    Insert(Feed),
    /// Wait for the next entry.
    Receive,
    /// Log a warning for the lost entry, then wait for the next one.
    Warn,
    /// Leave the loop.
    Halt,
}

/// The state after an event and the action it calls for. A running loop
/// inserts each entry it receives, once; a failed insert is warned of and
/// never tried again; closure stops the loop, and a stopped loop does
/// nothing more.
pub open spec fn next(state: ServoState, event: ServoEvent) -> (ServoState, ServoAction) {
    match state {
        ServoState::Stopped => (ServoState::Stopped, ServoAction::Halt),
        ServoState::Running => match event {
            ServoEvent::Received(feed) => (ServoState::Running, ServoAction::Insert(feed)),
            ServoEvent::Inserted => (ServoState::Running, ServoAction::Receive),
            ServoEvent::InsertFailed => (ServoState::Running, ServoAction::Warn),
            ServoEvent::Closed => (ServoState::Stopped, ServoAction::Halt),
        },
    }
}

/// The state after a sequence of events.
pub open spec fn state_after(state: ServoState, events: Seq<ServoEvent>) -> ServoState
    decreases events.len(),
{
    if events.len() == 0 {
        state
    } else {
        next(state_after(state, events.drop_last()), events.last()).0
    }
}

/// The number of inserts attempted over a sequence of events.
pub open spec fn inserts_attempted(state: ServoState, events: Seq<ServoEvent>) -> nat
    decreases events.len(),
{
    if events.len() == 0 {
        0
    } else {
        let before = inserts_attempted(state, events.drop_last());
        if next(state_after(state, events.drop_last()), events.last()).1 is Insert {
            before + 1
        } else {
            before
        }
    }
}

/// The number of entries delivered in a sequence of events.
pub open spec fn deliveries(events: Seq<ServoEvent>) -> nat
    decreases events.len(),
{
    if events.len() == 0 {
        0
    } else if events.last() is Received {
        deliveries(events.drop_last()) + 1
    } else {
        deliveries(events.drop_last())
    }
}

/// No event of the sequence is the closure of the channel.
pub open spec fn open_throughout(events: Seq<ServoEvent>) -> bool {
    forall|i: int| 0 <= i < events.len() ==> !((#[trigger] events[i]) is Closed)
}

impl ServoState {
    /// The first state of the loop.
    pub fn start() -> (state: ServoState)
        ensures
            state == ServoState::Running,
    {
        ServoState::Running
    }

    /// Takes one event and says what to do.
    pub fn step(self, event: ServoEvent) -> (out: (ServoState, ServoAction))
        ensures
            out == next(self, event),
    {
        match self {
            ServoState::Stopped => (ServoState::Stopped, ServoAction::Halt),
            ServoState::Running => match event {
                ServoEvent::Received(feed) => (ServoState::Running, ServoAction::Insert(feed)),
                ServoEvent::Inserted => (ServoState::Running, ServoAction::Receive),
                ServoEvent::InsertFailed => (ServoState::Running, ServoAction::Warn),
                ServoEvent::Closed => (ServoState::Stopped, ServoAction::Halt),
            },
        }
    }
}

/// While the channel stays open, a loop that started running is still
/// running and has attempted one insert for each entry delivered, whether or
/// not earlier inserts failed.
pub proof fn lemma_one_insert_per_delivery(events: Seq<ServoEvent>)
    requires
        open_throughout(events),
    ensures
        state_after(ServoState::Running, events) == ServoState::Running,
        inserts_attempted(ServoState::Running, events) == deliveries(events),
    decreases events.len(),
{
    if events.len() != 0 {
        lemma_one_insert_per_delivery(events.drop_last());
        assert(!(events[events.len() - 1] is Closed));
    }
}

/// Closure after any open run stops the loop without a further insert.
pub proof fn lemma_closure_stops(events: Seq<ServoEvent>)
    requires
        open_throughout(events),
    ensures
        state_after(ServoState::Running, events.push(ServoEvent::Closed)) == ServoState::Stopped,
        inserts_attempted(ServoState::Running, events.push(ServoEvent::Closed)) == deliveries(
            events,
        ),
{
    lemma_one_insert_per_delivery(events);
    assert(events.push(ServoEvent::Closed).drop_last() =~= events);
}

/// A stopped loop stays stopped and attempts no insert, whatever it is told.
pub proof fn lemma_stopped_is_final(events: Seq<ServoEvent>)
    ensures
        state_after(ServoState::Stopped, events) == ServoState::Stopped,
        inserts_attempted(ServoState::Stopped, events) == 0,
    decreases events.len(),
{
    if events.len() != 0 {
        lemma_stopped_is_final(events.drop_last());
    }
}

} // verus!
