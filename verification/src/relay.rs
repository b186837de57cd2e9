//! The relay of one query: the decisions of the task that moves messages from
//! the remote stream into the query's result channel.
//!
//! The task itself waits on the stream and on the channel; what it does next
//! is decided here, from the state it is in and the event that it met.

use crate::item::{chunks_then_at_most_one, item_view, Item, QueryResultChunkResult};
use vstd::prelude::*;

verus! {

/// Where a relay stands.
#[derive(Clone, Copy, Debug, PartialEq, Eq, Structural)]
pub enum RelayState {
    /// Waiting for the next inbound message, or for the reader to close the
    /// channel, whichever comes first.
    Forwarding,
    /// A chunk is being pushed into the channel.
    PushingChunk,
    /// The item that ends the stream is being pushed into the channel.
    PushingLast,
    /// The stream has ended: waiting for the reader to close the channel.
    Lingering,
    /// The relay is over.
    Stopped,
}

/// What a relay met.
#[derive(Debug, PartialEq, Eq)]
pub enum RelayEvent {
    /// The remote stream gave a message, its end, or an error.
    Inbound(QueryResultChunkResult),
    /// The reader closed the channel.
    Closed,
    /// The item went into the channel.
    Pushed,
    /// The item was refused: the reader had closed the channel.
    Refused,
}

/// What a relay does next.
#[derive(Debug, PartialEq, Eq)]
pub enum RelayAction {
    /// Wait for the next inbound message or for the reader to close the
    /// channel, whichever comes first.
    AwaitInbound,
    /// Push the item into the channel, waiting for room.
    Push(QueryResultChunkResult),
    /// Wait for the reader to close the channel.
    AwaitClose,
    /// End the task and release the sending half.
    Exit,
}

/// The model of `RelayEvent`.
pub enum Event {
    /// The remote stream gave this item.
    Inbound(Item),
    /// The reader closed the channel.
    Closed,
    /// The item went into the channel.
    Pushed,
    /// The item was refused.
    Refused,
}

/// The model of `RelayAction`.
pub enum Action {
    /// Wait for the next inbound message or for the channel to be closed.
    AwaitInbound,
    /// Push the item into the channel.
    Push(Item),
    /// Wait for the channel to be closed.
    AwaitClose,
    /// End the task.
    Exit,
}

/// The model of an event.
pub open spec fn event_view(event: RelayEvent) -> Event {
    match event {
        RelayEvent::Inbound(item) => Event::Inbound(item_view(item)),
        RelayEvent::Closed => Event::Closed,
        RelayEvent::Pushed => Event::Pushed,
        RelayEvent::Refused => Event::Refused,
    }
}

/// The model of an action.
pub open spec fn action_view(action: RelayAction) -> Action {
    match action {
        RelayAction::AwaitInbound => Action::AwaitInbound,
        RelayAction::Push(item) => Action::Push(item_view(item)),
        RelayAction::AwaitClose => Action::AwaitClose,
        RelayAction::Exit => Action::Exit,
    }
}

/// The state that a relay enters on `event`, and what it does then.
///
/// While forwarding, an inbound item is pushed as it is. After a chunk has
/// gone into the channel the relay forwards again; a refused chunk ends it.
/// After the item that ends the stream the relay lingers until the reader
/// closes the channel, whether or not that item went in. The closing of the
/// channel ends the relay in every state, and so does any event that the
/// state does not expect.
pub open spec fn relay_next(state: RelayState, event: Event) -> (RelayState, Action) {
    match (state, event) {
        (RelayState::Forwarding, Event::Inbound(item)) => if item is Chunk {
            (RelayState::PushingChunk, Action::Push(item))
        } else {
            (RelayState::PushingLast, Action::Push(item))
        },
        (RelayState::PushingChunk, Event::Pushed) => (RelayState::Forwarding, Action::AwaitInbound),
        (RelayState::PushingLast, Event::Pushed) => (RelayState::Lingering, Action::AwaitClose),
        (RelayState::PushingLast, Event::Refused) => (RelayState::Lingering, Action::AwaitClose),
        _ => (RelayState::Stopped, Action::Exit),
    }
}

/// The actions of a relay that starts in `state` and meets `events` in turn,
/// one action for each event.
pub open spec fn relay_run(state: RelayState, events: Seq<Event>) -> Seq<Action>
    decreases events.len(),
{
    if events.len() == 0 {
        Seq::empty()
    } else {
        let (next, action) = relay_next(state, events.first());
        seq![action] + relay_run(next, events.drop_first())
    }
}

/// The state of a relay that started in `state` and met `events` in turn.
pub open spec fn relay_state_after(state: RelayState, events: Seq<Event>) -> RelayState
    decreases events.len(),
{
    if events.len() == 0 {
        state
    } else {
        relay_state_after(relay_next(state, events.first()).0, events.drop_first())
    }
}

/// The items that `actions` push, in order.
pub open spec fn pushed_items(actions: Seq<Action>) -> Seq<Item>
    decreases actions.len(),
{
    if actions.len() == 0 {
        Seq::empty()
    } else {
        match actions.first() {
            Action::Push(item) => seq![item] + pushed_items(actions.drop_first()),
            _ => pushed_items(actions.drop_first()),
        }
    }
}

/// The items that the remote stream gave among `events`, in order.
pub open spec fn inbound_items(events: Seq<Event>) -> Seq<Item>
    decreases events.len(),
{
    if events.len() == 0 {
        Seq::empty()
    } else {
        match events.first() {
            Event::Inbound(item) => seq![item] + inbound_items(events.drop_first()),
            _ => inbound_items(events.drop_first()),
        }
    }
}

/// The events of a stream that gives `items` one by one, each of which goes
/// into the channel.
pub open spec fn delivered(items: Seq<Item>) -> Seq<Event>
    decreases items.len(),
{
    if items.len() == 0 {
        Seq::empty()
    } else {
        seq![Event::Inbound(items.first()), Event::Pushed] + delivered(items.drop_first())
    }
}

/// `shorter` is the beginning of `longer`.
pub open spec fn is_beginning_of(shorter: Seq<Item>, longer: Seq<Item>) -> bool {
    &&& shorter.len() <= longer.len()
    &&& forall|i: int| 0 <= i < shorter.len() ==> shorter[i] == longer[i]
}

/// The state in which a relay starts, and its first action.
pub fn relay_start() -> (r: (RelayState, RelayAction))
    ensures
        r.0 == RelayState::Forwarding,
        r.1 == RelayAction::AwaitInbound,
{
    (RelayState::Forwarding, RelayAction::AwaitInbound)
}

/// The state that a relay in `state` enters on `event`, and what it does
/// next.
pub fn relay_step(state: RelayState, event: RelayEvent) -> (r: (RelayState, RelayAction))
    ensures
        (r.0, action_view(r.1)) == relay_next(state, event_view(event)),
{
    match state {
        RelayState::Forwarding => match event {
            RelayEvent::Inbound(item) => {
                let next = match &item {
                    Ok(Some(_)) => RelayState::PushingChunk,
                    _ => RelayState::PushingLast,
                };
                (next, RelayAction::Push(item))
            },
            _ => (RelayState::Stopped, RelayAction::Exit),
        },
        RelayState::PushingChunk => match event {
            RelayEvent::Pushed => (RelayState::Forwarding, RelayAction::AwaitInbound),
            _ => (RelayState::Stopped, RelayAction::Exit),
        },
        RelayState::PushingLast => match event {
            RelayEvent::Pushed => (RelayState::Lingering, RelayAction::AwaitClose),
            RelayEvent::Refused => (RelayState::Lingering, RelayAction::AwaitClose),
            _ => (RelayState::Stopped, RelayAction::Exit),
        },
        _ => (RelayState::Stopped, RelayAction::Exit),
    }
}

/// Closing the channel ends the relay, whatever it was doing, with no
/// further item pushed: its answer to the closing is to exit, and so is its
/// answer to every event after that.
pub proof fn law_closing_stops_the_relay(state: RelayState, before: Seq<Event>, after: Seq<Event>)
    ensures
        relay_next(state, Event::Closed) == (RelayState::Stopped, Action::Exit),
        relay_state_after(state, before + seq![Event::Closed] + after) == RelayState::Stopped,
        pushed_items(relay_run(state, before + seq![Event::Closed] + after)) == pushed_items(
            relay_run(state, before),
        ),
    decreases before.len(),
{
    let events = before + seq![Event::Closed] + after;
    if before.len() == 0 {
        assert(events.drop_first() =~= after);
        lemma_stopped_stays_stopped(after);
        lemma_pushed_items_concat(seq![Action::Exit], relay_run(RelayState::Stopped, after));
        lemma_pushed_items_of_one(Action::Exit);
    } else {
        let (next, action) = relay_next(state, before.first());
        assert(events.drop_first() =~= before.drop_first() + seq![Event::Closed] + after);
        law_closing_stops_the_relay(next, before.drop_first(), after);
        lemma_pushed_items_concat(seq![action], relay_run(next, events.drop_first()));
        lemma_pushed_items_concat(seq![action], relay_run(next, before.drop_first()));
    }
}

/// A relay forwards in order and ends the stream once. Whatever events it
/// meets from its start, the items it pushes are a beginning of the items
/// that the remote stream gave, in the same order and unchanged, and none but
/// the last of them ends the stream.
pub proof fn law_relay_forwards_in_order(events: Seq<Event>)
    ensures
        is_beginning_of(
            pushed_items(relay_run(RelayState::Forwarding, events)),
            inbound_items(events),
        ),
        chunks_then_at_most_one(pushed_items(relay_run(RelayState::Forwarding, events))),
{
    lemma_relay_pushes(RelayState::Forwarding, events);
}

/// A relay drops nothing. When the stream gives `items`, of which only the
/// last may end the stream, and each goes into the channel, the relay pushes
/// exactly `items`; it then forwards on if the stream has not ended, and
/// lingers for the reader to close the channel if it has.
pub proof fn law_relay_forwards_every_item(items: Seq<Item>)
    requires
        chunks_then_at_most_one(items),
    ensures
        pushed_items(relay_run(RelayState::Forwarding, delivered(items))) == items,
        relay_state_after(RelayState::Forwarding, delivered(items)) == (if items.len() > 0
            && items.last().is_terminal() {
            RelayState::Lingering
        } else {
            RelayState::Forwarding
        }),
    decreases items.len(),
{
    if items.len() > 0 {
        let item = items.first();
        let rest = items.drop_first();
        let events = delivered(items);
        let tail = delivered(rest);
        assert(events.drop_first().drop_first() =~= tail);
        let after = if item is Chunk {
            RelayState::Forwarding
        } else {
            RelayState::Lingering
        };
        let pushing = relay_next(RelayState::Forwarding, events.first()).0;
        let second = relay_next(pushing, Event::Pushed).1;
        assert(relay_run(pushing, events.drop_first()) == seq![second] + relay_run(after, tail));
        assert(relay_state_after(pushing, events.drop_first()) == relay_state_after(after, tail));
        assert(relay_run(RelayState::Forwarding, events) =~= seq![Action::Push(item), second]
            + relay_run(after, tail));
        lemma_pushed_items_concat(seq![Action::Push(item), second], relay_run(after, tail));
        lemma_pushed_items_concat(seq![Action::Push(item)], seq![second]);
        assert(seq![Action::Push(item)] + seq![second] =~= seq![Action::Push(item), second]);
        lemma_pushed_items_of_one(Action::Push(item));
        lemma_pushed_items_of_one(second);
        if item is Chunk {
            law_relay_forwards_every_item(rest);
        }
    }
}

/// A stopped relay stays stopped and pushes nothing.
proof fn lemma_stopped_stays_stopped(events: Seq<Event>)
    ensures
        relay_state_after(RelayState::Stopped, events) == RelayState::Stopped,
        pushed_items(relay_run(RelayState::Stopped, events)) == Seq::<Item>::empty(),
    decreases events.len(),
{
    if events.len() > 0 {
        lemma_stopped_stays_stopped(events.drop_first());
        assert(relay_run(RelayState::Stopped, events).drop_first() =~= relay_run(
            RelayState::Stopped,
            events.drop_first(),
        ));
    }
}

/// What a single action pushes: its item if it is a push, else nothing.
proof fn lemma_pushed_items_of_one(action: Action)
    ensures
        pushed_items(seq![action]) == (match action {
            Action::Push(item) => seq![item],
            _ => Seq::empty(),
        }),
{
    reveal_with_fuel(pushed_items, 2);
}

/// The items pushed by two runs of actions are those of the first followed
/// by those of the second.
proof fn lemma_pushed_items_concat(first: Seq<Action>, second: Seq<Action>)
    ensures
        pushed_items(first + second) == pushed_items(first) + pushed_items(second),
    decreases first.len(),
{
    if first.len() > 0 {
        assert((first + second).drop_first() =~= first.drop_first() + second);
        lemma_pushed_items_concat(first.drop_first(), second);
    }
}

/// What a relay pushes from `state` on: a beginning of what the stream gives
/// from then on, of which only the last item can end the stream; and nothing
/// at all once the stream has ended.
proof fn lemma_relay_pushes(state: RelayState, events: Seq<Event>)
    ensures
        is_beginning_of(pushed_items(relay_run(state, events)), inbound_items(events)),
        chunks_then_at_most_one(pushed_items(relay_run(state, events))),
        state != RelayState::Forwarding && state != RelayState::PushingChunk ==> pushed_items(
            relay_run(state, events),
        ).len() == 0,
    decreases events.len(),
{
    if events.len() > 0 {
        let (next, action) = relay_next(state, events.first());
        let rest = events.drop_first();
        lemma_relay_pushes(next, rest);
        lemma_pushed_items_concat(seq![action], relay_run(next, rest));
        lemma_pushed_items_of_one(action);
    }
}

} // verus!
