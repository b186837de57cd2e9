use loper_service::item::QueryResultChunkResult;
use loper_service::relay::{relay_start, relay_step, RelayAction, RelayEvent, RelayState};

fn chunk(bytes: &[u8]) -> QueryResultChunkResult {
    Ok(Some(bytes.to_vec()))
}

/// Runs a relay over `events` and returns the items it pushed and the state
/// it ended in.
fn run(events: Vec<RelayEvent>) -> (Vec<QueryResultChunkResult>, RelayState) {
    let (mut state, first) = relay_start();
    assert_eq!(first, RelayAction::AwaitInbound);
    let mut pushed = Vec::new();
    for event in events {
        let (next, action) = relay_step(state, event);
        state = next;
        if let RelayAction::Push(item) = action {
            pushed.push(item);
        }
    }
    (pushed, state)
}

#[test]
fn relay_starts_by_waiting_for_the_stream() {
    let (state, action) = relay_start();
    assert_eq!(state, RelayState::Forwarding);
    assert_eq!(action, RelayAction::AwaitInbound);
}

#[test]
fn relay_pushes_a_chunk_and_forwards_again() {
    let (state, action) = relay_step(RelayState::Forwarding, RelayEvent::Inbound(chunk(b"A")));
    assert_eq!(state, RelayState::PushingChunk);
    assert_eq!(action, RelayAction::Push(chunk(b"A")));
    let (state, action) = relay_step(state, RelayEvent::Pushed);
    assert_eq!(state, RelayState::Forwarding);
    assert_eq!(action, RelayAction::AwaitInbound);
}

#[test]
fn relay_stops_when_a_chunk_is_refused() {
    let (state, _) = relay_step(RelayState::Forwarding, RelayEvent::Inbound(chunk(b"A")));
    let (state, action) = relay_step(state, RelayEvent::Refused);
    assert_eq!(state, RelayState::Stopped);
    assert_eq!(action, RelayAction::Exit);
}

#[test]
fn relay_pushes_the_end_marker_and_lingers() {
    let (state, action) = relay_step(RelayState::Forwarding, RelayEvent::Inbound(Ok(None)));
    assert_eq!(state, RelayState::PushingLast);
    assert_eq!(action, RelayAction::Push(Ok(None)));
    let (state, action) = relay_step(state, RelayEvent::Pushed);
    assert_eq!(state, RelayState::Lingering);
    assert_eq!(action, RelayAction::AwaitClose);
    let (state, action) = relay_step(state, RelayEvent::Closed);
    assert_eq!(state, RelayState::Stopped);
    assert_eq!(action, RelayAction::Exit);
}

#[test]
fn relay_lingers_even_when_the_end_marker_is_refused() {
    let (state, _) = relay_step(RelayState::Forwarding, RelayEvent::Inbound(Ok(None)));
    let (state, action) = relay_step(state, RelayEvent::Refused);
    assert_eq!(state, RelayState::Lingering);
    assert_eq!(action, RelayAction::AwaitClose);
}

#[test]
fn relay_pushes_an_error_as_the_last_item() {
    let failure: QueryResultChunkResult = Err("stream broke".to_string());
    let (state, action) = relay_step(RelayState::Forwarding, RelayEvent::Inbound(failure.clone()));
    assert_eq!(state, RelayState::PushingLast);
    assert_eq!(action, RelayAction::Push(failure));
    let (state, action) = relay_step(state, RelayEvent::Pushed);
    assert_eq!(state, RelayState::Lingering);
    assert_eq!(action, RelayAction::AwaitClose);
}

#[test]
fn relay_stops_when_the_channel_closes_while_it_waits_for_the_stream() {
    let (state, action) = relay_step(RelayState::Forwarding, RelayEvent::Closed);
    assert_eq!(state, RelayState::Stopped);
    assert_eq!(action, RelayAction::Exit);
}

#[test]
fn relay_stops_on_closing_in_every_state() {
    let states = [
        RelayState::Forwarding,
        RelayState::PushingChunk,
        RelayState::PushingLast,
        RelayState::Lingering,
        RelayState::Stopped,
    ];
    for state in states {
        let (next, action) = relay_step(state, RelayEvent::Closed);
        assert_eq!(next, RelayState::Stopped);
        assert_eq!(action, RelayAction::Exit);
    }
}

#[test]
fn relay_pushes_nothing_after_it_stopped() {
    let events = vec![
        RelayEvent::Inbound(chunk(b"A")),
        RelayEvent::Pushed,
        RelayEvent::Closed,
        RelayEvent::Inbound(chunk(b"B")),
        RelayEvent::Pushed,
        RelayEvent::Inbound(Ok(None)),
    ];
    let (pushed, state) = run(events);
    assert_eq!(pushed, vec![chunk(b"A")]);
    assert_eq!(state, RelayState::Stopped);
}

#[test]
fn relay_forwards_items_in_stream_order() {
    let events = vec![
        RelayEvent::Inbound(chunk(b"A")),
        RelayEvent::Pushed,
        RelayEvent::Inbound(chunk(b"B")),
        RelayEvent::Pushed,
        RelayEvent::Inbound(chunk(b"C")),
        RelayEvent::Pushed,
        RelayEvent::Inbound(Ok(None)),
        RelayEvent::Pushed,
        RelayEvent::Closed,
    ];
    let (pushed, state) = run(events);
    assert_eq!(pushed, vec![chunk(b"A"), chunk(b"B"), chunk(b"C"), Ok(None)]);
    assert_eq!(state, RelayState::Stopped);
}

#[test]
fn relay_pushes_nothing_after_the_end_of_the_stream() {
    let events = vec![
        RelayEvent::Inbound(Ok(None)),
        RelayEvent::Pushed,
        RelayEvent::Inbound(chunk(b"late")),
        RelayEvent::Pushed,
        RelayEvent::Inbound(Ok(None)),
    ];
    let (pushed, state) = run(events);
    assert_eq!(pushed, vec![Ok(None)]);
    assert_eq!(state, RelayState::Stopped);
}

#[test]
fn relay_stops_on_an_event_that_its_state_does_not_expect() {
    let (state, action) = relay_step(RelayState::Forwarding, RelayEvent::Pushed);
    assert_eq!((state, action), (RelayState::Stopped, RelayAction::Exit));
    let (state, action) = relay_step(RelayState::PushingChunk, RelayEvent::Inbound(chunk(b"A")));
    assert_eq!((state, action), (RelayState::Stopped, RelayAction::Exit));
    let (state, action) = relay_step(RelayState::Lingering, RelayEvent::Pushed);
    assert_eq!((state, action), (RelayState::Stopped, RelayAction::Exit));
    let (state, action) = relay_step(RelayState::Stopped, RelayEvent::Inbound(Ok(None)));
    assert_eq!((state, action), (RelayState::Stopped, RelayAction::Exit));
}
