use loper_service::item::{QueryResultBatch, QueryResultChunkResult};
use loper_service::query::{
    absorb, after_wait, Absorbed, LoperServiceQuery, ReadStep, RESULT_BUFFER,
};
use tokio::sync::mpsc::error::TrySendError;
use tokio::sync::mpsc::Sender;

fn data(bytes: &[u8]) -> QueryResultChunkResult {
    Ok(Some(bytes.to_vec()))
}

fn batch(chunks: &[&[u8]]) -> QueryResultBatch {
    Ok(chunks.iter().map(|chunk| Some(chunk.to_vec())).collect())
}

fn push(sender: &Sender<QueryResultChunkResult>, item: QueryResultChunkResult) {
    assert!(sender.try_send(item).is_ok());
}

/// One whole read: the draining pass, and the wait where the pass asks for
/// it.
fn read(query: &mut LoperServiceQuery) -> QueryResultBatch {
    let (step, _) = query.read_buffered();
    match step {
        ReadStep::Done(result) => result,
        ReadStep::Wait => {
            let waited = query.channel_mut().blocking_recv();
            query.finish_wait(waited)
        }
    }
}

#[test]
fn result_buffer_holds_ten_items() {
    assert_eq!(RESULT_BUFFER, 10);
    let (query, sender) = LoperServiceQuery::create();
    assert_eq!(query.buffer_capacity(), 10);
    for i in 0..10u8 {
        push(&sender, data(&[i]));
    }
    assert!(matches!(sender.try_send(data(&[10])), Err(TrySendError::Full(_))));
}

#[test]
fn new_query_is_unfinished() {
    let (query, _sender) = LoperServiceQuery::create();
    assert!(!query.is_finished());
}

#[test]
fn read_returns_every_buffered_chunk_without_waiting() {
    let (mut query, sender) = LoperServiceQuery::create();
    push(&sender, data(b"A"));
    push(&sender, data(b"B"));
    push(&sender, data(b"C"));
    let (step, _) = query.read_buffered();
    assert_eq!(step, ReadStep::Done(batch(&[b"A", b"B", b"C"])));
    assert!(!query.is_finished());
    assert_eq!(query.buffer_capacity(), 10);
}

#[test]
fn read_returns_a_full_buffer_in_one_call() {
    let (mut query, sender) = LoperServiceQuery::create();
    let mut expected = Vec::new();
    for i in 0..10u8 {
        push(&sender, data(&[i, i]));
        expected.push(Some(vec![i, i]));
    }
    let (step, _) = query.read_buffered();
    assert_eq!(step, ReadStep::Done(Ok(expected)));
}

#[test]
fn read_of_an_empty_buffer_asks_to_wait() {
    let (mut query, _sender) = LoperServiceQuery::create();
    let (step, _) = query.read_buffered();
    assert_eq!(step, ReadStep::Wait);
    assert!(!query.is_finished());
}

#[test]
fn read_after_a_drain_waits_for_the_next_item() {
    let (mut query, sender) = LoperServiceQuery::create();
    push(&sender, data(b"A"));
    assert_eq!(read(&mut query), batch(&[b"A"]));
    let (step, _) = query.read_buffered();
    assert_eq!(step, ReadStep::Wait);
    push(&sender, data(b"B"));
    let waited = query.channel_mut().blocking_recv();
    assert_eq!(query.finish_wait(waited), batch(&[b"B"]));
    assert!(!query.is_finished());
}

#[test]
fn read_returns_the_chunks_before_the_end_marker() {
    let (mut query, sender) = LoperServiceQuery::create();
    push(&sender, data(b"A"));
    push(&sender, Ok(None));
    assert_eq!(read(&mut query), batch(&[b"A"]));
    assert!(query.is_finished());
    assert_eq!(read(&mut query), batch(&[]));
    assert_eq!(read(&mut query), batch(&[]));
    assert!(query.is_finished());
}

#[test]
fn read_of_a_finished_query_leaves_the_channel_alone() {
    let (mut query, sender) = LoperServiceQuery::create();
    push(&sender, Ok(None));
    assert_eq!(read(&mut query), batch(&[]));
    push(&sender, data(b"late"));
    let (step, _) = query.read_buffered();
    assert_eq!(step, ReadStep::Done(batch(&[])));
    assert_eq!(query.channel_mut().try_recv(), Ok(data(b"late")));
}

#[test]
fn read_sees_the_end_marker_alone_as_an_empty_list() {
    let (mut query, sender) = LoperServiceQuery::create();
    push(&sender, Ok(None));
    let (step, _) = query.read_buffered();
    assert_eq!(step, ReadStep::Done(batch(&[])));
    assert!(query.is_finished());
}

#[test]
fn read_that_waits_sees_the_end_marker_as_an_empty_list() {
    let (mut query, sender) = LoperServiceQuery::create();
    let (step, _) = query.read_buffered();
    assert_eq!(step, ReadStep::Wait);
    push(&sender, Ok(None));
    let waited = query.channel_mut().blocking_recv();
    assert_eq!(query.finish_wait(waited), batch(&[]));
    assert!(query.is_finished());
    assert_eq!(read(&mut query), batch(&[]));
}

#[test]
fn read_returns_a_drained_error_and_drops_the_chunks_before_it() {
    let (mut query, sender) = LoperServiceQuery::create();
    push(&sender, data(b"A"));
    push(&sender, Err("stream broke".to_string()));
    assert_eq!(read(&mut query), Err("stream broke".to_string()));
    assert!(query.is_finished());
    assert_eq!(read(&mut query), batch(&[]));
}

#[test]
fn read_that_waits_returns_the_error() {
    let (mut query, sender) = LoperServiceQuery::create();
    let (step, _) = query.read_buffered();
    assert_eq!(step, ReadStep::Wait);
    push(&sender, Err("late failure".to_string()));
    let waited = query.channel_mut().blocking_recv();
    assert_eq!(query.finish_wait(waited), Err("late failure".to_string()));
    assert!(query.is_finished());
}

#[test]
fn read_of_a_closed_and_empty_channel_returns_an_empty_list() {
    let (mut query, sender) = LoperServiceQuery::create();
    drop(sender);
    assert_eq!(read(&mut query), batch(&[]));
    assert!(query.is_finished());
}

#[test]
fn read_returns_what_was_buffered_before_the_sender_went_away() {
    let (mut query, sender) = LoperServiceQuery::create();
    push(&sender, data(b"A"));
    push(&sender, data(b"B"));
    drop(sender);
    assert_eq!(read(&mut query), batch(&[b"A", b"B"]));
    assert!(!query.is_finished());
    assert_eq!(read(&mut query), batch(&[]));
    assert!(query.is_finished());
}

#[test]
fn absorb_collects_a_chunk_and_goes_on() {
    let collected = vec![Some(vec![1u8])];
    assert_eq!(
        absorb(collected, Some(data(&[2]))),
        Absorbed::More(vec![Some(vec![1]), Some(vec![2])])
    );
}

#[test]
fn absorb_ends_the_pass_at_the_end_marker() {
    let collected = vec![Some(vec![1u8])];
    assert_eq!(
        absorb(collected, Some(Ok(None))),
        Absorbed::Over { step: ReadStep::Done(Ok(vec![Some(vec![1])])), finished: true }
    );
    assert_eq!(
        absorb(Vec::new(), Some(Ok(None))),
        Absorbed::Over { step: ReadStep::Done(Ok(Vec::new())), finished: true }
    );
}

#[test]
fn absorb_ends_the_pass_with_the_error_alone() {
    let collected = vec![Some(vec![1u8])];
    assert_eq!(
        absorb(collected, Some(Err("bad".to_string()))),
        Absorbed::Over { step: ReadStep::Done(Err("bad".to_string())), finished: true }
    );
}

#[test]
fn absorb_returns_the_collected_chunks_when_nothing_is_buffered() {
    let collected = vec![Some(vec![1u8]), Some(vec![2u8])];
    assert_eq!(
        absorb(collected, None),
        Absorbed::Over {
            step: ReadStep::Done(Ok(vec![Some(vec![1]), Some(vec![2])])),
            finished: false
        }
    );
}

#[test]
fn absorb_asks_to_wait_when_nothing_was_collected() {
    assert_eq!(absorb(Vec::new(), None), Absorbed::Over { step: ReadStep::Wait, finished: false });
}

#[test]
fn after_wait_gives_each_outcome() {
    assert_eq!(after_wait(Some(data(b"A"))), (batch(&[b"A"]), false));
    assert_eq!(after_wait(Some(Ok(None))), (batch(&[]), true));
    assert_eq!(after_wait(Some(Err("bad".to_string()))), (Err("bad".to_string()), true));
    assert_eq!(after_wait(None), (batch(&[]), true));
}

#[test]
fn finish_wait_keeps_a_finished_query_finished() {
    let (mut query, sender) = LoperServiceQuery::create();
    push(&sender, Ok(None));
    assert_eq!(read(&mut query), batch(&[]));
    assert!(query.is_finished());
    assert_eq!(query.finish_wait(Some(data(b"A"))), batch(&[b"A"]));
    assert!(query.is_finished());
}
