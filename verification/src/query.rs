//! A query's end of its result channel, and the rule by which a caller reads
//! from it: drain what is buffered, and wait once only when nothing was.
//!
//! A read has two parts. The draining pass takes every buffered item without
//! waiting; where it finds chunks it returns them, and the read is over. Only
//! a pass that found nothing asks the caller to wait for one item, which then
//! decides the read. The wait itself belongs to the caller.

use crate::channel::{bounded_channel, buffer_size, capacity_of, take_buffered};
use crate::item::{
    as_batch, as_chunks, batch_view, chunks_then_at_most_one, chunks_view, optional_item_view,
    Item, QueryResultBatch, QueryResultChunkResult,
};
use tokio::sync::mpsc::Receiver;
use tokio::sync::mpsc::Sender;
use vstd::prelude::*;

verus! {

/// The number of items that a query's result channel holds before the relay
/// has to wait for the reader.
pub const RESULT_BUFFER: usize = 10;

/// An executing query: the receiving half of its result channel, and whether
/// the end of its stream has been seen.
pub struct LoperServiceQuery {
    result_channel: Receiver<QueryResultChunkResult>,
    finished: bool,
}

/// What the draining pass of a read decided.
#[derive(Debug, PartialEq, Eq)]
pub enum ReadStep {
    /// The read is over with this result.
    Done(QueryResultBatch),
    /// Nothing was buffered and the stream has not ended: the caller waits
    /// once for the next item.
    Wait,
}

/// What taking one buffered item, or finding none, means for a draining pass.
#[derive(Debug, PartialEq, Eq)]
pub enum Absorbed {
    /// A chunk joined the collected ones; the pass goes on.
    More(Vec<Option<Vec<u8>>>),
    /// The pass is over.
    Over {
        /// What the pass decided.
        step: ReadStep,
        /// Whether the end of the stream has been seen.
        finished: bool,
    },
}

/// The model of a read's result: the chunks in stream order, each of them
/// present, or the error.
pub type Batch = Result<Seq<Option<Seq<u8>>>, Seq<char>>;

/// The model of `ReadStep`.
pub enum Step {
    /// The read is over with this result.
    Done(Batch),
    /// The caller waits once for the next item.
    Wait,
}

/// The model of a finished draining pass.
pub struct Pass {
    /// What the pass decided.
    pub step: Step,
    /// Whether the end of the stream has been seen.
    pub finished: bool,
}

/// What a draining pass took from the channel.
pub struct Taken {
    /// The items taken, in the order in which the channel gave them.
    pub items: Seq<Item>,
    /// Whether the channel then said that nothing more was buffered.
    pub emptied: bool,
}

/// The model of `ReadStep`.
pub open spec fn step_view(step: ReadStep) -> Step {
    match step {
        ReadStep::Done(batch) => Step::Done(batch_view(batch)),
        ReadStep::Wait => Step::Wait,
    }
}

/// What a pass decides when it finds nothing more buffered: the collected
/// chunks if there are any, else to wait.
pub open spec fn idle(collected: Seq<Option<Seq<u8>>>) -> Pass {
    if collected.len() > 0 {
        Pass { step: Step::Done(Ok(collected)), finished: false }
    } else {
        Pass { step: Step::Wait, finished: false }
    }
}

/// What a pass decides when the channel holds `buffered` and `collected` has
/// been taken already. Chunks are collected in order; the end of the stream
/// closes the pass with the chunks collected so far; an error closes it with
/// the error alone.
pub open spec fn drain(buffered: Seq<Item>, collected: Seq<Option<Seq<u8>>>) -> Pass
    decreases buffered.len(),
{
    if buffered.len() == 0 {
        idle(collected)
    } else {
        match buffered.first() {
            Item::Chunk(chunk) => drain(buffered.drop_first(), collected.push(Some(chunk))),
            Item::End => Pass { step: Step::Done(Ok(collected)), finished: true },
            Item::Failure(message) => Pass { step: Step::Done(Err(message)), finished: true },
        }
    }
}

/// What taking `polled`, one item or the news that none is buffered, means
/// for a pass that has `collected`.
pub open spec fn absorbed(collected: Seq<Option<Seq<u8>>>, polled: Option<Item>) -> Pass {
    match polled {
        Some(item) => drain(seq![item], collected),
        None => idle(collected),
    }
}

/// What the draining pass of a read decides for a query that has or has not
/// `finished` and whose channel holds `buffered`. A finished query gives the
/// empty list at once.
pub open spec fn read_pass(finished: bool, buffered: Seq<Item>) -> Pass {
    if finished {
        Pass { step: Step::Done(Ok(Seq::empty())), finished: true }
    } else {
        drain(buffered, Seq::empty())
    }
}

/// The result of a read that waited, and whether the stream has ended, for
/// what the wait gave: an item, or `None` when the channel was closed.
pub open spec fn wait_outcome(waited: Option<Item>) -> (Batch, bool) {
    match waited {
        Some(Item::Chunk(chunk)) => (Ok(seq![Some(chunk)]), false),
        Some(Item::End) => (Ok(Seq::empty()), true),
        Some(Item::Failure(message)) => (Err(message), true),
        None => (Ok(Seq::empty()), true),
    }
}

/// The result of one whole read, and whether the query is finished after it:
/// the draining pass over `buffered`, followed by the wait's outcome where
/// the pass decided to wait.
pub open spec fn read_call(finished: bool, buffered: Seq<Item>, waited: Option<Item>) -> (
    Batch,
    bool,
) {
    let pass = read_pass(finished, buffered);
    match pass.step {
        Step::Done(batch) => (batch, pass.finished),
        Step::Wait => wait_outcome(waited),
    }
}

/// A pass that took `taken` went as far as a pass goes: it took chunks until
/// the channel had nothing more buffered, or until it took the item that
/// ends the stream, or until it held as many chunks as a list can hold.
pub open spec fn drained_to_the_end(taken: Taken) -> bool {
    &&& chunks_then_at_most_one(taken.items)
    &&& if taken.emptied {
        taken.items.len() == 0 || taken.items.last() is Chunk
    } else {
        taken.items.len() > 0 && (taken.items.last().is_terminal() || taken.items.len()
            == usize::MAX)
    }
}

/// Takes one buffered item, or the news that none is buffered, into a
/// draining pass that has `collected` so far.
pub fn absorb(collected: Vec<Option<Vec<u8>>>, polled: Option<QueryResultChunkResult>) -> (r:
    Absorbed)
    ensures
        match r {
            Absorbed::More(longer) => polled matches Some(Ok(Some(chunk))) && longer@
                == collected@.push(Some(chunk)),
            Absorbed::Over { step, finished } => !(polled matches Some(Ok(Some(_)))) && (Pass {
                step: step_view(step),
                finished,
            }) == absorbed(chunks_view(collected@), optional_item_view(polled)),
        },
{
    match polled {
        Some(Ok(Some(chunk))) => {
            let mut longer = collected;
            longer.push(Some(chunk));
            Absorbed::More(longer)
        },
        Some(Ok(None)) => Absorbed::Over { step: ReadStep::Done(Ok(collected)), finished: true },
        Some(Err(message)) => Absorbed::Over { step: ReadStep::Done(Err(message)), finished: true },
        None => {
            if collected.len() > 0 {
                Absorbed::Over { step: ReadStep::Done(Ok(collected)), finished: false }
            } else {
                Absorbed::Over { step: ReadStep::Wait, finished: false }
            }
        },
    }
}

/// The result of a read that waited, for what the wait gave, and whether the
/// stream has ended with it.
pub fn after_wait(waited: Option<QueryResultChunkResult>) -> (r: (QueryResultBatch, bool))
    ensures
        (batch_view(r.0), r.1) == wait_outcome(optional_item_view(waited)),
{
    let mut chunks: Vec<Option<Vec<u8>>> = Vec::new();
    proof {
        assert(chunks_view(chunks@) =~= Seq::empty());
    }
    match waited {
        Some(Ok(Some(chunk))) => {
            chunks.push(Some(chunk));
            proof {
                assert(chunks_view(chunks@) =~= seq![Some(chunk@)]);
            }
            (Ok(chunks), false)
        },
        Some(Ok(None)) => (Ok(chunks), true),
        Some(Err(message)) => (Err(message), true),
        None => (Ok(chunks), true),
    }
}

impl LoperServiceQuery {
    /// Whether the end of the query's stream has been seen: by an end
    /// marker, an error or a closed channel.
    pub closed spec fn finished(&self) -> bool {
        self.finished
    }

    /// The receiving half of the query's result channel.
    pub closed spec fn channel(&self) -> Receiver<QueryResultChunkResult> {
        self.result_channel
    }

    /// The number of items that the query's result channel buffers.
    pub open spec fn capacity(&self) -> nat {
        buffer_size(self.channel())
    }

    /// Makes an unfinished query around a fresh result channel that buffers
    /// `RESULT_BUFFER` items, and returns it with the channel's sending half,
    /// which belongs to the query's relay.
    pub fn create() -> (r: (Self, Sender<QueryResultChunkResult>))
        ensures
            !r.0.finished(),
            r.0.capacity() == RESULT_BUFFER,
    {
        let (sender, receiver) = bounded_channel(RESULT_BUFFER);
        let query = LoperServiceQuery { result_channel: receiver, finished: false };
        (query, sender)
    }

    /// The draining pass of a read. A finished query gives the empty list and
    /// its channel is left alone. Otherwise items are taken from the channel
    /// without waiting until none is buffered or one of them ends the
    /// stream. The ghost result tells what was taken; the decision is the one
    /// that `read_pass` gives for a channel holding exactly that.
    pub fn read_buffered(&mut self) -> (r: (ReadStep, Ghost<Taken>))
        ensures
            (Pass { step: step_view(r.0), finished: final(self).finished() }) == read_pass(
                old(self).finished(),
                r.1@.items,
            ),
            !old(self).finished() ==> drained_to_the_end(r.1@),
            old(self).finished() ==> r.1@.items.len() == 0 && !r.1@.emptied,
            old(self).finished() ==> final(self).channel() == old(self).channel(),
            final(self).capacity() == old(self).capacity(),
    {
        let mut collected: Vec<Option<Vec<u8>>> = Vec::new();
        let ghost mut chunks: Seq<Seq<u8>> = Seq::empty();
        proof {
            assert(chunks_view(collected@) =~= Seq::empty());
        }
        if self.finished {
            return (
                ReadStep::Done(Ok(collected)),
                Ghost(Taken { items: Seq::empty(), emptied: false }),
            );
        }
        loop
            invariant
                !self.finished,
                !old(self).finished(),
                self.capacity() == old(self).capacity(),
                chunks_view(collected@) == as_batch(chunks),
                chunks.len() == collected@.len(),
            decreases usize::MAX - collected.len(),
        {
            let room = collected.len() < usize::MAX;
            let polled = if room {
                take_buffered(&mut self.result_channel)
            } else {
                None
            };
            let ghost seen = optional_item_view(polled);
            let ghost rest = match seen {
                Some(item) => seq![item],
                None => Seq::empty(),
            };
            let ghost taken = as_chunks(chunks) + rest;
            proof {
                lemma_drain_chunks(chunks, rest, Seq::empty());
            }
            match absorb(collected, polled) {
                Absorbed::More(longer) => {
                    proof {
                        let ghost before = chunks;
                        chunks = chunks.push(seen->0->Chunk_0);
                        assert forall|i: int| 0 <= i < longer@.len() implies chunks_view(
                            longer@,
                        )[i] == as_batch(chunks)[i] by {
                            if i < collected@.len() {
                                assert(chunks_view(collected@)[i] == as_batch(before)[i]);
                            }
                        }
                    }
                    collected = longer;
                },
                Absorbed::Over { step, finished } => {
                    self.finished = finished;
                    return (step, Ghost(Taken { items: taken, emptied: room && seen is None }));
                },
            }
        }
    }

    /// Ends a read that waited: takes what the wait gave, an item or `None`
    /// for a closed channel, and returns the read's result. The query is
    /// finished unless a chunk came.
    pub fn finish_wait(&mut self, waited: Option<QueryResultChunkResult>) -> (r: QueryResultBatch)
        ensures
            batch_view(r) == wait_outcome(optional_item_view(waited)).0,
            final(self).finished() == (old(self).finished() || wait_outcome(
                optional_item_view(waited),
            ).1),
            final(self).channel() == old(self).channel(),
    {
        let (batch, ended) = after_wait(waited);
        if ended {
            self.finished = true;
        }
        batch
    }

    /// The receiving half of the result channel, for the one wait of a read.
    pub fn channel_mut(&mut self) -> (receiver: &mut Receiver<QueryResultChunkResult>)
        ensures
            *receiver == old(self).channel(),
            final(self).channel() == *final(receiver),
            final(self).finished() == old(self).finished(),
    {
        &mut self.result_channel
    }

    /// Whether the end of the query's stream has been seen.
    pub fn is_finished(&self) -> (finished: bool)
        ensures
            finished == self.finished(),
    {
        self.finished
    }

    /// The number of items that the query's result channel buffers.
    pub fn buffer_capacity(&self) -> (capacity: usize)
        ensures
            capacity == self.capacity(),
    {
        capacity_of(&self.result_channel)
    }
}

/// A read that finds one or more chunks buffered, and nothing else, returns
/// exactly those chunks in their order, without waiting, and the query stays
/// unfinished.
pub proof fn law_buffered_chunks_are_returned_without_waiting(
    chunks: Seq<Seq<u8>>,
    waited: Option<Item>,
)
    requires
        chunks.len() >= 1,
    ensures
        read_pass(false, as_chunks(chunks)) == (Pass {
            step: Step::Done(Ok(as_batch(chunks))),
            finished: false,
        }),
        read_call(false, as_chunks(chunks), waited) == (
            Ok::<_, Seq<char>>(as_batch(chunks)),
            false,
        ),
{
    lemma_drain_chunks(chunks, Seq::empty(), Seq::empty());
}

/// A read of an unfinished query that finds nothing buffered waits, and its
/// result is then decided by what the wait gives: the next chunk alone, the
/// empty list at the end of the stream or on a closed channel, or the error.
pub proof fn law_empty_buffer_waits_once(waited: Option<Item>)
    ensures
        read_pass(false, Seq::empty()).step == Step::Wait,
        read_call(false, Seq::empty(), waited) == wait_outcome(waited),
        waited matches Some(Item::Chunk(chunk)) ==> read_call(false, Seq::empty(), waited) == (
            Ok::<_, Seq<char>>(seq![Some(chunk)]),
            false,
        ),
        waited == Some(Item::End) || waited is None ==> read_call(
            false,
            Seq::empty(),
            waited,
        ) == (Ok::<Seq<Option<Seq<u8>>>, Seq<char>>(Seq::empty()), true),
        waited matches Some(Item::Failure(message)) ==> read_call(false, Seq::empty(), waited) == (
            Err::<Seq<Option<Seq<u8>>>, _>(message),
            true,
        ),
{
}

/// The end of the stream is seen once. A read that takes the end marker,
/// from the buffer after any number of chunks or from its wait, returns no
/// marker and leaves the query finished; every read of a finished query then
/// returns the empty list without waiting, whatever the channel holds, and
/// the query stays finished.
pub proof fn law_end_of_stream_is_seen_once(
    chunks: Seq<Seq<u8>>,
    rest: Seq<Item>,
    buffered: Seq<Item>,
    waited: Option<Item>,
)
    ensures
        read_pass(false, as_chunks(chunks) + seq![Item::End] + rest) == (Pass {
            step: Step::Done(Ok(as_batch(chunks))),
            finished: true,
        }),
        read_call(false, Seq::empty(), Some(Item::End)) == (
            Ok::<Seq<Option<Seq<u8>>>, Seq<char>>(Seq::empty()),
            true,
        ),
        read_pass(true, buffered) == (Pass {
            step: Step::Done(Ok(Seq::empty())),
            finished: true,
        }),
        read_call(true, buffered, waited) == (
            Ok::<Seq<Option<Seq<u8>>>, Seq<char>>(Seq::empty()),
            true,
        ),
{
    let tail = seq![Item::End] + rest;
    lemma_drain_chunks(chunks, tail, Seq::empty());
    assert(as_chunks(chunks) + seq![Item::End] + rest =~= as_chunks(chunks) + tail);
}

/// An error among the buffered items is the result of the read that takes
/// it: the chunks collected before it in the same pass are not returned, and
/// the query is finished.
pub proof fn law_error_takes_precedence(
    chunks: Seq<Seq<u8>>,
    message: Seq<char>,
    rest: Seq<Item>,
)
    ensures
        read_pass(false, as_chunks(chunks) + seq![Item::Failure(message)] + rest) == (Pass {
            step: Step::Done(Err(message)),
            finished: true,
        }),
{
    let tail = seq![Item::Failure(message)] + rest;
    lemma_drain_chunks(chunks, tail, Seq::empty());
    assert(as_chunks(chunks) + seq![Item::Failure(message)] + rest =~= as_chunks(chunks) + tail);
}

/// Draining a run of chunks collects them, in order, and goes on with what
/// follows them.
pub proof fn lemma_drain_chunks(
    chunks: Seq<Seq<u8>>,
    rest: Seq<Item>,
    collected: Seq<Option<Seq<u8>>>,
)
    ensures
        drain(as_chunks(chunks) + rest, collected) == drain(rest, collected + as_batch(chunks)),
    decreases chunks.len(),
{
    let all = as_chunks(chunks) + rest;
    if chunks.len() == 0 {
    } else {
        let tail = chunks.drop_first();
        assert(all.drop_first() =~= as_chunks(tail) + rest);
        lemma_drain_chunks(tail, rest, collected.push(Some(chunks[0])));
        assert(collected.push(Some(chunks[0])) + as_batch(tail) =~= collected + as_batch(chunks));
    }
}

} // verus!
