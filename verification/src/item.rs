//! The items that travel through a query's result channel, and their
//! mathematical model.

use vstd::prelude::*;

verus! {

/// One item of a query's result channel: `Ok(Some(chunk))` is one unit of
/// streamed data, `Ok(None)` marks the end of the stream, `Err(message)` is
/// the error that ended it.
pub type QueryResultChunkResult = Result<Option<Vec<u8>>, String>;

/// What a read hands to the caller: the chunks it collected, in stream order
/// and each of them present, or the error that ended the stream. The empty
/// list tells that the stream is over.
pub type QueryResultBatch = Result<Vec<Option<Vec<u8>>>, String>;

/// The model of one channel item.
pub enum Item {
    /// One unit of streamed data.
    Chunk(Seq<u8>),
    /// The end of the stream.
    End,
    /// The error that ended the stream.
    Failure(Seq<char>),
}

impl Item {
    /// The item ends the stream: nothing follows it.
    pub open spec fn is_terminal(self) -> bool {
        !(self is Chunk)
    }
}

/// The model of a channel item.
pub open spec fn item_view(item: QueryResultChunkResult) -> Item {
    match item {
        Ok(Some(chunk)) => Item::Chunk(chunk@),
        Ok(None) => Item::End,
        Err(message) => Item::Failure(message@),
    }
}

/// The model of a channel item that may be missing.
pub open spec fn optional_item_view(item: Option<QueryResultChunkResult>) -> Option<Item> {
    match item {
        Some(item) => Some(item_view(item)),
        None => None,
    }
}

/// The model of a list of collected chunks.
pub open spec fn chunks_view(chunks: Seq<Option<Vec<u8>>>) -> Seq<Option<Seq<u8>>> {
    Seq::new(
        chunks.len(),
        |i: int|
            match chunks[i] {
                Some(chunk) => Some(chunk@),
                None => None,
            },
    )
}

/// The model of what a read hands to the caller.
pub open spec fn batch_view(batch: QueryResultBatch) -> Result<Seq<Option<Seq<u8>>>, Seq<char>> {
    match batch {
        Ok(chunks) => Ok(chunks_view(chunks@)),
        Err(message) => Err(message@),
    }
}

/// The chunks of `chunks` as the channel carries them: each one an item.
pub open spec fn as_chunks(chunks: Seq<Seq<u8>>) -> Seq<Item> {
    Seq::new(chunks.len(), |i: int| Item::Chunk(chunks[i]))
}

/// The chunks of `chunks` as a read hands them out: each one present.
pub open spec fn as_batch(chunks: Seq<Seq<u8>>) -> Seq<Option<Seq<u8>>> {
    Seq::new(chunks.len(), |i: int| Some(chunks[i]))
}

/// Every item of `items` but the last is a chunk: if an item ends the
/// stream, it is the last one.
pub open spec fn chunks_then_at_most_one(items: Seq<Item>) -> bool {
    forall|i: int| 0 <= i < items.len() - 1 ==> (#[trigger] items[i]) is Chunk
}

} // verus!
