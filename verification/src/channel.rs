//! The bounded result channel and the lock around a query, both taken from
//! tokio. Nothing in this file is proved: each item states what is assumed of
//! tokio's code.

use crate::item::QueryResultChunkResult;
use std::sync::Arc;
use tokio::sync::mpsc::Receiver;
use tokio::sync::mpsc::Sender;
use tokio::sync::Mutex;
use vstd::prelude::*;

verus! {

/// `tokio::sync::mpsc::Receiver`, the receiving half of a bounded channel.
/// Opaque: what it holds changes whenever the sending half is used.
#[verifier::external_type_specification]
#[verifier::external_body]
#[verifier::reject_recursive_types(T)]
pub struct ExReceiver<T>(Receiver<T>);

/// `tokio::sync::mpsc::Sender`, the sending half of a bounded channel. Opaque.
#[verifier::external_type_specification]
#[verifier::external_body]
#[verifier::reject_recursive_types(T)]
pub struct ExSender<T>(Sender<T>);

/// `tokio::sync::Mutex`, the asynchronous lock. Opaque.
#[verifier::external_type_specification]
#[verifier::external_body]
#[verifier::reject_recursive_types(T)]
pub struct ExMutex<T: ?Sized>(Mutex<T>);

/// The number of items that the channel of `receiver` was made to hold: what
/// tokio's `Receiver::max_capacity` returns, which stays the same for as long
/// as the channel lives.
pub uninterp spec fn buffer_size(receiver: Receiver<QueryResultChunkResult>) -> nat;

/// The largest capacity that `tokio::sync::mpsc::channel` accepts: the number
/// of permits of tokio's semaphore, which is `usize::MAX` shifted right by
/// three bits.
pub open spec fn largest_buffer_size() -> int {
    usize::MAX as int / 8
}

/// Calls `tokio::sync::mpsc::channel`, which makes a bounded channel that
/// buffers up to `capacity` items. tokio panics on a capacity of zero or
/// above its semaphore's limit, so both are left out. Of the two halves only
/// the capacity of the receiving one is claimed.
#[verifier::external_body]
pub(crate) fn bounded_channel(capacity: usize) -> (halves: (
    Sender<QueryResultChunkResult>,
    Receiver<QueryResultChunkResult>,
))
    requires
        0 < capacity <= largest_buffer_size(),
    ensures
        buffer_size(halves.1) == capacity,
{
    tokio::sync::mpsc::channel(capacity)
}

/// Calls `tokio::sync::mpsc::Receiver::max_capacity`, which returns the
/// capacity that the channel was made with.
#[verifier::external_body]
pub(crate) fn capacity_of(receiver: &Receiver<QueryResultChunkResult>) -> (capacity: usize)
    ensures
        capacity == buffer_size(*receiver),
{
    receiver.max_capacity()
}

/// Calls `tokio::sync::mpsc::Receiver::try_recv`, which takes the next
/// buffered item without waiting. `None` stands for both of tokio's errors:
/// nothing is buffered now, whether or not the sending half still exists.
/// Which of the outcomes comes depends on what the sending half did, so
/// nothing is claimed of it; the capacity of the channel stays what it was.
#[verifier::external_body]
pub(crate) fn take_buffered(receiver: &mut Receiver<QueryResultChunkResult>) -> (item: Option<
    QueryResultChunkResult,
>)
    ensures
        buffer_size(*final(receiver)) == buffer_size(*old(receiver)),
{
    receiver.try_recv().ok()
}

/// Calls `tokio::sync::Mutex::new`, which makes an unlocked lock around
/// `value`. Nothing is claimed of the lock.
#[verifier::external_body]
pub(crate) fn lock_around<T>(value: T) -> (lock: Mutex<T>) {
    Mutex::new(value)
}

/// Calls `clone` of `std::sync::Arc`, which makes another pointer to the same
/// allocation: the two point to one and the same value.
#[verifier::external_body]
pub(crate) fn share<T>(pointer: &Arc<T>) -> (shared: Arc<T>)
    ensures
        shared == *pointer,
{
    pointer.clone()
}

} // verus!
