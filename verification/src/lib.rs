//! Handle-indexed registry of connections, sessions and queries, together with
//! the rules by which streamed query results are relayed and read.
//!
//! A host that can only make short calls opens a connection, creates a
//! session on it, starts a query, and then reads the query's results piece by
//! piece. Every object is known to the host by a small reusable handle. The
//! results of a query arrive through a bounded channel: a relay task fills
//! it from the remote stream, and each read drains what is buffered or waits
//! once for the next item.
//!
//! The library holds the decisions and the bookkeeping; whoever embeds it
//! does the waiting: it keeps the registry behind a lock, performs the remote
//! call, and runs the relay task by asking `relay` what to do next.

pub mod channel;
pub mod error;
pub mod item;
pub mod query;
pub mod relay;
pub mod service;
pub mod slots;
pub mod transport;
