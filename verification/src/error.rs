//! The error taxonomy of the engine.
//!
//! None of these abort the simulation by themselves: the caller decides,
//! per its build policy, whether a condition is fatal or is recovered by
//! dropping the offending message.

use vstd::prelude::*;

verus! {

/// Everything that can go wrong inside the core.
#[derive(Clone, Copy, Debug, PartialEq, Eq, Structural)]
pub enum NetstackError {
    /// An intent whose sequence number is not strictly greater than the
    /// last one applied for that client: a duplicate, replay or
    /// out-of-order leftover. Dropped silently.
    StaleInput,
    /// An intent arrived for a client identity with no mapped entity.
    /// Recoverable: the message is dropped, the server keeps running.
    UnmappedClient,
    /// A lookup by tick found no snapshot at or before it: the buffer was
    /// never seeded or was evicted past the referenced tick.
    BufferStarvation,
    /// A connection-registry collision: an identity was connected while a
    /// mapping for it already existed. An invariant violation in the
    /// transport layer; always reported.
    DuplicateClient,
}

} // verus!
