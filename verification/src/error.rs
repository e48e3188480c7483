//! Error kinds of the event-queue core.

use vstd::prelude::*;

verus! {

/// Errors surfaced by the queue and its codecs.
///
/// `EventQueueEmpty` is the ordinary, recoverable result of draining past the
/// last event. `DecodeError` signals corrupted backing storage (a malformed
/// discriminant or side byte) and is not recoverable.
#[derive(Clone, Copy, Debug, PartialEq, Eq, Structural)]
pub enum AoError {
    EventQueueEmpty,
    DecodeError,
}

} // verus!
