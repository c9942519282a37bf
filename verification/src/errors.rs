//! The error taxonomy of the core.
//!
//! Soft render troubles (a cursor on a line the cache does not hold, or
//! above the viewport) merely skip the cursor for one frame and appear
//! nowhere as values. Write failures belong to the embedding that owns
//! the output sink. What remains is the one condition local recovery
//! cannot fix.

use vstd::prelude::*;

verus! {

/// The distinguished signal of a broken core invariant: the backend put
/// the cursor on a document line inside the invalid-before region, so
/// backend and client have desynchronized. The embedding that receives
/// it is expected to terminate the process rather than carry on with a
/// state it cannot trust.
#[derive(Clone, Copy, Debug, PartialEq, Eq, Structural)]
pub struct InvariantViolation;

} // verus!
