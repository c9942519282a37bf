//! The core's record of the viewport.
//!
//! Which buffer rows are visible is decided by a viewport collaborator
//! outside the core: it is told of cursor moves and terminal resizes and
//! answers with a start offset and a page size. The core only records
//! the latest answer and reads it back while rendering and while mapping
//! clicks.

use vstd::prelude::*;

verus! {

/// The latest answer of the viewport collaborator: the first visible
/// row of the line buffer and the number of visible rows.
#[derive(Clone, Copy, Debug, PartialEq, Eq, Structural)]
pub struct Window {
    pub start: u64,
    pub size: u16,
}

impl Window {
    /// Before the collaborator has answered anything: nothing visible.
    pub fn new() -> (w: Window)
        ensures
            w.start == 0,
            w.size == 0,
    {
        Window { start: 0, size: 0 }
    }

    /// The first visible row of the line buffer.
    pub fn start(&self) -> (r: u64)
        ensures
            r == self.start,
    {
        self.start
    }

    /// The number of visible rows.
    pub fn size(&self) -> (r: u16)
        ensures
            r == self.size,
    {
        self.size
    }
}

} // verus!
