//! What admission knows of the active segment.

use vstd::prelude::*;

verus! {

/// How many bytes the active segment holds and whether it can be sealed.
#[derive(Clone, Copy, Debug, PartialEq, Eq, Structural)]
pub struct ActiveSegmentCapacity {
    /// Cumulative admission bytes of the engine's lifetime that precede this
    /// segment.
    pub admission_start_bytes: u128,
    /// Bytes already present when the engine adopted this segment.
    pub existing_bytes: usize,
    /// Whether recovery can still add this segment to the manifest directory
    /// after it gains a committed record.
    pub seal_room: bool,
}

} // verus!
