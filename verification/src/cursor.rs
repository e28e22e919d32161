//! Seek positions for file handles.

use vstd::prelude::*;

verus! {

/// How a seek names the new position.
#[derive(Clone, Copy, Debug, PartialEq, Eq, Structural)]
pub enum SeekMethod {
    /// From the start of the file.
    Absolute(u64),
    /// Relative to the current position.
    Relative(i64),
    /// Relative to the end of the file.
    FromEnd(i64),
}

/// The position a seek lands on, clamped to the file: a relative move below
/// zero stops at the start, and any position past the end stops at the end.
pub open spec fn spec_seek_position(current: int, size: int, method: SeekMethod) -> int {
    let target = match method {
        SeekMethod::Absolute(pos) => pos as int,
        SeekMethod::Relative(delta) => current + delta,
        SeekMethod::FromEnd(delta) => size + delta,
    };
    if target < 0 {
        0
    } else if target > size {
        size
    } else {
        target
    }
}

} // verus!
