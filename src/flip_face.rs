//! A wrapper that reports the other side of its object as struck.

use vstd::prelude::*;

verus! {

/// The object `pointer` with its front and back faces swapped.
#[derive(Clone, Copy, Debug, PartialEq, Eq, Structural)]
pub struct FlipFace {
    /// The index of the wrapped object.
    pub pointer: usize,
}

impl FlipFace {
    /// Wraps object `pointer`.
    pub fn new(pointer: usize) -> (r: Self)
        ensures
            r.pointer == pointer,
    {
        FlipFace { pointer }
    }
}

} // verus!
