//! Cell-grid coordinates.
use vstd::prelude::*;

verus! {

/// A 2D coordinate in non-negative cell units. A position carries no bound of
/// its own; whether it is in range is always judged against a buffer's extent.
#[derive(Debug, PartialEq, Eq, Clone, Copy, Structural)]
pub struct Position {
    pub x: usize,
    pub y: usize,
}

impl From<(usize, usize)> for Position {
    fn from(pair: (usize, usize)) -> (p: Position) {
        Position { x: pair.0, y: pair.1 }
    }
}

impl vstd::std_specs::convert::FromSpecImpl<(usize, usize)> for Position {
    open spec fn obeys_from_spec() -> bool {
        true
    }

    open spec fn from_spec(pair: (usize, usize)) -> Position {
        Position { x: pair.0, y: pair.1 }
    }
}

impl Default for Position {
    /// The default position is the origin.
    fn default() -> (p: Position)
        ensures
            p == (Position { x: 0, y: 0 }),
    {
        Position { x: 0, y: 0 }
    }
}

} // verus!
