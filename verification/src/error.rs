use vstd::prelude::*;

verus! {

/// No cell of the grid is left for a new tile.
#[derive(Debug, Clone, Copy, PartialEq, Eq, Structural)]
pub struct GridFullError;

} // verus!
