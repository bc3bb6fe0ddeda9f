//! The rejection reasons the engine reports. All of them are recoverable:
//! a failed action leaves the board unchanged and the caller may retry.

use vstd::prelude::*;

verus! {

/// Why an action or a conversion was rejected.
#[derive(Clone, Copy, Debug, PartialEq, Eq, Structural)]
pub enum ActionError {
    /// A coordinate, square index or anchor outside its valid domain.
    OutOfRange,
    /// A notation string that does not name a pawn square or a wall anchor.
    BadNotation,
    /// A pawn move whose destination is not in the current legal set.
    IllegalDestination,
    /// A wall placement on an anchor that already holds a wall.
    AnchorOccupied,
    /// A wall placement that would doubly sever an edge already severed by an
    /// adjacent wall of the same orientation.
    Overlaps,
    /// A wall placement by a player whose wall count is 0.
    NoWallsRemaining,
    /// A wall placement that would seal off a goal row for either player.
    WallBlocksPath,
}

} // verus!
