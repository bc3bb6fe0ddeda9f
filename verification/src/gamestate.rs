//! Game-level value types: the status an action reports, the reason a
//! finished game gives, and the time-control settings a surrounding session
//! layer may attach to a game. Wall-clock bookkeeping itself lives outside
//! the engine.

use vstd::prelude::*;

use crate::boardstate::Player;

verus! {

/// How a game may be timed. The engine itself never reads a clock.
#[derive(Clone, Copy, Debug)]
pub enum TimeControl {
    Timed { seconds: usize, increment: usize },
    Correspondence,
}

/// What an applied action reports: the game goes on, or it is over.
/// `Finished` is terminal; the engine does not auto-reset.
#[derive(Clone, Copy, Debug, PartialEq, Eq, Structural)]
pub enum GameStatus {
    InProgress,
    Finished { won_by: Player, reason: VictoryReason },
}

/// Why a finished game ended. The engine only ever reports
/// `ReachedOppositeSide`; the other reasons belong to a session layer.
#[derive(Clone, Copy, Debug, PartialEq, Eq, Structural)]
pub enum VictoryReason {
    ReachedOppositeSide,
    Resigned,
    OutOffTime,
    Abandoned,
}

} // verus!
