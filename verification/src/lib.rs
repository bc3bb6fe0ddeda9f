//! Rules engine for Quoridor: a 9x9 board on which two pawns race to the
//! opposite edge while both players place blocking walls.

pub mod actions;
pub mod bits;
pub mod boardstate;
pub mod errors;
pub mod gamestate;
pub mod locations;
pub mod onebased;
pub mod path;
pub mod render;
