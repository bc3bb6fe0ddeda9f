//! The pure half of board rendering: the characters and segments a text
//! drawing of the board is assembled from. Printing itself lives outside
//! the engine.

use vstd::prelude::*;
use vstd::string::*;

use crate::boardstate::{h_blocks_north, v_blocks_east, Boardstate};
use crate::locations::{coord_of_square, Location, PawnLocation};

verus! {

/// The glyph drawn on one square: the white pawn, the black pawn, or
/// nothing.
pub open spec fn spec_pawn_glyph(white: int, black: int, square: int) -> char {
    if white == square {
        'O'
    } else if black == square {
        'X'
    } else {
        ' '
    }
}

/// The glyph on the square `square`: `O` for the white pawn, `X` for the
/// black pawn, a space for an empty square.
pub fn format_pawn(
    white_pawn_position: &PawnLocation,
    black_pawn_position: &PawnLocation,
    square: u8,
) -> (r: char)
    ensures
        r == spec_pawn_glyph(
            white_pawn_position.spec_square(),
            black_pawn_position.spec_square(),
            square as int,
        ),
{
    if white_pawn_position.get_square() == square {
        return 'O';
    }
    if black_pawn_position.get_square() == square {
        return 'X';
    }
    ' '
}

/// The six characters drawn above one square: a `#` in the middle when a
/// horizontal wall severs the north edge, and a `#` at the corner when the
/// anchor on this square holds any wall.
pub open spec fn spec_horizontal_segment(edge_severed: bool, anchor_held: bool) -> Seq<char> {
    seq![
        '-',
        '-',
        if edge_severed {
            '#'
        } else {
            '-'
        },
        '-',
        '-',
        if anchor_held {
            '#'
        } else {
            '|'
        },
    ]
}

/// The segment drawn above the square of `location`.
pub fn format_horizontal_wall(boardstate: &Boardstate, location: &PawnLocation) -> (r: String)
    requires
        location.wf(),
    ensures
        r@ == spec_horizontal_segment(
            h_blocks_north(
                boardstate.spec_placed(),
                boardstate.spec_vertical(),
                coord_of_square(location.spec_square()).x as int,
                coord_of_square(location.spec_square()).y as int,
            ),
            location.spec_square() < 70 && boardstate.spec_placed().contains(
                location.spec_square(),
            ),
        ),
{
    let coordinate = location.get_coordinate();
    let edge_severed = boardstate.horizontal_wall_at_coordinate(&coordinate);
    let square = location.get_square();
    let anchor_held = square < 70 && boardstate.wall_anchor_held(square);
    if edge_severed {
        if anchor_held {
            proof {
                reveal_strlit("--#--#");
            }
            String::from_str("--#--#")
        } else {
            proof {
                reveal_strlit("--#--|");
            }
            String::from_str("--#--|")
        }
    } else {
        if anchor_held {
            proof {
                reveal_strlit("-----#");
            }
            String::from_str("-----#")
        } else {
            proof {
                reveal_strlit("-----|");
            }
            String::from_str("-----|")
        }
    }
}

/// The glyph drawn beside the square of `location`: a `#` when a vertical
/// wall severs the east edge, otherwise the plain grid line.
pub fn format_vertical_wall(boardstate: &Boardstate, location: &PawnLocation) -> (r: char)
    requires
        location.wf(),
    ensures
        r == (if v_blocks_east(
            boardstate.spec_placed(),
            boardstate.spec_vertical(),
            coord_of_square(location.spec_square()).x as int,
            coord_of_square(location.spec_square()).y as int,
        ) {
            '#'
        } else {
            '|'
        }),
{
    let coordinate = location.get_coordinate();
    if boardstate.vertical_wall_at_coordinate(&coordinate) {
        return '#';
    }
    '|'
}

} // verus!
