//! Locations in the one-based numbering that printed boards use: squares
//! counted 1 through 81 from the bottom-left corner, axes counted 1 through
//! 9. The engine itself works zero-based; this module serves callers and
//! records that keep the classic numbering.

use vstd::prelude::*;
use vstd::string::*;

use crate::actions::{
    col_of_char, col_str, row_of_char, row_str, spec_col_char, spec_col_of_char,
    spec_orientation_of_char, spec_row_char, spec_row_of_char,
};
use crate::errors::ActionError;
use crate::locations::{Coordinate, Direction, WallOrientation};

verus! {

/// True when `s` is a one-based square number.
pub open spec fn valid_square_one(s: int) -> bool {
    1 <= s <= 81
}

/// True when `s` is a one-based wall-anchor number: anchors never sit in
/// the rightmost column, whose square numbers are the multiples of 9.
pub open spec fn valid_wall_square_one(s: int) -> bool {
    1 <= s <= 71 && s % 9 != 0
}

/// The one-based coordinate of one-based square `s`.
pub open spec fn spec_coord_one(s: int) -> Coordinate {
    if s % 9 == 0 {
        Coordinate { x: 9, y: (s / 9) as u8 }
    } else {
        Coordinate { x: (s % 9) as u8, y: (s / 9 + 1) as u8 }
    }
}

/// The one-based square number of one-based axes (x, y).
pub open spec fn spec_square_one(x: int, y: int) -> int {
    (y - 1) * 9 + x
}

/// One-based squares and one-based coordinates convert back and forth
/// without loss.
pub proof fn lemma_one_based_round_trip(s: int, x: int, y: int)
    ensures
        valid_square_one(s) ==> {
            let c = spec_coord_one(s);
            &&& 1 <= c.x <= 9
            &&& 1 <= c.y <= 9
            &&& spec_square_one(c.x as int, c.y as int) == s
        },
        (1 <= x <= 9 && 1 <= y <= 9) ==> valid_square_one(spec_square_one(x, y))
            && spec_coord_one(spec_square_one(x, y)) == (Coordinate { x: x as u8, y: y as u8 }),
{
    if valid_square_one(s) {
        assert((s % 9 == 0 ==> (s / 9 - 1) * 9 + 9 == s) && (s % 9 != 0 ==> (s / 9 + 1 - 1) * 9 + s
            % 9 == s) && 0 <= s % 9 < 9 && (s % 9 == 0 ==> 1 <= s / 9 <= 9) && (s % 9 != 0 ==> 0
            <= s / 9 <= 8)) by (nonlinear_arith)
            requires
                1 <= s <= 81,
        ;
    }
    if 1 <= x <= 9 && 1 <= y <= 9 {
        assert(1 <= (y - 1) * 9 + x <= 81 && (x == 9 ==> ((y - 1) * 9 + x) % 9 == 0 && ((y - 1) * 9
            + x) / 9 == y) && (x < 9 ==> ((y - 1) * 9 + x) % 9 == x && ((y - 1) * 9 + x) / 9 == y
            - 1)) by (nonlinear_arith)
            requires
                1 <= x <= 9 && 1 <= y <= 9,
        ;
    }
}

/// The decoded one-based coordinate of a column letter and a row digit.
pub open spec fn spec_convert_coordinate(s: Seq<char>) -> Result<Coordinate, ActionError> {
    if s.len() == 2 {
        match (spec_col_of_char(s[0]), spec_row_of_char(s[1])) {
            (Some(x), Some(y)) => Ok(Coordinate { x: (x + 1) as u8, y: (y + 1) as u8 }),
            _ => Err(ActionError::BadNotation),
        }
    } else {
        Err(ActionError::BadNotation)
    }
}

/// Decoding a three-character wall notation: the one-based anchor square
/// and the orientation, or the exact rejection. A wrong length or an
/// undecodable character is a bad notation; a decodable square outside the
/// anchor range is out of range.
pub open spec fn spec_wall_notation_one(s: Seq<char>) -> Result<
    (int, WallOrientation),
    ActionError,
> {
    if s.len() == 3 {
        match spec_convert_coordinate(s.subrange(0, 2)) {
            Ok(c) => match spec_orientation_of_char(s[2]) {
                Some(o) => if valid_wall_square_one(spec_square_one(c.x as int, c.y as int)) {
                    Ok((spec_square_one(c.x as int, c.y as int), o))
                } else {
                    Err(ActionError::OutOfRange)
                },
                None => Err(ActionError::BadNotation),
            },
            Err(e) => Err(e),
        }
    } else {
        Err(ActionError::BadNotation)
    }
}

/// The notation of a one-based coordinate, with an optional orientation
/// marker.
pub open spec fn spec_convert_notation(c: Coordinate, o: Option<WallOrientation>) -> Seq<char> {
    let base = seq![spec_col_char(c.x - 1), spec_row_char(c.y - 1)];
    match o {
        Some(WallOrientation::Horizontal) => base.push('h'),
        Some(WallOrientation::Vertical) => base.push('v'),
        None => base,
    }
}

/// The column letter of a one-based axis value.
pub fn number_to_alphabet(number: u8) -> (r: char)
    requires
        1 <= number <= 9,
    ensures
        r == spec_col_char(number - 1),
{
    crate::actions::number_to_alphabet(number - 1)
}

/// The one-based square number of a one-based coordinate.
pub fn convert_to_square(coordinate: Coordinate) -> (r: u8)
    requires
        1 <= coordinate.x <= 9,
        1 <= coordinate.y <= 9,
    ensures
        r as int == spec_square_one(coordinate.x as int, coordinate.y as int),
        valid_square_one(r as int),
{
    proof {
        lemma_one_based_round_trip(0, coordinate.x as int, coordinate.y as int);
    }
    (coordinate.y - 1) * 9 + coordinate.x
}

/// Decodes a two-character notation as a one-based coordinate.
pub fn convert_to_coordinate(notation: &str) -> (r: Result<Coordinate, ActionError>)
    ensures
        r == spec_convert_coordinate(notation@),
        r matches Ok(c) ==> 1 <= c.x <= 9 && 1 <= c.y <= 9,
{
    if notation.unicode_len() != 2 {
        return Err(ActionError::BadNotation);
    }
    let first_char = notation.get_char(0);
    let second_char = notation.get_char(1);
    match (col_of_char(first_char), row_of_char(second_char)) {
        (Some(x), Some(y)) => Ok(Coordinate { x: x + 1, y: y + 1 }),
        _ => Err(ActionError::BadNotation),
    }
}

/// Encodes a one-based coordinate, appending the orientation marker for
/// walls.
pub fn convert_to_notation(coordinate: Coordinate, orientation: Option<WallOrientation>) -> (r:
    String)
    requires
        1 <= coordinate.x <= 9,
        1 <= coordinate.y <= 9,
    ensures
        r@ == spec_convert_notation(coordinate, orientation),
{
    let mut notation = String::from_str(col_str(coordinate.x - 1));
    notation.append(row_str(coordinate.y - 1));
    match orientation {
        Some(WallOrientation::Horizontal) => {
            proof {
                reveal_strlit("h");
            }
            notation.append("h");
        },
        Some(WallOrientation::Vertical) => {
            proof {
                reveal_strlit("v");
            }
            notation.append("v");
        },
        None => {},
    }
    proof {
        assert(notation@ =~= spec_convert_notation(coordinate, orientation));
    }
    notation
}

/// A pawn location in the one-based numbering: squares 1 through 81.
#[derive(Clone, Copy, Hash, Debug, PartialEq, Eq, Structural)]
pub struct PawnLocation {
    square: u8,
}

impl PawnLocation {
    /// The one-based square number held.
    pub closed spec fn spec_square(&self) -> int {
        self.square as int
    }

    /// Every location built here is valid.
    pub open spec fn wf(&self) -> bool {
        valid_square_one(self.spec_square())
    }

    /// Builds the location for a one-based square number; 0 and numbers
    /// above 81 are rejected.
    pub fn build(square: u8) -> (r: Result<PawnLocation, ActionError>)
        ensures
            match r {
                Ok(l) => valid_square_one(square as int) && l.spec_square() == square as int,
                Err(e) => !valid_square_one(square as int) && e == ActionError::OutOfRange,
            },
    {
        if 1 <= square && square <= 81 {
            Ok(PawnLocation { square })
        } else {
            Err(ActionError::OutOfRange)
        }
    }

    /// Decodes a two-character pawn notation.
    pub fn from_notation(notation: &str) -> (r: Result<PawnLocation, ActionError>)
        ensures
            (match (r, spec_convert_coordinate(notation@)) {
                (Ok(l), Ok(c)) => l.spec_square() == spec_square_one(c.x as int, c.y as int),
                (Err(e), Err(e2)) => e == e2,
                _ => false,
            }),
    {
        match convert_to_coordinate(notation) {
            Ok(coordinate) => {
                let square = convert_to_square(coordinate);
                Ok(PawnLocation { square })
            },
            Err(e) => Err(e),
        }
    }

    pub fn get_square(&self) -> (r: u8)
        ensures
            r as int == self.spec_square(),
    {
        self.square
    }

    /// The one-based coordinate of this square.
    pub fn get_coordinate(&self) -> (r: Coordinate)
        requires
            self.wf(),
        ensures
            r == spec_coord_one(self.spec_square()),
            1 <= r.x <= 9,
            1 <= r.y <= 9,
    {
        proof {
            lemma_one_based_round_trip(self.spec_square(), 0, 0);
        }
        let remainder = self.square % 9;
        if remainder == 0 {
            Coordinate { x: 9, y: self.square / 9 }
        } else {
            Coordinate { x: remainder, y: self.square / 9 + 1 }
        }
    }

    /// The canonical notation of this square.
    pub fn get_notation(&self) -> (r: String)
        requires
            self.wf(),
        ensures
            r@ == spec_convert_notation(spec_coord_one(self.spec_square()), None),
    {
        convert_to_notation(self.get_coordinate(), None)
    }

    /// The location one step away, or an error at the board edge.
    pub fn new_location_from_direction(&self, direction: Direction) -> (r: Result<
        PawnLocation,
        ActionError,
    >)
        requires
            self.wf(),
        ensures
            (match direction {
                Direction::North => match r {
                    Ok(l) => self.spec_square() + 9 <= 81 && l.spec_square() == self.spec_square()
                        + 9,
                    Err(e) => self.spec_square() + 9 > 81 && e == ActionError::OutOfRange,
                },
                Direction::East => match r {
                    Ok(l) => spec_coord_one(self.spec_square()).x != 9 && l.spec_square()
                        == self.spec_square() + 1,
                    Err(e) => spec_coord_one(self.spec_square()).x == 9 && e
                        == ActionError::OutOfRange,
                },
                Direction::South => match r {
                    Ok(l) => self.spec_square() - 9 >= 1 && l.spec_square() == self.spec_square()
                        - 9,
                    Err(e) => self.spec_square() - 9 < 1 && e == ActionError::OutOfRange,
                },
                Direction::West => match r {
                    Ok(l) => spec_coord_one(self.spec_square()).x != 1 && l.spec_square()
                        == self.spec_square() - 1,
                    Err(e) => spec_coord_one(self.spec_square()).x == 1 && e
                        == ActionError::OutOfRange,
                },
            }),
    {
        proof {
            lemma_one_based_round_trip(self.spec_square(), 0, 0);
        }
        match direction {
            Direction::North => PawnLocation::build(self.square + 9),
            Direction::East => {
                if self.get_coordinate().x != 9 {
                    PawnLocation::build(self.square + 1)
                } else {
                    Err(ActionError::OutOfRange)
                }
            },
            Direction::South => {
                if self.square > 9 {
                    PawnLocation::build(self.square - 9)
                } else {
                    Err(ActionError::OutOfRange)
                }
            },
            Direction::West => {
                if self.get_coordinate().x != 1 {
                    PawnLocation::build(self.square - 1)
                } else {
                    Err(ActionError::OutOfRange)
                }
            },
        }
    }
}

/// A wall location in the one-based numbering: anchor squares 1 through
/// 71, never a multiple of 9, with the wall's orientation.
#[derive(Clone, Copy, Hash, Debug, PartialEq, Eq, Structural)]
pub struct WallLocation {
    square: u8,
    orientation: WallOrientation,
}

impl WallLocation {
    /// The one-based anchor number held.
    pub closed spec fn spec_square(&self) -> int {
        self.square as int
    }

    /// The orientation held.
    pub closed spec fn spec_orientation(&self) -> WallOrientation {
        self.orientation
    }

    /// Every location built here is valid.
    pub open spec fn wf(&self) -> bool {
        valid_wall_square_one(self.spec_square())
    }

    /// Builds the location for a one-based anchor number.
    pub fn build(square: u8, orientation: WallOrientation) -> (r: Result<
        WallLocation,
        ActionError,
    >)
        ensures
            match r {
                Ok(l) => {
                    &&& valid_wall_square_one(square as int)
                    &&& l.spec_square() == square as int
                    &&& l.spec_orientation() == orientation
                },
                Err(e) => !valid_wall_square_one(square as int) && e == ActionError::OutOfRange,
            },
    {
        if 1 <= square && square <= 71 && square % 9 != 0 {
            Ok(WallLocation { square, orientation })
        } else {
            Err(ActionError::OutOfRange)
        }
    }

    /// Decodes a three-character wall notation: square, then the trailing
    /// orientation marker, then the anchor-range check.
    pub fn from_notation(notation: &str) -> (r: Result<WallLocation, ActionError>)
        ensures
            (match (r, spec_wall_notation_one(notation@)) {
                (Ok(l), Ok(pair)) => l.spec_square() == pair.0 && l.spec_orientation() == pair.1
                    && l.wf(),
                (Err(e), Err(e2)) => e == e2,
                _ => false,
            }),
    {
        if notation.unicode_len() != 3 {
            return Err(ActionError::BadNotation);
        }
        let head = notation.substring_char(0, 2);
        let coordinate = match convert_to_coordinate(head) {
            Ok(coordinate) => coordinate,
            Err(e) => {
                return Err(e);
            },
        };
        let square = convert_to_square(coordinate);
        match notation.get_char(2) {
            'v' | 'V' => WallLocation::build(square, WallOrientation::Vertical),
            'h' | 'H' => WallLocation::build(square, WallOrientation::Horizontal),
            _ => Err(ActionError::BadNotation),
        }
    }

    pub fn get_square(&self) -> (r: u8)
        ensures
            r as int == self.spec_square(),
    {
        self.square
    }

    pub fn get_orientation(&self) -> (r: WallOrientation)
        ensures
            r == self.spec_orientation(),
    {
        self.orientation
    }

    /// The one-based coordinate of this anchor.
    pub fn get_coordinate(&self) -> (r: Coordinate)
        requires
            self.wf(),
        ensures
            r == spec_coord_one(self.spec_square()),
            1 <= r.x <= 9,
            1 <= r.y <= 9,
    {
        proof {
            lemma_one_based_round_trip(self.spec_square(), 0, 0);
        }
        let remainder = self.square % 9;
        if remainder == 0 {
            Coordinate { x: 9, y: self.square / 9 }
        } else {
            Coordinate { x: remainder, y: self.square / 9 + 1 }
        }
    }

    /// The canonical notation of this wall.
    pub fn get_notation(&self) -> (r: String)
        requires
            self.wf(),
        ensures
            r@ == spec_convert_notation(
                spec_coord_one(self.spec_square()),
                Some(self.spec_orientation()),
            ),
    {
        convert_to_notation(self.get_coordinate(), Some(self.get_orientation()))
    }
}

} // verus!
