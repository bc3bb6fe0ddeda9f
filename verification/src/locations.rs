//! Value types for board positions: grid coordinates, linear square
//! indices, pawn and wall locations, and directional stepping.
//!
//! Convention used throughout the crate: `x` grows to the East, `y` grows to
//! the North, both axes are 0-based, and the linear index of a square is
//! `y * 9 + x`. Pawn squares use both axes in `0..=8`; wall anchors use both
//! axes in `0..=7`, so a wall anchor's linear index is below 71 and never
//! congruent to 8 modulo 9.

use vstd::prelude::*;

use crate::errors::ActionError;

verus! {

/// True when `s` is the linear index of one of the 81 pawn squares.
pub open spec fn valid_square(s: int) -> bool {
    0 <= s < 81
}

/// True when `s` is the linear index of one of the 64 wall anchors.
pub open spec fn valid_wall_square(s: int) -> bool {
    0 <= s < 71 && s % 9 != 8
}

/// An (x, y) pair addressing one of the 81 pawn squares when both axes are
/// below 9, or one of the 64 wall anchors when both axes are below 8.
#[derive(Clone, Copy, Debug, PartialEq, Eq, Structural)]
pub struct Coordinate {
    pub x: u8,
    pub y: u8,
}

/// The four directions a pawn can step in. North increases `y`, East
/// increases `x`, South decreases `y`, West decreases `x`.
#[derive(Clone, Copy, Debug, PartialEq, Eq, Structural)]
pub enum Direction {
    North,
    East,
    South,
    West,
}

/// The two ways a wall can lie. A horizontal wall severs the two north/south
/// edges it straddles; a vertical wall severs two east/west edges.
#[derive(Clone, Copy, Hash, Debug, PartialEq, Eq, Structural)]
pub enum WallOrientation {
    Horizontal,
    Vertical,
}

/// The coordinate whose linear index is `s`.
pub open spec fn coord_of_square(s: int) -> Coordinate {
    Coordinate { x: (s % 9) as u8, y: (s / 9) as u8 }
}

/// Stepping one square in a direction, or `None` when the step would leave
/// the 9x9 board.
pub open spec fn spec_step(c: Coordinate, d: Direction) -> Option<Coordinate> {
    match d {
        Direction::North => if c.y < 8 {
            Some(Coordinate { x: c.x, y: (c.y + 1) as u8 })
        } else {
            None
        },
        Direction::East => if c.x < 8 {
            Some(Coordinate { x: (c.x + 1) as u8, y: c.y })
        } else {
            None
        },
        Direction::South => if c.y >= 1 {
            Some(Coordinate { x: c.x, y: (c.y - 1) as u8 })
        } else {
            None
        },
        Direction::West => if c.x >= 1 {
            Some(Coordinate { x: (c.x - 1) as u8, y: c.y })
        } else {
            None
        },
    }
}

/// Shifting a coordinate by (dx, dy), or `None` when the result would leave
/// the 9x9 board.
pub open spec fn spec_shift(c: Coordinate, dx: int, dy: int) -> Option<Coordinate> {
    if 0 <= c.x + dx <= 8 && 0 <= c.y + dy <= 8 {
        Some(Coordinate { x: (c.x + dx) as u8, y: (c.y + dy) as u8 })
    } else {
        None
    }
}

/// The two directions orthogonal to `d`, used by diagonal-jump resolution.
pub open spec fn spec_perpendicular(d: Direction) -> (Direction, Direction) {
    match d {
        Direction::North => (Direction::East, Direction::West),
        Direction::South => (Direction::East, Direction::West),
        Direction::East => (Direction::North, Direction::South),
        Direction::West => (Direction::North, Direction::South),
    }
}

impl Coordinate {
    /// True when the coordinate addresses a pawn square.
    pub open spec fn wf(self) -> bool {
        self.x < 9 && self.y < 9
    }

    /// The linear index of the square at (x, y).
    pub open spec fn spec_square(self) -> int {
        self.y * 9 + self.x
    }

    /// Builds a pawn-square coordinate; axes out of range are a caller error.
    pub fn new(x: u8, y: u8) -> (r: Coordinate)
        requires
            x < 9,
            y < 9,
        ensures
            r == (Coordinate { x, y }),
    {
        Coordinate { x, y }
    }

    pub fn get_x(&self) -> (r: &u8)
        ensures
            r == self.x,
    {
        &self.x
    }

    pub fn get_y(&self) -> (r: &u8)
        ensures
            r == self.y,
    {
        &self.y
    }

    /// The coordinate of the square with linear index `square`; total, but
    /// only indices below 81 give a well-formed coordinate back.
    pub fn from_square(square: u8) -> (r: Coordinate)
        ensures
            square < 81 ==> r == coord_of_square(square as int) && r.wf(),
    {
        Coordinate { x: square % 9, y: square / 9 }
    }

    /// The linear index of this coordinate.
    pub fn to_square(&self) -> (r: u8)
        requires
            self.wf(),
        ensures
            r as int == self.spec_square(),
            valid_square(r as int),
    {
        self.y * 9 + self.x
    }

    /// One step in `direction`, or `None` at the board edge.
    pub fn from_direction(&self, direction: Direction) -> (r: Option<Coordinate>)
        requires
            self.wf(),
        ensures
            r == spec_step(*self, direction),
    {
        match direction {
            Direction::North => if self.y < 8 {
                Some(Coordinate { x: self.x, y: self.y + 1 })
            } else {
                None
            },
            Direction::East => if self.x < 8 {
                Some(Coordinate { x: self.x + 1, y: self.y })
            } else {
                None
            },
            Direction::South => if self.y >= 1 {
                Some(Coordinate { x: self.x, y: self.y - 1 })
            } else {
                None
            },
            Direction::West => if self.x >= 1 {
                Some(Coordinate { x: self.x - 1, y: self.y })
            } else {
                None
            },
        }
    }

    /// The coordinate shifted by (x, y), or `None` when that leaves the board.
    pub fn from_calculation(&self, x: i8, y: i8) -> (r: Option<Coordinate>)
        requires
            self.wf(),
        ensures
            r == spec_shift(*self, x as int, y as int),
    {
        let new_x: i16 = self.x as i16 + x as i16;
        let new_y: i16 = self.y as i16 + y as i16;
        if 0 <= new_x && new_x <= 8 && 0 <= new_y && new_y <= 8 {
            Some(Coordinate { x: new_x as u8, y: new_y as u8 })
        } else {
            None
        }
    }
}

impl Direction {
    /// The two directions orthogonal to this one.
    pub fn get_perpendicular_directions(&self) -> (r: (Direction, Direction))
        ensures
            r == spec_perpendicular(*self),
    {
        match self {
            Direction::North => (Direction::East, Direction::West),
            Direction::South => (Direction::East, Direction::West),
            Direction::East => (Direction::North, Direction::South),
            Direction::West => (Direction::North, Direction::South),
        }
    }
}

/// Converting a well-formed coordinate to its linear index and back is the
/// identity, and so is the converse on a valid index.
pub proof fn lemma_square_round_trip(c: Coordinate, s: int)
    ensures
        c.wf() ==> valid_square(c.spec_square()) && coord_of_square(c.spec_square()) == c,
        valid_square(s) ==> coord_of_square(s).wf() && coord_of_square(s).spec_square() == s,
{
    if c.wf() {
        assert(c.spec_square() == c.y * 9 + c.x);
        assert((c.y * 9 + c.x) % 9 == c.x && (c.y * 9 + c.x) / 9 == c.y) by (nonlinear_arith)
            requires
                c.x < 9 && c.y < 9,
        ;
    }
    if valid_square(s) {
        assert(0 <= s % 9 < 9 && 0 <= s / 9 < 9 && (s / 9) * 9 + s % 9 == s) by (nonlinear_arith)
            requires
                0 <= s < 81,
        ;
    }
}

/// The two ways a wall can lie, as the axes-form anchor type names them.
#[derive(Clone, Copy, Debug, PartialEq, Eq, Structural)]
pub enum Rotation {
    Horizontal,
    Vertical,
}

/// A wall anchor in axes form: the (x, y) position of the wall's centre,
/// both axes in 0..=7, with the wall's rotation.
#[derive(Clone, Copy, Debug, PartialEq, Eq, Structural)]
pub struct WallCoordinate {
    x: u8,
    y: u8,
    rotation: Rotation,
}

impl WallCoordinate {
    /// The x axis of the anchor.
    pub closed spec fn spec_x(&self) -> int {
        self.x as int
    }

    /// The y axis of the anchor.
    pub closed spec fn spec_y(&self) -> int {
        self.y as int
    }

    /// The rotation of the wall.
    pub closed spec fn spec_rotation(&self) -> Rotation {
        self.rotation
    }

    /// Builds an anchor; axes of 8 or more are a caller error.
    pub fn new(x: u8, y: u8, rotation: Rotation) -> (r: WallCoordinate)
        requires
            x < 8,
            y < 8,
        ensures
            r.spec_x() == x as int,
            r.spec_y() == y as int,
            r.spec_rotation() == rotation,
    {
        WallCoordinate { x, y, rotation }
    }

    pub fn get_x(&self) -> (r: &u8)
        ensures
            *r as int == self.spec_x(),
    {
        &self.x
    }

    pub fn get_y(&self) -> (r: &u8)
        ensures
            *r as int == self.spec_y(),
    {
        &self.y
    }

    pub fn get_rotation(&self) -> (r: &Rotation)
        ensures
            *r == self.spec_rotation(),
    {
        &self.rotation
    }
}

/// Anything that sits on a linear square index.
pub trait Location {
    /// The linear index this location occupies.
    spec fn loc_square(&self) -> int;

    fn get_square(&self) -> (r: u8)
        ensures
            r as int == self.loc_square(),
    ;

    fn get_coordinate(&self) -> (r: Coordinate)
        requires
            valid_square(self.loc_square()),
        ensures
            r == coord_of_square(self.loc_square()),
            r.wf(),
    ;
}

/// The location of a pawn: one of the 81 squares, stored as a linear index.
#[derive(Clone, Copy, Hash, Debug, PartialEq, Eq, Structural)]
pub struct PawnLocation {
    square: u8,
}

impl PawnLocation {
    /// The linear index this location holds.
    pub open spec fn spec_square(&self) -> int {
        self.loc_square()
    }

    /// Every location built through `build` or `from_coordinate` is valid.
    pub open spec fn wf(&self) -> bool {
        valid_square(self.spec_square())
    }

    /// Builds the location for a linear square index; indices 81 and above
    /// are rejected as out of range.
    pub fn build(square: u8) -> (r: Result<PawnLocation, ActionError>)
        ensures
            match r {
                Ok(l) => square < 81 && l.spec_square() == square as int,
                Err(e) => square >= 81 && e == ActionError::OutOfRange,
            },
    {
        if square < 81 {
            Ok(PawnLocation { square })
        } else {
            Err(ActionError::OutOfRange)
        }
    }

    /// Builds the location for a coordinate; succeeds exactly on well-formed
    /// pawn-square coordinates.
    pub fn from_coordinate(coordinate: Coordinate) -> (r: Result<PawnLocation, ActionError>)
        ensures
            match r {
                Ok(l) => coordinate.wf() && l.spec_square() == coordinate.spec_square(),
                Err(e) => !coordinate.wf() && e == ActionError::OutOfRange,
            },
    {
        if coordinate.x < 9 && coordinate.y < 9 {
            Ok(PawnLocation { square: coordinate.to_square() })
        } else {
            Err(ActionError::OutOfRange)
        }
    }

    /// The location one step away in `direction`; succeeds exactly when the
    /// step stays on the board.
    pub fn from_direction(&self, direction: Direction) -> (r: Result<PawnLocation, ActionError>)
        requires
            self.wf(),
        ensures
            match r {
                Ok(l) => {
                    &&& spec_step(coord_of_square(self.spec_square()), direction) is Some
                    &&& l.spec_square() == spec_step(
                        coord_of_square(self.spec_square()),
                        direction,
                    ).unwrap().spec_square()
                    &&& l.wf()
                },
                Err(e) => {
                    &&& spec_step(coord_of_square(self.spec_square()), direction) is None
                    &&& e == ActionError::OutOfRange
                },
            },
    {
        let coordinate = self.get_coordinate();
        match coordinate.from_direction(direction) {
            Some(new_coordinate) => {
                proof {
                    lemma_square_round_trip(new_coordinate, 0);
                }
                PawnLocation::from_coordinate(new_coordinate)
            },
            None => Err(ActionError::OutOfRange),
        }
    }
}

impl Location for PawnLocation {
    closed spec fn loc_square(&self) -> int {
        self.square as int
    }

    fn get_square(&self) -> (r: u8) {
        self.square
    }

    fn get_coordinate(&self) -> (r: Coordinate) {
        proof {
            lemma_square_round_trip(coord_of_square(self.loc_square()), self.loc_square());
        }
        Coordinate::from_square(self.square)
    }
}

/// The pawn location holding square `s`, for specifications that need to
/// name a location by its square.
pub closed spec fn spec_pawn_location(s: int) -> PawnLocation {
    PawnLocation { square: s as u8 }
}

/// `spec_pawn_location` inverts `spec_square` on every real location, and
/// `spec_square` inverts it on every valid index.
pub proof fn lemma_spec_pawn_location(l: PawnLocation, s: int)
    ensures
        spec_pawn_location(l.spec_square()) == l,
        valid_square(s) ==> spec_pawn_location(s).spec_square() == s && spec_pawn_location(s).wf(),
{
}

/// The location of a wall: one of the 64 anchors, stored as the linear index
/// of the square whose north-east corner the wall's center touches, plus the
/// wall's orientation.
#[derive(Clone, Copy, Hash, Debug, PartialEq, Eq, Structural)]
pub struct WallLocation {
    square: u8,
    orientation: WallOrientation,
}

impl WallLocation {
    /// The linear index of this wall's anchor.
    pub open spec fn spec_square(&self) -> int {
        self.loc_square()
    }

    /// The orientation of this wall.
    pub closed spec fn spec_orientation(&self) -> WallOrientation {
        self.orientation
    }

    /// Every location built through `build` or `from_coordinate` is valid.
    pub open spec fn wf(&self) -> bool {
        valid_wall_square(self.spec_square())
    }

    /// Builds the wall location for an anchor index; anchors sit on squares
    /// below 71 whose index is not congruent to 8 modulo 9.
    pub fn build(square: u8, orientation: WallOrientation) -> (r: Result<
        WallLocation,
        ActionError,
    >)
        ensures
            match r {
                Ok(l) => {
                    &&& valid_wall_square(square as int)
                    &&& l.spec_square() == square as int
                    &&& l.spec_orientation() == orientation
                },
                Err(e) => !valid_wall_square(square as int) && e == ActionError::OutOfRange,
            },
    {
        if square < 71 && square % 9 != 8 {
            Ok(WallLocation { square, orientation })
        } else {
            Err(ActionError::OutOfRange)
        }
    }

    /// Builds the wall location for an anchor coordinate; succeeds exactly
    /// when both axes are below 8.
    pub fn from_coordinate(coordinate: Coordinate, orientation: WallOrientation) -> (r: Result<
        WallLocation,
        ActionError,
    >)
        ensures
            match r {
                Ok(l) => {
                    &&& coordinate.x < 8 && coordinate.y < 8
                    &&& l.spec_square() == coordinate.spec_square()
                    &&& l.spec_orientation() == orientation
                    &&& l.wf()
                },
                Err(e) => !(coordinate.x < 8 && coordinate.y < 8) && e == ActionError::OutOfRange,
            },
    {
        if coordinate.x < 8 && coordinate.y < 8 {
            proof {
                assert(valid_wall_square(coordinate.spec_square())) by (nonlinear_arith)
                    requires
                        coordinate.x < 8 && coordinate.y < 8,
                ;
            }
            Ok(WallLocation { square: coordinate.to_square(), orientation })
        } else {
            Err(ActionError::OutOfRange)
        }
    }

    pub fn get_orientation(&self) -> (r: WallOrientation)
        ensures
            r == self.spec_orientation(),
    {
        self.orientation
    }
}

impl Location for WallLocation {
    closed spec fn loc_square(&self) -> int {
        self.square as int
    }

    fn get_square(&self) -> (r: u8) {
        self.square
    }

    fn get_coordinate(&self) -> (r: Coordinate) {
        proof {
            lemma_square_round_trip(coord_of_square(self.loc_square()), self.loc_square());
        }
        Coordinate::from_square(self.square)
    }
}

/// The wall location holding anchor `s` with orientation `o`, for
/// specifications that need to name a wall by its parts.
pub closed spec fn spec_wall_location(s: int, o: WallOrientation) -> WallLocation {
    WallLocation { square: s as u8, orientation: o }
}

/// `spec_wall_location` inverts the accessors on every real location, and
/// the accessors invert it on every valid anchor.
pub proof fn lemma_spec_wall_location(l: WallLocation, s: int, o: WallOrientation)
    ensures
        spec_wall_location(l.spec_square(), l.spec_orientation()) == l,
        valid_wall_square(s) ==> spec_wall_location(s, o).spec_square() == s && spec_wall_location(
            s,
            o,
        ).spec_orientation() == o && spec_wall_location(s, o).wf(),
{
}

} // verus!
