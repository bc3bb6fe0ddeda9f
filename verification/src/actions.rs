//! The request values a caller submits to the board, and the containers the
//! board hands back when it enumerates what is currently legal.

use vstd::prelude::*;
use vstd::string::*;

use crate::errors::ActionError;
use crate::locations::{
    coord_of_square, lemma_spec_pawn_location, lemma_spec_wall_location, lemma_square_round_trip,
    spec_pawn_location, spec_wall_location, Coordinate, PawnLocation, WallLocation,
    WallOrientation,
};

verus! {

/// The column letter of axis value `x`: A maps to 0 through I to 8.
pub open spec fn spec_col_char(x: int) -> char {
    if x == 0 {
        'A'
    } else if x == 1 {
        'B'
    } else if x == 2 {
        'C'
    } else if x == 3 {
        'D'
    } else if x == 4 {
        'E'
    } else if x == 5 {
        'F'
    } else if x == 6 {
        'G'
    } else if x == 7 {
        'H'
    } else {
        'I'
    }
}

/// The axis value of a column letter, either case, or `None`.
pub open spec fn spec_col_of_char(c: char) -> Option<int> {
    if c == 'A' || c == 'a' {
        Some(0)
    } else if c == 'B' || c == 'b' {
        Some(1)
    } else if c == 'C' || c == 'c' {
        Some(2)
    } else if c == 'D' || c == 'd' {
        Some(3)
    } else if c == 'E' || c == 'e' {
        Some(4)
    } else if c == 'F' || c == 'f' {
        Some(5)
    } else if c == 'G' || c == 'g' {
        Some(6)
    } else if c == 'H' || c == 'h' {
        Some(7)
    } else if c == 'I' || c == 'i' {
        Some(8)
    } else {
        None
    }
}

/// The row digit of axis value `y`: 1 maps to 0 through 9 to 8.
pub open spec fn spec_row_char(y: int) -> char {
    if y == 0 {
        '1'
    } else if y == 1 {
        '2'
    } else if y == 2 {
        '3'
    } else if y == 3 {
        '4'
    } else if y == 4 {
        '5'
    } else if y == 5 {
        '6'
    } else if y == 6 {
        '7'
    } else if y == 7 {
        '8'
    } else {
        '9'
    }
}

/// The axis value of a row digit, or `None`.
pub open spec fn spec_row_of_char(c: char) -> Option<int> {
    if c == '1' {
        Some(0)
    } else if c == '2' {
        Some(1)
    } else if c == '3' {
        Some(2)
    } else if c == '4' {
        Some(3)
    } else if c == '5' {
        Some(4)
    } else if c == '6' {
        Some(5)
    } else if c == '7' {
        Some(6)
    } else if c == '8' {
        Some(7)
    } else if c == '9' {
        Some(8)
    } else {
        None
    }
}

/// The trailing orientation marker a wall notation carries.
pub open spec fn spec_orientation_char(o: WallOrientation) -> char {
    match o {
        WallOrientation::Horizontal => 'h',
        WallOrientation::Vertical => 'v',
    }
}

/// The orientation named by a trailing marker, either case, or `None`.
pub open spec fn spec_orientation_of_char(c: char) -> Option<WallOrientation> {
    if c == 'h' || c == 'H' {
        Some(WallOrientation::Horizontal)
    } else if c == 'v' || c == 'V' {
        Some(WallOrientation::Vertical)
    } else {
        None
    }
}

/// The coordinate a column letter and a row digit name, or `None`.
pub open spec fn spec_decode_coordinate(c0: char, c1: char) -> Option<Coordinate> {
    match (spec_col_of_char(c0), spec_row_of_char(c1)) {
        (Some(x), Some(y)) => Some(Coordinate { x: x as u8, y: y as u8 }),
        _ => None,
    }
}

/// Decoding the first two characters of a notation as a pawn square.
pub open spec fn spec_notation_coordinate(s: Seq<char>) -> Result<Coordinate, ActionError> {
    if s.len() >= 2 {
        match spec_decode_coordinate(s[0], s[1]) {
            Some(c) => Ok(c),
            None => Err(ActionError::BadNotation),
        }
    } else {
        Err(ActionError::BadNotation)
    }
}

/// Decoding a two-character pawn notation.
pub open spec fn spec_decode_pawn(s: Seq<char>) -> Result<PawnLocation, ActionError> {
    if s.len() == 2 {
        match spec_decode_coordinate(s[0], s[1]) {
            Some(c) => Ok(spec_pawn_location(c.spec_square())),
            None => Err(ActionError::BadNotation),
        }
    } else {
        Err(ActionError::BadNotation)
    }
}

/// Decoding a three-character wall notation: square, then orientation
/// marker, then the anchor-range check.
pub open spec fn spec_decode_wall(s: Seq<char>) -> Result<WallLocation, ActionError> {
    if s.len() == 3 {
        match spec_decode_coordinate(s[0], s[1]) {
            Some(c) => match spec_orientation_of_char(s[2]) {
                Some(o) => if c.x < 8 && c.y < 8 {
                    Ok(spec_wall_location(c.spec_square(), o))
                } else {
                    Err(ActionError::OutOfRange)
                },
                None => Err(ActionError::BadNotation),
            },
            None => Err(ActionError::BadNotation),
        }
    } else {
        Err(ActionError::BadNotation)
    }
}

/// Decoding any action notation: two characters name a pawn move, three
/// name a wall placement, anything else is rejected.
pub open spec fn spec_decode_action(s: Seq<char>) -> Result<Action, ActionError> {
    if s.len() == 2 {
        match spec_decode_pawn(s) {
            Ok(l) => Ok(Action::Pawn(l)),
            Err(e) => Err(e),
        }
    } else if s.len() == 3 {
        match spec_decode_wall(s) {
            Ok(l) => Ok(Action::Wall(l)),
            Err(e) => Err(e),
        }
    } else {
        Err(ActionError::BadNotation)
    }
}

/// Encoding a coordinate, with an optional orientation marker appended.
pub open spec fn spec_location_notation(c: Coordinate, o: Option<WallOrientation>) -> Seq<char> {
    match o {
        Some(orientation) => seq![
            spec_col_char(c.x as int),
            spec_row_char(c.y as int),
            spec_orientation_char(orientation),
        ],
        None => seq![spec_col_char(c.x as int), spec_row_char(c.y as int)],
    }
}

/// Encoding an action: the canonical upper-case column letter, the row
/// digit, and for walls the lower-case orientation marker.
pub open spec fn spec_encode_action(a: Action) -> Seq<char> {
    match a {
        Action::Pawn(l) => spec_location_notation(coord_of_square(l.spec_square()), None),
        Action::Wall(l) => spec_location_notation(
            coord_of_square(l.spec_square()),
            Some(l.spec_orientation()),
        ),
    }
}

/// One request: move the active pawn somewhere, or place a wall.
/// Actions are stateless values; they never reference a board.
#[derive(Clone, Copy, Debug, PartialEq, Eq, Structural)]
pub enum Action {
    Pawn(PawnLocation),
    Wall(WallLocation),
}

impl Action {
    /// True when the location inside addresses the board.
    pub open spec fn wf(&self) -> bool {
        match self {
            Action::Pawn(location) => location.wf(),
            Action::Wall(location) => location.wf(),
        }
    }

    pub fn from_pawn_location(pawn_location: PawnLocation) -> (r: Action)
        ensures
            r == Action::Pawn(pawn_location),
    {
        Action::Pawn(pawn_location)
    }

    pub fn from_wall_location(wall_location: WallLocation) -> (r: Action)
        ensures
            r == Action::Wall(wall_location),
    {
        Action::Wall(wall_location)
    }

    /// Parses an action notation: two characters name a pawn move, three a
    /// wall placement.
    pub fn from_notation(notation: &str) -> (r: Result<Action, ActionError>)
        ensures
            r == spec_decode_action(notation@),
    {
        let length = notation.unicode_len();
        if length == 2 {
            match pawn_location_from_notation(notation) {
                Ok(location) => Ok(Action::Pawn(location)),
                Err(e) => Err(e),
            }
        } else if length == 3 {
            match wall_location_from_notation(notation) {
                Ok(location) => Ok(Action::Wall(location)),
                Err(e) => Err(e),
            }
        } else {
            Err(ActionError::BadNotation)
        }
    }

    /// The canonical notation of this action.
    pub fn get_notation(&self) -> (r: String)
        requires
            self.wf(),
        ensures
            r@ == spec_encode_action(*self),
    {
        match self {
            Action::Pawn(location) => {
                let coordinate = crate::locations::Location::get_coordinate(location);
                location_to_notation(coordinate, None)
            },
            Action::Wall(location) => {
                let coordinate = crate::locations::Location::get_coordinate(location);
                location_to_notation(coordinate, Some(location.get_orientation()))
            },
        }
    }
}

/// The column letter of an axis value.
pub fn number_to_alphabet(number: u8) -> (r: char)
    requires
        number < 9,
    ensures
        r == spec_col_char(number as int),
{
    if number == 0 {
        'A'
    } else if number == 1 {
        'B'
    } else if number == 2 {
        'C'
    } else if number == 3 {
        'D'
    } else if number == 4 {
        'E'
    } else if number == 5 {
        'F'
    } else if number == 6 {
        'G'
    } else if number == 7 {
        'H'
    } else {
        'I'
    }
}

/// The axis value of a column letter, either case.
pub(crate) fn col_of_char(c: char) -> (r: Option<u8>)
    ensures
        match r {
            Some(x) => spec_col_of_char(c) == Some(x as int) && x < 9,
            None => spec_col_of_char(c) is None,
        },
{
    match c {
        'A' | 'a' => Some(0),
        'B' | 'b' => Some(1),
        'C' | 'c' => Some(2),
        'D' | 'd' => Some(3),
        'E' | 'e' => Some(4),
        'F' | 'f' => Some(5),
        'G' | 'g' => Some(6),
        'H' | 'h' => Some(7),
        'I' | 'i' => Some(8),
        _ => None,
    }
}

/// The axis value of a row digit.
pub(crate) fn row_of_char(c: char) -> (r: Option<u8>)
    ensures
        match r {
            Some(y) => spec_row_of_char(c) == Some(y as int) && y < 9,
            None => spec_row_of_char(c) is None,
        },
{
    match c {
        '1' => Some(0),
        '2' => Some(1),
        '3' => Some(2),
        '4' => Some(3),
        '5' => Some(4),
        '6' => Some(5),
        '7' => Some(6),
        '8' => Some(7),
        '9' => Some(8),
        _ => None,
    }
}

/// The one-character string holding a column letter.
pub(crate) fn col_str(x: u8) -> (r: &'static str)
    requires
        x < 9,
    ensures
        r@ == seq![spec_col_char(x as int)],
{
    if x == 0 {
        proof {
            reveal_strlit("A");
        }
        "A"
    } else if x == 1 {
        proof {
            reveal_strlit("B");
        }
        "B"
    } else if x == 2 {
        proof {
            reveal_strlit("C");
        }
        "C"
    } else if x == 3 {
        proof {
            reveal_strlit("D");
        }
        "D"
    } else if x == 4 {
        proof {
            reveal_strlit("E");
        }
        "E"
    } else if x == 5 {
        proof {
            reveal_strlit("F");
        }
        "F"
    } else if x == 6 {
        proof {
            reveal_strlit("G");
        }
        "G"
    } else if x == 7 {
        proof {
            reveal_strlit("H");
        }
        "H"
    } else {
        proof {
            reveal_strlit("I");
        }
        "I"
    }
}

/// The one-character string holding a row digit.
pub(crate) fn row_str(y: u8) -> (r: &'static str)
    requires
        y < 9,
    ensures
        r@ == seq![spec_row_char(y as int)],
{
    if y == 0 {
        proof {
            reveal_strlit("1");
        }
        "1"
    } else if y == 1 {
        proof {
            reveal_strlit("2");
        }
        "2"
    } else if y == 2 {
        proof {
            reveal_strlit("3");
        }
        "3"
    } else if y == 3 {
        proof {
            reveal_strlit("4");
        }
        "4"
    } else if y == 4 {
        proof {
            reveal_strlit("5");
        }
        "5"
    } else if y == 5 {
        proof {
            reveal_strlit("6");
        }
        "6"
    } else if y == 6 {
        proof {
            reveal_strlit("7");
        }
        "7"
    } else if y == 7 {
        proof {
            reveal_strlit("8");
        }
        "8"
    } else {
        proof {
            reveal_strlit("9");
        }
        "9"
    }
}

/// Decodes the first two characters of a notation as a coordinate.
pub fn notation_to_coordinate(notation: &str) -> (r: Result<Coordinate, ActionError>)
    ensures
        r == spec_notation_coordinate(notation@),
{
    if notation.unicode_len() < 2 {
        return Err(ActionError::BadNotation);
    }
    let first_char = notation.get_char(0);
    let second_char = notation.get_char(1);
    match (col_of_char(first_char), row_of_char(second_char)) {
        (Some(x), Some(y)) => Ok(Coordinate::new(x, y)),
        _ => Err(ActionError::BadNotation),
    }
}

/// Decodes a two-character pawn notation.
pub fn pawn_location_from_notation(notation: &str) -> (r: Result<PawnLocation, ActionError>)
    ensures
        r == spec_decode_pawn(notation@),
{
    if notation.unicode_len() != 2 {
        return Err(ActionError::BadNotation);
    }
    match notation_to_coordinate(notation) {
        Ok(coordinate) => match PawnLocation::from_coordinate(coordinate) {
            Ok(location) => {
                proof {
                    lemma_spec_pawn_location(location, coordinate.spec_square());
                }
                Ok(location)
            },
            Err(_) => { unreached() },
        },
        Err(e) => Err(e),
    }
}

/// Decodes a three-character wall notation.
pub fn wall_location_from_notation(notation: &str) -> (r: Result<WallLocation, ActionError>)
    ensures
        r == spec_decode_wall(notation@),
{
    if notation.unicode_len() != 3 {
        return Err(ActionError::BadNotation);
    }
    let coordinate = match notation_to_coordinate(notation) {
        Ok(coordinate) => coordinate,
        Err(e) => {
            return Err(e);
        },
    };
    let orientation = match notation.get_char(2) {
        'v' | 'V' => WallOrientation::Vertical,
        'h' | 'H' => WallOrientation::Horizontal,
        _ => {
            return Err(ActionError::BadNotation);
        },
    };
    match WallLocation::from_coordinate(coordinate, orientation) {
        Ok(location) => {
            proof {
                lemma_spec_wall_location(location, coordinate.spec_square(), orientation);
            }
            Ok(location)
        },
        Err(e) => Err(e),
    }
}

/// Encodes a coordinate, appending the orientation marker for walls.
pub fn location_to_notation(coordinate: Coordinate, orientation: Option<WallOrientation>) -> (r:
    String)
    requires
        coordinate.wf(),
    ensures
        r@ == spec_location_notation(coordinate, orientation),
{
    let mut notation = String::from_str(col_str(coordinate.x));
    notation.append(row_str(coordinate.y));
    match orientation {
        Some(WallOrientation::Horizontal) => {
            proof {
                reveal_strlit("h");
            }
            notation.append("h");
        },
        Some(WallOrientation::Vertical) => {
            proof {
                reveal_strlit("v");
            }
            notation.append("v");
        },
        None => {},
    }
    notation
}

/// Decoding the canonical notation of a well-formed action gives that
/// action back.
pub proof fn lemma_notation_round_trip(a: Action)
    requires
        a.wf(),
    ensures
        spec_decode_action(spec_encode_action(a)) == Ok::<Action, ActionError>(a),
{
    match a {
        Action::Pawn(l) => {
            let s = l.spec_square();
            lemma_square_round_trip(coord_of_square(s), s);
            lemma_spec_pawn_location(l, s);
        },
        Action::Wall(l) => {
            let s = l.spec_square();
            lemma_square_round_trip(coord_of_square(s), s);
            lemma_spec_wall_location(l, s, l.spec_orientation());
        },
    }
}

/// True when a notation already uses the canonical case: an upper-case
/// column letter, and for walls a lower-case orientation marker.
pub open spec fn canonical_notation(s: Seq<char>) -> bool {
    &&& (s.len() == 2 || s.len() == 3)
    &&& (s[0] == 'A' || s[0] == 'B' || s[0] == 'C' || s[0] == 'D' || s[0] == 'E' || s[0] == 'F'
        || s[0] == 'G' || s[0] == 'H' || s[0] == 'I')
    &&& (s.len() == 3 ==> s[2] == 'h' || s[2] == 'v')
}

/// Encoding whatever a canonical notation decodes to gives that notation
/// back. A notation in the accepted loose case (lower-case column, or an
/// upper-case orientation marker) re-encodes to its canonical form instead.
pub proof fn lemma_notation_canonical(s: Seq<char>, a: Action)
    requires
        spec_decode_action(s) == Ok::<Action, ActionError>(a),
        canonical_notation(s),
    ensures
        spec_encode_action(a) == s,
{
    match a {
        Action::Pawn(l) => {
            let c = spec_decode_coordinate(s[0], s[1]).unwrap();
            assert(c.wf());
            lemma_square_round_trip(c, 0);
            lemma_spec_pawn_location(l, c.spec_square());
            assert(l.spec_square() == c.spec_square());
            assert(coord_of_square(l.spec_square()) == c);
            assert(spec_col_char(c.x as int) == s[0]);
            assert(spec_row_char(c.y as int) == s[1]);
            assert(spec_encode_action(a) =~= s);
        },
        Action::Wall(l) => {
            let c = spec_decode_coordinate(s[0], s[1]).unwrap();
            let o = spec_orientation_of_char(s[2]).unwrap();
            assert(c.wf());
            lemma_square_round_trip(c, 0);
            assert(coord_of_square(c.spec_square()) == c);
            assert(c.spec_square() % 9 == c.x as int);
            assert(crate::locations::valid_wall_square(c.spec_square()));
            lemma_spec_wall_location(l, c.spec_square(), o);
            assert(l.spec_square() == c.spec_square() && l.spec_orientation() == o);
            assert(coord_of_square(l.spec_square()) == c);
            assert(spec_col_char(c.x as int) == s[0]);
            assert(spec_row_char(c.y as int) == s[1]);
            assert(spec_orientation_char(o) == s[2]);
            assert(spec_encode_action(a) =~= s);
        },
    }
}

/// The legal actions of one position: the pawn destinations and the wall
/// placements, kept apart so callers can enumerate either kind.
pub struct PossibleActions {
    actions: Vec<Action>,
    pawn_actions: Vec<PawnLocation>,
    wall_actions: Vec<WallLocation>,
}

impl PossibleActions {
    /// The pawn destinations held.
    pub closed spec fn spec_pawn_actions(&self) -> Seq<PawnLocation> {
        self.pawn_actions@
    }

    /// The wall placements held.
    pub closed spec fn spec_wall_actions(&self) -> Seq<WallLocation> {
        self.wall_actions@
    }

    /// The combined action list held.
    pub closed spec fn spec_actions(&self) -> Seq<Action> {
        self.actions@
    }

    /// Packs legal pawn destinations and wall placements together. Only
    /// the pawn destinations enter the combined action list: wall-move
    /// enumeration is not offered, walls are validated on submission.
    pub fn build(pawn_locations: Vec<PawnLocation>, wall_actions: Vec<WallLocation>) -> (r:
        PossibleActions)
        ensures
            r.spec_pawn_actions() == pawn_locations@,
            r.spec_wall_actions() == wall_actions@,
            r.spec_actions() == pawn_locations@.map_values(|l: PawnLocation| Action::Pawn(l)),
    {
        let mut actions: Vec<Action> = Vec::new();
        let mut index: usize = 0;
        while index < pawn_locations.len()
            invariant
                index <= pawn_locations.len(),
                actions@ == pawn_locations@.subrange(0, index as int).map_values(
                    |l: PawnLocation| Action::Pawn(l),
                ),
            decreases pawn_locations.len() - index,
        {
            actions.push(Action::Pawn(pawn_locations[index]));
            proof {
                assert(pawn_locations@.subrange(0, index + 1).map_values(
                    |l: PawnLocation| Action::Pawn(l),
                ) =~= pawn_locations@.subrange(0, index as int).map_values(
                    |l: PawnLocation| Action::Pawn(l),
                ).push(Action::Pawn(pawn_locations@[index as int])));
            }
            index = index + 1;
        }
        proof {
            assert(pawn_locations@.subrange(0, pawn_locations@.len() as int) =~= pawn_locations@);
        }
        PossibleActions { actions, pawn_actions: pawn_locations, wall_actions }
    }

    /// Records one more legal pawn destination.
    pub fn add_pawn_action(&mut self, location: PawnLocation)
        ensures
            final(self).spec_pawn_actions() == old(self).spec_pawn_actions().push(location),
            final(self).spec_wall_actions() == old(self).spec_wall_actions(),
            final(self).spec_actions() == old(self).spec_actions().push(Action::Pawn(location)),
    {
        self.pawn_actions.push(location);
        self.actions.push(Action::Pawn(location));
    }

    /// Records one more legal wall placement. Wall placements stay out of
    /// the combined action list.
    pub fn add_wall_action(&mut self, wall_move: WallLocation)
        ensures
            final(self).spec_wall_actions() == old(self).spec_wall_actions().push(wall_move),
            final(self).spec_pawn_actions() == old(self).spec_pawn_actions(),
            final(self).spec_actions() == old(self).spec_actions(),
    {
        self.wall_actions.push(wall_move);
    }

    /// The combined action list: the legal pawn actions.
    pub fn get_actions(&self) -> (r: &Vec<Action>)
        ensures
            r@ == self.spec_actions(),
    {
        &self.actions
    }

    /// The legal pawn destinations alone.
    pub fn get_pawn_actions(&self) -> (r: &Vec<PawnLocation>)
        ensures
            r@ == self.spec_pawn_actions(),
    {
        &self.pawn_actions
    }

    /// The legal wall placements alone.
    pub fn get_wall_actions(&self) -> (r: &Vec<WallLocation>)
        ensures
            r@ == self.spec_wall_actions(),
    {
        &self.wall_actions
    }
}

/// Legal moves in axes form: pawn destinations as coordinates and wall
/// placements as axes-form anchors.
pub struct PossibleMoves {
    pawn_moves: Vec<Coordinate>,
    wall_moves: Vec<crate::locations::WallCoordinate>,
}

impl Default for PossibleMoves {
    /// An empty move list.
    fn default() -> (r: PossibleMoves)
        ensures
            r.spec_pawn_moves() == Seq::<Coordinate>::empty(),
            r.spec_wall_moves() == Seq::<crate::locations::WallCoordinate>::empty(),
    {
        let r = PossibleMoves { pawn_moves: Vec::new(), wall_moves: Vec::new() };
        proof {
            assert(r.spec_pawn_moves() =~= Seq::<Coordinate>::empty());
            assert(r.spec_wall_moves() =~= Seq::<crate::locations::WallCoordinate>::empty());
        }
        r
    }
}

impl PossibleMoves {
    /// The pawn destinations held.
    pub closed spec fn spec_pawn_moves(&self) -> Seq<Coordinate> {
        self.pawn_moves@
    }

    /// The wall placements held.
    pub closed spec fn spec_wall_moves(&self) -> Seq<crate::locations::WallCoordinate> {
        self.wall_moves@
    }

    /// Records one more legal pawn destination.
    pub fn add_pawn_move(&mut self, coordinate: Coordinate)
        ensures
            final(self).spec_pawn_moves() == old(self).spec_pawn_moves().push(coordinate),
            final(self).spec_wall_moves() == old(self).spec_wall_moves(),
    {
        self.pawn_moves.push(coordinate);
    }

    /// Records one more legal wall placement.
    pub fn add_wall_move(&mut self, coordinate: crate::locations::WallCoordinate)
        ensures
            final(self).spec_wall_moves() == old(self).spec_wall_moves().push(coordinate),
            final(self).spec_pawn_moves() == old(self).spec_pawn_moves(),
    {
        self.wall_moves.push(coordinate);
    }

    pub fn get_pawn_moves(&self) -> (r: &Vec<Coordinate>)
        ensures
            r@ == self.spec_pawn_moves(),
    {
        &self.pawn_moves
    }

    pub fn get_wall_moves(&self) -> (r: &Vec<crate::locations::WallCoordinate>)
        ensures
            r@ == self.spec_wall_moves(),
    {
        &self.wall_moves
    }
}

} // verus!
