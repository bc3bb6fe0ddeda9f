//! The board state machine: pawn positions, wall counts, the placed walls,
//! the active player, and every rule check the game needs.
//!
//! The wall set is modelled in specifications as two sets of linear anchor
//! indices: the anchors that hold a wall, and among those the anchors whose
//! wall is vertical. Every contract below speaks of those two sets and of
//! the pawns' linear squares.

use vstd::prelude::*;

use crate::actions::{Action, PossibleActions};
use crate::bits::{grid_bits, BitGrid};
use crate::errors::ActionError;
use crate::gamestate::{GameStatus, VictoryReason};
use crate::locations::{
    coord_of_square, lemma_spec_pawn_location, spec_pawn_location, spec_perpendicular,
    valid_square, valid_wall_square, Coordinate, Direction, Location, PawnLocation, WallLocation,
    WallOrientation,
};
use crate::path::{dir_delta, goal_row, lemma_move_keeps_path, spec_has_path, step_open};

verus! {

/// The two players. White starts on row 0 and races north to row 8; Black
/// starts on row 8 and races south to row 0.
#[derive(Clone, Copy, Hash, Debug, PartialEq, Eq, Structural)]
pub enum Player {
    White,
    Black,
}

/// True when a horizontal wall sits on the anchor (x, y).
pub open spec fn h_wall_at(placed: Set<int>, vertical: Set<int>, x: int, y: int) -> bool {
    &&& 0 <= x < 8
    &&& 0 <= y < 8
    &&& placed.contains(y * 9 + x)
    &&& !vertical.contains(y * 9 + x)
}

/// True when a vertical wall sits on the anchor (x, y).
pub open spec fn v_wall_at(placed: Set<int>, vertical: Set<int>, x: int, y: int) -> bool {
    &&& 0 <= x < 8
    &&& 0 <= y < 8
    &&& placed.contains(y * 9 + x)
    &&& vertical.contains(y * 9 + x)
}

/// True when a horizontal wall severs the north edge of the square (x, y):
/// a horizontal wall at anchor (x, y) or (x - 1, y) covers that edge.
pub open spec fn h_blocks_north(placed: Set<int>, vertical: Set<int>, x: int, y: int) -> bool {
    h_wall_at(placed, vertical, x, y) || h_wall_at(placed, vertical, x - 1, y)
}

/// True when a vertical wall severs the east edge of the square (x, y):
/// a vertical wall at anchor (x, y) or (x, y - 1) covers that edge.
pub open spec fn v_blocks_east(placed: Set<int>, vertical: Set<int>, x: int, y: int) -> bool {
    v_wall_at(placed, vertical, x, y) || v_wall_at(placed, vertical, x, y - 1)
}

/// True when stepping from `c` in direction `d` is impossible: the step
/// leaves the board, or a wall severs the edge it would use.
pub open spec fn spec_blocked(
    placed: Set<int>,
    vertical: Set<int>,
    c: Coordinate,
    d: Direction,
) -> bool {
    match d {
        Direction::North => c.y >= 8 || h_blocks_north(placed, vertical, c.x as int, c.y as int),
        Direction::East => c.x >= 8 || v_blocks_east(placed, vertical, c.x as int, c.y as int),
        Direction::South => c.y == 0 || h_blocks_north(
            placed,
            vertical,
            c.x as int,
            c.y - 1,
        ),
        Direction::West => c.x == 0 || v_blocks_east(placed, vertical, c.x - 1, c.y as int),
    }
}

/// The wall on anchor (x, y), if any.
pub open spec fn spec_wall_at(placed: Set<int>, vertical: Set<int>, x: int, y: int) -> Option<
    WallOrientation,
> {
    if 0 <= x < 8 && 0 <= y < 8 && placed.contains(y * 9 + x) {
        if vertical.contains(y * 9 + x) {
            Some(WallOrientation::Vertical)
        } else {
            Some(WallOrientation::Horizontal)
        }
    } else {
        None
    }
}

/// The wall on the anchor with linear index `s`, if any.
pub open spec fn spec_wall_entry(placed: Set<int>, vertical: Set<int>, s: int) -> Option<
    WallOrientation,
> {
    if placed.contains(s) {
        if vertical.contains(s) {
            Some(WallOrientation::Vertical)
        } else {
            Some(WallOrientation::Horizontal)
        }
    } else {
        None
    }
}

/// The other player.
pub open spec fn spec_opponent(player: Player) -> Player {
    match player {
        Player::White => Player::Black,
        Player::Black => Player::White,
    }
}

/// The search order over directions: North, East, South, West.
pub open spec fn spec_direction_index(i: int) -> Direction {
    if i == 0 {
        Direction::North
    } else if i == 1 {
        Direction::East
    } else if i == 2 {
        Direction::South
    } else {
        Direction::West
    }
}

/// True when some location in `v` sits on square `s`.
pub open spec fn contains_square(v: Seq<PawnLocation>, s: int) -> bool {
    exists|i: int| 0 <= i < v.len() && (#[trigger] v[i]).spec_square() == s
}

/// True when a wall of orientation `o` at anchor (x, y) would doubly sever
/// an edge already severed by an adjacent wall of the same orientation.
pub open spec fn spec_overlaps(
    placed: Set<int>,
    vertical: Set<int>,
    x: int,
    y: int,
    o: WallOrientation,
) -> bool {
    match o {
        WallOrientation::Horizontal => h_wall_at(placed, vertical, x - 1, y) || h_wall_at(
            placed,
            vertical,
            x + 1,
            y,
        ),
        WallOrientation::Vertical => v_wall_at(placed, vertical, x, y - 1) || v_wall_at(
            placed,
            vertical,
            x,
            y + 1,
        ),
    }
}

/// The destinations a jump over the opponent on square `mid` offers, for an
/// approach in direction `d`: the straight landing square when it is open,
/// otherwise whichever of the two diagonal squares are open.
pub open spec fn spec_jump_dests(
    placed: Set<int>,
    vertical: Set<int>,
    mid: int,
    d: Direction,
) -> Set<int> {
    match step_open(placed, vertical, mid, d) {
        Some(land) => Set::<int>::empty().insert(land),
        None => {
            let perp = spec_perpendicular(d);
            let first = match step_open(placed, vertical, mid, perp.0) {
                Some(side) => Set::<int>::empty().insert(side),
                None => Set::<int>::empty(),
            };
            let second = match step_open(placed, vertical, mid, perp.1) {
                Some(side) => Set::<int>::empty().insert(side),
                None => Set::<int>::empty(),
            };
            first.union(second)
        },
    }
}

/// The destinations one direction contributes for a pawn on `cur` facing an
/// opponent on `opp`: nothing when the step is blocked, the stepped square
/// when it is free, and the jump destinations when the opponent stands
/// there.
pub open spec fn spec_dir_dests(
    placed: Set<int>,
    vertical: Set<int>,
    cur: int,
    opp: int,
    d: Direction,
) -> Set<int> {
    match step_open(placed, vertical, cur, d) {
        None => Set::<int>::empty(),
        Some(mid) => if mid != opp {
            Set::<int>::empty().insert(mid)
        } else {
            spec_jump_dests(placed, vertical, mid, d)
        },
    }
}

/// The full legal pawn-move set: the union of what the four directions
/// contribute.
pub open spec fn spec_legal_destinations(
    placed: Set<int>,
    vertical: Set<int>,
    cur: int,
    opp: int,
) -> Set<int> {
    spec_dir_dests(placed, vertical, cur, opp, Direction::North).union(
        spec_dir_dests(placed, vertical, cur, opp, Direction::East),
    ).union(spec_dir_dests(placed, vertical, cur, opp, Direction::South)).union(
        spec_dir_dests(placed, vertical, cur, opp, Direction::West),
    )
}

/// The jump destinations in the order the generator yields them: the
/// straight landing alone when it is open, else the open perpendicular
/// landings, first perpendicular first.
pub open spec fn spec_jump_seq(
    placed: Set<int>,
    vertical: Set<int>,
    mid: int,
    d: Direction,
) -> Seq<int> {
    match step_open(placed, vertical, mid, d) {
        Some(land) => seq![land],
        None => {
            let perp = spec_perpendicular(d);
            let first = match step_open(placed, vertical, mid, perp.0) {
                Some(side) => seq![side],
                None => Seq::<int>::empty(),
            };
            let second = match step_open(placed, vertical, mid, perp.1) {
                Some(side) => seq![side],
                None => Seq::<int>::empty(),
            };
            first + second
        },
    }
}

/// The destinations one direction yields, in order: nothing when blocked,
/// the stepped square when free, the jump sequence when the opponent
/// stands there.
pub open spec fn spec_dir_seq(
    placed: Set<int>,
    vertical: Set<int>,
    cur: int,
    opp: int,
    d: Direction,
) -> Seq<int> {
    match step_open(placed, vertical, cur, d) {
        None => Seq::<int>::empty(),
        Some(mid) => if mid != opp {
            seq![mid]
        } else {
            spec_jump_seq(placed, vertical, mid, d)
        },
    }
}

/// What the first `k` search directions yield, concatenated in order.
pub open spec fn spec_moves_prefix(
    placed: Set<int>,
    vertical: Set<int>,
    cur: int,
    opp: int,
    k: int,
) -> Seq<int>
    decreases k,
{
    if k <= 0 {
        Seq::<int>::empty()
    } else {
        spec_moves_prefix(placed, vertical, cur, opp, k - 1) + spec_dir_seq(
            placed,
            vertical,
            cur,
            opp,
            spec_direction_index(k - 1),
        )
    }
}

/// The exact destination list the generator returns: the four directions'
/// yields, in North, East, South, West order.
pub open spec fn spec_moves_seq(
    placed: Set<int>,
    vertical: Set<int>,
    cur: int,
    opp: int,
) -> Seq<int> {
    spec_moves_prefix(placed, vertical, cur, opp, 4)
}

/// True when `v` is exactly the locations of the squares `s`, in order.
pub open spec fn matches_squares(v: Seq<PawnLocation>, s: Seq<int>) -> bool {
    &&& v.len() == s.len()
    &&& forall|i: int| 0 <= i < v.len() ==> (#[trigger] v[i]) == spec_pawn_location(s[i])
}

/// What one direction can yield: at most two squares, each a valid square
/// other than the pawn's own or the opponent's, pairwise distinct, and
/// lying at the direction's characteristic offsets — the single step when
/// the direction does not face the opponent, jump offsets when it does.
proof fn lemma_dir_seq_shape(
    placed: Set<int>,
    vertical: Set<int>,
    cur: int,
    opp: int,
    d: Direction,
)
    requires
        valid_square(cur),
    ensures
        ({
            let s = spec_dir_seq(placed, vertical, cur, opp, d);
            let facing = step_open(placed, vertical, cur, d) == Some(opp);
            let perp = spec_perpendicular(d);
            &&& s.len() <= 2
            &&& (!facing ==> s.len() <= 1)
            &&& (!facing ==> forall|i: int|
                0 <= i < s.len() ==> #[trigger] s[i] == cur + dir_delta(d))
            &&& (facing ==> forall|i: int|
                0 <= i < s.len() ==> #[trigger] s[i] == cur + 2 * dir_delta(d) || s[i] == cur
                    + dir_delta(d) + dir_delta(perp.0) || s[i] == cur + dir_delta(d) + dir_delta(
                    perp.1,
                ))
            &&& forall|i: int, j: int| 0 <= i < j < s.len() ==> s[i] != s[j]
            &&& forall|i: int|
                0 <= i < s.len() ==> valid_square(#[trigger] s[i]) && s[i] != cur && s[i] != opp
        }),
{
    crate::path::lemma_step_open_delta(placed, vertical, cur, d);
    match step_open(placed, vertical, cur, d) {
        None => {},
        Some(mid) => {
            if mid == opp {
                let perp = spec_perpendicular(d);
                crate::path::lemma_step_open_delta(placed, vertical, mid, d);
                crate::path::lemma_step_open_delta(placed, vertical, mid, perp.0);
                crate::path::lemma_step_open_delta(placed, vertical, mid, perp.1);
            }
        },
    }
}

/// Appending sequences with no square in common and no inner repeats gives
/// a sequence with no repeats.
proof fn lemma_concat_distinct(a: Seq<int>, b: Seq<int>)
    requires
        forall|i: int, j: int| 0 <= i < j < a.len() ==> a[i] != a[j],
        forall|i: int, j: int| 0 <= i < j < b.len() ==> b[i] != b[j],
        forall|i: int, j: int| 0 <= i < a.len() && 0 <= j < b.len() ==> a[i] != b[j],
    ensures
        forall|i: int, j: int| 0 <= i < j < (a + b).len() ==> (a + b)[i] != (a + b)[j],
{
    assert forall|i: int, j: int| 0 <= i < j < (a + b).len() implies (a + b)[i] != (a + b)[j] by {
        if j < a.len() {
            assert((a + b)[i] == a[i] && (a + b)[j] == a[j]);
        } else if i < a.len() {
            assert((a + b)[i] == a[i] && (a + b)[j] == b[j - a.len()]);
        } else {
            assert((a + b)[i] == b[i - a.len()] && (a + b)[j] == b[j - a.len()]);
        }
    }
}

/// The full destination list holds at most five squares, all valid, all
/// pairwise distinct, and none of them the pawn's own square or the
/// opponent's: at most one direction faces the opponent, that direction
/// yields at most two squares at jump offsets, every other direction at
/// most its single step.
pub proof fn lemma_moves_seq_good(placed: Set<int>, vertical: Set<int>, cur: int, opp: int)
    requires
        valid_square(cur),
    ensures
        ({
            let s = spec_moves_seq(placed, vertical, cur, opp);
            &&& s.len() <= 5
            &&& forall|i: int|
                0 <= i < s.len() ==> valid_square(#[trigger] s[i]) && s[i] != cur && s[i] != opp
            &&& forall|i: int, j: int| 0 <= i < j < s.len() ==> s[i] != s[j]
        }),
{
    let sn = spec_dir_seq(placed, vertical, cur, opp, Direction::North);
    let se = spec_dir_seq(placed, vertical, cur, opp, Direction::East);
    let ss = spec_dir_seq(placed, vertical, cur, opp, Direction::South);
    let sw = spec_dir_seq(placed, vertical, cur, opp, Direction::West);
    assert(spec_moves_prefix(placed, vertical, cur, opp, 0) =~= Seq::<int>::empty());
    assert(spec_moves_prefix(placed, vertical, cur, opp, 1) =~= Seq::<int>::empty() + sn);
    assert(spec_moves_prefix(placed, vertical, cur, opp, 2) =~= (Seq::<int>::empty() + sn) + se);
    assert(spec_moves_prefix(placed, vertical, cur, opp, 3) =~= ((Seq::<int>::empty() + sn) + se)
        + ss);
    assert(spec_moves_prefix(placed, vertical, cur, opp, 4) =~= (((Seq::<int>::empty() + sn) + se)
        + ss) + sw);
    assert(spec_moves_seq(placed, vertical, cur, opp) =~= ((sn + se) + ss) + sw);
    lemma_dir_seq_shape(placed, vertical, cur, opp, Direction::North);
    lemma_dir_seq_shape(placed, vertical, cur, opp, Direction::East);
    lemma_dir_seq_shape(placed, vertical, cur, opp, Direction::South);
    lemma_dir_seq_shape(placed, vertical, cur, opp, Direction::West);
    crate::path::lemma_step_open_delta(placed, vertical, cur, Direction::North);
    crate::path::lemma_step_open_delta(placed, vertical, cur, Direction::East);
    crate::path::lemma_step_open_delta(placed, vertical, cur, Direction::South);
    crate::path::lemma_step_open_delta(placed, vertical, cur, Direction::West);
    assert forall|i: int, j: int|
        0 <= i < sn.len() && 0 <= j < se.len() implies sn[i] != se[j] by {}
    assert forall|i: int, j: int|
        0 <= i < sn.len() && 0 <= j < ss.len() implies sn[i] != ss[j] by {}
    assert forall|i: int, j: int|
        0 <= i < sn.len() && 0 <= j < sw.len() implies sn[i] != sw[j] by {}
    assert forall|i: int, j: int|
        0 <= i < se.len() && 0 <= j < ss.len() implies se[i] != ss[j] by {}
    assert forall|i: int, j: int|
        0 <= i < se.len() && 0 <= j < sw.len() implies se[i] != sw[j] by {}
    assert forall|i: int, j: int|
        0 <= i < ss.len() && 0 <= j < sw.len() implies ss[i] != sw[j] by {}
    lemma_concat_distinct(sn, se);
    lemma_concat_distinct(sn + se, ss);
    lemma_concat_distinct((sn + se) + ss, sw);
}

/// The abstract state of a board: everything the contracts speak of.
#[verifier::ext_equal]
pub struct BoardModel {
    pub active: Player,
    pub white: int,
    pub black: int,
    pub white_walls: int,
    pub black_walls: int,
    pub placed: Set<int>,
    pub vertical: Set<int>,
}

impl BoardModel {
    /// The pawn square of the given player.
    pub open spec fn pawn(self, player: Player) -> int {
        match player {
            Player::White => self.white,
            Player::Black => self.black,
        }
    }

    /// The wall count of the given player.
    pub open spec fn walls_left(self, player: Player) -> int {
        match player {
            Player::White => self.white_walls,
            Player::Black => self.black_walls,
        }
    }
}

/// The model of the canonical start position.
pub open spec fn spec_start_model() -> BoardModel {
    BoardModel {
        active: Player::White,
        white: 4,
        black: 76,
        white_walls: 10,
        black_walls: 10,
        placed: Set::<int>::empty(),
        vertical: Set::<int>::empty(),
    }
}

/// What one wall placement does to a model, or the exact error it is
/// rejected with: no walls left, the anchor occupied, a same-orientation
/// overlap, or a sealed-off goal row, checked in that order.
pub open spec fn spec_insert_wall(m: BoardModel, location: WallLocation) -> Result<
    BoardModel,
    ActionError,
> {
    let s = location.spec_square();
    let placed1 = m.placed.insert(s);
    let vertical1 = if location.spec_orientation() == WallOrientation::Vertical {
        m.vertical.insert(s)
    } else {
        m.vertical
    };
    if m.walls_left(m.active) <= 0 {
        Err(ActionError::NoWallsRemaining)
    } else if m.placed.contains(s) {
        Err(ActionError::AnchorOccupied)
    } else if spec_overlaps(m.placed, m.vertical, s % 9, s / 9, location.spec_orientation()) {
        Err(ActionError::Overlaps)
    } else if !(spec_has_path(placed1, vertical1, m.white, Player::White) && spec_has_path(
        placed1,
        vertical1,
        m.black,
        Player::Black,
    )) {
        Err(ActionError::WallBlocksPath)
    } else {
        Ok(
            BoardModel {
                active: spec_opponent(m.active),
                white: m.white,
                black: m.black,
                white_walls: if m.active == Player::White {
                    m.white_walls - 1
                } else {
                    m.white_walls
                },
                black_walls: if m.active == Player::Black {
                    m.black_walls - 1
                } else {
                    m.black_walls
                },
                placed: placed1,
                vertical: vertical1,
            },
        )
    }
}

/// What one pawn move does to a model: only a destination in the legal set
/// is accepted; reaching the goal row finishes the game without passing the
/// turn, anything else passes the turn.
pub open spec fn spec_move_pawn(m: BoardModel, dest: int) -> Result<
    (BoardModel, GameStatus),
    ActionError,
> {
    let cur = m.pawn(m.active);
    let opp = m.pawn(spec_opponent(m.active));
    if !spec_legal_destinations(m.placed, m.vertical, cur, opp).contains(dest) {
        Err(ActionError::IllegalDestination)
    } else {
        let moved = BoardModel {
            active: m.active,
            white: if m.active == Player::White {
                dest
            } else {
                m.white
            },
            black: if m.active == Player::Black {
                dest
            } else {
                m.black
            },
            white_walls: m.white_walls,
            black_walls: m.black_walls,
            placed: m.placed,
            vertical: m.vertical,
        };
        if dest / 9 == goal_row(m.active) {
            Ok(
                (
                    moved,
                    GameStatus::Finished {
                        won_by: m.active,
                        reason: VictoryReason::ReachedOppositeSide,
                    },
                ),
            )
        } else {
            Ok(
                (
                    BoardModel { active: spec_opponent(m.active), ..moved },
                    GameStatus::InProgress,
                ),
            )
        }
    }
}

/// What one action does to a model: the dispatch over the two request
/// kinds. A wall placement never finishes the game.
pub open spec fn spec_apply_action(m: BoardModel, action: Action) -> Result<
    (BoardModel, GameStatus),
    ActionError,
> {
    match action {
        Action::Pawn(location) => spec_move_pawn(m, location.spec_square()),
        Action::Wall(location) => match spec_insert_wall(m, location) {
            Ok(m2) => Ok((m2, GameStatus::InProgress)),
            Err(e) => Err(e),
        },
    }
}

/// Folding a sequence of wall placements over a model, stopping at the
/// first rejected wall.
pub open spec fn spec_place_walls(m: BoardModel, walls: Seq<WallLocation>) -> Result<
    BoardModel,
    ActionError,
>
    decreases walls.len(),
{
    if walls.len() == 0 {
        Ok(m)
    } else {
        match spec_insert_wall(m, walls.first()) {
            Ok(m2) => spec_place_walls(m2, walls.drop_first()),
            Err(e) => Err(e),
        }
    }
}

/// A wall placement is owed success exactly when the active player has a
/// wall left, the anchor is free, no adjacent wall of the same orientation
/// already severs one of its edges, and both players keep a path to their
/// goal row. In particular a wall crossing one of the other orientation at
/// a different anchor is no overlap: `spec_overlaps` only looks at
/// same-orientation neighbours.
pub proof fn lemma_wall_accepted_when_clear(m: BoardModel, location: WallLocation)
    requires
        m.walls_left(m.active) > 0,
        !m.placed.contains(location.spec_square()),
        !spec_overlaps(
            m.placed,
            m.vertical,
            location.spec_square() % 9,
            location.spec_square() / 9,
            location.spec_orientation(),
        ),
        spec_has_path(
            m.placed.insert(location.spec_square()),
            if location.spec_orientation() == WallOrientation::Vertical {
                m.vertical.insert(location.spec_square())
            } else {
                m.vertical
            },
            m.white,
            Player::White,
        ),
        spec_has_path(
            m.placed.insert(location.spec_square()),
            if location.spec_orientation() == WallOrientation::Vertical {
                m.vertical.insert(location.spec_square())
            } else {
                m.vertical
            },
            m.black,
            Player::Black,
        ),
    ensures
        spec_insert_wall(m, location) matches Ok(m2) && m2.placed == m.placed.insert(
            location.spec_square(),
        ) && m2.active == spec_opponent(m.active) && m2.walls_left(m.active) == m.walls_left(
            m.active,
        ) - 1,
{
}

/// What a pawn move did: the exec call and the model transition agree, and
/// a rejected move leaves the board as it was.
pub open spec fn pawn_move_spec(
    pre: Boardstate,
    post: Boardstate,
    location: PawnLocation,
    r: Result<GameStatus, ActionError>,
) -> bool {
    match (r, spec_move_pawn(pre.model(), location.spec_square())) {
        (Ok(status), Ok(pair)) => status == pair.1 && post.model() == pair.0,
        (Err(e), Err(e2)) => e == e2 && post.model() == pre.model(),
        _ => false,
    }
}

/// What a wall placement did: the exec call and the model transition agree,
/// and a rejected wall leaves the board as it was.
pub open spec fn wall_move_spec(
    pre: Boardstate,
    post: Boardstate,
    location: WallLocation,
    r: Result<GameStatus, ActionError>,
) -> bool {
    match (r, spec_insert_wall(pre.model(), location)) {
        (Ok(status), Ok(m)) => status == GameStatus::InProgress && post.model() == m,
        (Err(e), Err(e2)) => e == e2 && post.model() == pre.model(),
        _ => false,
    }
}

/// Keeps track of all the pawns and walls placed on the board, sequences the
/// turns, and holds the rule checks: legal pawn moves with their jump cases,
/// wall occupancy and overlap, and the path rule that no wall may seal off a
/// goal row.
#[derive(Hash, Debug)]
pub struct Boardstate {
    active_player: Player,
    white_position: PawnLocation,
    black_position: PawnLocation,
    white_available_walls: u8,
    black_available_walls: u8,
    wall_placed: BitGrid,
    wall_orientation: BitGrid,
}

impl Boardstate {
    /// The player whose turn it is.
    pub closed spec fn spec_active(&self) -> Player {
        self.active_player
    }

    /// White's pawn square.
    pub open spec fn spec_white(&self) -> int {
        self.spec_white_location().spec_square()
    }

    /// Black's pawn square.
    pub open spec fn spec_black(&self) -> int {
        self.spec_black_location().spec_square()
    }

    /// White's pawn location value.
    pub closed spec fn spec_white_location(&self) -> PawnLocation {
        self.white_position
    }

    /// Black's pawn location value.
    pub closed spec fn spec_black_location(&self) -> PawnLocation {
        self.black_position
    }

    /// How many walls White may still place.
    pub closed spec fn spec_white_walls(&self) -> int {
        self.white_available_walls as int
    }

    /// How many walls Black may still place.
    pub closed spec fn spec_black_walls(&self) -> int {
        self.black_available_walls as int
    }

    /// The set of anchors that hold a wall.
    pub closed spec fn spec_placed(&self) -> Set<int> {
        grid_bits(&self.wall_placed)
    }

    /// The set of anchors that hold a vertical wall.
    pub closed spec fn spec_vertical(&self) -> Set<int> {
        grid_bits(&self.wall_orientation)
    }

    /// The pawn square of the given player.
    pub open spec fn spec_pawn(&self, player: Player) -> int {
        match player {
            Player::White => self.spec_white(),
            Player::Black => self.spec_black(),
        }
    }

    /// The wall count of the given player.
    pub open spec fn spec_walls_left(&self, player: Player) -> int {
        match player {
            Player::White => self.spec_white_walls(),
            Player::Black => self.spec_black_walls(),
        }
    }

    /// Well-formedness: both pawns sit on the board, every placed wall sits
    /// on a valid anchor, and the vertical layer only marks placed anchors.
    pub open spec fn wf(&self) -> bool {
        &&& valid_square(self.spec_white())
        &&& valid_square(self.spec_black())
        &&& forall|s: int| self.spec_placed().contains(s) ==> valid_wall_square(s)
        &&& self.spec_vertical().subset_of(self.spec_placed())
    }

    /// The abstract state this board holds.
    pub open spec fn model(&self) -> BoardModel {
        BoardModel {
            active: self.spec_active(),
            white: self.spec_white(),
            black: self.spec_black(),
            white_walls: self.spec_white_walls(),
            black_walls: self.spec_black_walls(),
            placed: self.spec_placed(),
            vertical: self.spec_vertical(),
        }
    }

    /// The legal pawn-move set of the active player.
    pub open spec fn spec_legal_dests(&self) -> Set<int> {
        spec_legal_destinations(
            self.spec_placed(),
            self.spec_vertical(),
            self.spec_pawn(self.spec_active()),
            self.spec_pawn(spec_opponent(self.spec_active())),
        )
    }

    /// The canonical start position: pawns on the centre of their back
    /// ranks, ten walls each, no walls placed, White to move. Both players
    /// start with a path to their goal row.
    pub fn new() -> (r: Boardstate)
        ensures
            r.wf(),
            r.spec_active() == Player::White,
            r.spec_white() == 4,
            r.spec_black() == 76,
            r.spec_white_walls() == 10,
            r.spec_black_walls() == 10,
            r.spec_placed() == Set::<int>::empty(),
            r.spec_vertical() == Set::<int>::empty(),
            spec_has_path(r.spec_placed(), r.spec_vertical(), r.spec_white(), Player::White),
            spec_has_path(r.spec_placed(), r.spec_vertical(), r.spec_black(), Player::Black),
    {
        let board = Boardstate::default();
        proof {
            crate::path::lemma_empty_board_has_path(4, Player::White);
            crate::path::lemma_empty_board_has_path(76, Player::Black);
        }
        board
    }

    pub fn get_active_player(&self) -> (r: &Player)
        ensures
            *r == self.spec_active(),
    {
        &self.active_player
    }

    pub fn get_position_white_pawn(&self) -> (r: &PawnLocation)
        ensures
            *r == self.spec_white_location(),
            r.spec_square() == self.spec_white(),
    {
        &self.white_position
    }

    pub fn get_position_black_pawn(&self) -> (r: &PawnLocation)
        ensures
            *r == self.spec_black_location(),
            r.spec_square() == self.spec_black(),
    {
        &self.black_position
    }

    pub fn get_available_walls_white_player(&self) -> (r: &u8)
        ensures
            *r as int == self.spec_white_walls(),
    {
        &self.white_available_walls
    }

    pub fn get_available_walls_black_player(&self) -> (r: &u8)
        ensures
            *r as int == self.spec_black_walls(),
    {
        &self.black_available_walls
    }

    /// All 71 anchor slots in linear order: the wall each one holds, if any.
    pub fn get_wall_positions(&self) -> (r: Vec<Option<WallOrientation>>)
        ensures
            r@.len() == 71,
            forall|s: int|
                0 <= s < 71 ==> r@[s] == spec_wall_entry(
                    self.spec_placed(),
                    self.spec_vertical(),
                    s,
                ),
    {
        let mut wall_array: Vec<Option<WallOrientation>> = Vec::new();
        let mut index: usize = 0;
        while index < 71
            invariant
                index <= 71,
                wall_array@.len() == index,
                forall|s: int|
                    0 <= s < index ==> wall_array@[s] == spec_wall_entry(
                        self.spec_placed(),
                        self.spec_vertical(),
                        s,
                    ),
            decreases 71 - index,
        {
            if self.wall_placed.get(index) {
                if self.wall_orientation.get(index) {
                    wall_array.push(Some(WallOrientation::Vertical));
                } else {
                    wall_array.push(Some(WallOrientation::Horizontal));
                }
            } else {
                wall_array.push(None);
            }
            index = index + 1;
        }
        wall_array
    }

    /// The pawn location of the given player.
    pub fn get_pawn_position(&self, player: &Player) -> (r: &PawnLocation)
        ensures
            r.spec_square() == self.spec_pawn(*player),
    {
        match player {
            Player::White => &self.white_position,
            Player::Black => &self.black_position,
        }
    }

    /// The wall count of the given player.
    pub fn get_available_walls(&self, player: &Player) -> (r: &u8)
        ensures
            *r as int == self.spec_walls_left(*player),
    {
        match player {
            Player::White => &self.white_available_walls,
            Player::Black => &self.black_available_walls,
        }
    }

    /// True when the anchor with linear index `square` holds a wall of
    /// either orientation.
    pub fn wall_anchor_held(&self, square: u8) -> (r: bool)
        requires
            square < 71,
        ensures
            r == self.spec_placed().contains(square as int),
    {
        self.wall_placed.get(square as usize)
    }

    /// The wall on the anchor at `coordinate`, if any.
    pub fn wall_at_coordinate(&self, coordinate: &Coordinate) -> (r: Option<WallOrientation>)
        requires
            coordinate.wf(),
        ensures
            r == spec_wall_at(
                self.spec_placed(),
                self.spec_vertical(),
                coordinate.x as int,
                coordinate.y as int,
            ),
    {
        if coordinate.x < 8 && coordinate.y < 8 {
            let square = coordinate.to_square() as usize;
            if self.wall_placed.get(square) {
                if self.wall_orientation.get(square) {
                    return Some(WallOrientation::Vertical);
                } else {
                    return Some(WallOrientation::Horizontal);
                }
            }
        }
        None
    }

    /// True when a horizontal wall severs the north edge of the square at
    /// `coordinate`.
    pub fn horizontal_wall_at_coordinate(&self, coordinate: &Coordinate) -> (r: bool)
        requires
            coordinate.wf(),
        ensures
            r == h_blocks_north(
                self.spec_placed(),
                self.spec_vertical(),
                coordinate.x as int,
                coordinate.y as int,
            ),
    {
        let mut wall_option_1 = false;
        if coordinate.x < 8 && coordinate.y < 8 {
            let square = coordinate.to_square() as usize;
            wall_option_1 = self.wall_placed.get(square) && !self.wall_orientation.get(square);
        }

        let mut wall_option_2 = false;
        if coordinate.x >= 1 && coordinate.x - 1 < 8 && coordinate.y < 8 {
            let second = Coordinate::new(coordinate.x - 1, coordinate.y);
            let square = second.to_square() as usize;
            wall_option_2 = self.wall_placed.get(square) && !self.wall_orientation.get(square);
        }

        wall_option_1 || wall_option_2
    }

    /// True when a vertical wall severs the east edge of the square at
    /// `coordinate`.
    pub fn vertical_wall_at_coordinate(&self, coordinate: &Coordinate) -> (r: bool)
        requires
            coordinate.wf(),
        ensures
            r == v_blocks_east(
                self.spec_placed(),
                self.spec_vertical(),
                coordinate.x as int,
                coordinate.y as int,
            ),
    {
        let mut wall_option_1 = false;
        if coordinate.x < 8 && coordinate.y < 8 {
            let square = coordinate.to_square() as usize;
            wall_option_1 = self.wall_placed.get(square) && self.wall_orientation.get(square);
        }

        let mut wall_option_2 = false;
        if coordinate.y >= 1 && coordinate.x < 8 && coordinate.y - 1 < 8 {
            let second = Coordinate::new(coordinate.x, coordinate.y - 1);
            let square = second.to_square() as usize;
            wall_option_2 = self.wall_placed.get(square) && self.wall_orientation.get(square);
        }

        wall_option_1 || wall_option_2
    }

    /// True when stepping from `location` in `direction` is impossible,
    /// because of a wall or the board edge.
    pub fn is_blocked_in_direction(&self, location: &PawnLocation, direction: &Direction) -> (r:
        bool)
        requires
            location.wf(),
        ensures
            r == spec_blocked(
                self.spec_placed(),
                self.spec_vertical(),
                coord_of_square(location.spec_square()),
                *direction,
            ),
    {
        let coordinate = location.get_coordinate();
        match direction {
            Direction::North => {
                if coordinate.y < 8 {
                    return self.horizontal_wall_at_coordinate(&coordinate);
                }
                true
            },
            Direction::East => {
                if coordinate.x < 8 {
                    return self.vertical_wall_at_coordinate(&coordinate);
                }
                true
            },
            Direction::South => {
                if coordinate.y >= 1 {
                    let below = Coordinate::new(coordinate.x, coordinate.y - 1);
                    return self.horizontal_wall_at_coordinate(&below);
                }
                true
            },
            Direction::West => {
                if coordinate.x >= 1 {
                    let left = Coordinate::new(coordinate.x - 1, coordinate.y);
                    return self.vertical_wall_at_coordinate(&left);
                }
                true
            },
        }
    }
}

/// A sequence that grew at the end still contains every square it did.
pub proof fn lemma_contains_square_prefix(v1: Seq<PawnLocation>, v2: Seq<PawnLocation>, s: int)
    requires
        v1.is_prefix_of(v2),
        contains_square(v1, s),
    ensures
        contains_square(v2, s),
{
    let i = choose|i: int| 0 <= i < v1.len() && (#[trigger] v1[i]).spec_square() == s;
    assert(v2[i].spec_square() == s);
}

/// A destination one direction offers is reachable from the pawn's square
/// in one or two open steps, so moving there keeps the mover's path to
/// their goal row.
proof fn lemma_dir_dest_keeps_path(
    placed: Set<int>,
    vertical: Set<int>,
    cur: int,
    opp: int,
    d: Direction,
    dest: int,
    player: Player,
)
    requires
        spec_dir_dests(placed, vertical, cur, opp, d).contains(dest),
        spec_has_path(placed, vertical, cur, player),
    ensures
        spec_has_path(placed, vertical, dest, player),
{
    let mid = step_open(placed, vertical, cur, d).unwrap();
    assert(crate::path::open_edge(placed, vertical, cur, mid));
    if mid != opp {
        lemma_move_keeps_path(placed, vertical, cur, dest, player);
    } else {
        lemma_move_keeps_path(placed, vertical, cur, mid, player);
        match step_open(placed, vertical, mid, d) {
            Some(land) => {
                assert(crate::path::open_edge(placed, vertical, mid, land));
                lemma_move_keeps_path(placed, vertical, mid, dest, player);
            },
            None => {
                let perp = spec_perpendicular(d);
                if step_open(placed, vertical, mid, perp.0) == Some(dest) {
                    assert(crate::path::open_edge(placed, vertical, mid, dest));
                } else {
                    assert(step_open(placed, vertical, mid, perp.1) == Some(dest));
                    assert(crate::path::open_edge(placed, vertical, mid, dest));
                }
                lemma_move_keeps_path(placed, vertical, mid, dest, player);
            },
        }
    }
}

/// Moving to any legal destination keeps the mover's path to their goal
/// row: every legal destination is one step away, or a jump of two open
/// steps through the opponent's square.
pub proof fn lemma_legal_dest_keeps_path(
    placed: Set<int>,
    vertical: Set<int>,
    cur: int,
    opp: int,
    dest: int,
    player: Player,
)
    requires
        spec_legal_destinations(placed, vertical, cur, opp).contains(dest),
        spec_has_path(placed, vertical, cur, player),
    ensures
        spec_has_path(placed, vertical, dest, player),
{
    if spec_dir_dests(placed, vertical, cur, opp, Direction::North).contains(dest) {
        lemma_dir_dest_keeps_path(placed, vertical, cur, opp, Direction::North, dest, player);
    } else if spec_dir_dests(placed, vertical, cur, opp, Direction::East).contains(dest) {
        lemma_dir_dest_keeps_path(placed, vertical, cur, opp, Direction::East, dest, player);
    } else if spec_dir_dests(placed, vertical, cur, opp, Direction::South).contains(dest) {
        lemma_dir_dest_keeps_path(placed, vertical, cur, opp, Direction::South, dest, player);
    } else {
        lemma_dir_dest_keeps_path(placed, vertical, cur, opp, Direction::West, dest, player);
    }
}

impl Boardstate {
    /// The direction with the given search index.
    fn direction_from_index(index: usize) -> (r: Direction)
        requires
            index < 4,
        ensures
            r == spec_direction_index(index as int),
    {
        if index == 0 {
            Direction::North
        } else if index == 1 {
            Direction::East
        } else if index == 2 {
            Direction::South
        } else {
            Direction::West
        }
    }

    /// The active player's pawn location.
    fn get_active_location(&self) -> (r: PawnLocation)
        requires
            self.wf(),
        ensures
            r.wf(),
            r.spec_square() == self.spec_pawn(self.spec_active()),
    {
        match self.active_player {
            Player::White => self.white_position,
            Player::Black => self.black_position,
        }
    }

    /// True when `location` is not the square the opponent's pawn occupies.
    pub fn not_occupied_by_other_player(&self, location: &PawnLocation) -> (r: bool)
        ensures
            r == (location.spec_square() != self.spec_pawn(
                spec_opponent(self.spec_active()),
            )),
    {
        match self.active_player {
            Player::White => location.get_square() != self.black_position.get_square(),
            Player::Black => location.get_square() != self.white_position.get_square(),
        }
    }

    /// True when the active player's pawn stands on their goal row.
    fn is_won(&self) -> (r: bool)
        requires
            self.wf(),
        ensures
            r == (self.spec_pawn(self.spec_active()) / 9 == goal_row(self.spec_active())),
    {
        match self.active_player {
            Player::White => self.white_position.get_coordinate().y == 8,
            Player::Black => self.black_position.get_coordinate().y == 0,
        }
    }

    /// Passes the turn to the other player; nothing else changes.
    fn swap_active_player(&mut self)
        ensures
            final(self).spec_active() == spec_opponent(old(self).spec_active()),
            final(self).spec_white_location() == old(self).spec_white_location(),
            final(self).spec_black_location() == old(self).spec_black_location(),
            final(self).spec_white_walls() == old(self).spec_white_walls(),
            final(self).spec_black_walls() == old(self).spec_black_walls(),
            final(self).spec_placed() == old(self).spec_placed(),
            final(self).spec_vertical() == old(self).spec_vertical(),
    {
        self.active_player = match self.active_player {
            Player::White => Player::Black,
            Player::Black => Player::White,
        }
    }

    /// True when the active player still has a wall to place.
    pub fn player_has_walls_available(&self) -> (r: bool)
        ensures
            r == (self.spec_walls_left(self.spec_active()) > 0),
    {
        match self.active_player {
            Player::White => self.white_available_walls > 0,
            Player::Black => self.black_available_walls > 0,
        }
    }

    /// Takes one wall from the active player; nothing else changes.
    fn decrease_available_walls(&mut self)
        requires
            old(self).spec_walls_left(old(self).spec_active()) > 0,
        ensures
            final(self).spec_walls_left(old(self).spec_active()) == old(self).spec_walls_left(
                old(self).spec_active(),
            ) - 1,
            final(self).spec_walls_left(spec_opponent(old(self).spec_active())) == old(
                self,
            ).spec_walls_left(spec_opponent(old(self).spec_active())),
            final(self).spec_active() == old(self).spec_active(),
            final(self).spec_white_location() == old(self).spec_white_location(),
            final(self).spec_black_location() == old(self).spec_black_location(),
            final(self).spec_placed() == old(self).spec_placed(),
            final(self).spec_vertical() == old(self).spec_vertical(),
    {
        match self.active_player {
            Player::White => self.white_available_walls = self.white_available_walls - 1,
            Player::Black => self.black_available_walls = self.black_available_walls - 1,
        }
    }

    /// True when a horizontal wall sits exactly on the anchor (x, y); out of
    /// range coordinates hold no wall.
    fn h_wall_anchor(&self, x: i16, y: i16) -> (r: bool)
        ensures
            r == h_wall_at(self.spec_placed(), self.spec_vertical(), x as int, y as int),
    {
        if 0 <= x && x < 8 && 0 <= y && y < 8 {
            let square = (y * 9 + x) as usize;
            self.wall_placed.get(square) && !self.wall_orientation.get(square)
        } else {
            false
        }
    }

    /// True when a vertical wall sits exactly on the anchor (x, y); out of
    /// range coordinates hold no wall.
    fn v_wall_anchor(&self, x: i16, y: i16) -> (r: bool)
        ensures
            r == v_wall_at(self.spec_placed(), self.spec_vertical(), x as int, y as int),
    {
        if 0 <= x && x < 8 && 0 <= y && y < 8 {
            let square = (y * 9 + x) as usize;
            self.wall_placed.get(square) && self.wall_orientation.get(square)
        } else {
            false
        }
    }

    /// The destinations a jump over the opponent on `occupied_location`
    /// offers: the straight landing square beyond it when that square is
    /// open, otherwise the open diagonal squares beside it.
    pub fn get_possible_jump_moves(
        &self,
        direction: &Direction,
        occupied_location: &PawnLocation,
    ) -> (r: Vec<PawnLocation>)
        requires
            self.wf(),
            occupied_location.wf(),
        ensures
            forall|j: int|
                0 <= j < r@.len() ==> (#[trigger] r@[j]).wf() && spec_jump_dests(
                    self.spec_placed(),
                    self.spec_vertical(),
                    occupied_location.spec_square(),
                    *direction,
                ).contains(r@[j].spec_square()),
            forall|s: int|
                #[trigger] spec_jump_dests(
                    self.spec_placed(),
                    self.spec_vertical(),
                    occupied_location.spec_square(),
                    *direction,
                ).contains(s) ==> contains_square(r@, s),
            matches_squares(
                r@,
                spec_jump_seq(
                    self.spec_placed(),
                    self.spec_vertical(),
                    occupied_location.spec_square(),
                    *direction,
                ),
            ),
            forall|i: int, j: int|
                0 <= i < j < r@.len() ==> r@[i].spec_square() != r@[j].spec_square(),
    {
        let ghost placed = self.spec_placed();
        let ghost vertical = self.spec_vertical();
        let ghost mid = occupied_location.spec_square();
        let ghost jump_set = spec_jump_dests(placed, vertical, mid, *direction);
        let ghost jump_seq = spec_jump_seq(placed, vertical, mid, *direction);
        let mut possible_jump_moves: Vec<PawnLocation> = Vec::new();

        if !self.is_blocked_in_direction(occupied_location, direction) {
            match occupied_location.from_direction(*direction) {
                Ok(landing) => {
                    possible_jump_moves.push(landing);
                    proof {
                        assert(possible_jump_moves@[0] == landing);
                        assert(landing.spec_square() == step_open(
                            placed,
                            vertical,
                            mid,
                            *direction,
                        ).unwrap());
                        assert forall|s: int| #[trigger] jump_set.contains(
                            s,
                        ) implies contains_square(possible_jump_moves@, s) by {
                            assert(possible_jump_moves@[0].spec_square() == s);
                        }
                        lemma_spec_pawn_location(landing, 0);
                        assert(jump_seq =~= seq![landing.spec_square()]);
                        assert(matches_squares(possible_jump_moves@, jump_seq));
                    }
                },
                Err(_) => { unreached() },
            }
        } else {
            let (first_perp, second_perp) = direction.get_perpendicular_directions();
            if !self.is_blocked_in_direction(occupied_location, &first_perp) {
                match occupied_location.from_direction(first_perp) {
                    Ok(side) => {
                        possible_jump_moves.push(side);
                        proof {
                            assert(possible_jump_moves@[0] == side);
                            assert(side.spec_square() == step_open(
                                placed,
                                vertical,
                                mid,
                                first_perp,
                            ).unwrap());
                        }
                    },
                    Err(_) => { unreached() },
                }
            }
            if !self.is_blocked_in_direction(occupied_location, &second_perp) {
                match occupied_location.from_direction(second_perp) {
                    Ok(side) => {
                        let ghost before = possible_jump_moves@;
                        possible_jump_moves.push(side);
                        proof {
                            assert(possible_jump_moves@[before.len() as int] == side);
                            assert(side.spec_square() == step_open(
                                placed,
                                vertical,
                                mid,
                                second_perp,
                            ).unwrap());
                            assert forall|i: int| 0 <= i < before.len() implies possible_jump_moves@[i]
                                == before[i] by {}
                        }
                    },
                    Err(_) => { unreached() },
                }
            }
            proof {
                assert((first_perp, second_perp) == spec_perpendicular(*direction));
                assert forall|s: int| #[trigger] jump_set.contains(s) implies contains_square(
                    possible_jump_moves@,
                    s,
                ) by {
                    if step_open(placed, vertical, mid, first_perp) == Some(s) {
                        assert(possible_jump_moves@[0].spec_square() == s);
                    } else {
                        assert(step_open(placed, vertical, mid, second_perp) == Some(s));
                        assert(possible_jump_moves@.last().spec_square() == s);
                    }
                }
                crate::path::lemma_step_open_delta(placed, vertical, mid, first_perp);
                crate::path::lemma_step_open_delta(placed, vertical, mid, second_perp);
                assert forall|i: int| 0 <= i < possible_jump_moves@.len() implies (
                #[trigger] possible_jump_moves@[i]) == spec_pawn_location(
                    possible_jump_moves@[i].spec_square(),
                ) by {
                    lemma_spec_pawn_location(possible_jump_moves@[i], 0);
                }
                match (
                    step_open(placed, vertical, mid, first_perp),
                    step_open(placed, vertical, mid, second_perp),
                ) {
                    (Some(s1), Some(s2)) => {
                        assert(jump_seq =~= seq![s1, s2]);
                        assert(possible_jump_moves@[0].spec_square() == s1);
                        assert(possible_jump_moves@[1].spec_square() == s2);
                        assert(s1 != s2);
                    },
                    (Some(s1), None) => {
                        assert(jump_seq =~= seq![s1]);
                        assert(possible_jump_moves@[0].spec_square() == s1);
                    },
                    (None, Some(s2)) => {
                        assert(jump_seq =~= seq![s2]);
                        assert(possible_jump_moves@[0].spec_square() == s2);
                    },
                    (None, None) => {
                        assert(jump_seq =~= Seq::<int>::empty());
                    },
                }
                assert(matches_squares(possible_jump_moves@, jump_seq));
            }
        }
        possible_jump_moves
    }

    /// Adds what one direction contributes to the legal set: the open step,
    /// or the jump destinations when the opponent stands on the stepped
    /// square.
    fn collect_direction_moves(
        &self,
        current_location: &PawnLocation,
        direction: &Direction,
        possible_pawn_moves: &mut Vec<PawnLocation>,
    )
        requires
            self.wf(),
            current_location.wf(),
            current_location.spec_square() == self.spec_pawn(self.spec_active()),
        ensures
            old(possible_pawn_moves)@.is_prefix_of(final(possible_pawn_moves)@),
            forall|j: int|
                old(possible_pawn_moves)@.len() <= j < final(possible_pawn_moves)@.len() ==> (
                #[trigger] final(possible_pawn_moves)@[j]).wf() && spec_dir_dests(
                    self.spec_placed(),
                    self.spec_vertical(),
                    self.spec_pawn(self.spec_active()),
                    self.spec_pawn(spec_opponent(self.spec_active())),
                    *direction,
                ).contains(final(possible_pawn_moves)@[j].spec_square()),
            forall|s: int|
                #[trigger] spec_dir_dests(
                    self.spec_placed(),
                    self.spec_vertical(),
                    self.spec_pawn(self.spec_active()),
                    self.spec_pawn(spec_opponent(self.spec_active())),
                    *direction,
                ).contains(s) ==> contains_square(final(possible_pawn_moves)@, s),
            final(possible_pawn_moves)@.len() == old(possible_pawn_moves)@.len() + spec_dir_seq(
                self.spec_placed(),
                self.spec_vertical(),
                self.spec_pawn(self.spec_active()),
                self.spec_pawn(spec_opponent(self.spec_active())),
                *direction,
            ).len(),
            forall|i: int|
                0 <= i < spec_dir_seq(
                    self.spec_placed(),
                    self.spec_vertical(),
                    self.spec_pawn(self.spec_active()),
                    self.spec_pawn(spec_opponent(self.spec_active())),
                    *direction,
                ).len() ==> final(possible_pawn_moves)@[old(possible_pawn_moves)@.len() + i]
                    == spec_pawn_location(
                    spec_dir_seq(
                        self.spec_placed(),
                        self.spec_vertical(),
                        self.spec_pawn(self.spec_active()),
                        self.spec_pawn(spec_opponent(self.spec_active())),
                        *direction,
                    )[i],
                ),
    {
        let ghost placed = self.spec_placed();
        let ghost vertical = self.spec_vertical();
        let ghost cur = self.spec_pawn(self.spec_active());
        let ghost opp = self.spec_pawn(spec_opponent(self.spec_active()));
        let ghost dir_seq = spec_dir_seq(placed, vertical, cur, opp, *direction);
        if self.is_blocked_in_direction(current_location, direction) {
            proof {
                assert(dir_seq =~= Seq::<int>::empty());
            }
            return ;
        }
        let new_location = match current_location.from_direction(*direction) {
            Ok(location) => location,
            Err(_) => { unreached() },
        };
        assert(new_location.spec_square() == step_open(placed, vertical, cur, *direction).unwrap());
        if self.not_occupied_by_other_player(&new_location) {
            possible_pawn_moves.push(new_location);
            proof {
                let v = possible_pawn_moves@;
                assert(v[v.len() - 1] == new_location);
                lemma_spec_pawn_location(new_location, 0);
                assert(dir_seq =~= seq![new_location.spec_square()]);
            }
        } else {
            let jumps = self.get_possible_jump_moves(direction, &new_location);
            let ghost mid = new_location.spec_square();
            let ghost moves_before = possible_pawn_moves@;
            let mut jump_index: usize = 0;
            while jump_index < jumps.len()
                invariant
                    jump_index <= jumps.len(),
                    moves_before.is_prefix_of(possible_pawn_moves@),
                    possible_pawn_moves@.len() == moves_before.len() + jump_index,
                    forall|j: int|
                        0 <= j < jump_index ==> possible_pawn_moves@[moves_before.len() + j]
                            == jumps@[j],
                    forall|j: int|
                        0 <= j < jumps@.len() ==> (#[trigger] jumps@[j]).wf() && spec_jump_dests(
                            placed,
                            vertical,
                            mid,
                            *direction,
                        ).contains(jumps@[j].spec_square()),
                    forall|j: int|
                        moves_before.len() <= j < possible_pawn_moves@.len() ==> (
                        #[trigger] possible_pawn_moves@[j]).wf() && spec_jump_dests(
                            placed,
                            vertical,
                            mid,
                            *direction,
                        ).contains(possible_pawn_moves@[j].spec_square()),
                    forall|j: int|
                        0 <= j < jump_index ==> contains_square(
                            possible_pawn_moves@,
                            (#[trigger] jumps@[j]).spec_square(),
                        ),
                decreases jumps.len() - jump_index,
            {
                let ghost before_push = possible_pawn_moves@;
                possible_pawn_moves.push(jumps[jump_index]);
                proof {
                    let v = possible_pawn_moves@;
                    assert(v[v.len() - 1] == jumps@[jump_index as int]);
                    assert forall|j: int| 0 <= j < jump_index + 1 implies contains_square(
                        possible_pawn_moves@,
                        (#[trigger] jumps@[j]).spec_square(),
                    ) by {
                        if j < jump_index {
                            lemma_contains_square_prefix(
                                before_push,
                                possible_pawn_moves@,
                                jumps@[j].spec_square(),
                            );
                        } else {
                            assert(v[v.len() - 1].spec_square() == jumps@[j].spec_square());
                        }
                    }
                }
                jump_index = jump_index + 1;
            }
            proof {
                assert forall|s: int|
                    #[trigger] spec_dir_dests(placed, vertical, cur, opp, *direction).contains(
                        s,
                    ) implies contains_square(possible_pawn_moves@, s) by {
                    assert(spec_jump_dests(placed, vertical, mid, *direction).contains(s));
                    assert(contains_square(jumps@, s));
                    let i = choose|i: int|
                        0 <= i < jumps@.len() && (#[trigger] jumps@[i]).spec_square() == s;
                    assert(contains_square(
                        possible_pawn_moves@,
                        jumps@[i].spec_square(),
                    ));
                }
                assert(dir_seq == spec_jump_seq(placed, vertical, mid, *direction));
                assert(matches_squares(jumps@, dir_seq));
                assert forall|i: int|
                    0 <= i < dir_seq.len() implies possible_pawn_moves@[moves_before.len() + i]
                    == spec_pawn_location(dir_seq[i]) by {
                    assert(possible_pawn_moves@[moves_before.len() + i] == jumps@[i]);
                }
            }
        }
    }

    /// The full legal pawn-move set of the active player, computed fresh
    /// from the current position: each of the four directions contributes
    /// its open step, or its jump destinations when the opponent stands in
    /// the way.
    pub fn get_possible_pawn_moves(&self) -> (r: Vec<PawnLocation>)
        requires
            self.wf(),
        ensures
            forall|j: int|
                0 <= j < r@.len() ==> (#[trigger] r@[j]).wf() && self.spec_legal_dests().contains(
                    r@[j].spec_square(),
                ),
            forall|s: int|
                #[trigger] self.spec_legal_dests().contains(s) ==> contains_square(r@, s),
            matches_squares(
                r@,
                spec_moves_seq(
                    self.spec_placed(),
                    self.spec_vertical(),
                    self.spec_pawn(self.spec_active()),
                    self.spec_pawn(spec_opponent(self.spec_active())),
                ),
            ),
            r@.len() <= 5,
            forall|i: int, j: int|
                0 <= i < j < r@.len() ==> r@[i].spec_square() != r@[j].spec_square(),
            forall|i: int|
                0 <= i < r@.len() ==> (#[trigger] r@[i]).spec_square() != self.spec_pawn(
                    self.spec_active(),
                ) && r@[i].spec_square() != self.spec_pawn(spec_opponent(self.spec_active())),
    {
        let current_location = self.get_active_location();
        let ghost cur = self.spec_pawn(self.spec_active());
        let ghost opp = self.spec_pawn(spec_opponent(self.spec_active()));
        let mut possible_pawn_moves: Vec<PawnLocation> = Vec::new();
        proof {
            assert(spec_moves_prefix(self.spec_placed(), self.spec_vertical(), cur, opp, 0) =~= Seq::<
                int,
            >::empty());
        }
        let mut dir_index: usize = 0;
        while dir_index < 4
            invariant
                self.wf(),
                current_location.wf(),
                current_location.spec_square() == cur,
                cur == self.spec_pawn(self.spec_active()),
                opp == self.spec_pawn(spec_opponent(self.spec_active())),
                dir_index <= 4,
                forall|j: int|
                    0 <= j < possible_pawn_moves@.len() ==> (#[trigger] possible_pawn_moves@[j]).wf()
                        && self.spec_legal_dests().contains(possible_pawn_moves@[j].spec_square()),
                forall|k: int, s: int|
                    0 <= k < dir_index && #[trigger] spec_dir_dests(
                        self.spec_placed(),
                        self.spec_vertical(),
                        cur,
                        opp,
                        spec_direction_index(k),
                    ).contains(s) ==> contains_square(possible_pawn_moves@, s),
                matches_squares(
                    possible_pawn_moves@,
                    spec_moves_prefix(
                        self.spec_placed(),
                        self.spec_vertical(),
                        cur,
                        opp,
                        dir_index as int,
                    ),
                ),
            decreases 4 - dir_index,
        {
            let direction = Boardstate::direction_from_index(dir_index);
            let ghost moves_before = possible_pawn_moves@;
            self.collect_direction_moves(&current_location, &direction, &mut possible_pawn_moves);
            proof {
                let placed = self.spec_placed();
                let vertical = self.spec_vertical();
                assert forall|j: int|
                    0 <= j < possible_pawn_moves@.len() implies (
                #[trigger] possible_pawn_moves@[j]).wf() && self.spec_legal_dests().contains(
                    possible_pawn_moves@[j].spec_square(),
                ) by {
                    if j < moves_before.len() {
                        assert(possible_pawn_moves@[j] == moves_before[j]);
                    } else {
                        assert(spec_dir_dests(placed, vertical, cur, opp, direction).contains(
                            possible_pawn_moves@[j].spec_square(),
                        ));
                    }
                }
                assert forall|k: int, s: int|
                    0 <= k < dir_index + 1 && #[trigger] spec_dir_dests(
                        placed,
                        vertical,
                        cur,
                        opp,
                        spec_direction_index(k),
                    ).contains(s) implies contains_square(possible_pawn_moves@, s) by {
                    if k < dir_index {
                        lemma_contains_square_prefix(moves_before, possible_pawn_moves@, s);
                    }
                }
                let k = dir_index as int;
                let prefix_before = spec_moves_prefix(placed, vertical, cur, opp, k);
                let dir_part = spec_dir_seq(placed, vertical, cur, opp, direction);
                assert(spec_moves_prefix(placed, vertical, cur, opp, k + 1) =~= prefix_before
                    + dir_part);
                assert forall|i: int|
                    0 <= i < possible_pawn_moves@.len() implies #[trigger] possible_pawn_moves@[i]
                    == spec_pawn_location((prefix_before + dir_part)[i]) by {
                    if i < moves_before.len() {
                        assert(possible_pawn_moves@[i] == moves_before[i]);
                        assert((prefix_before + dir_part)[i] == prefix_before[i]);
                    } else {
                        assert(possible_pawn_moves@[moves_before.len() + (i - moves_before.len())]
                            == spec_pawn_location(dir_part[i - moves_before.len()]));
                        assert((prefix_before + dir_part)[i] == dir_part[i - moves_before.len()]);
                    }
                }
                assert(matches_squares(
                    possible_pawn_moves@,
                    spec_moves_prefix(placed, vertical, cur, opp, k + 1),
                ));
            }
            dir_index = dir_index + 1;
        }
        proof {
            let placed = self.spec_placed();
            let vertical = self.spec_vertical();
            let full = spec_moves_seq(placed, vertical, cur, opp);
            assert(matches_squares(possible_pawn_moves@, full));
            lemma_moves_seq_good(placed, vertical, cur, opp);
            assert forall|i: int|
                0 <= i < possible_pawn_moves@.len() implies (
            #[trigger] possible_pawn_moves@[i]).spec_square() == full[i] by {
                lemma_spec_pawn_location(possible_pawn_moves@[i], full[i]);
            }
        }
        proof {
            assert forall|s: int| #[trigger] self.spec_legal_dests().contains(
                s,
            ) implies contains_square(possible_pawn_moves@, s) by {
                let placed = self.spec_placed();
                let vertical = self.spec_vertical();
                if spec_dir_dests(placed, vertical, cur, opp, Direction::North).contains(s) {
                    assert(spec_dir_dests(placed, vertical, cur, opp, spec_direction_index(0))
                        .contains(s));
                } else if spec_dir_dests(placed, vertical, cur, opp, Direction::East).contains(s) {
                    assert(spec_dir_dests(placed, vertical, cur, opp, spec_direction_index(1))
                        .contains(s));
                } else if spec_dir_dests(placed, vertical, cur, opp, Direction::South).contains(s) {
                    assert(spec_dir_dests(placed, vertical, cur, opp, spec_direction_index(2))
                        .contains(s));
                } else {
                    assert(spec_dir_dests(placed, vertical, cur, opp, spec_direction_index(3))
                        .contains(s));
                }
            }
        }
        possible_pawn_moves
    }

    /// Attempts the requested pawn move for the active player. Exactly the
    /// destinations in the current legal set are accepted; reaching the
    /// goal row finishes the game, anything else passes the turn. A
    /// rejected move changes nothing, and a successful one never removes a
    /// player's path to their goal row.
    pub fn move_pawn_to_location(&mut self, location: PawnLocation) -> (r: Result<
        GameStatus,
        ActionError,
    >)
        requires
            old(self).wf(),
            location.wf(),
        ensures
            final(self).wf(),
            pawn_move_spec(*old(self), *final(self), location, r),
            r is Ok ==> (spec_has_path(
                old(self).spec_placed(),
                old(self).spec_vertical(),
                old(self).spec_white(),
                Player::White,
            ) ==> spec_has_path(
                final(self).spec_placed(),
                final(self).spec_vertical(),
                final(self).spec_white(),
                Player::White,
            )),
            r is Ok ==> (spec_has_path(
                old(self).spec_placed(),
                old(self).spec_vertical(),
                old(self).spec_black(),
                Player::Black,
            ) ==> spec_has_path(
                final(self).spec_placed(),
                final(self).spec_vertical(),
                final(self).spec_black(),
                Player::Black,
            )),
    {
        let possible_moves = self.get_possible_pawn_moves();
        let mut found = false;
        let mut move_index: usize = 0;
        while move_index < possible_moves.len()
            invariant
                move_index <= possible_moves.len(),
                found <==> exists|i: int|
                    0 <= i < move_index && (#[trigger] possible_moves@[i]).spec_square()
                        == location.spec_square(),
            decreases possible_moves.len() - move_index,
        {
            if possible_moves[move_index].get_square() == location.get_square() {
                found = true;
            }
            move_index = move_index + 1;
        }
        proof {
            if found {
                let i = choose|i: int|
                    0 <= i < possible_moves@.len() && (#[trigger] possible_moves@[i]).spec_square()
                        == location.spec_square();
                assert(self.spec_legal_dests().contains(possible_moves@[i].spec_square()));
            }
            if self.spec_legal_dests().contains(location.spec_square()) {
                assert(contains_square(possible_moves@, location.spec_square()));
            }
            assert(found == self.spec_legal_dests().contains(location.spec_square()));
        }
        if !found {
            return Err(ActionError::IllegalDestination);
        }

        match self.active_player {
            Player::White => {
                self.white_position = location;
            },
            Player::Black => {
                self.black_position = location;
            },
        }
        proof {
            let pre = *old(self);
            let m = pre.model();
            let cur = m.pawn(m.active);
            let opp = m.pawn(spec_opponent(m.active));
            if spec_has_path(m.placed, m.vertical, cur, m.active) {
                lemma_legal_dest_keeps_path(
                    m.placed,
                    m.vertical,
                    cur,
                    opp,
                    location.spec_square(),
                    m.active,
                );
            }
        }

        if self.is_won() {
            return Ok(
                GameStatus::Finished {
                    won_by: self.get_active_player().clone(),
                    reason: VictoryReason::ReachedOppositeSide,
                },
            );
        }

        self.swap_active_player();
        Ok(GameStatus::InProgress)
    }

    /// Whether a wall may sit at `location` as far as the existing walls
    /// are concerned: the anchor must be free and no same-orientation
    /// neighbour may already sever the same edge. The path rule is checked
    /// separately, at insertion.
    pub fn can_place(&self, location: &WallLocation) -> (r: Result<(), ActionError>)
        requires
            self.wf(),
            location.wf(),
        ensures
            match r {
                Ok(_) => !self.spec_placed().contains(location.spec_square()) && !spec_overlaps(
                    self.spec_placed(),
                    self.spec_vertical(),
                    location.spec_square() % 9,
                    location.spec_square() / 9,
                    location.spec_orientation(),
                ),
                Err(e) => match e {
                    ActionError::AnchorOccupied => self.spec_placed().contains(
                        location.spec_square(),
                    ),
                    ActionError::Overlaps => !self.spec_placed().contains(location.spec_square())
                        && spec_overlaps(
                        self.spec_placed(),
                        self.spec_vertical(),
                        location.spec_square() % 9,
                        location.spec_square() / 9,
                        location.spec_orientation(),
                    ),
                    _ => false,
                },
            },
    {
        let coordinate = location.get_coordinate();
        proof {
            crate::locations::lemma_square_round_trip(coordinate, location.spec_square());
        }
        if self.wall_at_coordinate(&coordinate).is_some() {
            return Err(ActionError::AnchorOccupied);
        }
        let overlaps = match location.get_orientation() {
            WallOrientation::Horizontal => self.h_wall_anchor(
                coordinate.x as i16 - 1,
                coordinate.y as i16,
            ) || self.h_wall_anchor(coordinate.x as i16 + 1, coordinate.y as i16),
            WallOrientation::Vertical => self.v_wall_anchor(
                coordinate.x as i16,
                coordinate.y as i16 - 1,
            ) || self.v_wall_anchor(coordinate.x as i16, coordinate.y as i16 + 1),
        };
        if overlaps {
            return Err(ActionError::Overlaps);
        }
        Ok(())
    }

    /// Attempts a wall placement for the active player: the player must
    /// have a wall left, the anchor must be free of conflicts, and the wall
    /// may not seal off either player's goal row. On success the wall is
    /// committed, the player's count drops by one and the turn passes; any
    /// rejection leaves the board exactly as it was.
    pub fn insert_wall_at_location(&mut self, location: WallLocation) -> (r: Result<
        GameStatus,
        ActionError,
    >)
        requires
            old(self).wf(),
            location.wf(),
        ensures
            final(self).wf(),
            wall_move_spec(*old(self), *final(self), location, r),
            r is Ok ==> spec_has_path(
                final(self).spec_placed(),
                final(self).spec_vertical(),
                final(self).spec_white(),
                Player::White,
            ) && spec_has_path(
                final(self).spec_placed(),
                final(self).spec_vertical(),
                final(self).spec_black(),
                Player::Black,
            ),
    {
        if !self.player_has_walls_available() {
            return Err(ActionError::NoWallsRemaining);
        }
        match self.can_place(&location) {
            Err(e) => {
                return Err(e);
            },
            Ok(_) => {},
        }

        let square = location.get_square() as usize;
        let vertical_flag = match location.get_orientation() {
            WallOrientation::Vertical => true,
            WallOrientation::Horizontal => false,
        };
        let ghost placed0 = self.spec_placed();
        let ghost vertical0 = self.spec_vertical();
        self.wall_placed.set(square, true);
        self.wall_orientation.set(square, vertical_flag);
        proof {
            if !vertical_flag {
                assert(self.spec_vertical() =~= vertical0);
            }
            assert(self.wf());
        }

        let white_has_path = self.has_path(&Player::White);
        let black_has_path = self.has_path(&Player::Black);
        if white_has_path && black_has_path {
            self.decrease_available_walls();
            self.swap_active_player();
            proof {
                let expected = spec_insert_wall(old(self).model(), location);
                assert(expected is Ok);
                assert(self.model() =~= expected.unwrap());
            }
            Ok(GameStatus::InProgress)
        } else {
            self.wall_orientation.set(square, false);
            self.wall_placed.set(square, false);
            proof {
                assert(self.spec_placed() =~= placed0);
                assert(self.spec_vertical() =~= vertical0);
                assert(self.model() =~= old(self).model());
            }
            Err(ActionError::WallBlocksPath)
        }
    }

    /// Applies one action: the single entry point that mutates the board.
    /// The model transition pins the result exactly; a successful action
    /// never removes a player's path to their goal row, and a player's wall
    /// count changes only by their own successful wall placement, by one.
    pub fn apply_action(&mut self, action: Action) -> (r: Result<GameStatus, ActionError>)
        requires
            old(self).wf(),
            action.wf(),
        ensures
            final(self).wf(),
            (match (r, spec_apply_action(old(self).model(), action)) {
                (Ok(status), Ok(pair)) => status == pair.1 && final(self).model() == pair.0,
                (Err(e), Err(e2)) => e == e2 && final(self).model() == old(self).model(),
                _ => false,
            }),
            r is Ok ==> (spec_has_path(
                old(self).spec_placed(),
                old(self).spec_vertical(),
                old(self).spec_white(),
                Player::White,
            ) ==> spec_has_path(
                final(self).spec_placed(),
                final(self).spec_vertical(),
                final(self).spec_white(),
                Player::White,
            )),
            r is Ok ==> (spec_has_path(
                old(self).spec_placed(),
                old(self).spec_vertical(),
                old(self).spec_black(),
                Player::Black,
            ) ==> spec_has_path(
                final(self).spec_placed(),
                final(self).spec_vertical(),
                final(self).spec_black(),
                Player::Black,
            )),
            forall|player: Player|
                final(self).spec_walls_left(player) == (if r is Ok && action is Wall && player
                    == old(self).spec_active() {
                    old(self).spec_walls_left(player) - 1
                } else {
                    old(self).spec_walls_left(player)
                }),
    {
        match action {
            Action::Pawn(pawn_location) => self.move_pawn_to_location(pawn_location),
            Action::Wall(wall_location) => self.insert_wall_at_location(wall_location),
        }
    }

    /// Every action that is legal right now: the full pawn-move set. Wall
    /// placements are not enumerated; they are validated on submission.
    pub fn get_legal_actions(&self) -> (r: PossibleActions)
        requires
            self.wf(),
        ensures
            r.spec_wall_actions() == Seq::<WallLocation>::empty(),
            forall|j: int|
                0 <= j < r.spec_pawn_actions().len() ==> (#[trigger] r.spec_pawn_actions()[j]).wf()
                    && self.spec_legal_dests().contains(r.spec_pawn_actions()[j].spec_square()),
            forall|s: int|
                #[trigger] self.spec_legal_dests().contains(s) ==> contains_square(
                    r.spec_pawn_actions(),
                    s,
                ),
            matches_squares(
                r.spec_pawn_actions(),
                spec_moves_seq(
                    self.spec_placed(),
                    self.spec_vertical(),
                    self.spec_pawn(self.spec_active()),
                    self.spec_pawn(spec_opponent(self.spec_active())),
                ),
            ),
            r.spec_pawn_actions().len() <= 5,
            forall|i: int, j: int|
                0 <= i < j < r.spec_pawn_actions().len() ==> r.spec_pawn_actions()[i].spec_square()
                    != r.spec_pawn_actions()[j].spec_square(),
    {
        let empty_walls: Vec<WallLocation> = Vec::new();
        proof {
            assert(empty_walls@ =~= Seq::<WallLocation>::empty());
        }
        PossibleActions::build(self.get_possible_pawn_moves(), empty_walls)
    }

    /// Builds a position for tests and puzzles: the canonical start, then
    /// the supplied walls placed one by one under the usual rules (each
    /// placement consumes a wall and passes the turn), then the pawns set
    /// and, when given, the active player overridden. The first rejected
    /// wall aborts with its error.
    pub fn start_from(
        white: PawnLocation,
        black: PawnLocation,
        walls: Vec<WallLocation>,
        active_player: Option<Player>,
    ) -> (r: Result<Boardstate, ActionError>)
        requires
            white.wf(),
            black.wf(),
            forall|i: int| 0 <= i < walls@.len() ==> (#[trigger] walls@[i]).wf(),
        ensures
            (match r {
                Ok(b) => spec_place_walls(spec_start_model(), walls@) matches Ok(m) && b.wf()
                    && b.model() == (BoardModel {
                    active: (match active_player {
                        Some(player) => player,
                        None => m.active,
                    }),
                    white: white.spec_square(),
                    black: black.spec_square(),
                    white_walls: m.white_walls,
                    black_walls: m.black_walls,
                    placed: m.placed,
                    vertical: m.vertical,
                }),
                Err(e) => spec_place_walls(spec_start_model(), walls@) matches Err(e2) && e == e2,
            }),
    {
        let mut boardstate = Boardstate::new();
        proof {
            assert(boardstate.model() =~= spec_start_model());
            assert(walls@.subrange(0, walls@.len() as int) =~= walls@);
        }
        let mut index: usize = 0;
        while index < walls.len()
            invariant
                index <= walls.len(),
                boardstate.wf(),
                forall|i: int| 0 <= i < walls@.len() ==> (#[trigger] walls@[i]).wf(),
                spec_place_walls(spec_start_model(), walls@) == spec_place_walls(
                    boardstate.model(),
                    walls@.subrange(index as int, walls@.len() as int),
                ),
            decreases walls.len() - index,
        {
            let ghost suffix = walls@.subrange(index as int, walls@.len() as int);
            let ghost pre_model = boardstate.model();
            let wall_location = walls[index];
            match boardstate.insert_wall_at_location(wall_location) {
                Ok(_) => {
                    proof {
                        assert(suffix.first() == walls@[index as int]);
                        assert(suffix.drop_first() =~= walls@.subrange(
                            index + 1,
                            walls@.len() as int,
                        ));
                        assert(spec_insert_wall(pre_model, walls@[index as int]) matches Ok(m2)
                            && m2 == boardstate.model());
                    }
                },
                Err(e) => {
                    proof {
                        assert(suffix.first() == walls@[index as int]);
                        assert(spec_insert_wall(pre_model, walls@[index as int]) matches Err(e2)
                            && e2 == e);
                    }
                    return Err(e);
                },
            }
            index = index + 1;
        }
        proof {
            assert(walls@.subrange(walls@.len() as int, walls@.len() as int) =~= Seq::<
                WallLocation,
            >::empty());
        }
        boardstate.white_position = white;
        boardstate.black_position = black;
        if let Some(player) = active_player {
            boardstate.active_player = player;
        }
        Ok(boardstate)
    }
}

impl Clone for Boardstate {
    /// A clone carries the whole model over: a caller may explore a
    /// hypothetical future on the copy without touching the original.
    fn clone(&self) -> (r: Boardstate)
        ensures
            r.spec_active() == self.spec_active(),
            r.spec_white_location() == self.spec_white_location(),
            r.spec_black_location() == self.spec_black_location(),
            r.spec_white_walls() == self.spec_white_walls(),
            r.spec_black_walls() == self.spec_black_walls(),
            r.spec_placed() == self.spec_placed(),
            r.spec_vertical() == self.spec_vertical(),
    {
        Boardstate {
            active_player: self.active_player,
            white_position: self.white_position,
            black_position: self.black_position,
            white_available_walls: self.white_available_walls,
            black_available_walls: self.black_available_walls,
            wall_placed: self.wall_placed.clone(),
            wall_orientation: self.wall_orientation.clone(),
        }
    }
}

impl Default for Boardstate {
    /// The canonical start position, as `new` describes it.
    fn default() -> (r: Boardstate)
        ensures
            r.wf(),
            r.spec_active() == Player::White,
            r.spec_white() == 4,
            r.spec_black() == 76,
            r.spec_white_walls() == 10,
            r.spec_black_walls() == 10,
            r.spec_placed() == Set::<int>::empty(),
            r.spec_vertical() == Set::<int>::empty(),
    {
        let white_position = match PawnLocation::build(4) {
            Ok(location) => location,
            Err(_) => { unreached() },
        };
        let black_position = match PawnLocation::build(76) {
            Ok(location) => location,
            Err(_) => { unreached() },
        };
        Boardstate {
            active_player: Player::White,
            white_position,
            black_position,
            white_available_walls: 10,
            black_available_walls: 10,
            wall_placed: BitGrid::new(),
            wall_orientation: BitGrid::new(),
        }
    }
}

} // verus!


