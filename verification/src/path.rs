//! The path validator: a breadth-first search over the 9x9 grid graph in
//! which two adjacent squares are connected exactly when no wall severs the
//! edge between them. Pawns are ignored: the rule asks that a path exist,
//! not that it be currently steppable.
//!
//! Reachability is specified through explicit paths: a sequence of squares
//! in which every consecutive pair shares an open edge. `has_path` is proved
//! sound and complete against that specification.

use vstd::prelude::*;
use vstd::set_lib::{lemma_int_range, lemma_len_subset, set_int_range};

use crate::bits::{square_bits, SquareSet};
use crate::boardstate::{spec_blocked, Boardstate, Player};
use crate::locations::{coord_of_square, spec_step, valid_square, Direction, Location};

verus! {

/// The row a player's pawn must reach to win: White races north to row 8,
/// Black races south to row 0. Win detection and notation use the same
/// convention.
pub open spec fn goal_row(player: Player) -> int {
    match player {
        Player::White => 8,
        Player::Black => 0,
    }
}

/// The square reached by stepping from square `a` in direction `d`, or
/// `None` when the step leaves the board or a wall severs the edge.
pub open spec fn step_open(placed: Set<int>, vertical: Set<int>, a: int, d: Direction) -> Option<
    int,
> {
    if valid_square(a) && !spec_blocked(placed, vertical, coord_of_square(a), d) {
        match spec_step(coord_of_square(a), d) {
            Some(c) => Some(c.spec_square()),
            None => None,
        }
    } else {
        None
    }
}

/// The change a step in direction `d` makes to a linear square index.
pub open spec fn dir_delta(d: Direction) -> int {
    match d {
        Direction::North => 9,
        Direction::East => 1,
        Direction::South => -9,
        Direction::West => -1,
    }
}

/// An open step lands on a valid square whose index differs from the
/// source by exactly the direction's delta.
pub proof fn lemma_step_open_delta(placed: Set<int>, vertical: Set<int>, a: int, d: Direction)
    ensures
        step_open(placed, vertical, a, d) matches Some(b) ==> valid_square(a) && valid_square(b)
            && b == a + dir_delta(d),
{
    if step_open(placed, vertical, a, d) is Some {
        crate::locations::lemma_square_round_trip(coord_of_square(a), a);
        let ca = coord_of_square(a);
        let cb = spec_step(ca, d).unwrap();
        assert(cb.spec_square() == a + dir_delta(d));
        crate::locations::lemma_square_round_trip(cb, 0);
    }
}

/// True when squares `a` and `b` are adjacent and the edge between them is
/// not severed by a wall.
pub open spec fn open_edge(placed: Set<int>, vertical: Set<int>, a: int, b: int) -> bool {
    ||| step_open(placed, vertical, a, Direction::North) == Some(b)
    ||| step_open(placed, vertical, a, Direction::East) == Some(b)
    ||| step_open(placed, vertical, a, Direction::South) == Some(b)
    ||| step_open(placed, vertical, a, Direction::West) == Some(b)
}

/// True when the walk `p` crosses an open edge at position `i`.
pub open spec fn path_edge(placed: Set<int>, vertical: Set<int>, p: Seq<int>, i: int) -> bool {
    open_edge(placed, vertical, p[i], p[i + 1])
}

/// True when `p` is a walk over the board: every square valid, every
/// consecutive pair joined by an open edge.
pub open spec fn valid_path(placed: Set<int>, vertical: Set<int>, p: Seq<int>) -> bool {
    &&& forall|i: int| 0 <= i < p.len() ==> valid_square(#[trigger] p[i])
    &&& forall|i: int| 0 <= i < p.len() - 1 ==> #[trigger] path_edge(placed, vertical, p, i)
}

/// True when some walk leads from square `a` to square `b`.
pub open spec fn connected(placed: Set<int>, vertical: Set<int>, a: int, b: int) -> bool {
    exists|p: Seq<int>|
        {
            &&& #[trigger] valid_path(placed, vertical, p)
            &&& p.len() > 0
            &&& p.first() == a
            &&& p.last() == b
        }
}

/// True when the given player, standing on `src`, can still reach some
/// square of their goal row through the walls described by the two sets.
pub open spec fn spec_has_path(
    placed: Set<int>,
    vertical: Set<int>,
    src: int,
    player: Player,
) -> bool {
    exists|t: int|
        {
            &&& valid_square(t)
            &&& t / 9 == goal_row(player)
            &&& #[trigger] connected(placed, vertical, src, t)
        }
}

/// The squares sitting in the not-yet-processed part of the search queue.
spec fn pending_set(q: Seq<u8>, head: int) -> Set<int> {
    Set::new(|s: int| exists|i: int| head <= i < q.len() && (#[trigger] q[i]) as int == s)
}

/// The breadth-first search invariant: the queue is a duplicate-free list of
/// visited squares, every visited square is reachable from the source, the
/// processed squares have all their neighbours visited, and no processed
/// square sits on the goal row.
spec fn bfs_inv(
    placed: Set<int>,
    vertical: Set<int>,
    src: int,
    goal: int,
    visited: Set<int>,
    q: Seq<u8>,
    head: int,
) -> bool {
    &&& 0 <= head <= q.len() <= 81
    &&& valid_square(src)
    &&& visited.contains(src)
    &&& forall|i: int| 0 <= i < q.len() ==> visited.contains((#[trigger] q[i]) as int)
    &&& forall|i: int| 0 <= i < q.len() ==> (#[trigger] q[i]) < 81
    &&& forall|i: int, j: int| 0 <= i < j < q.len() ==> q[i] != q[j]
    &&& forall|s: int|
        #[trigger] visited.contains(s) ==> valid_square(s) && connected(placed, vertical, src, s)
    &&& forall|a: int, b: int|
        visited.contains(a) && !pending_set(q, head).contains(a) && #[trigger] open_edge(
            placed,
            vertical,
            a,
            b,
        ) ==> visited.contains(b)
    &&& forall|s: int|
        #[trigger] visited.contains(s) && !pending_set(q, head).contains(s) ==> s / 9 != goal
}

/// An open edge joins two valid squares.
pub proof fn lemma_open_edge_valid(placed: Set<int>, vertical: Set<int>, a: int, b: int)
    requires
        open_edge(placed, vertical, a, b),
    ensures
        valid_square(a),
        valid_square(b),
{
    crate::locations::lemma_square_round_trip(coord_of_square(a), a);
}

/// Open edges run both ways: the walls that leave the step from `a` to `b`
/// open also leave the step back open.
pub proof fn lemma_open_edge_symmetric(placed: Set<int>, vertical: Set<int>, a: int, b: int)
    requires
        open_edge(placed, vertical, a, b),
    ensures
        open_edge(placed, vertical, b, a),
{
    crate::locations::lemma_square_round_trip(coord_of_square(a), a);
    let ca = coord_of_square(a);
    if step_open(placed, vertical, a, Direction::North) == Some(b) {
        let cb = spec_step(ca, Direction::North).unwrap();
        crate::locations::lemma_square_round_trip(cb, b);
        assert(coord_of_square(b) == cb);
        assert(step_open(placed, vertical, b, Direction::South) == Some(a));
    } else if step_open(placed, vertical, a, Direction::East) == Some(b) {
        let cb = spec_step(ca, Direction::East).unwrap();
        crate::locations::lemma_square_round_trip(cb, b);
        assert(coord_of_square(b) == cb);
        assert(step_open(placed, vertical, b, Direction::West) == Some(a));
    } else if step_open(placed, vertical, a, Direction::South) == Some(b) {
        let cb = spec_step(ca, Direction::South).unwrap();
        crate::locations::lemma_square_round_trip(cb, b);
        assert(coord_of_square(b) == cb);
        assert(step_open(placed, vertical, b, Direction::North) == Some(a));
    } else {
        let cb = spec_step(ca, Direction::West).unwrap();
        crate::locations::lemma_square_round_trip(cb, b);
        assert(coord_of_square(b) == cb);
        assert(step_open(placed, vertical, b, Direction::East) == Some(a));
    }
}

/// Every valid square is connected to itself.
pub proof fn lemma_connected_refl(placed: Set<int>, vertical: Set<int>, a: int)
    requires
        valid_square(a),
    ensures
        connected(placed, vertical, a, a),
{
    let p: Seq<int> = seq![a];
    assert(valid_path(placed, vertical, p));
    assert(p.first() == a && p.last() == a);
}

/// A walk can be extended by one open edge at its end.
pub proof fn lemma_connected_step(placed: Set<int>, vertical: Set<int>, a: int, b: int, c: int)
    requires
        connected(placed, vertical, a, b),
        open_edge(placed, vertical, b, c),
    ensures
        connected(placed, vertical, a, c),
{
    lemma_open_edge_valid(placed, vertical, b, c);
    let p = choose|p: Seq<int>|
        {
            &&& #[trigger] valid_path(placed, vertical, p)
            &&& p.len() > 0
            &&& p.first() == a
            &&& p.last() == b
        };
    let q = p.push(c);
    assert forall|i: int| 0 <= i < q.len() - 1 implies #[trigger] path_edge(
        placed,
        vertical,
        q,
        i,
    ) by {
        if i < p.len() - 1 {
            assert(path_edge(placed, vertical, p, i));
            assert(q[i] == p[i] && q[i + 1] == p[i + 1]);
        } else {
            assert(q[i] == b && q[i + 1] == c);
        }
    }
    assert(valid_path(placed, vertical, q));
    assert(q.first() == a && q.last() == c);
}

/// A walk can be extended by one open edge at its start.
pub proof fn lemma_connected_prepend(placed: Set<int>, vertical: Set<int>, a: int, b: int, c: int)
    requires
        open_edge(placed, vertical, a, b),
        connected(placed, vertical, b, c),
    ensures
        connected(placed, vertical, a, c),
{
    lemma_open_edge_valid(placed, vertical, a, b);
    let p = choose|p: Seq<int>|
        {
            &&& #[trigger] valid_path(placed, vertical, p)
            &&& p.len() > 0
            &&& p.first() == b
            &&& p.last() == c
        };
    let q = seq![a] + p;
    assert forall|i: int| 0 <= i < q.len() - 1 implies #[trigger] path_edge(
        placed,
        vertical,
        q,
        i,
    ) by {
        if i == 0 {
            assert(q[0] == a && q[1] == p[0]);
        } else {
            assert(q[i] == p[i - 1] && q[i + 1] == p[i]);
            assert(path_edge(placed, vertical, p, i - 1));
        }
    }
    assert(valid_path(placed, vertical, q));
    assert(q.first() == a && q.last() == c);
}

/// A set that contains a walk's first square and is closed under open edges
/// contains the walk's last square.
pub proof fn lemma_reach_closed(
    placed: Set<int>,
    vertical: Set<int>,
    visited: Set<int>,
    p: Seq<int>,
)
    requires
        valid_path(placed, vertical, p),
        p.len() > 0,
        visited.contains(p.first()),
        forall|a: int, b: int|
            visited.contains(a) && #[trigger] open_edge(placed, vertical, a, b)
                ==> visited.contains(b),
    ensures
        visited.contains(p.last()),
    decreases p.len(),
{
    if p.len() == 1 {
        assert(p.last() == p.first());
    } else {
        assert(path_edge(placed, vertical, p, 0));
        assert(visited.contains(p[1]));
        let q = p.drop_first();
        assert forall|i: int| 0 <= i < q.len() - 1 implies #[trigger] path_edge(
            placed,
            vertical,
            q,
            i,
        ) by {
            assert(path_edge(placed, vertical, p, i + 1));
            assert(q[i] == p[i + 1] && q[i + 1] == p[i + 2]);
        }
        assert(valid_path(placed, vertical, q));
        assert(q.first() == p[1] && q.last() == p.last());
        lemma_reach_closed(placed, vertical, visited, q);
    }
}

/// A duplicate-free sequence of values below 81 holds at most 81 of them.
proof fn lemma_queue_bound(q: Seq<u8>)
    requires
        forall|i: int, j: int| 0 <= i < j < q.len() ==> q[i] != q[j],
        forall|i: int| 0 <= i < q.len() ==> (#[trigger] q[i]) < 81,
    ensures
        q.len() <= 81,
{
    let qi = q.map_values(|v: u8| v as int);
    assert(qi.no_duplicates());
    qi.unique_seq_to_set();
    lemma_int_range(0, 81);
    assert forall|s: int| qi.to_set().contains(s) implies set_int_range(0, 81).contains(s) by {
        let i = choose|i: int| 0 <= i < qi.len() && qi[i] == s;
        assert(q[i] < 81);
    }
    lemma_len_subset(qi.to_set(), set_int_range(0, 81));
}

/// Stepping through an open edge keeps a player's path to their goal row:
/// the walk from the new square goes back over the edge and then follows the
/// old walk.
pub proof fn lemma_move_keeps_path(
    placed: Set<int>,
    vertical: Set<int>,
    from: int,
    to: int,
    player: Player,
)
    requires
        spec_has_path(placed, vertical, from, player),
        open_edge(placed, vertical, from, to),
    ensures
        spec_has_path(placed, vertical, to, player),
{
    let t = choose|t: int|
        {
            &&& valid_square(t)
            &&& t / 9 == goal_row(player)
            &&& #[trigger] connected(placed, vertical, from, t)
        };
    lemma_open_edge_symmetric(placed, vertical, from, to);
    lemma_connected_prepend(placed, vertical, to, from, t);
}

/// On a board with no walls every square still reaches both goal rows: the
/// straight column walk north or south is open.
pub proof fn lemma_empty_board_has_path(src: int, player: Player)
    requires
        valid_square(src),
    ensures
        spec_has_path(Set::<int>::empty(), Set::<int>::empty(), src, player),
{
    let placed = Set::<int>::empty();
    let vertical = Set::<int>::empty();
    let y = src / 9;
    assert(0 <= y < 9);
    match player {
        Player::White => {
            let p = Seq::new((9 - y) as nat, |i: int| src + 9 * i);
            assert forall|i: int| 0 <= i < p.len() implies valid_square(#[trigger] p[i]) by {
                assert(p[i] == src + 9 * i);
            }
            assert forall|i: int| 0 <= i < p.len() - 1 implies #[trigger] path_edge(
                placed,
                vertical,
                p,
                i,
            ) by {
                let a = src + 9 * i;
                crate::locations::lemma_square_round_trip(coord_of_square(a), a);
                let ca = coord_of_square(a);
                assert(ca.y == a / 9 && a / 9 == y + i);
                assert(ca.y < 8);
                assert(!spec_blocked(placed, vertical, ca, Direction::North));
                let cb = spec_step(ca, Direction::North).unwrap();
                assert(cb.spec_square() == a + 9);
                assert(step_open(placed, vertical, a, Direction::North) == Some(a + 9));
                assert(p[i] == a && p[i + 1] == a + 9);
            }
            assert(valid_path(placed, vertical, p));
            let t = p.last();
            assert(t == src + 9 * (8 - y));
            assert(t / 9 == 8);
            assert(connected(placed, vertical, src, t));
        },
        Player::Black => {
            let p = Seq::new((y + 1) as nat, |i: int| src - 9 * i);
            assert forall|i: int| 0 <= i < p.len() implies valid_square(#[trigger] p[i]) by {
                assert(p[i] == src - 9 * i);
            }
            assert forall|i: int| 0 <= i < p.len() - 1 implies #[trigger] path_edge(
                placed,
                vertical,
                p,
                i,
            ) by {
                let a = src - 9 * i;
                crate::locations::lemma_square_round_trip(coord_of_square(a), a);
                let ca = coord_of_square(a);
                assert(ca.y == a / 9 && a / 9 == y - i);
                assert(ca.y >= 1);
                assert(!spec_blocked(placed, vertical, ca, Direction::South));
                let cb = spec_step(ca, Direction::South).unwrap();
                assert(cb.spec_square() == a - 9);
                assert(step_open(placed, vertical, a, Direction::South) == Some(a - 9));
                assert(p[i] == a && p[i + 1] == a - 9);
            }
            assert(valid_path(placed, vertical, p));
            let t = p.last();
            assert(t == src - 9 * y);
            assert(t / 9 == 0);
            assert(connected(placed, vertical, src, t));
        },
    }
}

impl Boardstate {
    /// The square one step away from `square` in `direction`, or `None`
    /// when the board edge or a wall is in the way.
    fn step_in_direction(&self, square: u8, direction: &Direction) -> (r: Option<u8>)
        requires
            square < 81,
        ensures
            match r {
                Some(b) => b < 81 && step_open(
                    self.spec_placed(),
                    self.spec_vertical(),
                    square as int,
                    *direction,
                ) == Some(b as int),
                None => step_open(
                    self.spec_placed(),
                    self.spec_vertical(),
                    square as int,
                    *direction,
                ) is None,
            },
    {
        let location = match crate::locations::PawnLocation::build(square) {
            Ok(location) => location,
            Err(_) => { unreached() },
        };
        if self.is_blocked_in_direction(&location, direction) {
            None
        } else {
            let coordinate = location.get_coordinate();
            match coordinate.from_direction(*direction) {
                Some(stepped) => {
                    proof {
                        crate::locations::lemma_square_round_trip(stepped, 0);
                    }
                    Some(stepped.to_square())
                },
                None => { unreached() },
            }
        }
    }

    /// One expansion step of the search: look one square onward from `cur`
    /// and, if the edge is open and the target unseen, mark and enqueue it.
    fn bfs_process_direction(
        &self,
        Ghost(src): Ghost<int>,
        Ghost(goal): Ghost<int>,
        Ghost(head): Ghost<int>,
        visited: &mut SquareSet,
        queue: &mut Vec<u8>,
        cur: u8,
        direction: &Direction,
    )
        requires
            cur < 81,
            bfs_inv(
                self.spec_placed(),
                self.spec_vertical(),
                src,
                goal,
                square_bits(old(visited)),
                old(queue)@,
                head,
            ),
            square_bits(old(visited)).contains(cur as int),
        ensures
            bfs_inv(
                self.spec_placed(),
                self.spec_vertical(),
                src,
                goal,
                square_bits(final(visited)),
                final(queue)@,
                head,
            ),
            square_bits(old(visited)).subset_of(square_bits(final(visited))),
            old(queue)@.is_prefix_of(final(queue)@),
            match step_open(self.spec_placed(), self.spec_vertical(), cur as int, *direction) {
                Some(b) => square_bits(final(visited)).contains(b),
                None => true,
            },
    {
        let placed = Ghost(self.spec_placed());
        let vertical = Ghost(self.spec_vertical());
        match self.step_in_direction(cur, direction) {
            Some(neighbour) => {
                if !visited.contains(neighbour as usize) {
                    proof {
                        assert(open_edge(placed@, vertical@, cur as int, neighbour as int));
                        lemma_connected_step(
                            placed@,
                            vertical@,
                            src,
                            cur as int,
                            neighbour as int,
                        );
                    }
                    visited.insert(neighbour as usize);
                    queue.push(neighbour);
                    proof {
                        let q0 = old(queue)@;
                        let q1 = queue@;
                        let v1 = square_bits(visited);
                        lemma_queue_bound(q1);
                        assert forall|s: int|
                            pending_set(q0, head).contains(s) implies pending_set(
                            q1,
                            head,
                        ).contains(s) by {
                            let i = choose|i: int|
                                head <= i < q0.len() && (#[trigger] q0[i]) as int == s;
                            assert(q1[i] as int == s);
                        }
                        assert(pending_set(q1, head).contains(neighbour as int)) by {
                            assert(q1[q1.len() - 1] as int == neighbour as int);
                        }
                        assert forall|a: int, b: int|
                            v1.contains(a) && !pending_set(q1, head).contains(a)
                                && #[trigger] open_edge(placed@, vertical@, a, b) implies v1.contains(
                            b,
                        ) by {
                            assert(a != neighbour as int);
                            assert forall|s: int|
                                pending_set(q1, head).contains(s) && s != neighbour as int implies pending_set(
                                q0,
                                head,
                            ).contains(s) by {
                                let i = choose|i: int|
                                    head <= i < q1.len() && (#[trigger] q1[i]) as int == s;
                                assert(i < q0.len());
                                assert(q0[i] as int == s);
                            }
                            assert(square_bits(old(visited)).contains(b) || b == neighbour as int);
                        }
                        assert forall|s: int|
                            #[trigger] v1.contains(s) && !pending_set(q1, head).contains(
                                s,
                            ) implies s / 9 != goal by {
                            assert(s != neighbour as int);
                            assert forall|t: int|
                                pending_set(q0, head).contains(t) implies pending_set(
                                q1,
                                head,
                            ).contains(t) by {
                                let i = choose|i: int|
                                    head <= i < q0.len() && (#[trigger] q0[i]) as int == t;
                                assert(q1[i] as int == t);
                            }
                            assert(square_bits(old(visited)).contains(s));
                            assert(!pending_set(q0, head).contains(s));
                        }
                    }
                }
            },
            None => {},
        }
    }

    /// Whether `player` can still reach their goal row through the walls on
    /// the board. Pawn occupancy is ignored; only wall topology matters.
    pub fn has_path(&self, player: &Player) -> (r: bool)
        requires
            self.wf(),
        ensures
            r == spec_has_path(
                self.spec_placed(),
                self.spec_vertical(),
                self.spec_pawn(*player),
                *player,
            ),
    {
        let placed = Ghost(self.spec_placed());
        let vertical = Ghost(self.spec_vertical());
        let start: u8 = match player {
            Player::White => self.get_position_white_pawn().get_square(),
            Player::Black => self.get_position_black_pawn().get_square(),
        };
        let goal_row_value: u8 = match player {
            Player::White => 8,
            Player::Black => 0,
        };
        let ghost src = start as int;
        let ghost goal = goal_row(*player);

        let mut visited = SquareSet::new();
        let mut queue: Vec<u8> = Vec::new();
        visited.insert(start as usize);
        queue.push(start);
        proof {
            lemma_connected_refl(placed@, vertical@, src);
            assert(queue@[0] == start);
            assert(pending_set(queue@, 0).contains(src)) by {
                assert(queue@[0] as int == src);
            }
            assert(bfs_inv(placed@, vertical@, src, goal, square_bits(&visited), queue@, 0));
        }

        let mut head: usize = 0;
        while head < queue.len()
            invariant
                self.wf(),
                placed@ == self.spec_placed(),
                vertical@ == self.spec_vertical(),
                src == self.spec_pawn(*player),
                goal == goal_row(*player),
                goal == goal_row_value as int,
                bfs_inv(placed@, vertical@, src, goal, square_bits(&visited), queue@, head as int),
            decreases 81 - head,
        {
            let cur = queue[head];
            assert(cur < 81);
            if cur / 9 == goal_row_value {
                proof {
                    assert(connected(placed@, vertical@, src, cur as int));
                    assert(spec_has_path(placed@, vertical@, src, *player));
                }
                return true;
            }
            self.bfs_process_direction(
                Ghost(src),
                Ghost(goal),
                Ghost(head as int),
                &mut visited,
                &mut queue,
                cur,
                &Direction::North,
            );
            self.bfs_process_direction(
                Ghost(src),
                Ghost(goal),
                Ghost(head as int),
                &mut visited,
                &mut queue,
                cur,
                &Direction::East,
            );
            self.bfs_process_direction(
                Ghost(src),
                Ghost(goal),
                Ghost(head as int),
                &mut visited,
                &mut queue,
                cur,
                &Direction::South,
            );
            self.bfs_process_direction(
                Ghost(src),
                Ghost(goal),
                Ghost(head as int),
                &mut visited,
                &mut queue,
                cur,
                &Direction::West,
            );
            head = head + 1;
            proof {
                let v = square_bits(&visited);
                let q = queue@;
                assert forall|a: int, b: int|
                    v.contains(a) && !pending_set(q, head as int).contains(a)
                        && #[trigger] open_edge(placed@, vertical@, a, b) implies v.contains(b) by {
                    if a == cur as int {
                        assert(
                            step_open(placed@, vertical@, cur as int, Direction::North) == Some(b)
                                || step_open(placed@, vertical@, cur as int, Direction::East)
                                == Some(b) || step_open(
                                placed@,
                                vertical@,
                                cur as int,
                                Direction::South,
                            ) == Some(b) || step_open(
                                placed@,
                                vertical@,
                                cur as int,
                                Direction::West,
                            ) == Some(b)
                        );
                    } else {
                        assert(!pending_set(q, head as int - 1).contains(a)) by {
                            if pending_set(q, head as int - 1).contains(a) {
                                let i = choose|i: int|
                                    head as int - 1 <= i < q.len() && (#[trigger] q[i]) as int
                                        == a;
                                assert(i == head as int - 1);
                                assert(q[head as int - 1] == cur);
                            }
                        }
                    }
                }
                assert forall|s: int|
                    #[trigger] v.contains(s) && !pending_set(q, head as int).contains(
                        s,
                    ) implies s / 9 != goal by {
                    if s != cur as int {
                        assert(!pending_set(q, head as int - 1).contains(s)) by {
                            if pending_set(q, head as int - 1).contains(s) {
                                let i = choose|i: int|
                                    head as int - 1 <= i < q.len() && (#[trigger] q[i]) as int
                                        == s;
                                assert(i == head as int - 1);
                                assert(q[head as int - 1] == cur);
                            }
                        }
                    }
                }
            }
        }
        proof {
            if spec_has_path(placed@, vertical@, src, *player) {
                let t = choose|t: int|
                    {
                        &&& valid_square(t)
                        &&& t / 9 == goal_row(*player)
                        &&& #[trigger] connected(placed@, vertical@, src, t)
                    };
                let p = choose|p: Seq<int>|
                    {
                        &&& #[trigger] valid_path(placed@, vertical@, p)
                        &&& p.len() > 0
                        &&& p.first() == src
                        &&& p.last() == t
                    };
                let v = square_bits(&visited);
                assert(pending_set(queue@, head as int) =~= Set::<int>::empty()) by {
                    assert forall|s: int|
                        !pending_set(queue@, head as int).contains(s) by {
                        if pending_set(queue@, head as int).contains(s) {
                            let i = choose|i: int|
                                head as int <= i < queue@.len() && (#[trigger] queue@[i]) as int
                                    == s;
                        }
                    }
                }
                assert forall|a: int, b: int|
                    v.contains(a) && #[trigger] open_edge(placed@, vertical@, a, b) implies v.contains(
                    b,
                ) by {
                    assert(!pending_set(queue@, head as int).contains(a));
                }
                lemma_reach_closed(placed@, vertical@, v, p);
                assert(v.contains(t));
                assert(!pending_set(queue@, head as int).contains(t));
                assert(false);
            }
        }
        false
    }
}

} // verus!
