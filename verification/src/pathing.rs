//! Pathfinding over the 8-connected grid graph the map's blocking flags
//! define. Diagonal moves deliberately cost the same as cardinal moves
//! (cost 1): this "diagonal shortcut" is part of the design, and
//! correcting it to true Euclidean cost would change pathfinding
//! outcomes.

use vstd::prelude::*;

use crate::components::{abs_int, Position};
use crate::map::GameMap;

verus! {

/// Whether `b` is one of the 8 cells surrounding `a`.
pub open spec fn adjacent(a: Position, b: Position) -> bool {
    &&& a != b
    &&& -1 <= a.x - b.x <= 1
    &&& -1 <= a.y - b.y <= 1
}

/// Whether a single move from `a` to `b` is legal: `b` is one of the 8
/// surrounding cells, lies on the map, and is not blocked.
pub open spec fn step_ok(m: GameMap, a: Position, b: Position) -> bool {
    &&& adjacent(a, b)
    &&& m.spec_in_bounds(b)
    &&& !m.blocked_tiles@[m.pos_idx(b)]
}

/// Whether `p` is a legal walk from `start` to `goal`: it begins at
/// `start`, ends at `goal`, and every consecutive pair is a legal move.
pub open spec fn path_ok(m: GameMap, p: Seq<Position>, start: Position, goal: Position) -> bool {
    &&& p.len() >= 1
    &&& p[0] == start
    &&& p.last() == goal
    &&& forall|i: int, j: int|
        0 <= i && j == i + 1 && j < p.len() ==> #[trigger] step_ok(m, p[i], p[j])
}

impl Position {
    /// The neighboring positions an entity may move to from this one: the 8
    /// surrounding cells, filtered by the map's blocking flags, each with
    /// uniform movement cost 1.
    pub fn successors(&self, map: &GameMap) -> (r: Vec<(Position, u32)>)
        requires
            map.wf(),
            map.spec_in_bounds(*self),
        ensures
            forall|i: int|
                0 <= i < r@.len() ==> step_ok(*map, *self, r@[i].0) && r@[i].1 == 1,
            forall|b: Position| step_ok(*map, *self, b) ==> r@.contains((b, 1u32)),
            forall|i: int, j: int| 0 <= i < j < r@.len() ==> r@[i].0 != r@[j].0,
    {
        let x = self.x;
        let y = self.y;
        let c1 = Position { x: x - 1, y: y + 1 };
        let c2 = Position { x, y: y + 1 };
        let c3 = Position { x: x + 1, y: y + 1 };
        let c4 = Position { x: x - 1, y };
        let c5 = Position { x: x + 1, y };
        let c6 = Position { x: x - 1, y: y - 1 };
        let c7 = Position { x, y: y - 1 };
        let c8 = Position { x: x + 1, y: y - 1 };
        let mut list: Vec<(Position, u32)> = Vec::new();
        push_if_open(&mut list, map, *self, c1);
        proof {
            assert(forall|t: int| 0 <= t < list@.len() ==> (list@[t].0 == c1));
            assert(forall|i: int, j: int|
                0 <= i < j < list@.len() ==> list@[i].0 != list@[j].0);
        }
        push_if_open(&mut list, map, *self, c2);
        proof {
            assert(forall|t: int| 0 <= t < list@.len() ==> (list@[t].0 == c1 || list@[t].0 == c2));
            assert(forall|i: int, j: int|
                0 <= i < j < list@.len() ==> list@[i].0 != list@[j].0);
        }
        push_if_open(&mut list, map, *self, c3);
        proof {
            assert(forall|t: int| 0 <= t < list@.len() ==> (list@[t].0 == c1 || list@[t].0 == c2 || list@[t].0 == c3));
            assert(forall|i: int, j: int|
                0 <= i < j < list@.len() ==> list@[i].0 != list@[j].0);
        }
        push_if_open(&mut list, map, *self, c4);
        proof {
            assert(forall|t: int| 0 <= t < list@.len() ==> (list@[t].0 == c1 || list@[t].0 == c2 || list@[t].0 == c3 || list@[t].0 == c4));
            assert(forall|i: int, j: int|
                0 <= i < j < list@.len() ==> list@[i].0 != list@[j].0);
        }
        push_if_open(&mut list, map, *self, c5);
        proof {
            assert(forall|t: int| 0 <= t < list@.len() ==> (list@[t].0 == c1 || list@[t].0 == c2 || list@[t].0 == c3 || list@[t].0 == c4 || list@[t].0 == c5));
            assert(forall|i: int, j: int|
                0 <= i < j < list@.len() ==> list@[i].0 != list@[j].0);
        }
        push_if_open(&mut list, map, *self, c6);
        proof {
            assert(forall|t: int| 0 <= t < list@.len() ==> (list@[t].0 == c1 || list@[t].0 == c2 || list@[t].0 == c3 || list@[t].0 == c4 || list@[t].0 == c5 || list@[t].0 == c6));
            assert(forall|i: int, j: int|
                0 <= i < j < list@.len() ==> list@[i].0 != list@[j].0);
        }
        push_if_open(&mut list, map, *self, c7);
        proof {
            assert(forall|t: int| 0 <= t < list@.len() ==> (list@[t].0 == c1 || list@[t].0 == c2 || list@[t].0 == c3 || list@[t].0 == c4 || list@[t].0 == c5 || list@[t].0 == c6 || list@[t].0 == c7));
            assert(forall|i: int, j: int|
                0 <= i < j < list@.len() ==> list@[i].0 != list@[j].0);
        }
        push_if_open(&mut list, map, *self, c8);
        proof {
            assert(forall|t: int| 0 <= t < list@.len() ==> (list@[t].0 == c1 || list@[t].0 == c2 || list@[t].0 == c3 || list@[t].0 == c4 || list@[t].0 == c5 || list@[t].0 == c6 || list@[t].0 == c7 || list@[t].0 == c8));
            assert(forall|i: int, j: int|
                0 <= i < j < list@.len() ==> list@[i].0 != list@[j].0);
            broadcast use vstd::seq_lib::lemma_seq_contains_after_push;

            assert forall|b: Position| step_ok(*map, *self, b) implies list@.contains(
                (b, 1u32),
            ) by {
                assert(b.x == x - 1 || b.x == x || b.x == x + 1);
                assert(b.y == y - 1 || b.y == y || b.y == y + 1);
            }
        }
        list
    }
}

/// Append `p` as a unit-cost successor if moving there from `from` is legal.
fn push_if_open(list: &mut Vec<(Position, u32)>, map: &GameMap, from: Position, p: Position)
    requires
        map.wf(),
        adjacent(from, p),
    ensures
        step_ok(*map, from, p) ==> final(list)@ == old(list)@.push((p, 1u32)),
        !step_ok(*map, from, p) ==> final(list)@ == old(list)@,
{
    if p.x >= 0 && p.x < map.width as i32 && p.y >= 0 && p.y < map.height as i32 {
        let idx = map.xy_idx(p.x, p.y);
        if !map.blocked_tiles[idx] {
            list.push((p, 1));
        }
    }
}

/// The search heuristic: the taxicab distance to the goal, divided by 3
/// so that it never exceeds the true remaining cost (which is at least
/// the Chebyshev distance, itself at least half the taxicab distance).
fn path_heuristic(p: &Position, goal: &Position) -> (r: u32)
    requires
        abs_int(p.x - goal.x) < crate::components::MAX_COORD,
        abs_int(p.y - goal.y) < crate::components::MAX_COORD,
    ensures
        r == crate::components::spec_distance(*p, *goal) / 3,
{
    (p.distance(goal) / 3) as u32
}

/// Relies on `pathfinding::prelude::astar`: it returns a shortest path from
/// `start` to a node satisfying the success predicate, comprising both the
/// start and end node and never repeating a node, together with the summed
/// move cost, or `None` exactly when no such path exists. Every move costs 1
/// here, so the cost is the path length minus one, and a shortest path is
/// exactly a path of minimal length. The heuristic handed to `astar` is the
/// taxicab distance divided by 3, which never exceeds the true remaining
/// cost (at least the Chebyshev distance, which is at least half the taxicab
/// distance), as `astar`'s documentation demands of an admissible heuristic.
#[verifier::external_body]
fn astar_search(map: &GameMap, start: Position, goal: Position) -> (r: Option<
    (Vec<Position>, u32),
>)
    requires
        map.wf(),
        map.spec_in_bounds(start),
        map.spec_in_bounds(goal),
    ensures
        match r {
            Some(pc) => {
                &&& path_ok(*map, pc.0@, start, goal)
                &&& pc.1 == pc.0@.len() - 1
                &&& forall|q: Seq<Position>|
                    path_ok(*map, q, start, goal) ==> pc.0@.len() <= q.len()
            },
            None => forall|q: Seq<Position>| !path_ok(*map, q, start, goal),
        },
{
    pathfinding::prelude::astar(
        &start,
        |p: &Position| p.successors(map),
        |p: &Position| path_heuristic(p, &goal),
        |p: &Position| *p == goal,
    )
}

/// Computes a shortest-cost path from `start` to `goal` over the map's
/// 8-connected unblocked grid, or `None` if the goal is fully walled off.
///
/// The returned path always includes the start cell as element 0, so its
/// length is the move count plus one and never below 2; callers distinguish
/// "must move" (length above 2) from "adjacent, attack" (length exactly 2)
/// by this convention. An actor overlapping its own goal is an invariant
/// violation the caller must rule out beforehand.
pub fn find_path(map: &GameMap, start: Position, goal: Position) -> (r: Option<
    (Vec<Position>, u32),
>)
    requires
        map.wf(),
        map.spec_in_bounds(start),
        map.spec_in_bounds(goal),
        start != goal,
    ensures
        match r {
            Some(pc) => {
                &&& path_ok(*map, pc.0@, start, goal)
                &&& pc.0@.len() >= 2
                &&& pc.1 == pc.0@.len() - 1
                &&& forall|q: Seq<Position>|
                    path_ok(*map, q, start, goal) ==> pc.0@.len() <= q.len()
            },
            None => forall|q: Seq<Position>| !path_ok(*map, q, start, goal),
        },
{
    astar_search(map, start, goal)
}

/// The larger of the two coordinate differences between two positions: the
/// fewest moves any walk between them can take, one move changing each
/// coordinate by at most one.
pub open spec fn chebyshev(a: Position, b: Position) -> int {
    if abs_int(a.x - b.x) >= abs_int(a.y - b.y) {
        abs_int(a.x - b.x)
    } else {
        abs_int(a.y - b.y)
    }
}

/// No legal walk is shorter than the Chebyshev distance between its
/// endpoints.
pub proof fn lemma_path_lower_bound(
    m: GameMap,
    p: Seq<Position>,
    start: Position,
    goal: Position,
)
    requires
        path_ok(m, p, start, goal),
    ensures
        p.len() - 1 >= chebyshev(start, goal),
    decreases p.len(),
{
    if p.len() > 1 {
        let rest = p.subrange(1, p.len() as int);
        assert(step_ok(m, p[0], p[1]));
        assert(chebyshev(p[1], goal) >= chebyshev(start, goal) - 1);
        assert(path_ok(m, rest, p[1], goal)) by {
            assert(rest[0] == p[1]);
            assert(rest.last() == p.last());
            assert forall|i: int, j: int|
                0 <= i && j == i + 1 && j < rest.len() implies #[trigger] step_ok(
                m,
                rest[i],
                rest[j],
            ) by {
                assert(rest[i] == p[i + 1]);
                assert(rest[j] == p[j + 1]);
                assert(step_ok(m, p[i + 1], p[i + 2]));
            }
        }
        lemma_path_lower_bound(m, rest, p[1], goal);
    }
}



/// A direction with at least one nonzero component, each component a unit.
pub open spec fn unit_dir(dx: int, dy: int) -> bool {
    &&& !(dx == 0 && dy == 0)
    &&& -1 <= dx <= 1
    &&& -1 <= dy <= 1
}

/// The `i`-th cell of a straight corridor from `start` along (dx, dy).
pub open spec fn corridor_pos(start: Position, dx: int, dy: int, i: int) -> Position {
    Position { x: (start.x + i * dx) as i32, y: (start.y + i * dy) as i32 }
}

/// The straight walk along a corridor of `len` moves: `len + 1` cells,
/// both endpoints included.
pub open spec fn corridor_seq(start: Position, dx: int, dy: int, len: int) -> Seq<Position> {
    Seq::new((len + 1) as nat, |i: int| corridor_pos(start, dx, dy, i))
}

/// Whether every corridor cell after `start` lies on the map, unblocked.
pub open spec fn corridor_clear(
    m: GameMap,
    start: Position,
    dx: int,
    dy: int,
    len: int,
) -> bool {
    forall|i: int|
        #![trigger corridor_pos(start, dx, dy, i)]
        1 <= i <= len ==> {
            &&& 0 <= start.x + i * dx < m.width
            &&& 0 <= start.y + i * dy < m.height
            &&& !m.blocked_tiles@[m.pos_idx(corridor_pos(start, dx, dy, i))]
        }
}

/// A product with a unit factor is the other factor, its negation or zero.
proof fn lemma_unit_mul(n: int, d: int)
    requires
        -1 <= d <= 1,
    ensures
        d == 1 ==> n * d == n,
        d == -1 ==> n * d == -n,
        d == 0 ==> n * d == 0,
{
    assert(n * d == if d == 1 {
        n
    } else if d == -1 {
        -n
    } else {
        0int
    }) by (nonlinear_arith)
        requires
            -1 <= d <= 1,
    ;
}

/// For a start/goal pair joined by a known-clear straight corridor of `len`
/// moves, the straight walk itself is a legal path of `len + 1` cells, and
/// no legal path is shorter. Together with `find_path`'s contract this pins
/// its result on such a corridor to a `Some` holding a path of exactly
/// `len + 1` cells (endpoints inclusive) with cost `len`, the cost growing
/// by 1 per step.
pub proof fn lemma_corridor_path(m: GameMap, start: Position, dx: int, dy: int, len: int)
    requires
        m.wf(),
        unit_dir(dx, dy),
        len >= 1,
        m.spec_in_bounds(start),
        corridor_clear(m, start, dx, dy, len),
    ensures
        corridor_seq(start, dx, dy, len).len() == len + 1,
        path_ok(
            m,
            corridor_seq(start, dx, dy, len),
            start,
            corridor_pos(start, dx, dy, len),
        ),
        forall|q: Seq<Position>|
            path_ok(m, q, start, corridor_pos(start, dx, dy, len)) ==> q.len() >= len + 1,
{
    let p = corridor_seq(start, dx, dy, len);
    let goal = corridor_pos(start, dx, dy, len);
    assert(p[0] == start) by {
        lemma_unit_mul(0, dx);
        lemma_unit_mul(0, dy);
    }
    assert forall|i: int, j: int|
        0 <= i && j == i + 1 && j < p.len() implies #[trigger] step_ok(m, p[i], p[j]) by {
        lemma_unit_mul(i, dx);
        lemma_unit_mul(j, dx);
        lemma_unit_mul(i, dy);
        lemma_unit_mul(j, dy);
        assert(p[j].x - p[i].x == dx && p[j].y - p[i].y == dy);
    }
    assert forall|q: Seq<Position>| path_ok(m, q, start, goal) implies q.len() >= len + 1 by {
        lemma_path_lower_bound(m, q, start, goal);
        lemma_unit_mul(len, dx);
        lemma_unit_mul(len, dy);
        assert(chebyshev(start, goal) == len);
    }
}

} // verus!
