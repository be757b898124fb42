//! The `RunAI` phase: every pirate whose wait timer has expired paths
//! toward the player and either closes in by one step or, once adjacent,
//! raises a melee intent against the player.

use vstd::prelude::*;

use crate::combat::melee_targets_live;
use crate::components::{Position, Ship, WaitTimer};
use crate::map::GameMap;
use crate::pathing::{adjacent, find_path, path_ok, step_ok};
use crate::state::AppState;
use crate::world::{
    blocked_consistent, blocker_at, cell_of, lemma_blocker_same, lemma_cell_of_injective,
    terrain_blocked, World,
};

verus! {

/// A coarse per-ship summary of one acting pirate's outcome, stated
/// against the player's position alone. Adjacent to the player (the
/// shortest path holds exactly two cells), it raises a melee intent and
/// pays its melee speed; otherwise it either takes one step — never onto
/// the player's own cell — paying its movement speed, or stands still.
/// The exact step-by-step relation, under which a pirate with any path
/// to the player must move and only a walled-off pirate stands still,
/// is `ai_pirate_step`, composed over the whole registry by `ai_scan`.
pub open spec fn ai_outcome(pre: Ship, post: Ship, player_pos: Position, player_id: u64) -> bool {
    if adjacent(pre.pos, player_pos) {
        post == (Ship {
            wants_melee: Some(player_id),
            wait_timer: WaitTimer { turns: pre.stats.melee_speed },
            ..pre
        })
    } else {
        post == pre || (post.pos != player_pos && adjacent(pre.pos, post.pos) && post == (Ship {
            pos: post.pos,
            wait_timer: WaitTimer { turns: pre.stats.speed },
            ..pre
        }))
    }
}

/// What one scan step over a single registry slot does, relative to the
/// blocking flags as they stood when that slot was visited (`m`) and
/// what it leaves them as (`m2`). A ship that is no acting pirate is
/// untouched, and so are the flags. An acting pirate adjacent to the
/// player raises the melee intent. Otherwise, if any legal walk to the
/// player exists on `m`, the pirate must act: it takes exactly one step,
/// onto the second cell of some minimal path (never the player's own
/// cell), freeing its old cell's blocking flag and claiming the new
/// one, and pays its movement speed. Only a pirate fully walled off
/// stands still.
pub open spec fn ai_pirate_step(
    m: GameMap,
    pre: Ship,
    m2: GameMap,
    post: Ship,
    player_pos: Position,
    player_id: u64,
) -> bool {
    if !(pre.pirate && pre.wait_timer.turns == 0) {
        post == pre && m2 == m
    } else if adjacent(pre.pos, player_pos) {
        post == (Ship {
            wants_melee: Some(player_id),
            wait_timer: WaitTimer { turns: pre.stats.melee_speed },
            ..pre
        }) && m2 == m
    } else if exists|q: Seq<Position>| path_ok(m, q, pre.pos, player_pos) {
        &&& post == (Ship {
            pos: post.pos,
            wait_timer: WaitTimer { turns: pre.stats.speed },
            ..pre
        })
        &&& post.pos != player_pos
        &&& step_ok(m, pre.pos, post.pos)
        &&& exists|p: Seq<Position>|
            path_ok(m, p, pre.pos, player_pos) && p.len() > 2 && p[1] == post.pos && (forall|
                q: Seq<Position>,
            |
                path_ok(m, q, pre.pos, player_pos) ==> p.len() <= q.len())
        &&& m2 == (GameMap { blocked_tiles: m2.blocked_tiles, ..m })
        &&& m2.blocked_tiles@ == m.blocked_tiles@.update(
            cell_of(m.width as int, pre.pos),
            false,
        ).update(cell_of(m.width as int, post.pos), true)
    } else {
        post == pre && m2 == m
    }
}

/// The whole `RunAI` scan: the first `k` registry slots processed in
/// order, each against the blocking flags its predecessors left behind,
/// ending with the flags of `mk`.
pub open spec fn ai_scan(
    m0: GameMap,
    pre: Seq<Ship>,
    post: Seq<Ship>,
    k: int,
    mk: GameMap,
    player_pos: Position,
    player_id: u64,
) -> bool
    decreases k,
{
    if k <= 0 {
        mk == m0
    } else {
        exists|mp: GameMap|
            ai_scan(m0, pre, post, k - 1, mp, player_pos, player_id)
                && #[trigger] ai_pirate_step(
                mp,
                pre[k - 1],
                mk,
                post[k - 1],
                player_pos,
                player_id,
            )
    }
}

/// The scan relation reads only the first `k` slots of the outcome
/// registry.
proof fn lemma_ai_scan_prefix(
    m0: GameMap,
    pre: Seq<Ship>,
    post1: Seq<Ship>,
    post2: Seq<Ship>,
    k: int,
    mk: GameMap,
    player_pos: Position,
    player_id: u64,
)
    requires
        ai_scan(m0, pre, post1, k, mk, player_pos, player_id),
        forall|j: int| 0 <= j < k ==> post1[j] == #[trigger] post2[j],
    ensures
        ai_scan(m0, pre, post2, k, mk, player_pos, player_id),
    decreases k,
{
    if k > 0 {
        let mp = choose|mp: GameMap|
            ai_scan(m0, pre, post1, k - 1, mp, player_pos, player_id)
                && #[trigger] ai_pirate_step(
                mp,
                pre[k - 1],
                mk,
                post1[k - 1],
                player_pos,
                player_id,
            );
        lemma_ai_scan_prefix(m0, pre, post1, post2, k - 1, mp, player_pos, player_id);
        assert(ai_pirate_step(mp, pre[k - 1], mk, post2[k - 1], player_pos, player_id));
    }
}

/// If two registries agree on identifiers, and every melee intent either
/// carried over or names an identifier present in the new registry, then
/// liveness of intent targets carries over.
pub(crate) proof fn lemma_targets_carry(pre: Seq<Ship>, cur: Seq<Ship>)
    requires
        pre.len() == cur.len(),
        forall|k: int| 0 <= k < pre.len() ==> (#[trigger] cur[k]).id == pre[k].id,
        melee_targets_live(pre),
        forall|k: int|
            0 <= k < cur.len() ==> (#[trigger] cur[k]).wants_melee == pre[k].wants_melee || (
            cur[k].wants_melee is Some && exists|j: int|
                0 <= j < cur.len() && (#[trigger] cur[j]).id == cur[k].wants_melee->Some_0),
    ensures
        melee_targets_live(cur),
{
    assert forall|k: int| 0 <= k < cur.len() implies match (#[trigger] cur[k]).wants_melee {
        Some(t) => exists|j: int| 0 <= j < cur.len() && (#[trigger] cur[j]).id == t,
        None => true,
    } by {
        match cur[k].wants_melee {
            Some(t) => {
                if cur[k].wants_melee == pre[k].wants_melee {
                    let j = choose|j: int| 0 <= j < pre.len() && (#[trigger] pre[j]).id == t;
                    assert(cur[j].id == t);
                }
            },
            None => {},
        }
    }
}

/// A shift of one ship's position changes blocking only at its old and
/// new cell.
proof fn lemma_blocker_shift(w: int, pre: Seq<Ship>, cur: Seq<Ship>, i: int, c: int)
    requires
        pre.len() == cur.len(),
        0 <= i < pre.len(),
        forall|k: int| 0 <= k < pre.len() && k != i ==> #[trigger] cur[k] == pre[k],
        cur[i].block_tile == pre[i].block_tile,
        c != cell_of(w, pre[i].pos),
        c != cell_of(w, cur[i].pos),
    ensures
        blocker_at(w, cur, c) == blocker_at(w, pre, c),
{
    if blocker_at(w, cur, c) {
        let k = choose|k: int|
            0 <= k < cur.len() && (#[trigger] cur[k]).block_tile && cell_of(w, cur[k].pos) == c;
        assert(k != i);
        assert(pre[k].block_tile && cell_of(w, pre[k].pos) == c);
        assert(blocker_at(w, pre, c));
    }
    if blocker_at(w, pre, c) {
        let k = choose|k: int|
            0 <= k < pre.len() && (#[trigger] pre[k]).block_tile && cell_of(w, pre[k].pos) == c;
        assert(k != i);
        assert(cur[k].block_tile && cell_of(w, cur[k].pos) == c);
        assert(blocker_at(w, cur, c));
    }
}

impl World {
    /// The `RunAI` phase: for every pirate whose wait timer is zero,
    /// compute a shortest path to the player's current position. A path
    /// longer than two cells means "not yet adjacent": the pirate moves
    /// one step along it and the blocking flags of its old and new cell
    /// are updated in place. A path of exactly two cells means "adjacent":
    /// the pirate raises a melee intent against the player instead. A
    /// pirate overlapping the player's cell would be an invariant
    /// violation, which registry well-formedness rules out beforehand.
    /// Pirates that are still waiting, and everything that is not a
    /// pirate, are untouched.
    pub fn pirate_ai(&mut self)
        requires
            old(self).wf(),
            old(self).state == AppState::RunAI,
            blocked_consistent(old(self).map, old(self).ships@),
            melee_targets_live(old(self).ships@),
        ensures
            final(self).wf(),
            final(self).state == AppState::RunCombat,
            blocked_consistent(final(self).map, final(self).ships@),
            melee_targets_live(final(self).ships@),
            final(self).ships@.len() == old(self).ships@.len(),
            final(self).ships@[0] == old(self).ships@[0],
            forall|j: int|
                0 <= j < old(self).ships@.len() && !((#[trigger] old(self).ships@[j]).pirate
                    && old(self).ships@[j].wait_timer.turns == 0) ==> final(self).ships@[j]
                    == old(self).ships@[j],
            forall|j: int|
                0 <= j < old(self).ships@.len() && (#[trigger] old(self).ships@[j]).pirate
                    && old(self).ships@[j].wait_timer.turns == 0 ==> ai_outcome(
                    old(self).ships@[j],
                    final(self).ships@[j],
                    old(self).ships@[0].pos,
                    old(self).ships@[0].id,
                ),
            ai_scan(
                old(self).map,
                old(self).ships@,
                final(self).ships@,
                old(self).ships@.len() as int,
                final(self).map,
                old(self).ships@[0].pos,
                old(self).ships@[0].id,
            ),
            final(self).map.width == old(self).map.width,
            final(self).map.height == old(self).map.height,
            final(self).map.tiles@ == old(self).map.tiles@,
            final(self).map.revealed_tiles@ == old(self).map.revealed_tiles@,
            final(self).map.tile_content@ == old(self).map.tile_content@,
            final(self).debris@ == old(self).debris@,
            final(self).time == old(self).time,
            final(self).log.entries@ == old(self).log.entries@,
    {
        let goal = self.ships[0].pos;
        let player_id = self.ships[0].id;
        let ghost goal_cell = cell_of(self.map.width as int, goal);
        proof {
            assert(self.ship_ok(self.ships@[0]));
            self.map.lemma_idx_in_range(goal.x as int, goal.y as int);
            if blocker_at(self.map.width as int, self.ships@, goal_cell) {
                let k = choose|k: int|
                    0 <= k < self.ships@.len() && (#[trigger] self.ships@[k]).block_tile
                        && cell_of(self.map.width as int, self.ships@[k].pos) == goal_cell;
                assert(self.ship_ok(self.ships@[k]));
                lemma_cell_of_injective(self.map.width as int, self.ships@[k].pos, goal);
            }
            assert(!self.map.blocked_tiles@[goal_cell]);
        }
        let n = self.ships.len();
        let mut i: usize = 0;
        while i < n
            invariant
                i <= n,
                n == self.ships@.len(),
                n == old(self).ships@.len(),
                old(self).wf(),
                self.wf(),
                self.ships@[0] == old(self).ships@[0],
                goal == old(self).ships@[0].pos,
                player_id == old(self).ships@[0].id,
                goal_cell == cell_of(self.map.width as int, goal),
                self.map.width == old(self).map.width,
                self.map.height == old(self).map.height,
                self.map.tiles@ == old(self).map.tiles@,
                self.map.revealed_tiles@ == old(self).map.revealed_tiles@,
                self.map.tile_content@ == old(self).map.tile_content@,
                self.debris@ == old(self).debris@,
                self.time == old(self).time,
                self.log.entries@ == old(self).log.entries@,
                self.state == old(self).state,
                blocked_consistent(self.map, self.ships@),
                0 <= goal_cell < self.map.blocked_tiles@.len(),
                !self.map.blocked_tiles@[goal_cell],
                melee_targets_live(self.ships@),
                ai_scan(
                    old(self).map,
                    old(self).ships@,
                    self.ships@,
                    i as int,
                    self.map,
                    goal,
                    player_id,
                ),
                forall|j: int|
                    i <= j < n ==> #[trigger] self.ships@[j] == old(self).ships@[j],
                forall|j: int|
                    0 <= j < i && !((#[trigger] old(self).ships@[j]).pirate && old(
                        self,
                    ).ships@[j].wait_timer.turns == 0) ==> self.ships@[j] == old(self).ships@[j],
                forall|j: int|
                    0 <= j < i && (#[trigger] old(self).ships@[j]).pirate && old(
                        self,
                    ).ships@[j].wait_timer.turns == 0 ==> ai_outcome(
                        old(self).ships@[j],
                        self.ships@[j],
                        goal,
                        player_id,
                    ),
            decreases n - i,
        {
            let ghost pre_self = *self;
            if self.ships[i].pirate && self.ships[i].wait_timer.turns == 0 {
                proof {
                    assert(i >= 1);
                    assert(self.ships@[i as int].pos != self.ships@[0].pos);
                }
                let start = self.ships[i].pos;
                proof {
                    assert(pre_self.ship_ok(pre_self.ships@[i as int]));
                    self.map.lemma_idx_in_range(start.x as int, start.y as int);
                }
                let result = find_path(&self.map, start, goal);
                if let Some(pc) = result {
                    let path = pc.0;
                    proof {
                        assert(step_ok(pre_self.map, path@[0], path@[1]));
                    }
                    if path.len() > 2 {
                        let np = path[1];
                        proof {
                            if np == goal {
                                let q = seq![start, np];
                                assert(q.last() == goal);
                                assert(path_ok(pre_self.map, q, start, goal));
                            }
                            assert(np != goal);
                            if adjacent(start, goal) {
                                let q = seq![start, goal];
                                assert(step_ok(pre_self.map, start, goal));
                                assert(path_ok(pre_self.map, q, start, goal));
                            }
                            assert(!adjacent(start, goal));
                        }
                        let old_idx = self.map.xy_idx(start.x, start.y);
                        self.map.blocked_tiles[old_idx] = false;
                        self.ships[i].pos = np;
                        let new_idx = self.map.xy_idx(np.x, np.y);
                        self.map.blocked_tiles[new_idx] = true;
                        let spd = self.ships[i].stats.speed;
                        self.ships[i].wait_timer.turns = spd;
                        proof {
                            let w = self.map.width as int;
                            let cur = self.ships@;
                            let pre_ships = pre_self.ships@;
                            let oc = old_idx as int;
                            let nc = new_idx as int;
                            assert(oc == cell_of(w, start));
                            assert(nc == cell_of(w, np));
                            assert(cur[i as int].pos == np);
                            assert(step_ok(pre_self.map, start, np));
                            assert(!pre_self.map.blocked_tiles@[nc]);
                            assert(!terrain_blocked(pre_self.map, nc));
                            assert(!blocker_at(w, pre_ships, nc));
                            assert(!terrain_blocked(self.map, nc));
                            assert forall|k: int| 0 <= k < n && k != i implies (
                            #[trigger] cur[k]).pos != np by {
                                if k == 0 {
                                    assert(cur[0].pos == goal);
                                } else {
                                    if cur[k].pos == np {
                                        assert(pre_ships[k].block_tile);
                                        assert(cell_of(w, pre_ships[k].pos) == nc);
                                        assert(blocker_at(w, pre_ships, nc));
                                    }
                                }
                            }
                            assert(self.wf()) by {
                                assert forall|k: int| 0 <= k < n implies self.ship_ok(
                                    #[trigger] cur[k],
                                ) by {
                                    assert(pre_self.ship_ok(pre_ships[k]));
                                }
                            }
                            assert(blocked_consistent(self.map, cur)) by {
                                assert forall|c: int|
                                    0 <= c < self.map.blocked_tiles@.len() implies #[trigger] self
                                    .map.blocked_tiles@[c] == (terrain_blocked(self.map, c)
                                    || blocker_at(w, cur, c)) by {
                                    if c == oc {
                                        assert(!terrain_blocked(pre_self.map, oc)) by {
                                            assert(pre_self.ship_ok(pre_ships[i as int]));
                                        }
                                        if blocker_at(w, cur, c) {
                                            let k = choose|k: int|
                                                0 <= k < cur.len() && (
                                                #[trigger] cur[k]).block_tile && cell_of(
                                                    w,
                                                    cur[k].pos,
                                                ) == c;
                                            assert(pre_self.ship_ok(pre_ships[k]));
                                            lemma_cell_of_injective(w, cur[k].pos, start);
                                            assert(cur[k].pos == start);
                                            if k == i {
                                                assert(np == start);
                                                assert(false);
                                            } else {
                                                assert(pre_ships[k].pos == start);
                                                assert(pre_ships[k].pos != pre_ships[
                                                i as int].pos);
                                                assert(false);
                                            }
                                        }
                                    } else if c == nc {
                                        assert(cur[i as int].block_tile && cell_of(w, np) == c);
                                        assert(blocker_at(w, cur, c));
                                    } else {
                                        lemma_blocker_shift(w, pre_ships, cur, i as int, c);
                                    }
                                }
                            }
                            assert(!self.map.blocked_tiles@[goal_cell]) by {
                                assert(pre_self.ship_ok(pre_ships[0]));
                                assert(pre_self.ship_ok(pre_ships[i as int]));
                                assert(start != goal);
                                if goal_cell == oc {
                                    lemma_cell_of_injective(w, start, goal);
                                }
                                if goal_cell == nc {
                                    lemma_cell_of_injective(w, np, goal);
                                }
                            }
                            assert(melee_targets_live(cur)) by {
                                lemma_targets_carry(pre_ships, cur);
                            }
                            assert(exists|q: Seq<Position>|
                                path_ok(pre_self.map, q, start, goal)) by {
                                assert(path_ok(pre_self.map, path@, start, goal));
                            }
                            assert(self.map == (GameMap {
                                blocked_tiles: self.map.blocked_tiles,
                                ..pre_self.map
                            }));
                            assert(self.map.blocked_tiles@
                                =~= pre_self.map.blocked_tiles@.update(oc, false).update(
                                nc,
                                true,
                            ));
                            assert(ai_pirate_step(
                                pre_self.map,
                                pre_ships[i as int],
                                self.map,
                                cur[i as int],
                                goal,
                                player_id,
                            )) by {
                                assert(path_ok(pre_self.map, path@, start, goal)
                                    && path@.len() > 2 && path@[1] == cur[i as int].pos);
                            }
                        }
                    } else {
                        proof {
                            assert(path@.len() == 2);
                            assert(path@[1] == path@.last());
                            assert(adjacent(start, goal));
                        }
                        self.ships[i].wants_melee = Some(player_id);
                        let mspd = self.ships[i].stats.melee_speed;
                        self.ships[i].wait_timer.turns = mspd;
                        proof {
                            let w = self.map.width as int;
                            let cur = self.ships@;
                            let pre_ships = pre_self.ships@;
                            assert(self.wf()) by {
                                assert forall|k: int| 0 <= k < n implies self.ship_ok(
                                    #[trigger] cur[k],
                                ) by {
                                    assert(pre_self.ship_ok(pre_ships[k]));
                                }
                            }
                            assert(blocked_consistent(self.map, cur)) by {
                                assert forall|c: int|
                                    0 <= c < self.map.blocked_tiles@.len() implies #[trigger] self
                                    .map.blocked_tiles@[c] == (terrain_blocked(self.map, c)
                                    || blocker_at(w, cur, c)) by {
                                    lemma_blocker_same(w, pre_ships, cur, c);
                                }
                            }
                            assert(melee_targets_live(cur)) by {
                                assert(cur[0].id == player_id);
                                lemma_targets_carry(pre_ships, cur);
                            }
                            assert(ai_pirate_step(
                                pre_self.map,
                                pre_ships[i as int],
                                self.map,
                                cur[i as int],
                                goal,
                                player_id,
                            ));
                        }
                    }
                } else {
                    proof {
                        if adjacent(start, goal) {
                            let q = seq![start, goal];
                            assert(step_ok(pre_self.map, start, goal));
                            assert(path_ok(pre_self.map, q, start, goal));
                        }
                        assert(ai_outcome(
                            old(self).ships@[i as int],
                            self.ships@[i as int],
                            goal,
                            player_id,
                        ));
                        assert(ai_pirate_step(
                            pre_self.map,
                            pre_self.ships@[i as int],
                            self.map,
                            self.ships@[i as int],
                            goal,
                            player_id,
                        ));
                    }
                }
            } else {
                proof {
                    assert(ai_pirate_step(
                        pre_self.map,
                        pre_self.ships@[i as int],
                        self.map,
                        self.ships@[i as int],
                        goal,
                        player_id,
                    ));
                }
            }
            proof {
                lemma_ai_scan_prefix(
                    old(self).map,
                    old(self).ships@,
                    pre_self.ships@,
                    self.ships@,
                    i as int,
                    pre_self.map,
                    goal,
                    player_id,
                );
                assert(old(self).ships@[i as int] == pre_self.ships@[i as int]);
                let k1: int = i as int + 1;
                assert(ai_scan(old(self).map, old(self).ships@, self.ships@, k1 - 1, pre_self.map, goal, player_id));
                assert(ai_pirate_step(
                    pre_self.map,
                    old(self).ships@[k1 - 1],
                    self.map,
                    self.ships@[k1 - 1],
                    goal,
                    player_id,
                ));
                assert(ai_scan(
                    old(self).map,
                    old(self).ships@,
                    self.ships@,
                    k1,
                    self.map,
                    goal,
                    player_id,
                ));
            }
            i = i + 1;
        }
        self.state = AppState::RunCombat;
    }
}

} // verus!
