//! The simulation context: the map, the entity registry, the tick counter,
//! the log and the current phase, owned explicitly and passed by reference
//! into each phase function.

use vstd::prelude::*;

use crate::components::{Position, Ship, MAX_STAT};
use crate::log::{GameLog, GameTime};
use crate::map::{GameMap, MapTileType};
use crate::state::AppState;

verus! {

/// Largest number of entities the world admits; keeps one tick's damage
/// sums inside the machine integer types.
pub const MAX_SHIPS: usize = 0x4000;

/// Row-major cell index of a position on a map of the given width.
pub open spec fn cell_of(width: int, p: Position) -> int {
    p.y * width + p.x
}

/// Whether a cell's terrain alone refuses entry.
pub open spec fn terrain_blocked(m: GameMap, idx: int) -> bool {
    m.tiles@[idx] == MapTileType::Wall
}

/// Whether some ship flagged as a blocker stands on the given cell.
pub open spec fn blocker_at(width: int, ships: Seq<Ship>, idx: int) -> bool {
    exists|k: int|
        0 <= k < ships.len() && (#[trigger] ships[k]).block_tile && cell_of(
            width,
            ships[k].pos,
        ) == idx
}

/// Whether the map's blocking flags agree with its terrain plus the
/// blocking ships: the invariant the occupancy rebuild establishes.
pub open spec fn blocked_consistent(m: GameMap, ships: Seq<Ship>) -> bool {
    forall|idx: int|
        0 <= idx < m.blocked_tiles@.len() ==> #[trigger] m.blocked_tiles@[idx]
            == (terrain_blocked(m, idx) || blocker_at(m.width as int, ships, idx))
}

/// The identifiers of the ships standing on the given cell, in registry
/// order.
pub open spec fn occupants(width: int, ships: Seq<Ship>, idx: int) -> Seq<u64>
    decreases ships.len(),
{
    if ships.len() == 0 {
        Seq::empty()
    } else {
        let rest = occupants(width, ships.drop_last(), idx);
        if cell_of(width, ships.last().pos) == idx {
            rest.push(ships.last().id)
        } else {
            rest
        }
    }
}

/// Whether the map's occupancy lists agree with the ships' positions: the
/// other half of the rebuild's invariant.
pub open spec fn content_consistent(m: GameMap, ships: Seq<Ship>) -> bool {
    forall|idx: int|
        0 <= idx < m.tile_content@.len() ==> #[trigger] m.tile_content@[idx]@ == occupants(
            m.width as int,
            ships,
            idx,
        )
}

/// The simulation context object: every phase takes it by reference and
/// mutates exactly the parts its contract names.
pub struct World {
    pub map: GameMap,
    /// All live entities. The player's ship is always the first entry.
    pub ships: Vec<Ship>,
    /// Positions of loot/debris left behind by destroyed pirates.
    pub debris: Vec<Position>,
    pub time: GameTime,
    pub log: GameLog,
    /// The phase the state machine is in.
    pub state: AppState,
}

impl World {
    /// Per-ship well-formedness relative to this world's map: bounded
    /// stats and timers, an on-map position, and never standing on wall
    /// terrain.
    pub open spec fn ship_ok(self, s: Ship) -> bool {
        &&& s.stats.wf()
        &&& self.map.spec_in_bounds(s.pos)
        &&& !terrain_blocked(self.map, cell_of(self.map.width as int, s.pos))
        &&& s.wait_timer.turns <= MAX_STAT as u64
        &&& s.health_timer.turns <= MAX_STAT as u64
        &&& s.shield_timer.turns <= MAX_STAT as u64
    }

    /// Registry well-formedness: exactly one player, standing first,
    /// neither hostile nor blocking (it is attacked, never walked into);
    /// every other ship blocks the cell it stands on; every ship
    /// well-formed; identifiers and positions pairwise distinct.
    pub open spec fn ships_wf(self) -> bool {
        &&& 1 <= self.ships@.len() <= MAX_SHIPS
        &&& self.ships@[0].player
        &&& !self.ships@[0].pirate
        &&& !self.ships@[0].block_tile
        &&& forall|i: int|
            1 <= i < self.ships@.len() ==> !(#[trigger] self.ships@[i]).player && (
            #[trigger] self.ships@[i]).block_tile
        &&& forall|i: int|
            0 <= i < self.ships@.len() ==> self.ship_ok(#[trigger] self.ships@[i])
        &&& forall|i: int, j: int|
            0 <= i < j < self.ships@.len() ==> (#[trigger] self.ships@[i]).id
                != (#[trigger] self.ships@[j]).id && self.ships@[i].pos != self.ships@[j].pos
    }

    /// World well-formedness.
    pub open spec fn wf(self) -> bool {
        &&& self.map.wf()
        &&& self.ships_wf()
    }

    /// The player's ship.
    pub open spec fn player(self) -> Ship {
        self.ships@[0]
    }

    /// Updates the derived aspects of the map: resets the blocking flags
    /// from terrain, then fully clears and rebuilds the occupancy lists
    /// from the live entities, layering entity blocking on top. Must run
    /// once per tick, after `IncrementTime` and before `RunAI`, so the
    /// pirate decisions see a consistent snapshot.
    pub fn map_indexing(&mut self)
        requires
            old(self).wf(),
        ensures
            final(self).wf(),
            final(self).ships@ == old(self).ships@,
            final(self).debris@ == old(self).debris@,
            final(self).time == old(self).time,
            final(self).log.entries@ == old(self).log.entries@,
            final(self).state == old(self).state,
            final(self).map.width == old(self).map.width,
            final(self).map.height == old(self).map.height,
            final(self).map.tiles@ == old(self).map.tiles@,
            final(self).map.revealed_tiles@ == old(self).map.revealed_tiles@,
            blocked_consistent(final(self).map, final(self).ships@),
            content_consistent(final(self).map, final(self).ships@),
    {
        self.map.populate_blocked();
        self.map.clear_content_index();
        proof {
            assert forall|idx: int| 0 <= idx < self.map.tile_content@.len() implies #[trigger] self
                .map.tile_content@[idx]@ == occupants(
                self.map.width as int,
                self.ships@.take(0),
                idx,
            ) by {
                assert(self.map.tile_content@[idx]@ =~= Seq::<u64>::empty());
            }
        }
        let n = self.ships.len();
        let mut i: usize = 0;
        while i < n
            invariant
                self.wf(),
                i <= n,
                n == self.ships@.len(),
                self.ships@ == old(self).ships@,
                self.debris@ == old(self).debris@,
                self.time == old(self).time,
                self.log.entries@ == old(self).log.entries@,
                self.state == old(self).state,
                self.map.width == old(self).map.width,
                self.map.height == old(self).map.height,
                self.map.tiles@ == old(self).map.tiles@,
                self.map.revealed_tiles@ == old(self).map.revealed_tiles@,
                forall|idx: int|
                    0 <= idx < self.map.blocked_tiles@.len() ==> #[trigger] self
                        .map.blocked_tiles@[idx] == (terrain_blocked(self.map, idx)
                        || blocker_at(self.map.width as int, self.ships@.take(i as int), idx)),
                forall|idx: int|
                    0 <= idx < self.map.tile_content@.len() ==> #[trigger] self
                        .map.tile_content@[idx]@ == occupants(
                        self.map.width as int,
                        self.ships@.take(i as int),
                        idx,
                    ),
            decreases n - i,
        {
            let ghost prev_map = self.map;
            let px = self.ships[i].pos.x;
            let py = self.ships[i].pos.y;
            let id = self.ships[i].id;
            let blocker = self.ships[i].block_tile;
            let idx = self.map.xy_idx(px, py);
            if blocker {
                self.map.blocked_tiles[idx] = true;
            }
            let slot = &mut self.map.tile_content[idx];
            slot.push(id);
            proof {
                let w = self.map.width as int;
                let ships = self.ships@;
                assert forall|c: int| 0 <= c < self.map.blocked_tiles@.len() implies #[trigger] self
                    .map.blocked_tiles@[c] == (terrain_blocked(self.map, c) || blocker_at(
                    w,
                    ships.take(i + 1),
                    c,
                )) by {
                    lemma_blocker_at_step(w, ships, i as int, c);
                    assert(terrain_blocked(self.map, c) == terrain_blocked(prev_map, c));
                }
                assert forall|c: int| 0 <= c < self.map.tile_content@.len() implies #[trigger] self
                    .map.tile_content@[c]@ == occupants(w, ships.take(i + 1), c) by {
                    lemma_occupants_step(w, ships, i as int, c);
                }
            }
            i = i + 1;
        }
        proof {
            assert(self.ships@.take(n as int) =~= self.ships@);
        }
    }
}

/// Distinct in-bounds positions have distinct row-major cell indices.
pub proof fn lemma_cell_of_injective(width: int, p: Position, q: Position)
    requires
        0 < width,
        0 <= p.x < width,
        0 <= q.x < width,
        0 <= p.y,
        0 <= q.y,
        cell_of(width, p) == cell_of(width, q),
    ensures
        p == q,
{
    vstd::arithmetic::div_mod::lemma_fundamental_div_mod_converse(
        cell_of(width, p),
        width,
        p.y as int,
        p.x as int,
    );
    vstd::arithmetic::div_mod::lemma_fundamental_div_mod_converse(
        cell_of(width, q),
        width,
        q.y as int,
        q.x as int,
    );
}

/// Two registries agreeing on every ship's blocking flag, and on the
/// position of every blocking ship, block the same cells.
pub proof fn lemma_blocker_same(width: int, s1: Seq<Ship>, s2: Seq<Ship>, idx: int)
    requires
        s1.len() == s2.len(),
        forall|k: int|
            0 <= k < s1.len() ==> (#[trigger] s1[k]).block_tile == (#[trigger] s2[k]).block_tile
                && (s1[k].block_tile ==> s1[k].pos == s2[k].pos),
    ensures
        blocker_at(width, s1, idx) == blocker_at(width, s2, idx),
{
    if blocker_at(width, s1, idx) {
        let k = choose|k: int|
            0 <= k < s1.len() && (#[trigger] s1[k]).block_tile && cell_of(width, s1[k].pos)
                == idx;
        assert(s2[k].block_tile && cell_of(width, s2[k].pos) == idx);
    }
    if blocker_at(width, s2, idx) {
        let k = choose|k: int|
            0 <= k < s2.len() && (#[trigger] s2[k]).block_tile && cell_of(width, s2[k].pos)
                == idx;
        assert(s1[k].block_tile && cell_of(width, s1[k].pos) == idx);
    }
}

/// Extending the scanned prefix by one ship adds exactly that ship's
/// blocking contribution.
proof fn lemma_blocker_at_step(width: int, ships: Seq<Ship>, i: int, idx: int)
    requires
        0 <= i < ships.len(),
    ensures
        blocker_at(width, ships.take(i + 1), idx) == (blocker_at(width, ships.take(i), idx) || (
        ships[i].block_tile && cell_of(width, ships[i].pos) == idx)),
{
    let a = ships.take(i);
    let b = ships.take(i + 1);
    if blocker_at(width, b, idx) {
        let k = choose|k: int|
            0 <= k < b.len() && (#[trigger] b[k]).block_tile && cell_of(width, b[k].pos) == idx;
        if k < i {
            assert(a[k] == b[k]);
            assert(blocker_at(width, a, idx));
        } else {
            assert(b[k] == ships[i]);
        }
    }
    if blocker_at(width, a, idx) {
        let k = choose|k: int|
            0 <= k < a.len() && (#[trigger] a[k]).block_tile && cell_of(width, a[k].pos) == idx;
        assert(b[k] == a[k]);
        assert(blocker_at(width, b, idx));
    }
    if ships[i].block_tile && cell_of(width, ships[i].pos) == idx {
        assert(b[i] == ships[i]);
        assert(blocker_at(width, b, idx));
    }
}

/// Extending the scanned prefix by one ship appends exactly that ship's
/// identifier to its own cell's occupants and no other cell's.
proof fn lemma_occupants_step(width: int, ships: Seq<Ship>, i: int, idx: int)
    requires
        0 <= i < ships.len(),
    ensures
        occupants(width, ships.take(i + 1), idx) == if cell_of(width, ships[i].pos) == idx {
            occupants(width, ships.take(i), idx).push(ships[i].id)
        } else {
            occupants(width, ships.take(i), idx)
        },
{
    assert(ships.take(i + 1).drop_last() =~= ships.take(i));
    assert(ships.take(i + 1).last() == ships[i]);
}

/// Rebuilding the occupancy index twice in succession, with no entity
/// movement in between, yields identical blocking flags and identical
/// occupancy lists: the rebuilt data is a function of the terrain and the
/// entities alone.
pub proof fn lemma_rebuild_idempotent(m1: GameMap, m2: GameMap, ships: Seq<Ship>)
    requires
        m1.width == m2.width,
        m1.tiles@ == m2.tiles@,
        m1.blocked_tiles@.len() == m2.blocked_tiles@.len(),
        m1.tile_content@.len() == m2.tile_content@.len(),
        blocked_consistent(m1, ships),
        blocked_consistent(m2, ships),
        content_consistent(m1, ships),
        content_consistent(m2, ships),
    ensures
        m1.blocked_tiles@ == m2.blocked_tiles@,
        forall|idx: int|
            0 <= idx < m1.tile_content@.len() ==> #[trigger] m1.tile_content@[idx]@
                == m2.tile_content@[idx]@,
{
    assert(m1.blocked_tiles@ =~= m2.blocked_tiles@);
}

} // verus!
