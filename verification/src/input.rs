//! The `AwaitingInput` phase: applying one player intent to the world.
//! Raw input capture lives outside the core; what arrives here are
//! discrete intents.

use vstd::prelude::*;

use crate::combat::melee_targets_live;
use crate::components::{Position, Ship, WaitTimer};
use crate::log::LogEvent;
use crate::map::MapTileType;
use crate::state::AppState;
use crate::world::{
    blocked_consistent, blocker_at, cell_of, content_consistent, lemma_blocker_same, occupants,
    World,
};

verus! {

/// One discrete player intent, as handed in by the input collaborator.
#[derive(Clone, Copy, Debug, Eq, PartialEq, Structural)]
pub enum PlayerIntent {
    /// Move (or attack) one step in one of the 8 unit directions.
    MoveBy { dx: i32, dy: i32 },
    /// Pass one game turn in place.
    Wait,
    /// Attempt to use the tile currently occupied, e.g. enter a wormhole.
    Interact,
    /// Open the inventory menu; consumes no turn.
    OpenMenu,
}

/// What the player's intent came to. Invalid intents yield `NoAction`,
/// never an error.
#[derive(Clone, Copy, Debug, Eq, PartialEq, Structural)]
pub enum PlayerAction {
    /// Nothing happened, e.g. the player bumped into a wall.
    NoAction,
    /// The player waited in place for a single game turn.
    WaitTurn,
    /// The player moved one cell.
    Moved,
    /// The player attacked an adjacent entity.
    MeleeAttack,
    /// The player entered the inventory menu.
    OpenInventoryMenu,
    /// The player entered a wormhole toward the next level.
    EnterWormhole,
}

/// The destination cell of a one-step move.
pub open spec fn spec_dest(p: Position, dx: i32, dy: i32) -> Position {
    Position { x: (p.x + dx) as i32, y: (p.y + dy) as i32 }
}

/// What a move attempt does: out of bounds or into a blocked empty cell,
/// nothing; into an occupied cell, an attack on the first occupant (attack
/// takes priority over movement, even if the cell is not blocked); into a
/// free open cell, the move itself.
pub open spec fn move_outcome(pre: World, post: World, dx: i32, dy: i32, r: PlayerAction) -> bool {
    let d = spec_dest(pre.player().pos, dx, dy);
    let w = pre.map.width as int;
    let c = cell_of(w, d);
    let occ = occupants(w, pre.ships@, c);
    if !pre.map.spec_in_bounds(d) {
        &&& r == PlayerAction::NoAction
        &&& post == pre
    } else if occ.len() > 0 {
        &&& r == PlayerAction::MeleeAttack
        &&& post.ships@ == pre.ships@.update(
            0,
            (Ship { wants_melee: Some(occ[0]), ..pre.player() }),
        )
        &&& post == (World { ships: post.ships, ..pre })
    } else if pre.map.blocked_tiles@[c] {
        &&& r == PlayerAction::NoAction
        &&& post == pre
    } else {
        &&& r == PlayerAction::Moved
        &&& post.ships@ == pre.ships@.update(0, (Ship { pos: d, ..pre.player() }))
        &&& post == (World { ships: post.ships, ..pre })
    }
}

/// What one consumed intent does to the whole world: the move outcome
/// plus the wait-timer cost of the action taken (move: ship speed; melee:
/// melee speed; wait: 1) and the state transition (an action hands the
/// tick to `RunAI`; a wormhole leads to `NextLevel`; the menu suspends
/// the cycle; no action leaves the world untouched, awaiting input).
pub open spec fn input_outcome(
    pre: World,
    post: World,
    intent: PlayerIntent,
    r: PlayerAction,
) -> bool {
    match intent {
        PlayerIntent::MoveBy { dx, dy } => {
            let d = spec_dest(pre.player().pos, dx, dy);
            let w = pre.map.width as int;
            let c = cell_of(w, d);
            let occ = occupants(w, pre.ships@, c);
            if !pre.map.spec_in_bounds(d) || (occ.len() == 0 && pre.map.blocked_tiles@[c]) {
                &&& r == PlayerAction::NoAction
                &&& post == pre
            } else if occ.len() > 0 {
                &&& r == PlayerAction::MeleeAttack
                &&& post.ships@ == pre.ships@.update(
                    0,
                    (Ship {
                        wants_melee: Some(occ[0]),
                        wait_timer: WaitTimer { turns: pre.player().stats.melee_speed },
                        ..pre.player()
                    }),
                )
                &&& post == (World { ships: post.ships, state: AppState::RunAI, ..pre })
            } else {
                &&& r == PlayerAction::Moved
                &&& post.ships@ == pre.ships@.update(
                    0,
                    (Ship {
                        pos: d,
                        wait_timer: WaitTimer { turns: pre.player().stats.speed },
                        ..pre.player()
                    }),
                )
                &&& post == (World { ships: post.ships, state: AppState::RunAI, ..pre })
            }
        },
        PlayerIntent::Wait => {
            &&& r == PlayerAction::WaitTurn
            &&& post.ships@ == pre.ships@.update(
                0,
                (Ship { wait_timer: WaitTimer { turns: 1 }, ..pre.player() }),
            )
            &&& post == (World { ships: post.ships, state: AppState::RunAI, ..pre })
        },
        PlayerIntent::Interact => {
            if pre.map.tiles@[cell_of(pre.map.width as int, pre.player().pos)]
                == MapTileType::Wormhole {
                &&& r == PlayerAction::EnterWormhole
                &&& post == (World { log: post.log, state: AppState::NextLevel, ..pre })
                &&& post.log.entries@ == pre.log.entries@.push(
                    (pre.time.tick, LogEvent::EnteredWormhole),
                )
            } else {
                &&& r == PlayerAction::NoAction
                &&& post == (World { log: post.log, ..pre })
                &&& post.log.entries@ == pre.log.entries@.push(
                    (pre.time.tick, LogEvent::CannotEnter),
                )
            }
        },
        PlayerIntent::OpenMenu => {
            &&& r == PlayerAction::OpenInventoryMenu
            &&& post == (World { state: AppState::InventoryMenu, ..pre })
        },
    }
}

/// Ship identifiers listed as a cell's occupants belong to ships standing
/// on that cell.
proof fn lemma_occupants_member(width: int, ships: Seq<Ship>, idx: int, e: u64)
    requires
        occupants(width, ships, idx).contains(e),
    ensures
        exists|k: int|
            0 <= k < ships.len() && (#[trigger] ships[k]).id == e && cell_of(
                width,
                ships[k].pos,
            ) == idx,
    decreases ships.len(),
{
    if ships.len() > 0 {
        let rest = occupants(width, ships.drop_last(), idx);
        if cell_of(width, ships.last().pos) == idx && e == ships.last().id {
            assert(ships[ships.len() - 1].id == e);
        } else {
            assert(rest.contains(e)) by {
                if cell_of(width, ships.last().pos) == idx {
                    let j = choose|j: int|
                        0 <= j < rest.push(ships.last().id).len() && rest.push(
                            ships.last().id,
                        )[j] == e;
                    assert(rest[j] == e);
                }
            }
            lemma_occupants_member(width, ships.drop_last(), idx, e);
            let k = choose|k: int|
                0 <= k < ships.drop_last().len() && (#[trigger] ships.drop_last()[k]).id == e
                    && cell_of(width, ships.drop_last()[k].pos) == idx;
            assert(ships[k].id == e && cell_of(width, ships[k].pos) == idx);
        }
    }
}

impl World {
    /// Tries to move the player one step, checking bounds and collisions.
    /// If the destination cell's occupancy lists any entity, that entity
    /// is attacked, never walked into, even if the cell is not blocked.
    /// Bumping into a wall or a blocked cell yields no action.
    pub fn try_move_player(&mut self, delta_x: i32, delta_y: i32) -> (r: PlayerAction)
        requires
            old(self).wf(),
            old(self).state == AppState::AwaitingInput,
            -1 <= delta_x <= 1,
            -1 <= delta_y <= 1,
            !(delta_x == 0 && delta_y == 0),
            blocked_consistent(old(self).map, old(self).ships@),
            content_consistent(old(self).map, old(self).ships@),
            melee_targets_live(old(self).ships@),
        ensures
            final(self).wf(),
            move_outcome(*old(self), *final(self), delta_x, delta_y, r),
            melee_targets_live(final(self).ships@),
            blocked_consistent(final(self).map, final(self).ships@),
    {
        let ghost pre = *old(self);
        let px = self.ships[0].pos.x;
        let py = self.ships[0].pos.y;
        proof {
            assert(self.ship_ok(self.ships@[0]));
        }
        if px + delta_x < 0 || px + delta_x > self.map.width as i32 - 1 || py + delta_y < 0
            || py + delta_y > self.map.height as i32 - 1 {
            return PlayerAction::NoAction;
        }
        let dest = Position { x: px + delta_x, y: py + delta_y };
        let dest_idx = self.map.xy_idx(dest.x, dest.y);
        let ghost w = self.map.width as int;
        let ghost occ = occupants(w, self.ships@, dest_idx as int);
        proof {
            assert(self.map.tile_content@[dest_idx as int]@ == occ);
        }
        if self.map.tile_content[dest_idx].len() > 0 {
            let slot = &self.map.tile_content[dest_idx];
            let target = slot[0];
            self.ships[0].wants_melee = Some(target);
            proof {
                assert(occ.contains(occ[0]));
                lemma_occupants_member(w, pre.ships@, dest_idx as int, target);
                let cur = self.ships@;
                assert(melee_targets_live(cur)) by {
                    assert forall|k: int| 0 <= k < cur.len() implies match (
                    #[trigger] cur[k]).wants_melee {
                        Some(t) => exists|j: int|
                            0 <= j < cur.len() && (#[trigger] cur[j]).id == t,
                        None => true,
                    } by {
                        if k == 0 {
                            let m = choose|m: int|
                                0 <= m < pre.ships@.len() && (#[trigger] pre.ships@[m]).id
                                    == target && cell_of(w, pre.ships@[m].pos) == dest_idx;
                            assert(cur[m].id == target);
                        } else {
                            match cur[k].wants_melee {
                                Some(t) => {
                                    let j = choose|j: int|
                                        0 <= j < pre.ships@.len() && (
                                        #[trigger] pre.ships@[j]).id == t;
                                    assert(cur[j].id == t);
                                },
                                None => {},
                            }
                        }
                    }
                }
                assert(blocked_consistent(self.map, cur)) by {
                    assert forall|c: int|
                        0 <= c < self.map.blocked_tiles@.len() implies #[trigger] self
                        .map.blocked_tiles@[c] == (crate::world::terrain_blocked(self.map, c)
                        || blocker_at(w, cur, c)) by {
                        lemma_blocker_same(w, pre.ships@, cur, c);
                    }
                }
                assert(self.wf()) by {
                    assert forall|k: int| 0 <= k < cur.len() implies self.ship_ok(
                        #[trigger] cur[k],
                    ) by {
                        assert(pre.ship_ok(pre.ships@[k]));
                    }
                }
            }
            return PlayerAction::MeleeAttack;
        }
        if !self.map.blocked_tiles[dest_idx] {
            self.ships[0].pos = dest;
            proof {
                let cur = self.ships@;
                assert(!blocker_at(w, pre.ships@, dest_idx as int));
                assert forall|k: int| 1 <= k < cur.len() implies (#[trigger] cur[k]).pos
                    != dest by {
                    if cur[k].pos == dest {
                        assert(pre.ships@[k].block_tile);
                        assert(blocker_at(w, pre.ships@, dest_idx as int));
                    }
                }
                assert(self.wf()) by {
                    assert forall|k: int| 0 <= k < cur.len() implies self.ship_ok(
                        #[trigger] cur[k],
                    ) by {
                        assert(pre.ship_ok(pre.ships@[k]));
                    }
                }
                assert(blocked_consistent(self.map, cur)) by {
                    assert forall|c: int|
                        0 <= c < self.map.blocked_tiles@.len() implies #[trigger] self
                        .map.blocked_tiles@[c] == (crate::world::terrain_blocked(self.map, c)
                        || blocker_at(w, cur, c)) by {
                        lemma_blocker_same(w, pre.ships@, cur, c);
                    }
                }
                assert(melee_targets_live(cur)) by {
                    crate::ai::lemma_targets_carry(pre.ships@, cur);
                }
            }
            return PlayerAction::Moved;
        }
        PlayerAction::NoAction
    }

    /// Checks whether the player may enter the location under them: a
    /// wormhole leads to the next level; anything else logs a refusal and
    /// yields no action.
    pub fn try_enter_location(&mut self) -> (r: PlayerAction)
        requires
            old(self).wf(),
            old(self).state == AppState::AwaitingInput,
        ensures
            final(self).wf(),
            final(self).ships == old(self).ships,
            final(self).map == old(self).map,
            final(self).debris == old(self).debris,
            final(self).time == old(self).time,
            final(self).state == old(self).state,
            if old(self).map.tiles@[cell_of(
                old(self).map.width as int,
                old(self).player().pos,
            )] == MapTileType::Wormhole {
                &&& r == PlayerAction::EnterWormhole
                &&& final(self).log.entries@ == old(self).log.entries@.push(
                    (old(self).time.tick, LogEvent::EnteredWormhole),
                )
            } else {
                &&& r == PlayerAction::NoAction
                &&& final(self).log.entries@ == old(self).log.entries@.push(
                    (old(self).time.tick, LogEvent::CannotEnter),
                )
            },
    {
        proof {
            assert(self.ship_ok(self.ships@[0]));
        }
        let px = self.ships[0].pos.x;
        let py = self.ships[0].pos.y;
        let idx = self.map.xy_idx(px, py);
        let tick = self.time.tick;
        let is_wormhole = match self.map.tiles[idx] {
            MapTileType::Wormhole => true,
            _ => false,
        };
        if is_wormhole {
            self.log.new_log(LogEvent::EnteredWormhole, tick);
            PlayerAction::EnterWormhole
        } else {
            self.log.new_log(LogEvent::CannotEnter, tick);
            PlayerAction::NoAction
        }
    }

    /// The `AwaitingInput` phase: consumes exactly one player intent.
    /// A valid move applies movement or raises a melee intent and pays
    /// the action's wait-timer cost; waiting costs one tick; entering a
    /// wormhole leads to the next level; opening the menu suspends the
    /// cycle without consuming a turn; everything else is ignored and the
    /// phase keeps waiting. The player must be free to act: a pending
    /// wait timer here would be an invariant violation.
    pub fn player_input(&mut self, intent: PlayerIntent) -> (r: PlayerAction)
        requires
            old(self).wf(),
            old(self).phase_inv(),
            old(self).state == AppState::AwaitingInput,
            intent matches PlayerIntent::MoveBy { dx, dy } ==> -1 <= dx <= 1 && -1 <= dy <= 1
                && !(dx == 0 && dy == 0),
        ensures
            final(self).wf(),
            input_outcome(*old(self), *final(self), intent, r),
            melee_targets_live(final(self).ships@),
            blocked_consistent(final(self).map, final(self).ships@),
            final(self).phase_inv(),
    {
        let ghost pre = *old(self);
        match intent {
            PlayerIntent::MoveBy { dx, dy } => {
                let act = self.try_move_player(dx, dy);
                let ghost mid = *self;
                match act {
                    PlayerAction::Moved => {
                        let spd = self.ships[0].stats.speed;
                        self.ships[0].wait_timer.turns = spd;
                        self.state = AppState::RunAI;
                        proof {
                            lemma_input_step(pre, mid, *self);
                            assert(self.ships@ =~= pre.ships@.update(0, self.ships@[0]));
                        }
                    },
                    PlayerAction::MeleeAttack => {
                        let mspd = self.ships[0].stats.melee_speed;
                        self.ships[0].wait_timer.turns = mspd;
                        self.state = AppState::RunAI;
                        proof {
                            lemma_input_step(pre, mid, *self);
                            assert(self.ships@ =~= pre.ships@.update(0, self.ships@[0]));
                        }
                    },
                    _ => {
                    },
                }
                act
            },
            PlayerIntent::Wait => {
                self.ships[0].wait_timer.turns = 1;
                self.state = AppState::RunAI;
                proof {
                    lemma_input_step(pre, pre, *self);
                    assert(self.ships@ =~= pre.ships@.update(0, self.ships@[0]));
                }
                PlayerAction::WaitTurn
            },
            PlayerIntent::Interact => {
                let act = self.try_enter_location();
                let entered = match act {
                    PlayerAction::EnterWormhole => true,
                    _ => false,
                };
                if entered {
                    self.state = AppState::NextLevel;
                }
                act
            },
            PlayerIntent::OpenMenu => {
                self.state = AppState::InventoryMenu;
                PlayerAction::OpenInventoryMenu
            },
        }
    }
}

/// Collapsing a second update of the player's record onto the first, and
/// carrying well-formedness and the registry invariants across a change
/// of the player's wait timer.
proof fn lemma_input_step(pre: World, mid: World, post: World)
    requires
        pre.wf(),
        mid.wf(),
        melee_targets_live(mid.ships@),
        blocked_consistent(mid.map, mid.ships@),
        post.map == mid.map,
        post.ships@.len() == mid.ships@.len(),
        mid.ships@.len() >= 1,
        post.ships@ == mid.ships@.update(
            0,
            (Ship { wait_timer: post.ships@[0].wait_timer, ..mid.ships@[0] }),
        ),
        post.ships@[0].wait_timer.turns <= crate::components::MAX_STAT as u64,
    ensures
        post.wf(),
        melee_targets_live(post.ships@),
        blocked_consistent(post.map, post.ships@),
{
    let cur = post.ships@;
    let prev = mid.ships@;
    assert(cur[0] == (Ship { wait_timer: cur[0].wait_timer, ..prev[0] }));
    assert forall|k: int| 0 <= k < cur.len() implies post.ship_ok(#[trigger] cur[k]) by {
        assert(mid.ship_ok(prev[k]));
    }
    assert forall|c: int|
        0 <= c < post.map.blocked_tiles@.len() implies #[trigger] post.map.blocked_tiles@[c] == (
        crate::world::terrain_blocked(post.map, c) || blocker_at(
            post.map.width as int,
            cur,
            c,
        )) by {
        lemma_blocker_same(post.map.width as int, prev, cur, c);
    }
    crate::ai::lemma_targets_carry(prev, cur);
}

} // verus!
