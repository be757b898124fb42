//! The turn state machine: the set of phases and the strict order the
//! pipeline steps through them every tick.

use vstd::prelude::*;

use crate::ai::{ai_outcome, ai_scan};
use crate::combat::{melee_targets_live, spec_attacks, spec_combat_events};
use crate::components::{sum_u32, Ship, WaitTimer, MAX_STAT};
use crate::damage::delete_dead_post;
use crate::log::LogEvent;
use crate::time::tick_wait;
use crate::world::{blocked_consistent, content_consistent, World, MAX_SHIPS};

verus! {

/// The states of the turn state machine.
///
/// The cyclic phases run in strict order: `IncrementTime` then
/// `AwaitingInput` (skipped while the player's wait timer is still
/// running), `RunAI`, `RunCombat`, `RunDamage`, `DeleteDead`, `RunTimers`
/// and back to `IncrementTime`. `GameOver` is terminal; `InventoryMenu`
/// suspends the cycle and returns to `AwaitingInput`; `NewGame` and
/// `NextLevel` rebuild the map.
#[derive(Clone, Copy, Debug, Eq, Hash, PartialEq, Structural)]
pub enum AppState {
    MainMenu,
    NewGame,
    NextLevel,
    AwaitingInput,
    IncrementTime,
    RunAI,
    RunCombat,
    RunDamage,
    DeleteDead,
    RunTimers,
    GameOver,
    InventoryMenu,
}

impl World {
    /// No ship carries accumulated damage.
    pub open spec fn suffer_all_empty(self) -> bool {
        forall|i: int|
            0 <= i < self.ships@.len() ==> (#[trigger] self.ships@[i]).suffer_damage.amounts().len()
                == 0
    }

    /// No ship carries a pending melee intent.
    pub open spec fn wants_all_none(self) -> bool {
        forall|i: int|
            0 <= i < self.ships@.len() ==> (#[trigger] self.ships@[i]).wants_melee is None
    }

    /// Every ship is alive.
    pub open spec fn healths_positive(self) -> bool {
        forall|i: int|
            0 <= i < self.ships@.len() ==> (#[trigger] self.ships@[i]).stats.curr_health >= 1
    }

    /// One tick's accumulated damage per victim stays within the bound
    /// one combat pass can produce.
    pub open spec fn damage_bounded(self) -> bool {
        forall|i: int|
            0 <= i < self.ships@.len() ==> sum_u32(
                (#[trigger] self.ships@[i]).suffer_damage.amounts(),
            ) <= MAX_SHIPS * (MAX_STAT as int)
    }

    /// The invariant the state machine carries from phase to phase:
    /// accumulated damage exists only between combat and damage
    /// resolution and stays bounded; dead entities exist only between
    /// damage resolution and the death check; melee intents queued this
    /// tick are consumed by this tick's combat, and always name live
    /// ships; while the machine awaits input, the player is free to act
    /// and the occupancy index is a fresh, consistent snapshot; while the
    /// pirates decide, the blocking flags are consistent.
    pub open spec fn phase_inv(self) -> bool {
        &&& self.state != AppState::RunDamage ==> self.suffer_all_empty()
        &&& self.state == AppState::RunDamage ==> self.damage_bounded()
        &&& self.state != AppState::DeleteDead && self.state != AppState::GameOver
            ==> self.healths_positive()
        &&& self.state != AppState::RunAI && self.state != AppState::RunCombat
            ==> self.wants_all_none()
        &&& self.state == AppState::AwaitingInput || self.state == AppState::InventoryMenu
            ==> self.player().wait_timer.turns == 0 && content_consistent(self.map, self.ships@)
        &&& self.state == AppState::AwaitingInput || self.state == AppState::RunAI || self.state
            == AppState::InventoryMenu ==> blocked_consistent(self.map, self.ships@)
        &&& self.state == AppState::AwaitingInput || self.state == AppState::RunAI || self.state
            == AppState::RunCombat ==> melee_targets_live(self.ships@)
    }

    /// Advances the turn state machine by one phase. `IncrementTime`
    /// advances the clock, rebuilds the occupancy index and hands the
    /// tick to the player or the pirates; the middle phases run in strict
    /// order and close the cycle at `RunTimers`; the death check may exit
    /// to the terminal `GameOver` state instead. States that wait on the
    /// outside — input, the menus, map generation — and the absorbing
    /// `GameOver` state do nothing here: once the player is dead, no
    /// further phase ever executes.
    pub fn step(&mut self)
        requires
            old(self).wf(),
            old(self).phase_inv(),
            old(self).state == AppState::IncrementTime ==> old(self).time.tick < u64::MAX,
        ensures
            final(self).wf(),
            final(self).phase_inv(),
            match old(self).state {
                AppState::IncrementTime => {
                    &&& final(self).state == (if tick_wait(
                        old(self).player().wait_timer.turns,
                    ) == 0 {
                        AppState::AwaitingInput
                    } else {
                        AppState::RunAI
                    })
                    &&& final(self).time.tick == old(self).time.tick + 1
                    &&& final(self).ships@.len() == old(self).ships@.len()
                    &&& forall|i: int|
                        0 <= i < old(self).ships@.len() ==> final(self).ships@[i] == (Ship {
                            wait_timer: WaitTimer {
                                turns: tick_wait(old(self).ships@[i].wait_timer.turns),
                            },
                            ..old(self).ships@[i]
                        })
                    &&& final(self).map.tiles@ == old(self).map.tiles@
                    &&& final(self).debris@ == old(self).debris@
                    &&& final(self).log.entries@ == old(self).log.entries@
                },
                AppState::RunAI => {
                    &&& final(self).state == AppState::RunCombat
                    &&& final(self).ships@.len() == old(self).ships@.len()
                    &&& final(self).ships@[0] == old(self).ships@[0]
                    &&& ai_scan(
                        old(self).map,
                        old(self).ships@,
                        final(self).ships@,
                        old(self).ships@.len() as int,
                        final(self).map,
                        old(self).ships@[0].pos,
                        old(self).ships@[0].id,
                    )
                    &&& forall|j: int|
                        0 <= j < old(self).ships@.len() && (#[trigger] old(self).ships@[
                        j]).pirate && old(self).ships@[j].wait_timer.turns == 0
                            ==> ai_outcome(
                            old(self).ships@[j],
                            final(self).ships@[j],
                            old(self).ships@[0].pos,
                            old(self).ships@[0].id,
                        )
                    &&& forall|j: int|
                        0 <= j < old(self).ships@.len() && !((#[trigger] old(self).ships@[
                        j]).pirate && old(self).ships@[j].wait_timer.turns == 0)
                            ==> final(self).ships@[j] == old(self).ships@[j]
                    &&& final(self).map.tiles@ == old(self).map.tiles@
                    &&& final(self).debris@ == old(self).debris@
                    &&& final(self).log.entries@ == old(self).log.entries@
                },
                AppState::RunCombat => {
                    &&& final(self).state == AppState::RunDamage
                    &&& final(self).ships@.len() == old(self).ships@.len()
                    &&& forall|v: int|
                        0 <= v < old(self).ships@.len() ==> final(self).ships@[v] == (Ship {
                            wants_melee: None,
                            suffer_damage: final(self).ships@[v].suffer_damage,
                            ..old(self).ships@[v]
                        })
                    &&& forall|v: int|
                        0 <= v < old(self).ships@.len()
                            ==> (#[trigger] final(self).ships@[v]).suffer_damage.amounts()
                            == spec_attacks(old(self).ships@, old(self).ships@[v])
                    &&& final(self).log.entries@ == old(self).log.entries@
                        + spec_combat_events(
                        old(self).ships@,
                        old(self).ships@.len() as int,
                        old(self).time.tick,
                    )
                    &&& final(self).map == old(self).map
                    &&& final(self).debris@ == old(self).debris@
                },
                AppState::RunDamage => {
                    &&& final(self).state == AppState::DeleteDead
                    &&& final(self).ships@.len() == old(self).ships@.len()
                    &&& forall|i: int|
                        0 <= i < old(self).ships@.len() ==> final(self).ships@[i] == (Ship {
                            stats: crate::components::ShipStats {
                                curr_health: (old(self).ships@[i].stats.curr_health - sum_u32(
                                    old(self).ships@[i].suffer_damage.amounts(),
                                )) as i32,
                                ..old(self).ships@[i].stats
                            },
                            suffer_damage: final(self).ships@[i].suffer_damage,
                            ..old(self).ships@[i]
                        }) && (#[trigger] final(self).ships@[i]).suffer_damage.amounts().len()
                            == 0
                    &&& final(self).map == old(self).map
                    &&& final(self).debris@ == old(self).debris@
                    &&& final(self).log.entries@ == old(self).log.entries@
                },
                AppState::DeleteDead => {
                    &&& final(self).state == (if old(self).player().stats.curr_health < 1 {
                        AppState::GameOver
                    } else {
                        AppState::RunTimers
                    })
                    &&& exists|flips: Seq<bool>|
                        delete_dead_post(*old(self), *final(self), flips)
                },
                AppState::RunTimers => {
                    &&& final(self).state == AppState::IncrementTime
                    &&& final(self).ships@.len() == old(self).ships@.len()
                    &&& forall|i: int|
                        0 <= i < old(self).ships@.len() ==> final(self).ships@[i]
                            == World::spec_regen_ship(old(self).ships@[i])
                    &&& final(self).log.entries@ == (if old(self).player().health_timer.turns
                        == 0 && old(self).player().stats.curr_health
                        < old(self).player().stats.max_health {
                        old(self).log.entries@.push((old(self).time.tick, LogEvent::Healed))
                    } else {
                        old(self).log.entries@
                    })
                    &&& final(self).map == old(self).map
                    &&& final(self).debris@ == old(self).debris@
                    &&& final(self).time == old(self).time
                },
                _ => *final(self) == *old(self),
            },
    {
        let ghost pre = *old(self);
        match self.state {
            AppState::IncrementTime => {
                self.increment_time();
                let ghost mid = *self;
                self.map_indexing();
                proof {
                    assert(self.suffer_all_empty()) by {
                        assert forall|i: int| 0 <= i < self.ships@.len() implies (
                        #[trigger] self.ships@[i]).suffer_damage.amounts().len() == 0 by {
                            assert(mid.ships@[i].suffer_damage
                                == pre.ships@[i].suffer_damage);
                            assert(pre.ships@[i].suffer_damage.amounts().len() == 0);
                        }
                    }
                    assert(self.healths_positive()) by {
                        assert forall|i: int| 0 <= i < self.ships@.len() implies (
                        #[trigger] self.ships@[i]).stats.curr_health >= 1 by {
                            assert(mid.ships@[i].stats == pre.ships@[i].stats);
                        }
                    }
                    assert(self.wants_all_none()) by {
                        assert forall|i: int| 0 <= i < self.ships@.len() implies (
                        #[trigger] self.ships@[i]).wants_melee is None by {
                            assert(mid.ships@[i].wants_melee == pre.ships@[i].wants_melee);
                        }
                    }
                    assert(melee_targets_live(self.ships@));
                }
            },
            AppState::RunAI => {
                self.pirate_ai();
                proof {
                    assert(self.suffer_all_empty()) by {
                        assert forall|i: int| 0 <= i < self.ships@.len() implies (
                        #[trigger] self.ships@[i]).suffer_damage.amounts().len() == 0 by {
                            lemma_ai_frame(pre, *self, i);
                        }
                    }
                    assert(self.healths_positive()) by {
                        assert forall|i: int| 0 <= i < self.ships@.len() implies (
                        #[trigger] self.ships@[i]).stats.curr_health >= 1 by {
                            lemma_ai_frame(pre, *self, i);
                        }
                    }
                }
            },
            AppState::RunCombat => {
                self.melee_combat_system();
                proof {
                    assert(self.damage_bounded());
                    assert(self.healths_positive()) by {
                        assert forall|i: int| 0 <= i < self.ships@.len() implies (
                        #[trigger] self.ships@[i]).stats.curr_health >= 1 by {
                            assert(self.ships@[i].stats == pre.ships@[i].stats);
                        }
                    }
                    assert(self.wants_all_none()) by {
                        assert forall|i: int| 0 <= i < self.ships@.len() implies (
                        #[trigger] self.ships@[i]).wants_melee is None by {
                            assert(self.ships@[i] == (crate::components::Ship {
                                wants_melee: None,
                                suffer_damage: self.ships@[i].suffer_damage,
                                ..pre.ships@[i]
                            }));
                        }
                    }
                }
            },
            AppState::RunDamage => {
                proof {
                    assert forall|i: int| 0 <= i < self.ships@.len() implies (
                    #[trigger] self.ships@[i]).stats.curr_health - sum_u32(
                        self.ships@[i].suffer_damage.amounts(),
                    ) >= i32::MIN by {
                        assert(self.ships@[i].stats.curr_health >= 1);
                        assert(sum_u32(self.ships@[i].suffer_damage.amounts()) <= MAX_SHIPS * (
                        MAX_STAT as int));
                    }
                }
                self.damage_system();
                proof {
                    assert(self.wants_all_none()) by {
                        assert forall|i: int| 0 <= i < self.ships@.len() implies (
                        #[trigger] self.ships@[i]).wants_melee is None by {
                            assert(self.ships@[i].wants_melee == pre.ships@[i].wants_melee);
                        }
                    }
                }
            },
            AppState::DeleteDead => {
                self.delete_the_dead();
                proof {
                    if pre.player().stats.curr_health < 1 {
                        assert(self.state == AppState::GameOver);
                    } else {
                        assert(self.suffer_all_empty() && self.wants_all_none()) by {
                            assert forall|i: int| 0 <= i < self.ships@.len() implies (
                            #[trigger] self.ships@[i]).suffer_damage.amounts().len() == 0 && self
                                .ships@[i].wants_melee is None by {
                                let c = choose|c: int|
                                    0 <= c < pre.ships@.len() && pre.ships@[c]
                                        == self.ships@[i];
                                assert(pre.ships@[c].suffer_damage.amounts().len() == 0);
                            }
                        }
                    }
                }
            },
            AppState::RunTimers => {
                self.regen_health();
                proof {
                    assert(self.healths_positive()) by {
                        assert forall|i: int| 0 <= i < self.ships@.len() implies (
                        #[trigger] self.ships@[i]).stats.curr_health >= 1 by {
                            assert(self.ships@[i] == World::spec_regen_ship(pre.ships@[i]));
                            assert(pre.ships@[i].stats.curr_health >= 1);
                        }
                    }
                    assert(self.suffer_all_empty() && self.wants_all_none()) by {
                        assert forall|i: int| 0 <= i < self.ships@.len() implies (
                        #[trigger] self.ships@[i]).suffer_damage.amounts().len() == 0 && self
                            .ships@[i].wants_melee is None by {
                            assert(self.ships@[i] == World::spec_regen_ship(pre.ships@[i]));
                        }
                    }
                }
            },
            _ => {
            },
        }
    }
}

impl World {
    /// A fresh world at the entry point of the state machine: the given
    /// map, the player's ship alone on it at `start`, tick zero, an
    /// empty log, ready for map population.
    pub fn new(map: crate::map::GameMap, start: crate::components::Position) -> (r: World)
        requires
            map.wf(),
            map.spec_in_bounds(start),
            map.tiles@[crate::world::cell_of(map.width as int, start)]
                != crate::map::MapTileType::Wall,
        ensures
            r.wf(),
            r.phase_inv(),
            r.state == AppState::NewGame,
            r.ships@.len() == 1,
            r.player().player && !r.player().pirate && !r.player().block_tile,
            r.player().pos == start,
            r.player().glyph == '@',
            r.player().id == 0,
            r.player().name.name@ == "Enterprise"@,
            r.player().stats == (crate::components::ShipStats {
                fuel: 100,
                speed: 2,
                storage: 1000,
                curr_health: 10,
                max_health: 10,
                health_regen: 10,
                curr_shields: 5,
                max_shields: 5,
                shield_regen: 1,
                armor: 0,
                melee_speed: 2,
                melee_dmg: 4,
                ranged_speed: 5,
                ranged_dmg: 1,
            }),
            r.player().wait_timer.turns == 0,
            r.player().health_timer.turns == 0,
            r.player().shield_timer.turns == 0,
            r.player().wants_melee is None,
            r.player().suffer_damage.amounts().len() == 0,
            r.debris@.len() == 0,
            r.time.tick == 0,
            r.log.entries@.len() == 0,
            r.map == map,
    {
        let player = crate::spawner::init_player(start);
        let mut ships: Vec<crate::components::Ship> = Vec::new();
        ships.push(player);
        World {
            map,
            ships,
            debris: Vec::new(),
            time: crate::log::GameTime { tick: 0 },
            log: crate::log::GameLog::new(),
            state: AppState::NewGame,
        }
    }

    /// Install a freshly built level: replace the map, despawn everything
    /// that belonged to the old level (every ship but the player's, and
    /// all debris), and move the player to the level's starting position.
    pub fn install_map(&mut self, map: crate::map::GameMap, start: crate::components::Position)
        requires
            old(self).wf(),
            old(self).state == AppState::NewGame || old(self).state == AppState::NextLevel,
            map.wf(),
            map.spec_in_bounds(start),
            map.tiles@[crate::world::cell_of(map.width as int, start)]
                != crate::map::MapTileType::Wall,
        ensures
            final(self).wf(),
            final(self).map == map,
            final(self).ships@.len() == 1,
            final(self).ships@[0] == (crate::components::Ship {
                pos: start,
                ..old(self).ships@[0]
            }),
            final(self).debris@.len() == 0,
            final(self).time == old(self).time,
            final(self).log.entries@ == old(self).log.entries@,
            final(self).state == old(self).state,
    {
        self.map = map;
        self.ships.truncate(1);
        self.debris.clear();
        self.ships[0].pos = start;
        proof {
            assert(self.ships@ =~= old(self).ships@.take(1).update(0, self.ships@[0]));
        }
    }

    /// Finish building a level: rebuild the occupancy index over the new
    /// map and hand control to the player. The player must be free to
    /// act, and nothing may carry leftover per-tick state.
    pub fn begin_play(&mut self)
        requires
            old(self).wf(),
            old(self).state == AppState::NewGame || old(self).state == AppState::NextLevel,
            old(self).player().wait_timer.turns == 0,
            old(self).suffer_all_empty(),
            old(self).wants_all_none(),
            old(self).healths_positive(),
        ensures
            final(self).wf(),
            final(self).phase_inv(),
            final(self).state == AppState::AwaitingInput,
            final(self).ships@ == old(self).ships@,
            final(self).debris@ == old(self).debris@,
            final(self).time == old(self).time,
            final(self).log.entries@ == old(self).log.entries@,
            final(self).map.tiles@ == old(self).map.tiles@,
            final(self).map.width == old(self).map.width,
            final(self).map.height == old(self).map.height,
    {
        self.map_indexing();
        self.state = AppState::AwaitingInput;
    }
}

impl World {
    /// The `InventoryMenu` overlay: the cycle stays suspended until the
    /// player leaves the menu, which returns to `AwaitingInput` without
    /// consuming a turn.
    pub fn inventory_menu(&mut self, exit: bool)
        requires
            old(self).wf(),
            old(self).phase_inv(),
            old(self).state == AppState::InventoryMenu,
        ensures
            final(self).wf(),
            final(self).phase_inv(),
            *final(self) == (World {
                state: if exit {
                    AppState::AwaitingInput
                } else {
                    AppState::InventoryMenu
                },
                ..*old(self)
            }),
    {
        if exit {
            self.state = AppState::AwaitingInput;
        }
    }
}

/// What the pirate decisions leave untouched on every ship: identity,
/// statistics, health and the damage accumulator.
proof fn lemma_ai_frame(pre: World, post: World, i: int)
    requires
        0 <= i < pre.ships@.len(),
        post.ships@.len() == pre.ships@.len(),
        !(pre.ships@[i].pirate && pre.ships@[i].wait_timer.turns == 0) ==> post.ships@[i]
            == pre.ships@[i],
        pre.ships@[i].pirate && pre.ships@[i].wait_timer.turns == 0 ==> crate::ai::ai_outcome(
            pre.ships@[i],
            post.ships@[i],
            pre.ships@[0].pos,
            pre.ships@[0].id,
        ),
    ensures
        post.ships@[i].suffer_damage == pre.ships@[i].suffer_damage,
        post.ships@[i].stats == pre.ships@[i].stats,
{
}

} // verus!
