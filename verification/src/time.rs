//! The clock phases: `IncrementTime`, which advances the tick and winds
//! down every entity's wait timer, and `RunTimers`, which regenerates
//! health once a ship's regeneration timer expires.

use vstd::prelude::*;

use crate::components::{HealthTimer, ShieldTimer, Ship, ShipStats, WaitTimer};
use crate::log::LogEvent;
use crate::state::AppState;
use crate::world::World;

verus! {

/// One tick's effect on a wait timer: positive timers count down by one,
/// expired timers stay at zero, so no timer ever drops below zero.
pub open spec fn tick_wait(t: u64) -> u64 {
    if t > 0 {
        (t - 1) as u64
    } else {
        t
    }
}

/// How many of the given timers are still positive, i.e. how many entities
/// must still wait before acting.
pub open spec fn count_waiting(timers: Seq<u64>) -> int
    decreases timers.len(),
{
    if timers.len() == 0 {
        0
    } else {
        count_waiting(timers.drop_last()) + if timers.last() > 0 {
            1int
        } else {
            0int
        }
    }
}

/// The total amount one tick removes from the given timers.
pub open spec fn total_decrement(timers: Seq<u64>) -> int
    decreases timers.len(),
{
    if timers.len() == 0 {
        0
    } else {
        total_decrement(timers.drop_last()) + (timers.last() - tick_wait(timers.last()))
    }
}

/// The sum of the wait-timer decrements one tick applies equals the number
/// of entities whose timer was positive at the start of the tick, and no
/// timer ever drops below zero.
pub proof fn lemma_wait_decrements_count(timers: Seq<u64>)
    ensures
        total_decrement(timers) == count_waiting(timers),
        forall|i: int|
            0 <= i < timers.len() ==> 0 <= #[trigger] tick_wait(timers[i]) <= timers[i],
    decreases timers.len(),
{
    if timers.len() > 0 {
        lemma_wait_decrements_count(timers.drop_last());
        assert forall|i: int|
            0 <= i < timers.len() implies 0 <= #[trigger] tick_wait(timers[i])
            <= timers[i] by {
            if i < timers.len() - 1 {
                assert(timers.drop_last()[i] == timers[i]);
            }
        }
    }
}

impl World {
    /// The `IncrementTime` phase: advances the tick counter by one and
    /// winds every entity's wait timer down by one (never below zero).
    /// Hands control to the player (`AwaitingInput`) when the player's
    /// timer has expired; otherwise the tick proceeds without the player,
    /// straight to the pirate decisions (`RunAI`).
    pub fn increment_time(&mut self)
        requires
            old(self).wf(),
            old(self).state == AppState::IncrementTime,
            old(self).time.tick < u64::MAX,
        ensures
            final(self).wf(),
            final(self).time.tick == old(self).time.tick + 1,
            final(self).ships@.len() == old(self).ships@.len(),
            forall|i: int|
                0 <= i < old(self).ships@.len() ==> final(self).ships@[i] == (Ship {
                    wait_timer: WaitTimer {
                        turns: tick_wait(old(self).ships@[i].wait_timer.turns),
                    },
                    ..old(self).ships@[i]
                }),
            final(self).state == (if tick_wait(old(self).player().wait_timer.turns) == 0 {
                AppState::AwaitingInput
            } else {
                AppState::RunAI
            }),
            final(self).map == old(self).map,
            final(self).debris@ == old(self).debris@,
            final(self).log.entries@ == old(self).log.entries@,
    {
        self.time.tick = self.time.tick + 1;
        let n = self.ships.len();
        let mut i: usize = 0;
        while i < n
            invariant
                i <= n,
                n == self.ships@.len(),
                n == old(self).ships@.len(),
                forall|j: int|
                    0 <= j < i ==> self.ships@[j] == (Ship {
                        wait_timer: WaitTimer {
                            turns: tick_wait(old(self).ships@[j].wait_timer.turns),
                        },
                        ..old(self).ships@[j]
                    }),
                forall|j: int|
                    i <= j < n ==> #[trigger] self.ships@[j] == old(self).ships@[j],
                self.map == old(self).map,
                self.debris@ == old(self).debris@,
                self.log.entries@ == old(self).log.entries@,
                self.time.tick == old(self).time.tick + 1,
                self.state == old(self).state,
                old(self).wf(),
            decreases n - i,
        {
            let t = self.ships[i].wait_timer.turns;
            if t > 0 {
                self.ships[i].wait_timer.turns = t - 1;
            } else {
                proof {
                    assert(self.ships@[i as int] == (Ship {
                        wait_timer: WaitTimer {
                            turns: tick_wait(old(self).ships@[i as int].wait_timer.turns),
                        },
                        ..old(self).ships@[i as int]
                    }));
                }
            }
            i = i + 1;
        }
        if self.ships[0].wait_timer.turns == 0 {
            self.state = AppState::AwaitingInput;
        } else {
            self.state = AppState::RunAI;
        }
        proof {
            assert(self.wf()) by {
                assert forall|k: int| 0 <= k < self.ships@.len() implies self.ship_ok(
                    #[trigger] self.ships@[k],
                ) by {
                    assert(old(self).ship_ok(old(self).ships@[k]));
                }
            }
        }
    }

    /// One ship's health regeneration step: a running timer counts down;
    /// an expired timer heals one unit of health (never past the maximum)
    /// and resets the timer to the ship's regeneration interval.
    pub open spec fn spec_regen_health_step(s: Ship) -> Ship {
        if s.health_timer.turns > 0 {
            Ship { health_timer: HealthTimer { turns: (s.health_timer.turns - 1) as u64 }, ..s }
        } else if s.stats.curr_health < s.stats.max_health {
            Ship {
                stats: ShipStats { curr_health: (s.stats.curr_health + 1) as i32, ..s.stats },
                health_timer: HealthTimer { turns: s.stats.health_regen },
                ..s
            }
        } else {
            s
        }
    }

    /// One ship's shield recharge step, following the same pattern as
    /// health regeneration.
    pub open spec fn spec_regen_shield_step(s: Ship) -> Ship {
        if s.shield_timer.turns > 0 {
            Ship { shield_timer: ShieldTimer { turns: (s.shield_timer.turns - 1) as u64 }, ..s }
        } else if s.stats.curr_shields < s.stats.max_shields {
            Ship {
                stats: ShipStats { curr_shields: (s.stats.curr_shields + 1) as i32, ..s.stats },
                shield_timer: ShieldTimer { turns: s.stats.shield_regen },
                ..s
            }
        } else {
            s
        }
    }

    /// One ship's full regeneration step: health, then shields.
    pub open spec fn spec_regen_ship(s: Ship) -> Ship {
        World::spec_regen_shield_step(World::spec_regen_health_step(s))
    }

    /// The `RunTimers` phase: regenerates health and recharges shields
    /// for every ship whose regeneration timers have expired, logs the
    /// player's healing, and closes the cycle by handing control back to
    /// `IncrementTime`.
    pub fn regen_health(&mut self)
        requires
            old(self).wf(),
            old(self).state == AppState::RunTimers,
        ensures
            final(self).wf(),
            final(self).ships@.len() == old(self).ships@.len(),
            forall|i: int|
                0 <= i < old(self).ships@.len() ==> final(self).ships@[i]
                    == World::spec_regen_ship(old(self).ships@[i]),
            final(self).state == AppState::IncrementTime,
            final(self).log.entries@ == if old(self).player().health_timer.turns == 0 && old(self).player().stats.curr_health < old(self).player().stats.max_health {
                old(self).log.entries@.push((old(self).time.tick, LogEvent::Healed))
            } else {
                old(self).log.entries@
            },
            final(self).map == old(self).map,
            final(self).debris@ == old(self).debris@,
            final(self).time == old(self).time,
    {
        let n = self.ships.len();
        let mut i: usize = 0;
        while i < n
            invariant
                i <= n,
                n == self.ships@.len(),
                n == old(self).ships@.len(),
                forall|j: int|
                    0 <= j < i ==> self.ships@[j] == World::spec_regen_ship(
                        old(self).ships@[j],
                    ),
                forall|j: int|
                    i <= j < n ==> #[trigger] self.ships@[j] == old(self).ships@[j],
                self.map == old(self).map,
                self.debris@ == old(self).debris@,
                self.time == old(self).time,
                self.state == old(self).state,
                self.log.entries@ == if 0 < i && old(self).player().health_timer.turns == 0
                    && old(self).player().stats.curr_health < old(self).player().stats.max_health {
                    old(self).log.entries@.push((old(self).time.tick, LogEvent::Healed))
                } else {
                    old(self).log.entries@
                },
                old(self).wf(),
            decreases n - i,
        {
            let timer = self.ships[i].health_timer.turns;
            if timer > 0 {
                self.ships[i].health_timer.turns = timer - 1;
            } else if self.ships[i].stats.curr_health < self.ships[i].stats.max_health {
                let h = self.ships[i].stats.curr_health;
                proof {
                    assert(old(self).ship_ok(old(self).ships@[i as int]));
                }
                self.ships[i].stats.curr_health = h + 1;
                let regen = self.ships[i].stats.health_regen;
                self.ships[i].health_timer.turns = regen;
                if self.ships[i].player {
                    let tick = self.time.tick;
                    self.log.new_log(LogEvent::Healed, tick);
                    proof {
                        assert(i == 0) by {
                            if i > 0 {
                                assert(!old(self).ships@[i as int].player);
                            }
                        }
                    }
                }
            }
            proof {
                assert(self.ships@[i as int] == World::spec_regen_health_step(
                    old(self).ships@[i as int],
                ));
            }
            let stimer = self.ships[i].shield_timer.turns;
            if stimer > 0 {
                self.ships[i].shield_timer.turns = stimer - 1;
            } else if self.ships[i].stats.curr_shields < self.ships[i].stats.max_shields {
                let sh = self.ships[i].stats.curr_shields;
                proof {
                    assert(old(self).ship_ok(old(self).ships@[i as int]));
                }
                self.ships[i].stats.curr_shields = sh + 1;
                let sregen = self.ships[i].stats.shield_regen;
                self.ships[i].shield_timer.turns = sregen;
            }
            i = i + 1;
        }
        self.state = AppState::IncrementTime;
        proof {
            assert(self.wf()) by {
                assert forall|k: int| 0 <= k < self.ships@.len() implies self.ship_ok(
                    #[trigger] self.ships@[k],
                ) by {
                    assert(old(self).ship_ok(old(self).ships@[k]));
                }
            }
        }
    }
}

} // verus!
