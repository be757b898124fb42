//! The `RunCombat` phase: converts pending melee intents into mitigated
//! damage, accumulated per victim so that simultaneous attacks resolve
//! independently of attacker visitation order.

use vstd::prelude::*;

use crate::components::{sum_u32, Ship, MAX_STAT};
use crate::log::LogEvent;
use crate::state::AppState;
use crate::world::World;

verus! {

/// Armor-mitigated damage, as the specification sees it:
/// `max(0, raw - armor)`.
pub open spec fn spec_mitigated(raw: u32, armor: u32) -> u32 {
    if raw >= armor {
        (raw - armor) as u32
    } else {
        0
    }
}

/// Armor-based flat mitigation: the damage dealt is the raw damage minus
/// the target's armor, and never below zero.
pub fn mitigated_damage(raw: u32, armor: u32) -> (r: u32)
    ensures
        r == spec_mitigated(raw, armor),
        raw >= armor ==> r == raw - armor,
        raw < armor ==> r == 0,
{
    if raw >= armor {
        raw - armor
    } else {
        0
    }
}

/// Whether every pending melee intent names a ship that is present in the
/// registry. Combat resolution demands this; an intent against a despawned
/// ship is an invariant violation.
pub open spec fn melee_targets_live(ships: Seq<Ship>) -> bool {
    forall|i: int|
        0 <= i < ships.len() ==> match (#[trigger] ships[i]).wants_melee {
            Some(t) => exists|j: int| 0 <= j < ships.len() && (#[trigger] ships[j]).id == t,
            None => true,
        }
}

/// The mitigated damage magnitudes the given ships deal to `victim` in one
/// combat pass, in registry order: one entry per ship that wants to melee
/// `victim` and has positive health at resolution time (an attack already
/// queued this tick resolves even if the attacker dies later the same
/// tick, but a dead attacker initiates nothing).
pub open spec fn spec_attacks(ships: Seq<Ship>, victim: Ship) -> Seq<u32>
    decreases ships.len(),
{
    if ships.len() == 0 {
        Seq::empty()
    } else {
        let rest = spec_attacks(ships.drop_last(), victim);
        let a = ships.last();
        if a.wants_melee == Some(victim.id) && a.stats.curr_health > 0 && spec_mitigated(
            a.stats.melee_dmg,
            victim.stats.armor,
        ) > 0 {
            rest.push(spec_mitigated(a.stats.melee_dmg, victim.stats.armor))
        } else {
            rest
        }
    }
}

/// Extending the scanned prefix by one ship appends exactly that ship's
/// hit (if it attacks `victim`) and nothing else.
proof fn lemma_attacks_step(ships: Seq<Ship>, i: int, victim: Ship)
    requires
        0 <= i < ships.len(),
    ensures
        spec_attacks(ships.take(i + 1), victim) == if ships[i].wants_melee == Some(victim.id)
            && ships[i].stats.curr_health > 0 && spec_mitigated(
            ships[i].stats.melee_dmg,
            victim.stats.armor,
        ) > 0 {
            spec_attacks(ships.take(i), victim).push(
                spec_mitigated(ships[i].stats.melee_dmg, victim.stats.armor),
            )
        } else {
            spec_attacks(ships.take(i), victim)
        },
{
    assert(ships.take(i + 1).drop_last() =~= ships.take(i));
    assert(ships.take(i + 1).last() == ships[i]);
}

/// One combat pass hands each victim at most one hit per ship, each of at
/// most `MAX_STAT` damage, so the accumulated sum stays bounded.
pub proof fn lemma_attacks_sum_bound(ships: Seq<Ship>, victim: Ship)
    requires
        forall|k: int| 0 <= k < ships.len() ==> (#[trigger] ships[k]).stats.wf(),
    ensures
        0 <= sum_u32(spec_attacks(ships, victim)) <= ships.len() * (MAX_STAT as int),
    decreases ships.len(),
{
    if ships.len() > 0 {
        assert forall|k: int| 0 <= k < ships.drop_last().len() implies (#[trigger] ships
            .drop_last()[k]).stats.wf() by {
            assert(ships.drop_last()[k] == ships[k]);
        }
        lemma_attacks_sum_bound(ships.drop_last(), victim);
        let rest = spec_attacks(ships.drop_last(), victim);
        let a = ships.last();
        if a.wants_melee == Some(victim.id) && a.stats.curr_health > 0 && spec_mitigated(
            a.stats.melee_dmg,
            victim.stats.armor,
        ) > 0 {
            let x = spec_mitigated(a.stats.melee_dmg, victim.stats.armor);
            assert(rest.push(x).drop_last() =~= rest);
            assert(sum_u32(rest.push(x)) == sum_u32(rest) + x);
            assert(a.stats.wf());
        }
    }
}

/// The registry index of the first ship carrying the given identifier,
/// or the registry's length if none does. With pairwise-distinct
/// identifiers this is the index of the one ship with that identifier.
pub open spec fn idx_of_id(ships: Seq<Ship>, id: u64) -> int
    decreases ships.len(),
{
    if ships.len() == 0 {
        0
    } else if ships[0].id == id {
        0
    } else {
        1 + idx_of_id(ships.drop_first(), id)
    }
}

/// Where some ship carries the identifier, `idx_of_id` lands on one that
/// does.
pub proof fn lemma_idx_of_id(ships: Seq<Ship>, id: u64)
    requires
        exists|k: int| 0 <= k < ships.len() && (#[trigger] ships[k]).id == id,
    ensures
        0 <= idx_of_id(ships, id) < ships.len(),
        ships[idx_of_id(ships, id)].id == id,
    decreases ships.len(),
{
    if ships.len() > 0 && ships[0].id != id {
        let k = choose|k: int| 0 <= k < ships.len() && (#[trigger] ships[k]).id == id;
        assert(ships.drop_first()[k - 1] == ships[k]);
        lemma_idx_of_id(ships.drop_first(), id);
        assert(ships[idx_of_id(ships, id)] == ships.drop_first()[idx_of_id(
            ships.drop_first(),
            id,
        )]);
    }
}

/// The log entries one combat pass emits, scanning the first `k` ships
/// in registry order: exactly one entry per resolved attack (an attacker
/// carrying an intent, still at positive health), stamped with the tick —
/// "unable to damage" exactly when the mitigated damage is zero, else the
/// damage dealt with its amount; nothing at all for a dead attacker.
pub open spec fn spec_combat_events(all: Seq<Ship>, k: int, tick: u64) -> Seq<(u64, LogEvent)>
    decreases k,
{
    if k <= 0 || k > all.len() {
        Seq::empty()
    } else {
        let rest = spec_combat_events(all, k - 1, tick);
        let a = all[k - 1];
        match a.wants_melee {
            Some(t) => {
                if a.stats.curr_health > 0 {
                    let v = all[idx_of_id(all, t)];
                    let dmg = spec_mitigated(a.stats.melee_dmg, v.stats.armor);
                    if dmg == 0 {
                        rest.push(
                            (
                                tick,
                                LogEvent::UnableToDamage {
                                    attacker: a.name.name,
                                    target: v.name.name,
                                },
                            ),
                        )
                    } else {
                        rest.push(
                            (
                                tick,
                                LogEvent::Shoots {
                                    attacker: a.name.name,
                                    target: v.name.name,
                                    amount: dmg,
                                },
                            ),
                        )
                    }
                } else {
                    rest
                }
            },
            None => rest,
        }
    }
}

/// Find the registry index of the ship with the given identifier.
pub fn find_ship(ships: &Vec<Ship>, id: u64) -> (r: Option<usize>)
    ensures
        match r {
            Some(j) => j < ships@.len() && ships@[j as int].id == id,
            None => forall|k: int| 0 <= k < ships@.len() ==> (#[trigger] ships@[k]).id != id,
        },
{
    let mut i: usize = 0;
    while i < ships.len()
        invariant
            i <= ships@.len(),
            forall|k: int| 0 <= k < i ==> (#[trigger] ships@[k]).id != id,
        decreases ships@.len() - i,
    {
        if ships[i].id == id {
            return Some(i);
        }
        i = i + 1;
    }
    None
}

impl World {
    /// The `RunCombat` phase: every ship carrying a melee intent and still
    /// at positive health deals `max(0, melee_dmg - target armor)` damage,
    /// appended to the target's per-tick accumulator (never overwriting
    /// earlier hits), with a log entry either way; the intent is removed
    /// whether or not it fired. Health itself is untouched here: the death
    /// check waits until all of this tick's combat has resolved.
    pub fn melee_combat_system(&mut self)
        requires
            old(self).wf(),
            old(self).state == AppState::RunCombat,
            melee_targets_live(old(self).ships@),
            forall|i: int|
                0 <= i < old(self).ships@.len()
                    ==> (#[trigger] old(self).ships@[i]).suffer_damage.amounts().len() == 0,
        ensures
            final(self).wf(),
            final(self).state == AppState::RunDamage,
            final(self).ships@.len() == old(self).ships@.len(),
            forall|v: int|
                0 <= v < old(self).ships@.len() ==> final(self).ships@[v] == (Ship {
                    wants_melee: None,
                    suffer_damage: final(self).ships@[v].suffer_damage,
                    ..old(self).ships@[v]
                }),
            forall|v: int|
                0 <= v < old(self).ships@.len()
                    ==> (#[trigger] final(self).ships@[v]).suffer_damage.amounts() == spec_attacks(
                    old(self).ships@,
                    old(self).ships@[v],
                ),
            forall|v: int|
                0 <= v < final(self).ships@.len() ==> sum_u32(
                    (#[trigger] final(self).ships@[v]).suffer_damage.amounts(),
                ) <= old(self).ships@.len() * (MAX_STAT as int),
            final(self).map == old(self).map,
            final(self).debris@ == old(self).debris@,
            final(self).time == old(self).time,
            final(self).log.entries@ == old(self).log.entries@ + spec_combat_events(
                old(self).ships@,
                old(self).ships@.len() as int,
                old(self).time.tick,
            ),
    {
        let ghost orig = self.ships@;
        let n = self.ships.len();
        proof {
            assert(self.log.entries@ =~= old(self).log.entries@ + spec_combat_events(
                orig,
                0,
                old(self).time.tick,
            ));
        }
        let mut i: usize = 0;
        while i < n
            invariant
                i <= n,
                n == self.ships@.len(),
                n == orig.len(),
                orig == old(self).ships@,
                old(self).wf(),
                melee_targets_live(orig),
                forall|k: int|
                    0 <= k < orig.len() ==> (#[trigger] orig[k]).suffer_damage.amounts().len()
                        == 0,
                forall|v: int|
                    0 <= v < n ==> self.ships@[v] == (Ship {
                        wants_melee: if v < i {
                            None
                        } else {
                            orig[v].wants_melee
                        },
                        suffer_damage: self.ships@[v].suffer_damage,
                        ..orig[v]
                    }),
                forall|v: int|
                    0 <= v < n ==> (#[trigger] self.ships@[v]).suffer_damage.amounts()
                        == spec_attacks(orig.take(i as int), orig[v]),
                self.map == old(self).map,
                self.debris@ == old(self).debris@,
                self.time == old(self).time,
                self.state == old(self).state,
                self.log.entries@ == old(self).log.entries@ + spec_combat_events(
                    orig,
                    i as int,
                    old(self).time.tick,
                ),
            decreases n - i,
        {
            let intent = self.ships[i].wants_melee;
            if let Some(target) = intent {
                if self.ships[i].stats.curr_health > 0 {
                    let found = find_ship(&self.ships, target);
                    let j = match found {
                        Some(j) => j,
                        None => {
                            // every pending intent names a live ship, so
                            // the lookup cannot miss
                            proof {
                                let w = choose|w: int|
                                    0 <= w < orig.len() && (#[trigger] orig[w]).id == target;
                                assert(self.ships@[w].id == target);
                            }
                            unreached()
                        },
                    };
                    let raw = self.ships[i].stats.melee_dmg;
                    let armor = self.ships[j].stats.armor;
                    let damage = mitigated_damage(raw, armor);
                    let a_name = self.ships[i].name.name.clone();
                    let t_name = self.ships[j].name.name.clone();
                    let tick = self.time.tick;
                    if damage == 0 {
                        self.log.new_log(
                            LogEvent::UnableToDamage { attacker: a_name, target: t_name },
                            tick,
                        );
                    } else {
                        let slot = &mut self.ships[j];
                        slot.suffer_damage.new_damage(damage);
                        self.log.new_log(
                            LogEvent::Shoots { attacker: a_name, target: t_name, amount: damage },
                            tick,
                        );
                    }
                    proof {
                        assert forall|v: int| 0 <= v < n implies (#[trigger] self
                            .ships@[v]).suffer_damage.amounts() == spec_attacks(
                            orig.take(i + 1),
                            orig[v],
                        ) by {
                            lemma_attacks_step(orig, i as int, orig[v]);
                            if v != j {
                                assert(orig[v].id != orig[j as int].id);
                            }
                        }
                        lemma_idx_of_id(orig, target);
                        assert(j == idx_of_id(orig, target)) by {
                            if j != idx_of_id(orig, target) {
                                assert(orig[j as int].id != orig[idx_of_id(
                                    orig,
                                    target,
                                )].id);
                            }
                        }
                        let tk = old(self).time.tick;
                        assert(self.log.entries@ =~= old(self).log.entries@
                            + spec_combat_events(orig, i + 1, tk));
                    }
                } else {
                    proof {
                        assert forall|v: int| 0 <= v < n implies (#[trigger] self
                            .ships@[v]).suffer_damage.amounts() == spec_attacks(
                            orig.take(i + 1),
                            orig[v],
                        ) by {
                            lemma_attacks_step(orig, i as int, orig[v]);
                        }
                        assert(spec_combat_events(orig, i + 1, old(self).time.tick)
                            == spec_combat_events(orig, i as int, old(self).time.tick));
                    }
                }
                self.ships[i].wants_melee = None;
            } else {
                proof {
                    assert forall|v: int| 0 <= v < n implies (#[trigger] self
                        .ships@[v]).suffer_damage.amounts() == spec_attacks(
                        orig.take(i + 1),
                        orig[v],
                    ) by {
                        lemma_attacks_step(orig, i as int, orig[v]);
                    }
                    assert(spec_combat_events(orig, i + 1, old(self).time.tick)
                        == spec_combat_events(orig, i as int, old(self).time.tick));
                }
            }
            i = i + 1;
        }
        self.state = AppState::RunDamage;
        proof {
            assert(orig.take(n as int) =~= orig);
            assert forall|v: int| 0 <= v < self.ships@.len() implies sum_u32(
                (#[trigger] self.ships@[v]).suffer_damage.amounts(),
            ) <= orig.len() * (MAX_STAT as int) by {
                assert forall|k: int| 0 <= k < orig.len() implies (#[trigger] orig[k]).stats
                    .wf() by {
                    assert(old(self).ship_ok(orig[k]));
                }
                lemma_attacks_sum_bound(orig, orig[v]);
            }
            assert(self.wf()) by {
                assert forall|k: int| 0 <= k < self.ships@.len() implies self.ship_ok(
                    #[trigger] self.ships@[k],
                ) by {
                    assert(old(self).ship_ok(orig[k]));
                }
            }
        }
    }
}

} // verus!
