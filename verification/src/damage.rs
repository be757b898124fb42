//! The `RunDamage` and `DeleteDead` phases: apply each victim's
//! accumulated damage in one step, then remove the dead — and only then,
//! so that simultaneous lethal hits resolve consistently.

use vstd::prelude::*;

use crate::components::{sum_u32, Position, Ship, ShipStats};
use crate::log::LogEvent;
use crate::rng::{rng_from_os, rng_ratio};
use crate::state::AppState;
use crate::world::World;

verus! {

/// Removing one element removes exactly its contribution from the sum.
proof fn lemma_sum_remove(s: Seq<u32>, k: int)
    requires
        0 <= k < s.len(),
    ensures
        sum_u32(s) == s[k] + sum_u32(s.remove(k)),
    decreases s.len(),
{
    if k == s.len() - 1 {
        assert(s.remove(k) =~= s.drop_last());
    } else {
        lemma_sum_remove(s.drop_last(), k);
        assert(s.remove(k).drop_last() =~= s.drop_last().remove(k));
        assert(s.remove(k).last() == s.last());
    }
}

/// Two sequences holding the same damage magnitudes (as a multiset) have
/// the same sum.
proof fn lemma_sum_permutation(a: Seq<u32>, b: Seq<u32>)
    requires
        a.to_multiset() == b.to_multiset(),
    ensures
        sum_u32(a) == sum_u32(b),
    decreases a.len(),
{
    broadcast use vstd::seq_lib::group_to_multiset_ensures;

    if a.len() == 0 {
        assert(b.to_multiset().len() == 0);
    } else {
        let x = a.last();
        assert(a.to_multiset().contains(x));
        assert(b.contains(x));
        let k = choose|k: int| 0 <= k < b.len() && b[k] == x;
        lemma_sum_remove(a, a.len() - 1);
        lemma_sum_remove(b, k);
        assert(a.remove(a.len() - 1) =~= a.drop_last());
        assert(a.drop_last().to_multiset() =~= b.remove(k).to_multiset()) by {
            assert(a.remove(a.len() - 1).to_multiset() =~= a.to_multiset().remove(x));
            assert(b.remove(k).to_multiset() =~= b.to_multiset().remove(x));
        }
        lemma_sum_permutation(a.drop_last(), b.remove(k));
    }
}

/// With N simultaneous attackers on one victim, the victim's final health
/// equals its initial health minus the sum of all N mitigated damages,
/// regardless of the order the attackers were visited in: accumulated
/// damage is applied as one sum, and that sum does not depend on the
/// order of the accumulated hits.
pub proof fn lemma_damage_order_independent(initial_health: int, a: Seq<u32>, b: Seq<u32>)
    requires
        a.to_multiset() == b.to_multiset(),
    ensures
        initial_health - sum_u32(a) == initial_health - sum_u32(b),
{
    lemma_sum_permutation(a, b);
}

/// The survivors of the death check: the ships still at positive health,
/// in registry order.
pub open spec fn spec_survivors(ships: Seq<Ship>) -> Seq<Ship>
    decreases ships.len(),
{
    if ships.len() == 0 {
        Seq::empty()
    } else {
        let rest = spec_survivors(ships.drop_last());
        if ships.last().stats.curr_health >= 1 {
            rest.push(ships.last())
        } else {
            rest
        }
    }
}

/// The debris the death check leaves behind: one entry per destroyed
/// pirate whose coin flip came up true, at the pirate's last position.
pub open spec fn spec_new_debris(ships: Seq<Ship>, flips: Seq<bool>) -> Seq<Position>
    decreases ships.len(),
{
    if ships.len() == 0 || flips.len() < ships.len() {
        Seq::empty()
    } else {
        let rest = spec_new_debris(ships.drop_last(), flips.take(ships.len() - 1));
        if ships.last().stats.curr_health < 1 && ships.last().pirate && flips[ships.len() - 1] {
            rest.push(ships.last().pos)
        } else {
            rest
        }
    }
}

/// The death log the death check appends: one entry per removed ship, in
/// registry order, carrying the ship's name.
pub open spec fn spec_death_log(ships: Seq<Ship>, tick: u64) -> Seq<(u64, LogEvent)>
    decreases ships.len(),
{
    if ships.len() == 0 {
        Seq::empty()
    } else {
        let rest = spec_death_log(ships.drop_last(), tick);
        if ships.last().stats.curr_health < 1 {
            rest.push((tick, LogEvent::Died { name: ships.last().name.name }))
        } else {
            rest
        }
    }
}

/// What the death check does, as a relation between the world before,
/// the world after, and the per-ship coin flips that decide debris drops.
pub open spec fn delete_dead_post(pre: World, post: World, flips: Seq<bool>) -> bool {
    &&& flips.len() == pre.ships@.len()
    &&& post.map == pre.map
    &&& post.time == pre.time
    &&& if pre.player().stats.curr_health < 1 {
        &&& post.state == AppState::GameOver
        &&& post.ships@ == pre.ships@
        &&& post.debris@ == pre.debris@
        &&& post.log.entries@ == pre.log.entries@.push(
            (pre.time.tick, LogEvent::PlayerDied),
        )
    } else {
        &&& post.state == AppState::RunTimers
        &&& post.ships@ == spec_survivors(pre.ships@)
        &&& post.debris@ == pre.debris@ + spec_new_debris(pre.ships@, flips)
        &&& post.log.entries@ == pre.log.entries@ + spec_death_log(pre.ships@, pre.time.tick)
    }
}

/// The survivor sequence keeps only ships drawn from the registry it was
/// filtered from, in their relative order, each still at positive health.
proof fn lemma_survivors_props(ships: Seq<Ship>)
    ensures
        spec_survivors(ships).len() <= ships.len(),
        forall|a: int|
            0 <= a < spec_survivors(ships).len() ==> (#[trigger] spec_survivors(ships)[a]).stats
                .curr_health >= 1,
        forall|a: int|
            0 <= a < spec_survivors(ships).len() ==> exists|c: int|
                0 <= c < ships.len() && #[trigger] ships[c] == #[trigger] spec_survivors(
                    ships,
                )[a],
        forall|a: int, b: int|
            #![trigger spec_survivors(ships)[a], spec_survivors(ships)[b]]
            0 <= a < b < spec_survivors(ships).len() ==> exists|c: int, d: int|
                0 <= c < d < ships.len() && #[trigger] ships[c] == spec_survivors(ships)[a]
                    && #[trigger] ships[d] == spec_survivors(ships)[b],
    decreases ships.len(),
{
    if ships.len() > 0 {
        lemma_survivors_props(ships.drop_last());
        let prev = spec_survivors(ships.drop_last());
        let cur = spec_survivors(ships);
        assert forall|a: int| #![trigger cur[a]] 0 <= a < cur.len() implies exists|c: int|
            0 <= c < ships.len() && #[trigger] ships[c] == cur[a] by {
            if a < prev.len() {
                let c = choose|c: int|
                    0 <= c < ships.drop_last().len() && #[trigger] ships.drop_last()[c]
                        == prev[a];
                assert(ships[c] == cur[a]);
            } else {
                assert(ships[ships.len() - 1] == cur[a]);
            }
        }
        assert forall|a: int, b: int| #![trigger cur[a], cur[b]] 0 <= a < b < cur.len() implies exists|
            c: int,
            d: int,
        |
            0 <= c < d < ships.len() && #[trigger] ships[c] == cur[a] && #[trigger] ships[d]
                == cur[b] by {
            if b < prev.len() {
                let (c, d) = choose|c: int, d: int|
                    0 <= c < d < ships.drop_last().len() && #[trigger] ships.drop_last()[c]
                        == prev[a] && #[trigger] ships.drop_last()[d] == prev[b];
                assert(ships[c] == cur[a] && ships[d] == cur[b]);
            } else {
                let c = choose|c: int|
                    0 <= c < ships.drop_last().len() && #[trigger] ships.drop_last()[c]
                        == prev[a];
                assert(ships[c] == cur[a] && ships[ships.len() - 1] == cur[b]);
            }
        }
    }
}

/// When the first ship survives, it stays first among the survivors.
proof fn lemma_survivors_head(ships: Seq<Ship>)
    requires
        ships.len() >= 1,
        ships[0].stats.curr_health >= 1,
    ensures
        spec_survivors(ships).len() >= 1,
        spec_survivors(ships)[0] == ships[0],
    decreases ships.len(),
{
    if ships.len() == 1 {
        assert(spec_survivors(ships.drop_last()).len() == 0);
    } else {
        assert(ships.drop_last()[0] == ships[0]);
        lemma_survivors_head(ships.drop_last());
    }
}

impl World {
    /// The `RunDamage` phase: for every ship carrying accumulated damage,
    /// subtract the sum of all of this tick's hits from its health in one
    /// step (health may go negative, representing overkill), and clear the
    /// accumulator. No entity is removed here.
    pub fn damage_system(&mut self)
        requires
            old(self).wf(),
            old(self).state == AppState::RunDamage,
            forall|i: int|
                0 <= i < old(self).ships@.len() ==> sum_u32(
                    (#[trigger] old(self).ships@[i]).suffer_damage.amounts(),
                ) <= 0x4000_0000,
            forall|i: int|
                0 <= i < old(self).ships@.len() ==> (#[trigger] old(self).ships@[i]).stats
                    .curr_health - sum_u32(old(self).ships@[i].suffer_damage.amounts())
                    >= i32::MIN,
        ensures
            final(self).wf(),
            final(self).state == AppState::DeleteDead,
            final(self).ships@.len() == old(self).ships@.len(),
            forall|i: int|
                0 <= i < old(self).ships@.len() ==> final(self).ships@[i] == (Ship {
                    stats: ShipStats {
                        curr_health: (old(self).ships@[i].stats.curr_health - sum_u32(
                            old(self).ships@[i].suffer_damage.amounts(),
                        )) as i32,
                        ..old(self).ships@[i].stats
                    },
                    suffer_damage: final(self).ships@[i].suffer_damage,
                    ..old(self).ships@[i]
                }),
            forall|i: int|
                0 <= i < final(self).ships@.len()
                    ==> (#[trigger] final(self).ships@[i]).suffer_damage.amounts().len() == 0,
            final(self).map == old(self).map,
            final(self).debris@ == old(self).debris@,
            final(self).time == old(self).time,
            final(self).log.entries@ == old(self).log.entries@,
    {
        let n = self.ships.len();
        let mut i: usize = 0;
        while i < n
            invariant
                i <= n,
                n == self.ships@.len(),
                n == old(self).ships@.len(),
                old(self).wf(),
                forall|j: int|
                    0 <= j < old(self).ships@.len() ==> sum_u32(
                        (#[trigger] old(self).ships@[j]).suffer_damage.amounts(),
                    ) <= 0x4000_0000,
                forall|j: int|
                    0 <= j < old(self).ships@.len() ==> (#[trigger] old(self).ships@[j]).stats
                        .curr_health - sum_u32(old(self).ships@[j].suffer_damage.amounts())
                        >= i32::MIN,
                forall|j: int|
                    0 <= j < i ==> self.ships@[j] == (Ship {
                        stats: ShipStats {
                            curr_health: (old(self).ships@[j].stats.curr_health - sum_u32(
                                old(self).ships@[j].suffer_damage.amounts(),
                            )) as i32,
                            ..old(self).ships@[j].stats
                        },
                        suffer_damage: self.ships@[j].suffer_damage,
                        ..old(self).ships@[j]
                    }),
                forall|j: int|
                    0 <= j < i ==> (#[trigger] self.ships@[j]).suffer_damage.amounts().len()
                        == 0,
                forall|j: int|
                    i <= j < n ==> #[trigger] self.ships@[j] == old(self).ships@[j],
                self.map == old(self).map,
                self.debris@ == old(self).debris@,
                self.time == old(self).time,
                self.state == old(self).state,
                self.log.entries@ == old(self).log.entries@,
            decreases n - i,
        {
            proof {
                crate::components::lemma_sum_u32_take_bound(
                    self.ships@[i as int].suffer_damage.amounts(),
                    self.ships@[i as int].suffer_damage.amounts().len() as int,
                );
            }
            let dmg = self.ships[i].suffer_damage.sum_dmg();
            let h = self.ships[i].stats.curr_health;
            self.ships[i].stats.curr_health = h - (dmg as i32);
            let slot = &mut self.ships[i];
            slot.suffer_damage.clear();
            i = i + 1;
        }
        self.state = AppState::DeleteDead;
        proof {
            assert(self.wf()) by {
                assert forall|k: int| 0 <= k < self.ships@.len() implies self.ship_ok(
                    #[trigger] self.ships@[k],
                ) by {
                    assert(old(self).ship_ok(old(self).ships@[k]));
                    crate::components::lemma_sum_u32_take_bound(
                        old(self).ships@[k].suffer_damage.amounts(),
                        old(self).ships@[k].suffer_damage.amounts().len() as int,
                    );
                }
            }
        }
    }

    /// The `DeleteDead` phase, with the debris coin flips supplied as an
    /// argument: exact for every value of them. If the player's health has
    /// dropped below one, log the death and transition to the terminal
    /// `GameOver` state at once — no entity is despawned and no further
    /// phase runs. Otherwise despawn every ship with health below one,
    /// log each death, drop debris at a destroyed pirate's position when
    /// its flip is true, and move on to `RunTimers`.
    pub fn delete_dead_resolved(&mut self, flips: &Vec<bool>)
        requires
            old(self).wf(),
            old(self).state == AppState::DeleteDead,
            flips@.len() == old(self).ships@.len(),
        ensures
            final(self).wf(),
            delete_dead_post(*old(self), *final(self), flips@),
            old(self).player().stats.curr_health >= 1 ==> forall|i: int|
                0 <= i < final(self).ships@.len() ==> (#[trigger] final(self).ships@[i]).stats
                    .curr_health >= 1,
            forall|i: int|
                0 <= i < final(self).ships@.len() ==> exists|c: int|
                    0 <= c < old(self).ships@.len() && old(self).ships@[c]
                        == #[trigger] final(self).ships@[i],
    {
        let ghost orig = self.ships@;
        let n = self.ships.len();
        if self.ships[0].stats.curr_health < 1 {
            let tick = self.time.tick;
            self.log.new_log(LogEvent::PlayerDied, tick);
            self.state = AppState::GameOver;
            return;
        }
        let mut kept: Vec<Ship> = Vec::new();
        let mut i: usize = 0;
        while i < n
            invariant
                i <= n,
                n == orig.len(),
                orig == old(self).ships@,
                old(self).wf(),
                orig[0].stats.curr_health >= 1,
                flips@.len() == n,
                self.ships@ =~= orig.skip(i as int),
                kept@ == spec_survivors(orig.take(i as int)),
                self.debris@ == old(self).debris@ + spec_new_debris(
                    orig.take(i as int),
                    flips@.take(i as int),
                ),
                self.log.entries@ == old(self).log.entries@ + spec_death_log(
                    orig.take(i as int),
                    old(self).time.tick,
                ),
                self.map == old(self).map,
                self.time == old(self).time,
                self.state == old(self).state,
            decreases n - i,
        {
            let s = self.ships.remove(0);
            proof {
                assert(orig.skip(i as int)[0] == orig[i as int]);
                assert(self.ships@ =~= orig.skip(i + 1));
                assert(orig.take(i + 1).drop_last() =~= orig.take(i as int));
                assert(flips@.take(i + 1).drop_last() =~= flips@.take(i as int));
                assert(flips@.take(i + 1).take(i as int) =~= flips@.take(i as int));
                assert(orig.take(i + 1).last() == orig[i as int]);
            }
            if s.stats.curr_health >= 1 {
                kept.push(s);
            } else {
                let tick = self.time.tick;
                let name = s.name.name.clone();
                self.log.new_log(LogEvent::Died { name }, tick);
                if s.pirate && flips[i] {
                    self.debris.push(s.pos);
                }
                proof {
                    assert(self.log.entries@ =~= old(self).log.entries@ + spec_death_log(
                        orig.take(i + 1),
                        old(self).time.tick,
                    ));
                    assert(self.debris@ =~= old(self).debris@ + spec_new_debris(
                        orig.take(i + 1),
                        flips@.take(i + 1),
                    ));
                }
            }
            i = i + 1;
        }
        self.ships = kept;
        self.state = AppState::RunTimers;
        proof {
            assert(orig.take(n as int) =~= orig);
            assert(flips@.take(n as int) =~= flips@);
            lemma_survivors_props(orig);
            lemma_survivors_head(orig);
            assert forall|k: int| 0 <= k < self.ships@.len() implies exists|c: int|
                0 <= c < orig.len() && orig[c] == #[trigger] self.ships@[k] by {
                let c = choose|c: int| 0 <= c < orig.len() && orig[c] == self.ships@[k];
            }
            let cur = self.ships@;
            assert forall|k: int| 0 <= k < cur.len() implies self.ship_ok(
                #[trigger] cur[k],
            ) by {
                let c = choose|c: int| 0 <= c < orig.len() && orig[c] == cur[k];
                assert(old(self).ship_ok(orig[c]));
            }
            assert forall|k: int| 1 <= k < cur.len() implies !(#[trigger] cur[k]).player by {
                if cur[k].player {
                    let (c, d) = choose|c: int, d: int|
                        0 <= c < d < orig.len() && orig[c] == cur[0] && orig[d] == cur[k];
                    assert(orig[d].player);
                    assert(d >= 1);
                    assert(!old(self).ships@[d].player);
                }
            }
            assert forall|a: int, b: int| 0 <= a < b < cur.len() implies (#[trigger] cur[a]).id
                != (#[trigger] cur[b]).id && cur[a].pos != cur[b].pos by {
                let (c, d) = choose|c: int, d: int|
                    0 <= c < d < orig.len() && orig[c] == cur[a] && orig[d] == cur[b];
                assert(old(self).ships@[c].id != old(self).ships@[d].id);
            }
        }
    }

    /// The `DeleteDead` phase: flips one debris coin per ship (each
    /// destroyed pirate leaves loot behind with even chance) and resolves
    /// the death check with them. Everything but which debris dropped is
    /// pinned down by `delete_dead_post` for whatever the coins came up.
    pub fn delete_the_dead(&mut self)
        requires
            old(self).wf(),
            old(self).state == AppState::DeleteDead,
        ensures
            final(self).wf(),
            exists|flips: Seq<bool>| delete_dead_post(*old(self), *final(self), flips),
            old(self).player().stats.curr_health >= 1 ==> forall|i: int|
                0 <= i < final(self).ships@.len() ==> (#[trigger] final(self).ships@[i]).stats
                    .curr_health >= 1,
            forall|i: int|
                0 <= i < final(self).ships@.len() ==> exists|c: int|
                    0 <= c < old(self).ships@.len() && old(self).ships@[c]
                        == #[trigger] final(self).ships@[i],
    {
        let mut rng = rng_from_os();
        let n = self.ships.len();
        let mut flips: Vec<bool> = Vec::new();
        let mut i: usize = 0;
        while i < n
            invariant
                i <= n,
                flips@.len() == i,
            decreases n - i,
        {
            let coin = rng_ratio(&mut rng, 1, 2);
            flips.push(coin);
            i = i + 1;
        }
        self.delete_dead_resolved(&flips);
    }
}

} // verus!
