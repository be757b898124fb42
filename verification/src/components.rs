//! Entity components: positions, names, ship statistics, timers and the
//! per-tick damage accumulator, together with the entity record that carries
//! them through the turn pipeline.

use vstd::prelude::*;

verus! {

/// An x/y coordinate on the game map. Total ordering by (x, y) keeps
/// tie-breaking deterministic when positions are used as pathfinding keys.
#[derive(Clone, Copy, Debug, Eq, Hash, Ord, PartialEq, PartialOrd, Structural)]
pub struct Position {
    pub x: i32,
    pub y: i32,
}

/// Largest coordinate magnitude the distance computation admits; keeps the
/// taxicab sum inside `i32`.
pub const MAX_COORD: i32 = 0x4000_0000;

/// Mathematical absolute value of an `int`.
pub open spec fn abs_int(v: int) -> int {
    if v >= 0 {
        v
    } else {
        -v
    }
}

/// Taxicab distance between two positions, as the specification sees it.
pub open spec fn spec_distance(a: Position, b: Position) -> int {
    abs_int(a.x - b.x) + abs_int(a.y - b.y)
}

impl Position {
    /// Distance between two positions: the sum of the coordinate differences.
    /// Used as the admissible pathfinding heuristic after division.
    pub fn distance(&self, other: &Position) -> (r: i32)
        requires
            abs_int(self.x - other.x) < MAX_COORD,
            abs_int(self.y - other.y) < MAX_COORD,
        ensures
            r == spec_distance(*self, *other),
    {
        let dx: i32 = if self.x >= other.x {
            self.x - other.x
        } else {
            other.x - self.x
        };
        let dy: i32 = if self.y >= other.y {
            self.y - other.y
        } else {
            other.y - self.y
        };
        dx + dy
    }
}

/// Short and long display name of an entity.
pub struct GameName {
    /// Short name.
    pub name: String,
    /// Long name.
    pub l_name: Option<String>,
}

/// Tag for entities that must be despawned when the game moves to a new
/// level.
pub struct DeleteOnNewLevel;

/// Per-ship statistics: movement, combat and regeneration parameters.
#[derive(Clone, Copy, Debug, Eq, PartialEq, Structural)]
pub struct ShipStats {
    pub fuel: u32,
    /// Movement speed, lower is better; the wait-timer cost of one move.
    pub speed: u64,
    pub storage: u32,
    /// Current health; negative means the entity is dead and awaiting removal.
    pub curr_health: i32,
    pub max_health: i32,
    /// Number of ticks to regenerate one unit of health.
    pub health_regen: u64,
    /// Absorbs ranged attacks, recharges over time.
    pub curr_shields: i32,
    pub max_shields: i32,
    /// Number of ticks to regenerate one unit of shield.
    pub shield_regen: u64,
    /// Flat reduction of incoming melee damage.
    pub armor: u32,
    /// Melee weapon speed; the wait-timer cost of one melee attack.
    pub melee_speed: u64,
    pub melee_dmg: u32,
    pub ranged_speed: u64,
    pub ranged_dmg: u32,
}

/// Bound on individual stat magnitudes; keeps one tick's damage sums and
/// timer increments inside the machine integer types.
pub const MAX_STAT: u32 = 0xFFFF;

impl ShipStats {
    /// Stat bounds every ship in a well-formed world satisfies.
    pub open spec fn wf(self) -> bool {
        &&& self.melee_dmg <= MAX_STAT
        &&& self.armor <= MAX_STAT
        &&& 1 <= self.max_health <= MAX_STAT as i32
        &&& self.curr_health <= self.max_health
        &&& 0 <= self.max_shields <= MAX_STAT as i32
        &&& self.curr_shields <= self.max_shields
        &&& self.speed <= MAX_STAT as u64
        &&& self.melee_speed <= MAX_STAT as u64
        &&& self.health_regen <= MAX_STAT as u64
        &&& self.shield_regen <= MAX_STAT as u64
    }
}

/// Ticks remaining until an entity may act again.
#[derive(Clone, Copy, Debug, Eq, PartialEq, Structural)]
pub struct WaitTimer {
    pub turns: u64,
}

/// Ticks remaining until an entity regenerates one unit of health.
#[derive(Clone, Copy, Debug, Eq, PartialEq, Structural)]
pub struct HealthTimer {
    pub turns: u64,
}

/// Ticks remaining until an entity regenerates one unit of shield.
#[derive(Clone, Copy, Debug, Eq, PartialEq, Structural)]
pub struct ShieldTimer {
    pub turns: u64,
}

/// Sum of a sequence of damage magnitudes.
pub open spec fn sum_u32(s: Seq<u32>) -> int
    decreases s.len(),
{
    if s.len() == 0 {
        0
    } else {
        sum_u32(s.drop_last()) + s.last()
    }
}

/// Per-tick damage accumulator. Multiple hits against one victim in a single
/// tick are appended here and resolved together, so no combat outcome depends
/// on attacker visitation order.
pub struct SufferDamage {
    amount: Vec<u32>,
}

impl SufferDamage {
    /// The accumulated damage magnitudes, in arrival order.
    pub closed spec fn amounts(&self) -> Seq<u32> {
        self.amount@
    }

    /// A fresh, empty accumulator.
    pub fn new_empty() -> (r: SufferDamage)
        ensures
            r.amounts() == Seq::<u32>::empty(),
    {
        SufferDamage { amount: Vec::new() }
    }

    /// Record one more hit; earlier hits from the same tick are kept.
    pub fn new_damage(&mut self, dmg: u32)
        ensures
            final(self).amounts() == old(self).amounts().push(dmg),
    {
        self.amount.push(dmg);
    }

    /// Drop all accumulated hits, once they have been applied.
    pub fn clear(&mut self)
        ensures
            final(self).amounts() == Seq::<u32>::empty(),
    {
        self.amount.clear();
    }

    /// The total damage accumulated this tick.
    pub fn sum_dmg(&self) -> (r: u32)
        requires
            sum_u32(self.amounts()) <= u32::MAX,
        ensures
            r == sum_u32(self.amounts()),
    {
        let mut total: u32 = 0;
        let mut i: usize = 0;
        while i < self.amount.len()
            invariant
                i <= self.amount.len(),
                total == sum_u32(self.amounts().take(i as int)),
                sum_u32(self.amounts()) <= u32::MAX,
            decreases self.amount.len() - i,
        {
            proof {
                lemma_sum_u32_take_bound(self.amounts(), i + 1);
                assert(self.amounts().take(i + 1).drop_last() =~= self.amounts().take(
                    i as int,
                ));
            }
            total = total + self.amount[i];
            i = i + 1;
        }
        proof {
            assert(self.amounts().take(self.amounts().len() as int) =~= self.amounts());
        }
        total
    }
}

/// One entity of the world: a ship (the player's or a pirate's) together
/// with every component the turn pipeline reads or writes. The transient
/// melee intent and the damage accumulator live for at most one tick.
pub struct Ship {
    /// Stable identifier, unique across the world.
    pub id: u64,
    pub name: GameName,
    /// The character the rendering collaborator draws for this ship.
    pub glyph: char,
    pub pos: Position,
    pub stats: ShipStats,
    /// Ticks until this entity may act again.
    pub wait_timer: WaitTimer,
    /// Ticks until this entity regenerates a unit of health.
    pub health_timer: HealthTimer,
    /// Ticks until this entity regenerates a unit of shield.
    pub shield_timer: ShieldTimer,
    /// Whether this is the player's ship; the world holds exactly one.
    pub player: bool,
    /// Whether this ship is hostile.
    pub pirate: bool,
    /// Whether this ship blocks the cell it stands on.
    pub block_tile: bool,
    /// Pending melee intent: the identifier of the ship to attack, set by
    /// the pirate decisions or by player input, consumed by combat within
    /// the same tick.
    pub wants_melee: Option<u64>,
    /// Damage suffered this tick, resolved and cleared by the damage phase.
    pub suffer_damage: SufferDamage,
}

/// A prefix sum of damage magnitudes never exceeds the full sum.
pub proof fn lemma_sum_u32_take_bound(s: Seq<u32>, n: int)
    requires
        0 <= n <= s.len(),
    ensures
        sum_u32(s.take(n)) <= sum_u32(s),
        sum_u32(s) >= 0,
    decreases s.len(),
{
    if s.len() == 0 {
        assert(s.take(n) =~= s);
    } else if n == s.len() {
        assert(s.take(n) =~= s);
        lemma_sum_u32_take_bound(s.drop_last(), s.len() - 1);
    } else {
        lemma_sum_u32_take_bound(s.drop_last(), n);
        assert(s.drop_last().take(n) =~= s.take(n));
    }
}

} // verus!
