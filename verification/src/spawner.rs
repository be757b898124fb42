//! Spawning: the weighted random table that picks what to place, and the
//! constructors that put the player and the pirates into the world.

use vstd::prelude::*;

use crate::components::{
    GameName, HealthTimer, Position, ShieldTimer, Ship, ShipStats, SufferDamage, WaitTimer,
};
use crate::map::MapTileType;
use crate::rng::{rng_from_os, rng_range_i32, rng_range_usize};
use crate::world::{cell_of, lemma_cell_of_injective, World, MAX_SHIPS};

verus! {

/// An axis-aligned rectangle of map cells, corners inclusive.
#[derive(Clone, Copy, Debug, Eq, PartialEq, Structural)]
pub struct Rect {
    pub x1: i32,
    pub y1: i32,
    pub x2: i32,
    pub y2: i32,
}

impl Rect {
    /// A rectangle from its top-left corner and its extent.
    pub fn new(x: i32, y: i32, w: i32, h: i32) -> (r: Rect)
        requires
            i32::MIN <= x + w <= i32::MAX,
            i32::MIN <= y + h <= i32::MAX,
        ensures
            r == (Rect { x1: x, y1: y, x2: (x + w) as i32, y2: (y + h) as i32 }),
    {
        Rect { x1: x, y1: y, x2: x + w, y2: y + h }
    }
}

/// One weighted entry of a random spawn table.
pub struct RandomEntry {
    name: String,
    weight: i32,
}

impl RandomEntry {
    /// The entry's name, as the specification sees it.
    pub closed spec fn spec_name(self) -> Seq<char> {
        self.name@
    }

    /// The entry's weight, as the specification sees it.
    pub closed spec fn spec_weight(self) -> int {
        self.weight as int
    }

    /// A new entry with the given name and weight.
    pub fn new(name: String, weight: i32) -> (r: RandomEntry)
        ensures
            r.spec_name() == name@,
            r.spec_weight() == weight,
    {
        RandomEntry { name, weight }
    }
}

/// Total weight of a sequence of entries.
pub open spec fn weights_sum(entries: Seq<RandomEntry>) -> int
    decreases entries.len(),
{
    if entries.len() == 0 {
        0
    } else {
        entries[0].spec_weight() + weights_sum(entries.drop_first())
    }
}

/// Appending one entry adds exactly its weight to the total.
proof fn lemma_weights_sum_push(entries: Seq<RandomEntry>, e: RandomEntry)
    ensures
        weights_sum(entries.push(e)) == weights_sum(entries) + e.spec_weight(),
    decreases entries.len(),
{
    assert(weights_sum(entries.push(e)) == entries.push(e)[0].spec_weight() + weights_sum(
        entries.push(e).drop_first(),
    ));
    if entries.len() == 0 {
        assert(entries.push(e).drop_first() =~= Seq::<RandomEntry>::empty());
        assert(entries.push(e)[0] == e);
        assert(weights_sum(Seq::<RandomEntry>::empty()) == 0);
    } else {
        assert(entries.push(e).drop_first() =~= entries.drop_first().push(e));
        assert(entries.push(e)[0] == entries[0]);
        lemma_weights_sum_push(entries.drop_first(), e);
    }
}

/// The name a roll of `v` picks from the entries: walking the entries in
/// order, `v` is compared against each weight and reduced by it, and the
/// first entry whose weight exceeds what remains is picked; a roll that
/// runs out exactly on a boundary picks nothing.
pub open spec fn spec_pick(entries: Seq<RandomEntry>, v: int) -> Seq<char>
    decreases entries.len(),
{
    if v <= 0 || entries.len() == 0 {
        "None"@
    } else if v < entries[0].spec_weight() {
        entries[0].spec_name()
    } else {
        spec_pick(entries.drop_first(), v - entries[0].spec_weight())
    }
}

/// Whatever a roll picks is either no pick at all or the name of one of
/// the entries.
pub proof fn lemma_pick_member(entries: Seq<RandomEntry>, v: int)
    ensures
        spec_pick(entries, v) == "None"@ || exists|i: int|
            0 <= i < entries.len() && spec_pick(entries, v) == (
            #[trigger] entries[i]).spec_name(),
    decreases entries.len(),
{
    if v <= 0 || entries.len() == 0 {
    } else if v < entries[0].spec_weight() {
        assert(spec_pick(entries, v) == entries[0].spec_name());
    } else {
        lemma_pick_member(entries.drop_first(), v - entries[0].spec_weight());
        if spec_pick(entries, v) != "None"@ {
            let i = choose|i: int|
                0 <= i < entries.drop_first().len() && spec_pick(
                    entries.drop_first(),
                    v - entries[0].spec_weight(),
                ) == (#[trigger] entries.drop_first()[i]).spec_name();
            assert(spec_pick(entries, v) == entries[i + 1].spec_name());
        }
    }
}

/// A weighted random table of things to spawn.
pub struct RandomTable {
    entries: Vec<RandomEntry>,
    total_weight: i32,
}

impl RandomTable {
    /// The table's entries, as the specification sees them.
    pub closed spec fn spec_entries(self) -> Seq<RandomEntry> {
        self.entries@
    }

    /// The table's total weight, as the specification sees it.
    pub closed spec fn spec_total(self) -> int {
        self.total_weight as int
    }

    /// The total weight is the sum of the entry weights, every weight is
    /// positive.
    pub open spec fn wf(self) -> bool {
        &&& self.spec_total() == weights_sum(self.spec_entries())
        &&& forall|i: int|
            0 <= i < self.spec_entries().len() ==> (#[trigger] self.spec_entries()[
            i]).spec_weight() >= 1
    }

    /// An empty table.
    pub fn new() -> (r: RandomTable)
        ensures
            r.wf(),
            r.spec_entries().len() == 0,
            r.spec_total() == 0,
    {
        RandomTable { entries: Vec::new(), total_weight: 0 }
    }

    /// Add one weighted entry; entries with non-positive weight are
    /// dropped.
    pub fn add(self, name: String, weight: i32) -> (r: RandomTable)
        requires
            self.wf(),
            self.spec_total() + weight <= i32::MAX,
        ensures
            r.wf(),
            weight > 0 ==> r.spec_entries().len() == self.spec_entries().len() + 1
                && r.spec_entries() == self.spec_entries().push(
                r.spec_entries().last(),
            ) && r.spec_entries().last().spec_name() == name@
                && r.spec_entries().last().spec_weight() == weight && r.spec_total()
                == self.spec_total() + weight,
            weight <= 0 ==> r == self,
    {
        let mut table = self;
        if weight > 0 {
            table.total_weight = table.total_weight + weight;
            table.entries.push(RandomEntry::new(name, weight));
            proof {
                lemma_weights_sum_push(self.entries@, table.entries@.last());
                assert forall|i: int| 0 <= i < table.spec_entries().len() implies (
                #[trigger] table.spec_entries()[i]).spec_weight() >= 1 by {
                    if i < self.spec_entries().len() {
                        assert(table.spec_entries()[i] == self.spec_entries()[i]);
                    }
                }
            }
        }
        table
    }

    /// The name a given roll picks. The roll must lie between 1 and the
    /// total weight, exclusive.
    pub fn roll_value(&self, v: i32) -> (r: String)
        requires
            self.wf(),
            0 < v < self.spec_total(),
        ensures
            r@ == spec_pick(self.spec_entries(), v as int),
    {
        let ghost full = self.entries@;
        let n = self.entries.len();
        let mut roll = v;
        let mut index: usize = 0;
        proof {
            assert(full.skip(0) =~= full);
        }
        while roll > 0
            invariant
                self.wf(),
                0 <= index <= full.len(),
                full.len() == n,
                full == self.entries@,
                roll > 0 ==> roll < weights_sum(full.skip(index as int)),
                spec_pick(full.skip(index as int), roll as int) == spec_pick(full, v as int),
            decreases full.len() - index,
        {
            proof {
                if index >= full.len() {
                    assert(full.skip(index as int) =~= Seq::<RandomEntry>::empty());
                }
                assert(index < full.len());
                assert(full.skip(index as int)[0] == full[index as int]);
            }
            proof {
                assert(self.spec_entries()[index as int].spec_weight() >= 1);
            }
            if roll < self.entries[index].weight {
                return self.entries[index].name.clone();
            }
            proof {
                assert(full.skip(index as int).drop_first() =~= full.skip(index + 1));
            }
            roll = roll - self.entries[index].weight;
            index = index + 1;
        }
        proof {
            assert(spec_pick(full, v as int) == "None"@);
        }
        "None".to_owned()
    }

    /// Roll once against the table: an empty table picks nothing; else a
    /// roll is drawn between 1 and the total weight, exclusive (so the
    /// total must be at least 2 to draw at all), and picks as
    /// `spec_pick` says.
    pub fn roll(&self, rng: &mut rand::rngs::SmallRng) -> (r: String)
        requires
            self.wf(),
            self.spec_total() == 0 || self.spec_total() >= 2,
        ensures
            self.spec_total() == 0 ==> r@ == "None"@,
            self.spec_total() >= 2 ==> exists|v: int|
                0 < v < self.spec_total() && r@ == #[trigger] spec_pick(
                    self.spec_entries(),
                    v,
                ),
    {
        if self.total_weight == 0 {
            return "None".to_owned();
        }
        let v = rng_range_i32(rng, 1, self.total_weight);
        let r = self.roll_value(v);
        proof {
            assert(r@ == spec_pick(self.spec_entries(), v as int));
        }
        r
    }
}

/// The spawn table for a room: small pirates are common, big pirates
/// rare. Depth does not yet shift the odds.
pub fn room_table(_map_depth: i32) -> (r: RandomTable)
    ensures
        r.wf(),
        r.spec_entries().len() == 2,
        r.spec_entries()[0].spec_name() == "Small Pirate"@,
        r.spec_entries()[0].spec_weight() == 10,
        r.spec_entries()[1].spec_name() == "Big Pirate"@,
        r.spec_entries()[1].spec_weight() == 2,
        r.spec_total() == 12,
{
    RandomTable::new().add("Small Pirate".to_owned(), 10).add("Big Pirate".to_owned(), 2)
}

impl World {
    /// An identifier no live ship carries, unless the identifier space is
    /// exhausted.
    fn next_ship_id(&self) -> (r: Option<u64>)
        ensures
            r matches Some(id) ==> forall|k: int|
                0 <= k < self.ships@.len() ==> (#[trigger] self.ships@[k]).id != id,
            ids_available(*self) ==> r is Some,
    {
        let mut top: u64 = 0;
        let mut i: usize = 0;
        while i < self.ships.len()
            invariant
                i <= self.ships@.len(),
                forall|k: int| 0 <= k < i ==> (#[trigger] self.ships@[k]).id <= top,
                top == 0 || exists|k: int|
                    0 <= k < i && (#[trigger] self.ships@[k]).id == top,
            decreases self.ships@.len() - i,
        {
            if self.ships[i].id > top {
                top = self.ships[i].id;
            }
            i = i + 1;
        }
        if top == u64::MAX {
            None
        } else {
            Some(top + 1)
        }
    }

    /// Put one pirate ship into the world at (x, y), with the given glyph
    /// and name. The cell must be open terrain with no ship on it. If the
    /// identifier space is exhausted, nothing is spawned.
    fn pirate(&mut self, x: i32, y: i32, glyph: char, name: String) -> (spawned: bool)
        requires
            old(self).wf(),
            old(self).ships@.len() < MAX_SHIPS,
            0 <= x < old(self).map.width,
            0 <= y < old(self).map.height,
            old(self).map.tiles@[cell_of(old(self).map.width as int, Position { x, y })]
                != crate::map::MapTileType::Wall,
            forall|k: int|
                0 <= k < old(self).ships@.len() ==> (#[trigger] old(self).ships@[k]).pos
                    != (Position { x, y }),
        ensures
            final(self).wf(),
            final(self).map == old(self).map,
            final(self).debris@ == old(self).debris@,
            final(self).time == old(self).time,
            final(self).log.entries@ == old(self).log.entries@,
            final(self).state == old(self).state,
            forall|k: int|
                0 <= k < old(self).ships@.len() ==> #[trigger] final(self).ships@[k] == old(
                    self,
                ).ships@[k],
            !spawned ==> final(self).ships@ == old(self).ships@,
            ids_available(*old(self)) ==> spawned,
            spawned ==> final(self).ships@.len() == old(self).ships@.len() + 1
                && spawned_pirate_ok(
                final(self).ships@.last(),
                Position { x, y },
                glyph,
                name@,
            ),
    {
        let id = match self.next_ship_id() {
            Some(id) => id,
            None => {
                return false;
            },
        };
        let s = Ship {
            id,
            name: GameName { name, l_name: None },
            glyph,
            pos: Position { x, y },
            stats: ShipStats {
                fuel: 100,
                speed: 4,
                storage: 50,
                curr_health: 3,
                max_health: 3,
                health_regen: 10,
                curr_shields: 4,
                max_shields: 4,
                shield_regen: 1,
                armor: 2,
                melee_speed: 4,
                melee_dmg: 1,
                ranged_speed: 20,
                ranged_dmg: 1,
            },
            wait_timer: WaitTimer { turns: 0 },
            health_timer: HealthTimer { turns: 0 },
            shield_timer: ShieldTimer { turns: 0 },
            player: false,
            pirate: true,
            block_tile: true,
            wants_melee: None,
            suffer_damage: SufferDamage::new_empty(),
        };
        self.ships.push(s);
        proof {
            let cur = self.ships@;
            assert(self.wf()) by {
                assert forall|k: int| 0 <= k < cur.len() implies self.ship_ok(
                    #[trigger] cur[k],
                ) by {
                    if k < cur.len() - 1 {
                        assert(old(self).ship_ok(old(self).ships@[k]));
                    }
                }
            }
        }
        true
    }

    /// A small pirate ship.
    fn small_pirate(&mut self, x: i32, y: i32) -> (spawned: bool)
        requires
            old(self).wf(),
            old(self).ships@.len() < MAX_SHIPS,
            0 <= x < old(self).map.width,
            0 <= y < old(self).map.height,
            old(self).map.tiles@[cell_of(old(self).map.width as int, Position { x, y })]
                != crate::map::MapTileType::Wall,
            forall|k: int|
                0 <= k < old(self).ships@.len() ==> (#[trigger] old(self).ships@[k]).pos
                    != (Position { x, y }),
        ensures
            final(self).wf(),
            spawn_frame(*old(self), *final(self)),
            !spawned ==> final(self).ships@ == old(self).ships@,
            ids_available(*old(self)) ==> spawned,
            spawned ==> final(self).ships@.len() == old(self).ships@.len() + 1
                && spawned_pirate_ok(
                final(self).ships@.last(),
                Position { x, y },
                'p',
                "Small Pirate"@,
            ),
    {
        self.pirate(x, y, 'p', "Small Pirate".to_owned())
    }

    /// A big pirate ship. It differs from a small one only in its glyph;
    /// in particular it too is named "Small Pirate", a quirk this crate
    /// keeps.
    fn big_pirate(&mut self, x: i32, y: i32) -> (spawned: bool)
        requires
            old(self).wf(),
            old(self).ships@.len() < MAX_SHIPS,
            0 <= x < old(self).map.width,
            0 <= y < old(self).map.height,
            old(self).map.tiles@[cell_of(old(self).map.width as int, Position { x, y })]
                != crate::map::MapTileType::Wall,
            forall|k: int|
                0 <= k < old(self).ships@.len() ==> (#[trigger] old(self).ships@[k]).pos
                    != (Position { x, y }),
        ensures
            final(self).wf(),
            spawn_frame(*old(self), *final(self)),
            !spawned ==> final(self).ships@ == old(self).ships@,
            ids_available(*old(self)) ==> spawned,
            spawned ==> final(self).ships@.len() == old(self).ships@.len() + 1
                && spawned_pirate_ok(
                final(self).ships@.last(),
                Position { x, y },
                'P',
                "Small Pirate"@,
            ),
    {
        self.pirate(x, y, 'P', "Small Pirate".to_owned())
    }

    /// Spawn the named pick at the given cell. A pick lands exactly when
    /// the cell lies on the map, holds open space with no ship on it, the
    /// pick names a pirate, and an identifier is free; any other cell or
    /// the empty pick spawns nothing.
    pub fn spawn_entity(&mut self, idx: usize, name: &String)
        requires
            old(self).wf(),
            old(self).ships@.len() < MAX_SHIPS,
            name@ == "Small Pirate"@ || name@ == "Big Pirate"@ || name@ == "None"@,
        ensures
            final(self).wf(),
            spawn_frame(*old(self), *final(self)),
            final(self).ships@.len() <= old(self).ships@.len() + 1,
            forall|k: int|
                old(self).ships@.len() <= k < final(self).ships@.len()
                    ==> spawned_pirate_at(#[trigger] final(self).ships@[k]),
            !spawn_possible(*old(self), idx as int, name@) ==> final(self).ships@ == old(
                self,
            ).ships@,
            spawn_possible(*old(self), idx as int, name@) && ids_available(*old(self))
                ==> final(self).ships@.len() == old(self).ships@.len() + 1,
            final(self).ships@.len() == old(self).ships@.len() + 1 ==> {
                &&& cell_of(
                    old(self).map.width as int,
                    final(self).ships@.last().pos,
                ) == idx
                &&& spawned_pirate_ok(
                    final(self).ships@.last(),
                    final(self).ships@.last().pos,
                    if name@ == "Small Pirate"@ {
                        'p'
                    } else {
                        'P'
                    },
                    "Small Pirate"@,
                )
            },
    {
        proof {
            reveal_strlit("Small Pirate");
            reveal_strlit("Big Pirate");
            reveal_strlit("None");
            assert("Small Pirate"@.len() == 12 && "Big Pirate"@.len() == 10 && "None"@.len()
                == 4);
            assert("Small Pirate"@ != "Big Pirate"@ && "Small Pirate"@ != "None"@
                && "Big Pirate"@ != "None"@);
        }
        if idx >= self.map.tiles.len() {
            return ;
        }
        let (ux, uy) = self.map.idx_xy(idx);
        let x = ux as i32;
        let y = uy as i32;
        proof {
            assert(cell_of(self.map.width as int, Position { x, y }) == idx);
        }
        let is_space = match self.map.tiles[idx] {
            MapTileType::Space => true,
            _ => false,
        };
        if !is_space {
            return ;
        }
        let mut occupied = false;
        let mut i: usize = 0;
        while i < self.ships.len()
            invariant
                i <= self.ships@.len(),
                !occupied ==> forall|k: int|
                    0 <= k < i ==> (#[trigger] self.ships@[k]).pos != (Position { x, y }),
                occupied ==> exists|k: int|
                    0 <= k < i && (#[trigger] self.ships@[k]).pos == (Position { x, y }),
            decreases self.ships@.len() - i,
        {
            if self.ships[i].pos.x == x && self.ships[i].pos.y == y {
                occupied = true;
            }
            i = i + 1;
        }
        proof {
            let w = self.map.width as int;
            if occupied {
                let k = choose|k: int|
                    0 <= k < self.ships@.len() && (#[trigger] self.ships@[k]).pos
                        == (Position { x, y });
                assert(cell_of(w, self.ships@[k].pos) == idx);
                assert(!spawn_possible(*self, idx as int, name@));
            } else {
                assert forall|k: int| 0 <= k < self.ships@.len() implies cell_of(
                    w,
                    (#[trigger] self.ships@[k]).pos,
                ) != idx by {
                    if cell_of(w, self.ships@[k].pos) == idx {
                        assert(self.ship_ok(self.ships@[k]));
                        lemma_cell_of_injective(
                            w,
                            self.ships@[k].pos,
                            Position { x, y },
                        );
                    }
                }
            }
        }
        if occupied {
            return ;
        }
        let small = "Small Pirate".to_owned();
        let big = "Big Pirate".to_owned();
        if *name == small {
            proof {
                assert(spawn_possible(*old(self), idx as int, name@));
            }
            self.small_pirate(x, y);
        } else if *name == big {
            proof {
                assert(spawn_possible(*old(self), idx as int, name@));
                assert(name@ != "Small Pirate"@);
            }
            self.big_pirate(x, y);
        } else {
            proof {
                assert(name@ == "None"@);
                assert(!spawn_possible(*old(self), idx as int, name@));
            }
        }
    }

    /// Fill a region with a random number of randomly picked and randomly
    /// placed pirates: up to three spawns, each rolled against the room
    /// table, each placed on a randomly chosen candidate cell (used at
    /// most once).
    pub fn spawn_region(&mut self, area: &Vec<usize>, map_depth: i32)
        requires
            old(self).wf(),
            old(self).ships@.len() + 3 <= MAX_SHIPS,
        ensures
            final(self).wf(),
            spawn_frame(*old(self), *final(self)),
            final(self).ships@.len() <= old(self).ships@.len() + 3,
            final(self).ships@.len() <= old(self).ships@.len() + area@.len(),
            forall|k: int|
                old(self).ships@.len() <= k < final(self).ships@.len()
                    ==> spawned_pirate_at(#[trigger] final(self).ships@[k]),
            forall|k: int|
                old(self).ships@.len() <= k < final(self).ships@.len() ==> spawned_from(
                    area@,
                    old(self).map.width as int,
                    #[trigger] final(self).ships@[k],
                ),
    {
        let spawn_table = room_table(map_depth);
        let mut areas: Vec<usize> = Vec::new();
        let mut i: usize = 0;
        while i < area.len()
            invariant
                i <= area@.len(),
                areas@ == area@.take(i as int),
            decreases area@.len() - i,
        {
            areas.push(area[i]);
            proof {
                assert(areas@ =~= area@.take(i + 1));
            }
            i = i + 1;
        }
        proof {
            assert(areas@ =~= area@);
            assert forall|q: int| 0 <= q < areas@.len() implies area@.contains(
                #[trigger] areas@[q],
            ) by {
                assert(area@[q] == areas@[q]);
            }
        }
        let mut rng = rng_from_os();
        let draw = rng_range_i32(&mut rng, 1, 4);
        let num_spawns: usize = if areas.len() < draw as usize {
            areas.len()
        } else {
            draw as usize
        };
        if num_spawns == 0 {
            return ;
        }
        let ghost start_len = areas@.len();
        proof {
            assert(start_len == area@.len());
        }
        let mut spawn_points: Vec<(usize, String)> = Vec::new();
        let mut c: usize = 0;
        while c < num_spawns
            invariant
                c <= num_spawns,
                num_spawns <= 3,
                num_spawns <= start_len,
                start_len == area@.len(),
                areas@.len() == start_len - c,
                spawn_points@.len() == c,
                forall|q: int|
                    0 <= q < areas@.len() ==> area@.contains(#[trigger] areas@[q]),
                forall|k: int|
                    0 <= k < spawn_points@.len() ==> area@.contains(
                        (#[trigger] spawn_points@[k]).0,
                    ),
                spawn_table.wf(),
                spawn_table.spec_total() == 12,
                spawn_table.spec_entries().len() == 2,
                spawn_table.spec_entries()[0].spec_name() == "Small Pirate"@,
                spawn_table.spec_entries()[1].spec_name() == "Big Pirate"@,
                forall|k: int|
                    0 <= k < spawn_points@.len() ==> spawn_name_ok(
                        (#[trigger] spawn_points@[k]).1@,
                    ),
            decreases num_spawns - c,
        {
            let array_index: usize = if areas.len() == 1 {
                0
            } else {
                rng_range_usize(&mut rng, 1, areas.len()) - 1
            };
            let map_idx = areas[array_index];
            let name = spawn_table.roll(&mut rng);
            proof {
                let v = choose|v: int|
                    0 < v < spawn_table.spec_total() && name@ == #[trigger] spec_pick(
                        spawn_table.spec_entries(),
                        v,
                    );
                lemma_pick_member(spawn_table.spec_entries(), v);
                if spec_pick(spawn_table.spec_entries(), v) != "None"@ {
                    let e = choose|e: int|
                        0 <= e < spawn_table.spec_entries().len() && spec_pick(
                            spawn_table.spec_entries(),
                            v,
                        ) == (#[trigger] spawn_table.spec_entries()[e]).spec_name();
                    assert(e == 0 || e == 1);
                }
                assert(spawn_name_ok(name@));
            }
            let ghost areas_before = areas@;
            spawn_points.push((map_idx, name));
            areas.remove(array_index);
            c = c + 1;
            proof {
                assert forall|q: int| 0 <= q < areas@.len() implies area@.contains(
                    #[trigger] areas@[q],
                ) by {
                    if q < array_index {
                        assert(areas@[q] == areas_before[q]);
                    } else {
                        assert(areas@[q] == areas_before[q + 1]);
                    }
                }
            }
        }
        let mut s: usize = 0;
        while s < spawn_points.len()
            invariant
                s <= spawn_points@.len(),
                spawn_points@.len() <= 3,
                spawn_points@.len() <= area@.len(),
                old(self).ships@.len() + 3 <= MAX_SHIPS,
                self.wf(),
                spawn_frame(*old(self), *self),
                self.ships@.len() <= old(self).ships@.len() + s,
                forall|k: int|
                    0 <= k < spawn_points@.len() ==> spawn_name_ok(
                        (#[trigger] spawn_points@[k]).1@,
                    ),
                forall|k: int|
                    0 <= k < spawn_points@.len() ==> area@.contains(
                        (#[trigger] spawn_points@[k]).0,
                    ),
                forall|k: int|
                    old(self).ships@.len() <= k < self.ships@.len() ==> spawned_pirate_at(
                        #[trigger] self.ships@[k],
                    ),
                forall|k: int|
                    old(self).ships@.len() <= k < self.ships@.len() ==> spawned_from(
                        area@,
                        old(self).map.width as int,
                        #[trigger] self.ships@[k],
                    ),
            decreases spawn_points@.len() - s,
        {
            let ghost before = *self;
            let idx = spawn_points[s].0;
            self.spawn_entity(idx, &spawn_points[s].1);
            proof {
                assert forall|k: int|
                    old(self).ships@.len() <= k < self.ships@.len() implies spawned_pirate_at(
                    #[trigger] self.ships@[k],
                ) && spawned_from(
                    area@,
                    old(self).map.width as int,
                    self.ships@[k],
                ) by {
                    if k < before.ships@.len() {
                        assert(self.ships@[k] == before.ships@[k]);
                    } else {
                        assert(self.ships@[k] == self.ships@.last());
                        assert(cell_of(before.map.width as int, self.ships@[k].pos)
                            == idx as int);
                        assert(area@.contains(idx));
                        let t = choose|t: int| 0 <= t < area@.len() && area@[t] == idx;
                        assert(cell_of(old(self).map.width as int, self.ships@[k].pos)
                            == area@[t]);
                    }
                }
            }
            s = s + 1;
        }
    }

    /// Collect the open space cells strictly inside a room and fill them
    /// with random pirates.
    pub fn spawn_room(&mut self, room: &Rect, map_depth: i32)
        requires
            old(self).wf(),
            old(self).ships@.len() + 3 <= MAX_SHIPS,
            -1 <= room.x1 <= room.x2 <= old(self).map.width,
            -1 <= room.y1 <= room.y2 <= old(self).map.height,
        ensures
            final(self).wf(),
            spawn_frame(*old(self), *final(self)),
            final(self).ships@.len() <= old(self).ships@.len() + 3,
            forall|k: int|
                old(self).ships@.len() <= k < final(self).ships@.len()
                    ==> spawned_pirate_at(#[trigger] final(self).ships@[k]),
            forall|k: int|
                old(self).ships@.len() <= k < final(self).ships@.len() ==> room.x1 < (
                #[trigger] final(self).ships@[k]).pos.x < room.x2
                    && room.y1 < final(self).ships@[k].pos.y < room.y2
                    && final(self).map.tiles@[cell_of(
                    final(self).map.width as int,
                    final(self).ships@[k].pos,
                )] == MapTileType::Space,
    {
        let mut possible_targets: Vec<usize> = Vec::new();
        let mut y = room.y1 + 1;
        while y < room.y2
            invariant
                self == old(self),
                room.y1 < y || y == room.y1 + 1,
                y <= room.y2 || room.y1 + 1 > room.y2,
                -1 <= room.y1 <= room.y2 <= self.map.height,
                -1 <= room.x1 <= room.x2 <= self.map.width,
                old(self).wf(),
                forall|q: int|
                    0 <= q < possible_targets@.len() ==> room_target(
                        self.map,
                        *room,
                        #[trigger] possible_targets@[q],
                    ),
            decreases room.y2 - y,
        {
            let mut x = room.x1 + 1;
            while x < room.x2
                invariant
                    self == old(self),
                    room.x1 < x || x == room.x1 + 1,
                    x <= room.x2 || room.x1 + 1 > room.x2,
                    room.y1 < y < room.y2,
                    -1 <= room.y1 <= room.y2 <= self.map.height,
                    -1 <= room.x1 <= room.x2 <= self.map.width,
                    old(self).wf(),
                    forall|q: int|
                        0 <= q < possible_targets@.len() ==> room_target(
                            self.map,
                            *room,
                            #[trigger] possible_targets@[q],
                        ),
                decreases room.x2 - x,
            {
                let idx = self.map.xy_idx(x, y);
                let is_space = match self.map.tiles[idx] {
                    MapTileType::Space => true,
                    _ => false,
                };
                if is_space {
                    possible_targets.push(idx);
                    proof {
                        assert(idx == self.map.spec_xy_idx(x as int, y as int));
                        assert(room_target(self.map, *room, idx));
                    }
                }
                x = x + 1;
            }
            y = y + 1;
        }
        let ghost pre = *self;
        self.spawn_region(&possible_targets, map_depth);
        proof {
            let w = pre.map.width as int;
            assert forall|k: int|
                old(self).ships@.len() <= k < self.ships@.len() implies room.x1 < (
            #[trigger] self.ships@[k]).pos.x < room.x2 && room.y1 < self.ships@[k].pos.y
                < room.y2 && self.map.tiles@[cell_of(
                self.map.width as int,
                self.ships@[k].pos,
            )] == MapTileType::Space by {
                assert(spawned_from(possible_targets@, w, self.ships@[k]));
                let t = choose|t: int|
                    0 <= t < possible_targets@.len() && cell_of(w, self.ships@[k].pos)
                        == #[trigger] possible_targets@[t];
                assert(room_target(pre.map, *room, possible_targets@[t]));
                let (cx, cy) = choose|cx: int, cy: int|
                    room.x1 < cx < room.x2 && room.y1 < cy < room.y2 && possible_targets@[t]
                        == #[trigger] pre.map.spec_xy_idx(cx, cy) && pre.map.tiles@[
                    pre.map.spec_xy_idx(cx, cy)] == MapTileType::Space;
                assert(self.ship_ok(self.ships@[k]));
                lemma_cell_of_injective(
                    w,
                    self.ships@[k].pos,
                    Position { x: cx as i32, y: cy as i32 },
                );
            }
        }
    }

    /// Leave a piece of loot-holding debris at (x, y).
    pub fn spawn_debris(&mut self, x: i32, y: i32)
        ensures
            *final(self) == (World { debris: final(self).debris, ..*old(self) }),
            final(self).debris@ == old(self).debris@.push(Position { x, y }),
    {
        self.debris.push(Position { x, y });
    }
}

/// What spawning never touches: everything but the ship registry.
pub open spec fn spawn_frame(pre: World, post: World) -> bool {
    &&& post.map == pre.map
    &&& post.debris@ == pre.debris@
    &&& post.time == pre.time
    &&& post.log.entries@ == pre.log.entries@
    &&& post.state == pre.state
    &&& forall|k: int|
        0 <= k < pre.ships@.len() ==> #[trigger] post.ships@[k] == pre.ships@[k]
    &&& post.ships@.len() >= pre.ships@.len()
}

/// Whether a cell index lies strictly inside the given room, on open
/// space.
pub open spec fn room_target(m: crate::map::GameMap, room: Rect, idx: usize) -> bool {
    exists|cx: int, cy: int|
        room.x1 < cx < room.x2 && room.y1 < cy < room.y2 && idx == #[trigger] m.spec_xy_idx(
            cx,
            cy,
        ) && m.tiles@[m.spec_xy_idx(cx, cy)] == crate::map::MapTileType::Space
}

/// Whether a ship stands on one of the given candidate cells.
pub open spec fn spawned_from(area: Seq<usize>, width: int, s: Ship) -> bool {
    exists|t: int| 0 <= t < area.len() && cell_of(width, s.pos) == #[trigger] area[t]
}

/// Whether `spawn_entity` places a pirate for the given cell and pick:
/// the cell lies on the map, holds open space, carries no ship, and the
/// pick names a pirate.
pub open spec fn spawn_possible(pre: World, idx: int, name: Seq<char>) -> bool {
    &&& 0 <= idx < pre.map.tiles@.len()
    &&& pre.map.tiles@[idx] == crate::map::MapTileType::Space
    &&& forall|k: int|
        0 <= k < pre.ships@.len() ==> cell_of(
            pre.map.width as int,
            (#[trigger] pre.ships@[k]).pos,
        ) != idx
    &&& (name == "Small Pirate"@ || name == "Big Pirate"@)
}

/// Whether the identifier allocator can still hand out a fresh ship
/// identifier: it scans for the maximum in use and adds one, so it runs
/// dry only when some ship already carries the largest identifier.
pub open spec fn ids_available(w: World) -> bool {
    forall|k: int| 0 <= k < w.ships@.len() ==> (#[trigger] w.ships@[k]).id != u64::MAX
}

/// A name the spawn table can produce.
pub open spec fn spawn_name_ok(n: Seq<char>) -> bool {
    n == "Small Pirate"@ || n == "Big Pirate"@ || n == "None"@
}

/// What a freshly spawned pirate looks like at the given cell.
pub open spec fn spawned_pirate_ok(s: Ship, p: Position, glyph: char, name: Seq<char>) -> bool {
    &&& s.pirate
    &&& s.block_tile
    &&& !s.player
    &&& s.pos == p
    &&& s.glyph == glyph
    &&& s.name.name@ == name
    &&& s.name.l_name is None
    &&& s.stats.curr_health == 3
    &&& s.stats.max_health == 3
    &&& s.stats.armor == 2
    &&& s.stats.melee_dmg == 1
    &&& s.stats.speed == 4
    &&& s.stats.melee_speed == 4
    &&& s.wait_timer.turns == 0
    &&& s.health_timer.turns == 0
    &&& s.wants_melee is None
    &&& s.suffer_damage.amounts().len() == 0
}

/// A freshly spawned pirate, wherever it was placed: hostile, blocking,
/// idle and unhurt.
pub open spec fn spawned_pirate_at(s: Ship) -> bool {
    &&& s.pirate
    &&& s.block_tile
    &&& !s.player
    &&& s.stats.curr_health >= 1
    &&& s.wait_timer.turns == 0
    &&& s.wants_melee is None
    &&& s.suffer_damage.amounts().len() == 0
}

/// The player's ship at game start: the Enterprise, at the given
/// position, free to act at once.
pub fn init_player(start: Position) -> (r: Ship)
    ensures
        r == (Ship {
            id: 0,
            name: r.name,
            glyph: '@',
            pos: start,
            stats: ShipStats {
                fuel: 100,
                speed: 2,
                storage: 1000,
                curr_health: 10,
                max_health: 10,
                health_regen: 10,
                curr_shields: 5,
                max_shields: 5,
                shield_regen: 1,
                armor: 0,
                melee_speed: 2,
                melee_dmg: 4,
                ranged_speed: 5,
                ranged_dmg: 1,
            },
            wait_timer: WaitTimer { turns: 0 },
            health_timer: HealthTimer { turns: 0 },
            shield_timer: ShieldTimer { turns: 0 },
            player: true,
            pirate: false,
            block_tile: false,
            wants_melee: None,
            suffer_damage: r.suffer_damage,
        }),
        r.name.name@ == "Enterprise"@,
        r.name.l_name is None,
        r.suffer_damage.amounts().len() == 0,
        r.stats.wf(),
{
    Ship {
        id: 0,
        name: GameName { name: "Enterprise".to_owned(), l_name: None },
        glyph: '@',
        pos: start,
        stats: ShipStats {
            fuel: 100,
            speed: 2,
            storage: 1000,
            curr_health: 10,
            max_health: 10,
            health_regen: 10,
            curr_shields: 5,
            max_shields: 5,
            shield_regen: 1,
            armor: 0,
            melee_speed: 2,
            melee_dmg: 4,
            ranged_speed: 5,
            ranged_dmg: 1,
        },
        wait_timer: WaitTimer { turns: 0 },
        health_timer: HealthTimer { turns: 0 },
        shield_timer: ShieldTimer { turns: 0 },
        player: true,
        pirate: false,
        block_tile: false,
        wants_melee: None,
        suffer_damage: SufferDamage::new_empty(),
    }
}

} // verus!
