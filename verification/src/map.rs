//! The spatial map: the tile grid, per-cell blocking flags and the per-cell
//! occupancy index, with the row-major cell indexing that the rest of the
//! pipeline depends on.

use vstd::arithmetic::div_mod::{
    lemma_div_multiples_vanish, lemma_fundamental_div_mod, lemma_fundamental_div_mod_converse,
    lemma_mod_decreases,
};
use vstd::prelude::*;

use crate::components::Position;

verus! {

/// The kind of tile at one cell of the map.
#[derive(Clone, Copy, Debug, Eq, PartialEq, Structural)]
pub enum MapTileType {
    /// Should never be rendered unless there are problems.
    Placeholder,
    /// Walls in space.
    Wall,
    /// Empty, traversable space.
    Space,
    /// A planet.
    Planet,
    /// The system's star.
    Star,
    /// A moon orbiting a planet.
    Moon,
    /// An asteroid.
    Asteroid,
    /// A transit point to the next level.
    Wormhole,
}

/// Largest accepted map dimension; keeps every index computation inside
/// `i32`, `u32` and `usize`.
pub const MAX_MAP_DIM: u32 = 0x8000;

/// The game map: terrain, blocking flags and the entity-occupancy index.
///
/// `blocked_tiles` and `tile_content` are derived data, fully rebuilt once
/// per tick from the terrain and the live entities.
pub struct GameMap {
    /// One tile kind per cell, row-major.
    pub tiles: Vec<MapTileType>,
    pub width: u32,
    pub height: u32,
    /// Whether each cell has been revealed to the player.
    pub revealed_tiles: Vec<bool>,
    /// Whether each cell refuses entry, from terrain plus blocking entities.
    pub blocked_tiles: Vec<bool>,
    /// The identifiers of the entities standing on each cell.
    pub tile_content: Vec<Vec<u64>>,
}

impl GameMap {
    /// Structural well-formedness: positive bounded dimensions and all four
    /// per-cell sequences of matching length.
    pub open spec fn wf(self) -> bool {
        &&& 0 < self.width <= MAX_MAP_DIM
        &&& 0 < self.height <= MAX_MAP_DIM
        &&& self.tiles@.len() == self.width * self.height
        &&& self.revealed_tiles@.len() == self.width * self.height
        &&& self.blocked_tiles@.len() == self.width * self.height
        &&& self.tile_content@.len() == self.width * self.height
    }

    /// Row-major cell index of (x, y), as the specification sees it.
    pub open spec fn spec_xy_idx(self, x: int, y: int) -> int {
        y * self.width + x
    }

    /// Whether a position lies on the map.
    pub open spec fn spec_in_bounds(self, p: Position) -> bool {
        &&& 0 <= p.x < self.width
        &&& 0 <= p.y < self.height
    }

    /// Cell index of an in-bounds position.
    pub open spec fn pos_idx(self, p: Position) -> int {
        self.spec_xy_idx(p.x as int, p.y as int)
    }

    /// A valid cell index never leaves the tile sequence.
    pub proof fn lemma_idx_in_range(self, x: int, y: int)
        requires
            self.wf(),
            0 <= x < self.width,
            0 <= y < self.height,
        ensures
            0 <= self.spec_xy_idx(x, y) < self.width * self.height,
    {
        assert(0 <= y * self.width + x < self.width * self.height) by (nonlinear_arith)
            requires
                0 <= x < self.width,
                0 <= y < self.height,
        ;
    }

    /// Create a new map consisting of only wall tiles, fully revealed and
    /// fully blocked, with empty occupancy lists.
    pub fn new(width: u32, height: u32) -> (r: GameMap)
        requires
            0 < width <= MAX_MAP_DIM,
            0 < height <= MAX_MAP_DIM,
        ensures
            r.wf(),
            r.width == width,
            r.height == height,
            forall|i: int| 0 <= i < r.tiles@.len() ==> r.tiles@[i] == MapTileType::Wall,
            forall|i: int|
                0 <= i < r.revealed_tiles@.len() ==> r.revealed_tiles@[i] == true,
            forall|i: int| 0 <= i < r.blocked_tiles@.len() ==> r.blocked_tiles@[i] == true,
            forall|i: int| 0 <= i < r.tile_content@.len() ==> r.tile_content@[i]@.len() == 0,
    {
        proof {
            assert(width * height <= MAX_MAP_DIM * MAX_MAP_DIM) by (nonlinear_arith)
                requires
                    0 < width <= MAX_MAP_DIM,
                    0 < height <= MAX_MAP_DIM,
            ;
        }
        let cells: usize = (width as usize) * (height as usize);
        GameMap {
            tiles: filled_tiles(cells, MapTileType::Wall),
            width,
            height,
            revealed_tiles: filled_flags(cells, true),
            blocked_tiles: filled_flags(cells, true),
            tile_content: empty_contents(cells),
        }
    }

    /// Converts an (x, y) coordinate to its index in the tile sequence.
    /// Callers must validate the bounds first; out-of-range access is a
    /// boundary violation this operation does not forgive.
    pub fn xy_idx(&self, x: i32, y: i32) -> (r: usize)
        requires
            self.wf(),
            0 <= x < self.width,
            0 <= y < self.height,
        ensures
            r == self.spec_xy_idx(x as int, y as int),
            r < self.tiles@.len(),
    {
        proof {
            self.lemma_idx_in_range(x as int, y as int);
            assert(y * self.width <= y * self.width + x) by {
                assert(x >= 0);
            }
            assert(y * self.width + x < 0x4000_0000int) by (nonlinear_arith)
                requires
                    0 <= x < self.width,
                    0 <= y < self.height,
                    self.width <= MAX_MAP_DIM,
                    self.height <= MAX_MAP_DIM,
            ;
        }
        (y as usize) * (self.width as usize) + (x as usize)
    }

    /// Converts a tile-sequence index back to its (x, y) coordinate; the
    /// inverse of `xy_idx`.
    pub fn idx_xy(&self, idx: usize) -> (r: (u32, u32))
        requires
            self.wf(),
            idx < self.tiles@.len(),
        ensures
            r.0 < self.width,
            r.1 < self.height,
            idx == self.spec_xy_idx(r.0 as int, r.1 as int),
    {
        proof {
            assert(idx < 0x4000_0000int) by (nonlinear_arith)
                requires
                    idx < self.width * self.height,
                    0 < self.width <= MAX_MAP_DIM,
                    0 < self.height <= MAX_MAP_DIM,
            ;
        }
        let idx32 = idx as u32;
        let x = idx32 % self.width;
        proof {
            lemma_mod_decreases(idx as nat, self.width as nat);
        }
        let y = (idx32 - x) / self.width;
        proof {
            let wi = self.width as int;
            let ii = idx as int;
            lemma_fundamental_div_mod(ii, wi);
            assert(ii - x == wi * (ii / wi));
            lemma_div_multiples_vanish(ii / wi, wi);
            assert(y == ii / wi);
            assert(y * wi == wi * (ii / wi)) by (nonlinear_arith)
                requires
                    y == ii / wi,
            ;
            assert(idx == self.spec_xy_idx(x as int, y as int));
            assert(y < self.height) by (nonlinear_arith)
                requires
                    y * wi + x == ii,
                    ii < wi * self.height,
                    0 <= x,
                    0 <= y,
                    0 < wi,
            ;
        }
        (x, y)
    }

    /// Round trip: converting a valid coordinate to a cell index and back
    /// yields the same coordinate.
    pub proof fn lemma_index_round_trip(self, x: int, y: int)
        requires
            self.wf(),
            0 <= x < self.width,
            0 <= y < self.height,
        ensures
            self.spec_xy_idx(x, y) % (self.width as int) == x,
            self.spec_xy_idx(x, y) / (self.width as int) == y,
    {
        lemma_fundamental_div_mod_converse(
            self.spec_xy_idx(x, y),
            self.width as int,
            y,
            x,
        );
    }

    /// Resets the blocking flags from terrain alone: a cell is blocked
    /// exactly when its tile is a wall. Entity-based blocking is layered on
    /// afterwards by the occupancy rebuild.
    pub fn populate_blocked(&mut self)
        requires
            old(self).wf(),
        ensures
            final(self).wf(),
            *final(self) == (GameMap { blocked_tiles: final(self).blocked_tiles, ..*old(self) }),
            final(self).blocked_tiles@.len() == old(self).blocked_tiles@.len(),
            forall|i: int|
                0 <= i < final(self).blocked_tiles@.len() ==> final(self).blocked_tiles@[i] == (
                old(self).tiles@[i] == MapTileType::Wall),
    {
        let n = self.tiles.len();
        let mut i: usize = 0;
        while i < n
            invariant
                self.wf(),
                n == self.tiles@.len(),
                n == self.blocked_tiles@.len(),
                i <= n,
                *self == (GameMap { blocked_tiles: self.blocked_tiles, ..*old(self) }),
                forall|j: int|
                    0 <= j < i ==> self.blocked_tiles@[j] == (self.tiles@[j]
                        == MapTileType::Wall),
                forall|j: int|
                    i <= j < n ==> self.blocked_tiles@[j] == old(self).blocked_tiles@[j],
            decreases n - i,
        {
            let is_wall = match self.tiles[i] {
                MapTileType::Wall => true,
                _ => false,
            };
            self.blocked_tiles[i] = is_wall;
            i = i + 1;
        }
    }

    /// Empties every cell's occupancy list, ahead of a rebuild.
    pub fn clear_content_index(&mut self)
        requires
            old(self).wf(),
        ensures
            final(self).wf(),
            *final(self) == (GameMap { tile_content: final(self).tile_content, ..*old(self) }),
            final(self).tile_content@.len() == old(self).tile_content@.len(),
            forall|i: int|
                0 <= i < final(self).tile_content@.len()
                    ==> final(self).tile_content@[i]@.len() == 0,
    {
        let n = self.tile_content.len();
        let mut i: usize = 0;
        while i < n
            invariant
                self.wf(),
                n == self.tile_content@.len(),
                i <= n,
                *self == (GameMap { tile_content: self.tile_content, ..*old(self) }),
                forall|j: int| 0 <= j < i ==> self.tile_content@[j]@.len() == 0,
            decreases n - i,
        {
            let slot = &mut self.tile_content[i];
            slot.clear();
            i = i + 1;
        }
    }
}

impl Default for GameMap {
    /// A placeholder-filled default map, deliberately conspicuous so that
    /// using it uninitialized is obvious.
    fn default() -> (r: GameMap)
        ensures
            r.wf(),
            r.width == 40,
            r.height == 24,
            forall|i: int|
                0 <= i < r.tiles@.len() ==> r.tiles@[i] == MapTileType::Placeholder,
            forall|i: int|
                0 <= i < r.revealed_tiles@.len() ==> r.revealed_tiles@[i] == true,
            forall|i: int| 0 <= i < r.blocked_tiles@.len() ==> r.blocked_tiles@[i] == true,
            forall|i: int| 0 <= i < r.tile_content@.len() ==> r.tile_content@[i]@.len() == 0,
    {
        let cells: usize = 40 * 24;
        GameMap {
            tiles: filled_tiles(cells, MapTileType::Placeholder),
            width: 40,
            height: 24,
            revealed_tiles: filled_flags(cells, true),
            blocked_tiles: filled_flags(cells, true),
            tile_content: empty_contents(cells),
        }
    }
}

/// Whether the tile at (x, y) is a wall the player has seen; used to pick
/// joined wall glyphs.
pub open spec fn spec_revealed_wall(m: GameMap, x: int, y: int) -> bool {
    &&& m.tiles@[m.spec_xy_idx(x, y)] == MapTileType::Wall
    &&& m.revealed_tiles@[m.spec_xy_idx(x, y)]
}

/// The wall-neighbour bitmask at (x, y): 1 for north, 2 for south, 4 for
/// west, 8 for east.
pub open spec fn spec_wall_mask(m: GameMap, x: int, y: int) -> int {
    (if spec_revealed_wall(m, x, y - 1) {
        1int
    } else {
        0int
    }) + (if spec_revealed_wall(m, x, y + 1) {
        2int
    } else {
        0int
    }) + (if spec_revealed_wall(m, x - 1, y) {
        4int
    } else {
        0int
    }) + (if spec_revealed_wall(m, x + 1, y) {
        8int
    } else {
        0int
    })
}

/// The box-drawing glyph (as a code page 437 code) for a wall with the
/// given neighbour bitmask.
pub open spec fn spec_wall_glyph_for(mask: int) -> u8 {
    if mask == 0 {
        9u8
    } else if mask == 1 || mask == 2 || mask == 3 {
        186u8
    } else if mask == 4 || mask == 8 || mask == 12 {
        205u8
    } else if mask == 5 {
        187u8
    } else if mask == 6 {
        188u8
    } else if mask == 7 {
        185u8
    } else if mask == 9 {
        201u8
    } else if mask == 10 {
        200u8
    } else if mask == 11 {
        204u8
    } else if mask == 13 {
        203u8
    } else if mask == 14 {
        202u8
    } else if mask == 15 {
        206u8
    } else {
        0u8
    }
}

/// Check whether a map tile is a wall and has been revealed.
fn is_revealed_and_wall(map: &GameMap, x: i32, y: i32) -> (r: bool)
    requires
        map.wf(),
        0 <= x < map.width,
        0 <= y < map.height,
    ensures
        r == spec_revealed_wall(*map, x as int, y as int),
{
    let idx = map.xy_idx(x, y);
    let is_wall = match map.tiles[idx] {
        MapTileType::Wall => true,
        _ => false,
    };
    is_wall && map.revealed_tiles[idx]
}

/// The glyph to draw for a wall tile, chosen by which of its cardinal
/// neighbours are revealed walls so that adjoining walls join up. Walls
/// on the map's edge fall back to the basic wall glyph, since their
/// neighbours lie outside the tile grid.
pub fn wall_glyph(map: &GameMap, x: i32, y: i32) -> (r: u8)
    requires
        map.wf(),
        0 <= x < map.width,
        0 <= y < map.height,
    ensures
        (x < 1 || x > map.width - 2 || y < 1 || y > map.height - 2) ==> r == 35,
        !(x < 1 || x > map.width - 2 || y < 1 || y > map.height - 2) ==> r
            == spec_wall_glyph_for(spec_wall_mask(*map, x as int, y as int)),
{
    if x < 1 || x > map.width as i32 - 2 || y < 1 || y > map.height as i32 - 2 {
        return 35;
    }
    let mut mask: u8 = 0;
    if is_revealed_and_wall(map, x, y - 1) {
        mask = mask + 1;
    }
    if is_revealed_and_wall(map, x, y + 1) {
        mask = mask + 2;
    }
    if is_revealed_and_wall(map, x - 1, y) {
        mask = mask + 4;
    }
    if is_revealed_and_wall(map, x + 1, y) {
        mask = mask + 8;
    }
    match mask {
        0 => 9,
        1 => 186,
        2 => 186,
        3 => 186,
        4 => 205,
        5 => 187,
        6 => 188,
        7 => 185,
        8 => 205,
        9 => 201,
        10 => 200,
        11 => 204,
        12 => 205,
        13 => 203,
        14 => 202,
        15 => 206,
        _ => 0,
    }
}

/// The code page 437 code a map tile is drawn with.
pub open spec fn spec_tile_cp437(tile: MapTileType) -> int {
    match tile {
        MapTileType::Wall => 35,
        MapTileType::Space => 46,
        MapTileType::Placeholder => 25,
        MapTileType::Planet => 79,
        MapTileType::Star => 36,
        MapTileType::Moon => 111,
        MapTileType::Asteroid => 65,
        MapTileType::Wormhole => 33,
    }
}

/// Convert a map tile to its code page 437 code.
pub fn maptile_to_cp437(tile: MapTileType) -> (r: usize)
    ensures
        r == spec_tile_cp437(tile),
{
    match tile {
        MapTileType::Wall => 35,
        MapTileType::Space => 46,
        MapTileType::Placeholder => 25,
        MapTileType::Planet => 79,
        MapTileType::Star => 36,
        MapTileType::Moon => 111,
        MapTileType::Asteroid => 65,
        MapTileType::Wormhole => 33,
    }
}

/// A vector of `n` copies of one tile kind.
fn filled_tiles(n: usize, t: MapTileType) -> (v: Vec<MapTileType>)
    ensures
        v@.len() == n,
        forall|i: int| 0 <= i < n ==> v@[i] == t,
{
    let mut v: Vec<MapTileType> = Vec::new();
    let mut i: usize = 0;
    while i < n
        invariant
            i <= n,
            v@.len() == i,
            forall|j: int| 0 <= j < i ==> v@[j] == t,
        decreases n - i,
    {
        v.push(t);
        i = i + 1;
    }
    v
}

/// A vector of `n` copies of one flag.
fn filled_flags(n: usize, b: bool) -> (v: Vec<bool>)
    ensures
        v@.len() == n,
        forall|i: int| 0 <= i < n ==> v@[i] == b,
{
    let mut v: Vec<bool> = Vec::new();
    let mut i: usize = 0;
    while i < n
        invariant
            i <= n,
            v@.len() == i,
            forall|j: int| 0 <= j < i ==> v@[j] == b,
        decreases n - i,
    {
        v.push(b);
        i = i + 1;
    }
    v
}

/// A vector of `n` empty occupancy lists.
fn empty_contents(n: usize) -> (v: Vec<Vec<u64>>)
    ensures
        v@.len() == n,
        forall|i: int| 0 <= i < n ==> v@[i]@.len() == 0,
{
    let mut v: Vec<Vec<u64>> = Vec::new();
    let mut i: usize = 0;
    while i < n
        invariant
            i <= n,
            v@.len() == i,
            forall|j: int| 0 <= j < i ==> v@[j]@.len() == 0,
        decreases n - i,
    {
        v.push(Vec::new());
        i = i + 1;
    }
    v
}

} // verus!
