//! Shared map-carving helpers for the map builders. The builders' random
//! content-placement heuristics live outside the core; only the carved
//! map data matters here.

use vstd::prelude::*;

use crate::components::Position;
use crate::map::{GameMap, MapTileType};
use crate::spawner::Rect;
use crate::world::lemma_cell_of_injective;

verus! {

/// Whether (cx, cy) lies in the region `apply_room_to_map` carves: the
/// room's cells shifted one past the top-left corner, both far edges
/// inclusive.
pub open spec fn in_room_carve(room: Rect, cx: int, cy: int) -> bool {
    &&& room.x1 + 1 <= cx <= room.x2
    &&& room.y1 + 1 <= cy <= room.y2
}

/// Carves a room into the map: every cell in the room's carve region
/// becomes open space, except the map's very first and very last cell,
/// which are left untouched. Everything else is untouched too.
pub fn apply_room_to_map(map: &mut GameMap, room: &Rect)
    requires
        old(map).wf(),
        -1 <= room.x1 <= room.x2 < old(map).width,
        -1 <= room.y1 <= room.y2 < old(map).height,
    ensures
        final(map).wf(),
        *final(map) == (GameMap { tiles: final(map).tiles, ..*old(map) }),
        final(map).tiles@.len() == old(map).tiles@.len(),
        forall|cx: int, cy: int|
            #![trigger old(map).spec_xy_idx(cx, cy)]
            0 <= cx < old(map).width && 0 <= cy < old(map).height ==> final(map).tiles@[old(
                map,
            ).spec_xy_idx(cx, cy)] == (if in_room_carve(*room, cx, cy) && 0 < old(
                map,
            ).spec_xy_idx(cx, cy) < old(map).tiles@.len() - 1 {
                MapTileType::Space
            } else {
                old(map).tiles@[old(map).spec_xy_idx(cx, cy)]
            }),
    {
        let total = map.tiles.len();
        let mut y = room.y1 + 1;
        while y <= room.y2
            invariant
                old(map).wf(),
                map.wf(),
                *map == (GameMap { tiles: map.tiles, ..*old(map) }),
                map.tiles@.len() == old(map).tiles@.len(),
                total == map.tiles@.len(),
                room.y1 + 1 <= y,
                y <= room.y2 + 1,
                -1 <= room.x1 <= room.x2 < map.width,
                -1 <= room.y1 <= room.y2 < map.height,
                forall|cx: int, cy: int|
                    #![trigger old(map).spec_xy_idx(cx, cy)]
                    0 <= cx < old(map).width && 0 <= cy < old(map).height ==> map.tiles@[old(
                        map,
                    ).spec_xy_idx(cx, cy)] == (if in_room_carve(*room, cx, cy) && cy < y && 0
                        < old(map).spec_xy_idx(cx, cy) < old(map).tiles@.len() - 1 {
                        MapTileType::Space
                    } else {
                        old(map).tiles@[old(map).spec_xy_idx(cx, cy)]
                    }),
            decreases room.y2 - y + 1,
        {
            let mut x = room.x1 + 1;
            while x <= room.x2
                invariant
                    old(map).wf(),
                    map.wf(),
                    *map == (GameMap { tiles: map.tiles, ..*old(map) }),
                    map.tiles@.len() == old(map).tiles@.len(),
                    total == map.tiles@.len(),
                    room.x1 + 1 <= x,
                    x <= room.x2 + 1,
                    room.y1 + 1 <= y <= room.y2,
                    -1 <= room.x1 <= room.x2 < map.width,
                    -1 <= room.y1 <= room.y2 < map.height,
                    forall|cx: int, cy: int|
                        #![trigger old(map).spec_xy_idx(cx, cy)]
                        0 <= cx < old(map).width && 0 <= cy < old(map).height ==> map.tiles@[old(
                            map,
                        ).spec_xy_idx(cx, cy)] == (if in_room_carve(*room, cx, cy) && (cy < y || (
                        cy == y && cx < x)) && 0 < old(map).spec_xy_idx(cx, cy) < old(
                            map,
                        ).tiles@.len() - 1 {
                            MapTileType::Space
                        } else {
                            old(map).tiles@[old(map).spec_xy_idx(cx, cy)]
                        }),
                decreases room.x2 - x + 1,
            {
                let idx = map.xy_idx(x, y);
                if idx > 0 && idx < total - 1 {
                    map.tiles[idx] = MapTileType::Space;
                }
                let ghost px = x as int;
                x = x + 1;
                proof {
                    assert forall|cx: int, cy: int|
                        #![trigger old(map).spec_xy_idx(cx, cy)]
                        0 <= cx < old(map).width && 0 <= cy < old(map).height implies map.tiles@[
                        old(map).spec_xy_idx(cx, cy)] == (if in_room_carve(*room, cx, cy) && (cy
                        < y || (cy == y && cx < x)) && 0 < old(map).spec_xy_idx(cx, cy) < old(
                        map,
                    ).tiles@.len() - 1 {
                        MapTileType::Space
                    } else {
                        old(map).tiles@[old(map).spec_xy_idx(cx, cy)]
                    }) by {
                        old(map).lemma_idx_in_range(cx, cy);
                        if !(cx == px && cy == y) && old(map).spec_xy_idx(cx, cy) == idx {
                            lemma_cell_of_injective(
                                old(map).width as int,
                                Position { x: cx as i32, y: cy as i32 },
                                Position { x: px as i32, y },
                            );
                        }
                    }
                }
            }
            y = y + 1;
        }
    }

/// Whether (cx, cy) lies on the corridor `draw_corridor` carves from
/// (x1, y1) to (x2, y2): the horizontal run at `y1` from just past `x1`
/// through `x2`, then the vertical run at `x2` from just past `y1`
/// through `y2`. The starting cell itself is not carved.
pub open spec fn on_corridor(x1: int, y1: int, x2: int, y2: int, cx: int, cy: int) -> bool {
    ||| (cy == y1 && (if x1 <= x2 {
        x1 < cx <= x2
    } else {
        x2 <= cx < x1
    }))
    ||| (cx == x2 && (if y1 <= y2 {
        y1 < cy <= y2
    } else {
        y2 <= cy < y1
    }))
}

/// Carves an L-shaped corridor between two cells: first along the row of
/// the starting cell, then along the column of the ending cell. Every
/// corridor cell becomes open space; nothing else changes, and the
/// starting cell itself is left as it was.
pub fn draw_corridor(map: &mut GameMap, x1: i32, y1: i32, x2: i32, y2: i32)
    requires
        old(map).wf(),
        0 <= x1 < old(map).width,
        0 <= x2 < old(map).width,
        0 <= y1 < old(map).height,
        0 <= y2 < old(map).height,
    ensures
        final(map).wf(),
        *final(map) == (GameMap { tiles: final(map).tiles, ..*old(map) }),
        final(map).tiles@.len() == old(map).tiles@.len(),
        forall|cx: int, cy: int|
            #![trigger old(map).spec_xy_idx(cx, cy)]
            0 <= cx < old(map).width && 0 <= cy < old(map).height ==> final(map).tiles@[old(
                map,
            ).spec_xy_idx(cx, cy)] == (if on_corridor(
                x1 as int,
                y1 as int,
                x2 as int,
                y2 as int,
                cx,
                cy,
            ) {
                MapTileType::Space
            } else {
                old(map).tiles@[old(map).spec_xy_idx(cx, cy)]
            }),
{
    let mut x = x1;
    let mut y = y1;
    while x != x2 || y != y2
        invariant
            old(map).wf(),
            map.wf(),
            *map == (GameMap { tiles: map.tiles, ..*old(map) }),
            map.tiles@.len() == old(map).tiles@.len(),
            0 <= x < map.width,
            0 <= y < map.height,
            0 <= x1 < map.width,
            0 <= x2 < map.width,
            0 <= y1 < map.height,
            0 <= y2 < map.height,
            x1 <= x <= x2 || x2 <= x <= x1,
            y1 <= y <= y2 || y2 <= y <= y1,
            x != x2 ==> y == y1,
            forall|cx: int, cy: int|
                #![trigger old(map).spec_xy_idx(cx, cy)]
                0 <= cx < old(map).width && 0 <= cy < old(map).height ==> map.tiles@[old(
                    map,
                ).spec_xy_idx(cx, cy)] == (if on_corridor(
                    x1 as int,
                    y1 as int,
                    x as int,
                    y as int,
                    cx,
                    cy,
                ) {
                    MapTileType::Space
                } else {
                    old(map).tiles@[old(map).spec_xy_idx(cx, cy)]
                }),
        decreases
                (if x2 >= x {
                    x2 - x
                } else {
                    x - x2
                }) + (if y2 >= y {
                    y2 - y
                } else {
                    y - y2
                }),
    {
        let ghost px = x as int;
        let ghost py = y as int;
        if x < x2 {
            x = x + 1;
        } else if x > x2 {
            x = x - 1;
        } else if y < y2 {
            y = y + 1;
        } else {
            y = y - 1;
        }
        let idx = map.xy_idx(x, y);
        map.tiles[idx] = MapTileType::Space;
        proof {
            assert(on_corridor(x1 as int, y1 as int, x as int, y as int, x as int, y as int));
            assert forall|cx: int, cy: int|
                #![trigger old(map).spec_xy_idx(cx, cy)]
                0 <= cx < old(map).width && 0 <= cy < old(map).height implies map.tiles@[old(
                map,
            ).spec_xy_idx(cx, cy)] == (if on_corridor(
                x1 as int,
                y1 as int,
                x as int,
                y as int,
                cx,
                cy,
            ) {
                MapTileType::Space
            } else {
                old(map).tiles@[old(map).spec_xy_idx(cx, cy)]
            }) by {
                old(map).lemma_idx_in_range(cx, cy);
                if !(cx == x && cy == y) && old(map).spec_xy_idx(cx, cy) == idx {
                    lemma_cell_of_injective(
                        old(map).width as int,
                        Position { x: cx as i32, y: cy as i32 },
                        Position { x, y },
                    );
                }
            }
        }
    }
}

} // verus!
