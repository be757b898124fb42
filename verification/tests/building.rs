use space_trader::components::Position;
use space_trader::map::{
    maptile_to_cp437, wall_glyph, GameMap, MapTileType, MAX_MAP_DIM,
};
use space_trader::map_builders::{apply_room_to_map, draw_corridor};
use space_trader::spawner::{room_table, Rect};
use space_trader::state::AppState;
use space_trader::world::World;

#[test]
fn new_maps_are_solid_wall() {
    let map = GameMap::new(8, 6);
    assert_eq!(map.width, 8);
    assert_eq!(map.height, 6);
    assert_eq!(map.tiles.len(), 48);
    for t in map.tiles.iter() {
        assert_eq!(*t, MapTileType::Wall);
    }
    for b in map.blocked_tiles.iter() {
        assert!(*b);
    }
    assert!(8 <= MAX_MAP_DIM && 6 <= MAX_MAP_DIM);
}

#[test]
fn default_map_is_conspicuous_placeholder() {
    let map = GameMap::default();
    assert_eq!(map.width, 40);
    assert_eq!(map.height, 24);
    for t in map.tiles.iter() {
        assert_eq!(*t, MapTileType::Placeholder);
    }
}

#[test]
fn populate_blocked_follows_terrain() {
    let mut map = GameMap::new(5, 5);
    let idx = map.xy_idx(2, 2);
    map.tiles[idx] = MapTileType::Space;
    map.populate_blocked();
    assert!(!map.blocked_tiles[idx]);
    let widx = map.xy_idx(1, 1);
    assert!(map.blocked_tiles[widx]);
}

#[test]
fn carving_a_room_opens_its_cells() {
    let mut map = GameMap::new(10, 10);
    let room = Rect::new(1, 1, 6, 6);
    apply_room_to_map(&mut map, &room);
    // interior cells are open space
    let inside = map.xy_idx(3, 3);
    assert_eq!(map.tiles[inside], MapTileType::Space);
    let edge = map.xy_idx(2, 7);
    assert_eq!(map.tiles[edge], MapTileType::Space);
    // cells outside the carve region stay walls
    let outside = map.xy_idx(1, 1);
    assert_eq!(map.tiles[outside], MapTileType::Wall);
    let corner = map.xy_idx(9, 9);
    assert_eq!(map.tiles[corner], MapTileType::Wall);
}

#[test]
fn corridors_connect_along_an_l_shape() {
    let mut map = GameMap::new(12, 12);
    draw_corridor(&mut map, 2, 2, 7, 9);
    // horizontal run at y == 2, from just past the start through x == 7
    for x in 3..=7 {
        let idx = map.xy_idx(x, 2);
        assert_eq!(map.tiles[idx], MapTileType::Space);
    }
    // vertical run at x == 7 down to y == 9
    for y in 3..=9 {
        let idx = map.xy_idx(7, y);
        assert_eq!(map.tiles[idx], MapTileType::Space);
    }
    // the starting cell is left alone
    let start = map.xy_idx(2, 2);
    assert_eq!(map.tiles[start], MapTileType::Wall);
    let off = map.xy_idx(3, 3);
    assert_eq!(map.tiles[off], MapTileType::Wall);
}

#[test]
fn tile_glyph_codes_match_the_tile_set() {
    assert_eq!(maptile_to_cp437(MapTileType::Wall), 35);
    assert_eq!(maptile_to_cp437(MapTileType::Space), 46);
    assert_eq!(maptile_to_cp437(MapTileType::Planet), 79);
    assert_eq!(maptile_to_cp437(MapTileType::Star), 36);
    assert_eq!(maptile_to_cp437(MapTileType::Moon), 111);
    assert_eq!(maptile_to_cp437(MapTileType::Asteroid), 65);
    assert_eq!(maptile_to_cp437(MapTileType::Wormhole), 33);
    assert_eq!(maptile_to_cp437(MapTileType::Placeholder), 25);
}

#[test]
fn wall_glyphs_join_up() {
    // all-wall map, all revealed: an inner cell has walls on all sides
    let map = GameMap::new(5, 5);
    assert_eq!(wall_glyph(&map, 2, 2), 206);
    // edge cells fall back to the basic wall glyph
    assert_eq!(wall_glyph(&map, 0, 2), 35);
    assert_eq!(wall_glyph(&map, 4, 4), 35);
    // a pillar: clear all four neighbours of (2,2)
    let mut map2 = GameMap::new(5, 5);
    for (x, y) in [(2, 1), (2, 3), (1, 2), (3, 2)] {
        let idx = map2.xy_idx(x, y);
        map2.tiles[idx] = MapTileType::Space;
    }
    assert_eq!(wall_glyph(&map2, 2, 2), 9);
    // wall only to the north and south
    let mut map3 = GameMap::new(5, 5);
    for (x, y) in [(1, 2), (3, 2)] {
        let idx = map3.xy_idx(x, y);
        map3.tiles[idx] = MapTileType::Space;
    }
    assert_eq!(wall_glyph(&map3, 2, 2), 186);
}

#[test]
fn room_table_rolls_pick_by_weight() {
    let table = room_table(1);
    // 1..10 picks the first entry
    assert_eq!(table.roll_value(1), "Small Pirate");
    assert_eq!(table.roll_value(9), "Small Pirate");
    // a roll that lands exactly on the boundary picks nothing
    assert_eq!(table.roll_value(10), "None");
    // past the first weight, the remainder walks into the second entry
    assert_eq!(table.roll_value(11), "Big Pirate");
}

#[test]
fn empty_and_dropped_entries() {
    let table = space_trader::spawner::RandomTable::new();
    let table = table.add("Ghost".to_string(), 0);
    let table = table.add("Real".to_string(), 3);
    assert_eq!(table.roll_value(1), "Real");
    assert_eq!(table.roll_value(2), "Real");
}

#[test]
fn spawn_entity_places_a_pirate_on_open_space() {
    let mut map = GameMap::new(10, 10);
    let room = Rect::new(0, 0, 9, 9);
    apply_room_to_map(&mut map, &room);
    let mut w = World::new(map, Position { x: 2, y: 2 });
    let idx = w.map.xy_idx(4, 4);
    w.spawn_entity(idx, &"Small Pirate".to_string());
    assert_eq!(w.ships.len(), 2);
    assert!(w.ships[1].pirate);
    assert!(w.ships[1].block_tile);
    assert_eq!(w.ships[1].pos, Position { x: 4, y: 4 });
    assert_eq!(w.ships[1].glyph, 'p');
    // spawning onto the player's cell is refused
    let pidx = w.map.xy_idx(2, 2);
    w.spawn_entity(pidx, &"Big Pirate".to_string());
    assert_eq!(w.ships.len(), 2);
    // "None" spawns nothing
    let oidx = w.map.xy_idx(6, 6);
    w.spawn_entity(oidx, &"None".to_string());
    assert_eq!(w.ships.len(), 2);
}

#[test]
fn spawn_region_fills_from_the_candidate_cells() {
    let mut map = GameMap::new(10, 10);
    let room = Rect::new(0, 0, 9, 9);
    apply_room_to_map(&mut map, &room);
    let mut w = World::new(map, Position { x: 1, y: 1 });
    let mut area = Vec::new();
    for x in 4..8 {
        area.push(w.map.xy_idx(x, 5));
    }
    w.spawn_region(&area, 1);
    assert!(w.ships.len() >= 1 && w.ships.len() <= 4);
    for s in w.ships.iter().skip(1) {
        assert!(s.pirate);
        assert_eq!(s.pos.y, 5);
        assert!(s.pos.x >= 4 && s.pos.x < 8);
    }
}

#[test]
fn a_new_game_builds_installs_and_begins() {
    let mut built = GameMap::new(12, 12);
    let room = Rect::new(0, 0, 11, 11);
    apply_room_to_map(&mut built, &room);
    built.populate_blocked();
    // World::new starts with a placeholder map; the builder's map
    // replaces it
    let mut w = World::new(GameMap::default(), Position { x: 0, y: 0 });
    let start = Position { x: 3, y: 3 };
    w.install_map(built, start);
    assert_eq!(w.ships.len(), 1);
    assert_eq!(w.ships[0].pos, start);
    w.spawn_room(&Rect::new(4, 4, 4, 4), 1);
    w.begin_play();
    assert_eq!(w.state, AppState::AwaitingInput);
    // the player occupies its starting cell in the rebuilt index
    let idx = w.map.xy_idx(3, 3);
    assert_eq!(w.map.tile_content[idx], vec![0]);
}

#[test]
fn debris_is_left_where_it_dropped() {
    let mut w = World::new(GameMap::default(), Position { x: 0, y: 0 });
    w.spawn_debris(4, 7);
    assert_eq!(w.debris.len(), 1);
    assert_eq!(w.debris[0], Position { x: 4, y: 7 });
}
