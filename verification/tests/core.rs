use space_trader::components::{
    GameName, HealthTimer, Position, ShieldTimer, Ship, ShipStats, SufferDamage, WaitTimer,
};
use rand::SeedableRng;
use space_trader::input::{PlayerAction, PlayerIntent};
use space_trader::log::LogEvent;
use space_trader::map::{GameMap, MapTileType};
use space_trader::state::AppState;
use space_trader::world::World;

fn open_map(w: u32, h: u32) -> GameMap {
    let mut map = GameMap::new(w, h);
    let cells = (w * h) as usize;
    let mut i = 0;
    while i < cells {
        map.tiles[i] = MapTileType::Space;
        map.blocked_tiles[i] = false;
        i += 1;
    }
    map
}

fn stock_stats() -> ShipStats {
    ShipStats {
        fuel: 100,
        speed: 4,
        storage: 50,
        curr_health: 3,
        max_health: 3,
        health_regen: 10,
        curr_shields: 4,
        max_shields: 4,
        shield_regen: 1,
        armor: 2,
        melee_speed: 4,
        melee_dmg: 1,
        ranged_speed: 20,
        ranged_dmg: 1,
    }
}

fn mk_pirate(id: u64, x: i32, y: i32, name: &str) -> Ship {
    Ship {
        id,
        name: GameName { name: name.to_string(), l_name: None },
        glyph: 'p',
        pos: Position { x, y },
        stats: stock_stats(),
        wait_timer: WaitTimer { turns: 0 },
        health_timer: HealthTimer { turns: 0 },
        shield_timer: ShieldTimer { turns: 0 },
        player: false,
        pirate: true,
        block_tile: true,
        wants_melee: None,
        suffer_damage: SufferDamage::new_empty(),
    }
}

fn open_world(w: u32, h: u32, px: i32, py: i32) -> World {
    World::new(open_map(w, h), Position { x: px, y: py })
}

#[test]
fn cell_index_round_trip() {
    let map = GameMap::new(40, 24);
    let mut y = 0;
    while y < 24 {
        let mut x = 0;
        while x < 40 {
            let idx = map.xy_idx(x, y);
            let (rx, ry) = map.idx_xy(idx);
            assert_eq!((rx as i32, ry as i32), (x, y));
            x += 1;
        }
        y += 1;
    }
}

#[test]
fn mitigation_is_never_negative() {
    assert_eq!(space_trader::combat::mitigated_damage(4, 2), 2);
    assert_eq!(space_trader::combat::mitigated_damage(2, 5), 0);
    assert_eq!(space_trader::combat::mitigated_damage(7, 7), 0);
    assert_eq!(space_trader::combat::mitigated_damage(9, 0), 9);
}

#[test]
fn corridor_path_has_exact_length_and_cost() {
    // Player at (5,5), goal at (5,3): a clear straight corridor of two
    // moves gives a three-cell path of cost 2.
    let map = open_map(10, 10);
    let r = space_trader::pathing::find_path(
        &map,
        Position { x: 5, y: 5 },
        Position { x: 5, y: 3 },
    );
    let (path, cost) = r.expect("open grid must have a path");
    assert_eq!(path.len(), 3);
    assert_eq!(cost, 2);
    assert_eq!(path[0], Position { x: 5, y: 5 });
    assert_eq!(path[2], Position { x: 5, y: 3 });
}

#[test]
fn longer_corridor_costs_one_per_step() {
    let map = open_map(12, 3);
    let r = space_trader::pathing::find_path(
        &map,
        Position { x: 1, y: 1 },
        Position { x: 8, y: 1 },
    );
    let (path, cost) = r.expect("open corridor must have a path");
    assert_eq!(path.len(), 8);
    assert_eq!(cost, 7);
}

#[test]
fn walled_off_goal_has_no_path() {
    let mut map = open_map(9, 9);
    // Wall off the goal cell (7,7) completely.
    for (dx, dy) in [(-1, -1), (0, -1), (1, -1), (-1, 0), (1, 0), (-1, 1), (0, 1), (1, 1)] {
        let idx = map.xy_idx(7 + dx, 7 + dy);
        map.tiles[idx] = MapTileType::Wall;
        map.blocked_tiles[idx] = true;
    }
    let r = space_trader::pathing::find_path(
        &map,
        Position { x: 1, y: 1 },
        Position { x: 7, y: 7 },
    );
    assert!(r.is_none());
}

#[test]
fn diagonal_shortcut_costs_one() {
    let map = open_map(10, 10);
    let r = space_trader::pathing::find_path(
        &map,
        Position { x: 2, y: 2 },
        Position { x: 4, y: 4 },
    );
    let (path, cost) = r.expect("path");
    assert_eq!(path.len(), 3);
    assert_eq!(cost, 2);
}

#[test]
fn scenario_a_single_hit_is_mitigated_and_applied() {
    // 10x10 open grid, attacker at (0,0) with melee damage 4, target
    // adjacent at (1,0) with armor 2 and health 10: after one combat and
    // damage pass the target stands at health 8 and is not despawned.
    let mut w = open_world(10, 10, 0, 0);
    w.ships[0].stats.melee_dmg = 4;
    let mut target = mk_pirate(7, 1, 0, "Raider");
    target.stats.armor = 2;
    target.stats.curr_health = 10;
    target.stats.max_health = 10;
    w.ships.push(target);
    w.ships[0].wants_melee = Some(7);
    w.state = AppState::RunCombat;
    w.melee_combat_system();
    assert_eq!(w.state, AppState::RunDamage);
    assert_eq!(w.ships[1].stats.curr_health, 10);
    w.damage_system();
    assert_eq!(w.state, AppState::DeleteDead);
    assert_eq!(w.ships[1].stats.curr_health, 8);
    let flips = vec![false, false];
    w.delete_dead_resolved(&flips);
    assert_eq!(w.state, AppState::RunTimers);
    assert_eq!(w.ships.len(), 2);
}

#[test]
fn scenario_b_lethal_hit_despawns_and_logs_death() {
    // Same as scenario A but the target holds 2 health: after the death
    // check the target is gone and a death log entry carries its name.
    let mut w = open_world(10, 10, 0, 0);
    w.ships[0].stats.melee_dmg = 4;
    let mut target = mk_pirate(7, 1, 0, "Raider");
    target.stats.armor = 2;
    target.stats.curr_health = 2;
    w.ships.push(target);
    w.ships[0].wants_melee = Some(7);
    w.state = AppState::RunCombat;
    w.melee_combat_system();
    w.damage_system();
    assert_eq!(w.ships[1].stats.curr_health, 0);
    let flips = vec![false, false];
    w.delete_dead_resolved(&flips);
    assert_eq!(w.ships.len(), 1);
    assert!(w.ships[0].player);
    let mut found = false;
    for (_, ev) in w.log.entries.iter() {
        if let LogEvent::Died { name } = ev {
            assert_eq!(name, "Raider");
            found = true;
        }
    }
    assert!(found, "a death log entry with the target's name must exist");
}

#[test]
fn simultaneous_attackers_accumulate_before_death_check() {
    // Two pirates hit the player in one tick; the player's final health
    // is the initial health minus the sum of both mitigated damages.
    let mut w = open_world(10, 10, 5, 5);
    let mut a = mk_pirate(1, 4, 5, "One");
    a.stats.melee_dmg = 3;
    a.wants_melee = Some(0);
    let mut b = mk_pirate(2, 6, 5, "Two");
    b.stats.melee_dmg = 5;
    b.wants_melee = Some(0);
    w.ships.push(a);
    w.ships.push(b);
    w.state = AppState::RunCombat;
    w.melee_combat_system();
    w.damage_system();
    // player armor 0: 3 + 5 accumulated, applied as one sum
    assert_eq!(w.ships[0].stats.curr_health, 10 - 8);
}

#[test]
fn attacker_order_does_not_change_the_outcome() {
    for order in 0..2 {
        let mut w = open_world(10, 10, 5, 5);
        let mut a = mk_pirate(1, 4, 5, "One");
        a.stats.melee_dmg = 3;
        a.wants_melee = Some(0);
        let mut b = mk_pirate(2, 6, 5, "Two");
        b.stats.melee_dmg = 5;
        b.wants_melee = Some(0);
        if order == 0 {
            w.ships.push(a);
            w.ships.push(b);
        } else {
            w.ships.push(b);
            w.ships.push(a);
        }
        w.state = AppState::RunCombat;
        w.melee_combat_system();
        w.damage_system();
        assert_eq!(w.ships[0].stats.curr_health, 2);
    }
}

#[test]
fn zero_damage_attack_is_logged_not_applied() {
    let mut w = open_world(10, 10, 0, 0);
    w.ships[0].stats.melee_dmg = 1;
    let mut target = mk_pirate(7, 1, 0, "Tank");
    target.stats.armor = 5;
    target.stats.curr_health = 3;
    w.ships.push(target);
    w.ships[0].wants_melee = Some(7);
    w.state = AppState::RunCombat;
    w.melee_combat_system();
    w.damage_system();
    assert_eq!(w.ships[1].stats.curr_health, 3);
    let mut unable = false;
    for (_, ev) in w.log.entries.iter() {
        if let LogEvent::UnableToDamage { attacker: _, target } = ev {
            assert_eq!(target, "Tank");
            unable = true;
        }
    }
    assert!(unable);
}

#[test]
fn scenario_c_hostile_two_away_moves_one_step_closer() {
    // Player at (5,5), hostile at (5,3): path length 3, so the pirate
    // moves one step toward the player and pays its movement speed.
    let mut w = open_world(10, 10, 5, 5);
    w.ships.push(mk_pirate(1, 5, 3, "Chaser"));
    w.state = AppState::RunAI;
    w.map_indexing();
    w.pirate_ai();
    assert_eq!(w.state, AppState::RunCombat);
    let p = &w.ships[1];
    assert!(p.wants_melee.is_none());
    assert_eq!(p.wait_timer.turns, 4);
    let dx = (p.pos.x - 5).abs();
    let dy = (p.pos.y - 5).abs();
    assert!(dx <= 1 && dy <= 1 && !(p.pos.x == 5 && p.pos.y == 5));
    // one step from the old cell
    assert!((p.pos.x - 5).abs() <= 1 && (p.pos.y - 3).abs() <= 1);
}

#[test]
fn scenario_d_adjacent_hostile_attacks_instead_of_moving() {
    // Player at (5,5), hostile at (5,4): adjacent, so the pirate raises
    // a melee intent against the player instead of moving.
    let mut w = open_world(10, 10, 5, 5);
    w.ships.push(mk_pirate(1, 5, 4, "Boarder"));
    w.state = AppState::RunAI;
    w.map_indexing();
    w.pirate_ai();
    let p = &w.ships[1];
    assert_eq!(p.pos, Position { x: 5, y: 4 });
    assert_eq!(p.wants_melee, Some(0));
    assert_eq!(p.wait_timer.turns, 4);
}

#[test]
fn scenario_e_player_death_is_terminal() {
    // Once the player's health reaches zero, the death check transitions
    // to GameOver and no further phase executes.
    let mut w = open_world(10, 10, 5, 5);
    w.ships[0].stats.curr_health = 0;
    w.state = AppState::DeleteDead;
    w.step();
    assert_eq!(w.state, AppState::GameOver);
    match w.log.entries.last() {
        Some((_, LogEvent::PlayerDied)) => {},
        _ => panic!("player death must be logged"),
    }
    let ships_before = w.ships.len();
    let tick_before = w.time.tick;
    w.step();
    assert_eq!(w.state, AppState::GameOver);
    assert_eq!(w.ships.len(), ships_before);
    assert_eq!(w.time.tick, tick_before);
}

#[test]
fn wait_timers_wind_down_once_per_tick() {
    let mut w = open_world(10, 10, 5, 5);
    w.ships[0].wait_timer.turns = 2;
    let mut p = mk_pirate(1, 1, 1, "Idler");
    p.wait_timer.turns = 5;
    w.ships.push(p);
    let mut q = mk_pirate(2, 2, 2, "Eager");
    q.wait_timer.turns = 0;
    w.ships.push(q);
    w.state = AppState::IncrementTime;
    w.increment_time();
    assert_eq!(w.time.tick, 1);
    assert_eq!(w.ships[0].wait_timer.turns, 1);
    assert_eq!(w.ships[1].wait_timer.turns, 4);
    assert_eq!(w.ships[2].wait_timer.turns, 0);
    // the player still waits, so the tick proceeds without input
    assert_eq!(w.state, AppState::RunAI);
}

#[test]
fn player_free_to_act_gets_the_tick() {
    let mut w = open_world(10, 10, 5, 5);
    w.ships[0].wait_timer.turns = 1;
    w.state = AppState::IncrementTime;
    w.increment_time();
    assert_eq!(w.state, AppState::AwaitingInput);
}

#[test]
fn rebuild_occupancy_is_idempotent() {
    let mut w = open_world(10, 10, 5, 5);
    w.ships.push(mk_pirate(1, 2, 3, "Blocky"));
    w.map_indexing();
    let blocked_once = w.map.blocked_tiles.clone();
    let content_once = w.map.tile_content.clone();
    w.map_indexing();
    assert_eq!(w.map.blocked_tiles, blocked_once);
    assert_eq!(w.map.tile_content, content_once);
    // the pirate blocks its own cell, the player does not
    let pidx = w.map.xy_idx(2, 3);
    let hidx = w.map.xy_idx(5, 5);
    assert!(w.map.blocked_tiles[pidx]);
    assert!(!w.map.blocked_tiles[hidx]);
    assert_eq!(w.map.tile_content[pidx], vec![1]);
    assert_eq!(w.map.tile_content[hidx], vec![0]);
}

#[test]
fn player_move_walks_into_open_space() {
    let mut w = open_world(10, 10, 5, 5);
    w.state = AppState::AwaitingInput;
    w.map_indexing();
    let act = w.player_input(PlayerIntent::MoveBy { dx: 1, dy: 0 });
    assert_eq!(act, PlayerAction::Moved);
    assert_eq!(w.ships[0].pos, Position { x: 6, y: 5 });
    assert_eq!(w.ships[0].wait_timer.turns, 2);
    assert_eq!(w.state, AppState::RunAI);
}

#[test]
fn player_move_into_wall_is_no_action() {
    let mut w = open_world(10, 10, 5, 5);
    let widx = w.map.xy_idx(6, 5);
    w.map.tiles[widx] = MapTileType::Wall;
    w.state = AppState::AwaitingInput;
    w.map_indexing();
    let act = w.player_input(PlayerIntent::MoveBy { dx: 1, dy: 0 });
    assert_eq!(act, PlayerAction::NoAction);
    assert_eq!(w.ships[0].pos, Position { x: 5, y: 5 });
    assert_eq!(w.ships[0].wait_timer.turns, 0);
    assert_eq!(w.state, AppState::AwaitingInput);
}

#[test]
fn player_attack_takes_priority_over_movement() {
    let mut w = open_world(10, 10, 5, 5);
    w.ships.push(mk_pirate(9, 6, 5, "Nearby"));
    w.state = AppState::AwaitingInput;
    w.map_indexing();
    let act = w.player_input(PlayerIntent::MoveBy { dx: 1, dy: 0 });
    assert_eq!(act, PlayerAction::MeleeAttack);
    assert_eq!(w.ships[0].pos, Position { x: 5, y: 5 });
    assert_eq!(w.ships[0].wants_melee, Some(9));
    assert_eq!(w.ships[0].wait_timer.turns, 2);
    assert_eq!(w.state, AppState::RunAI);
}

#[test]
fn waiting_costs_one_turn() {
    let mut w = open_world(10, 10, 5, 5);
    w.state = AppState::AwaitingInput;
    w.map_indexing();
    let act = w.player_input(PlayerIntent::Wait);
    assert_eq!(act, PlayerAction::WaitTurn);
    assert_eq!(w.ships[0].wait_timer.turns, 1);
    assert_eq!(w.state, AppState::RunAI);
}

#[test]
fn entering_a_wormhole_leads_to_the_next_level() {
    let mut w = open_world(10, 10, 5, 5);
    let idx = w.map.xy_idx(5, 5);
    w.map.tiles[idx] = MapTileType::Wormhole;
    w.state = AppState::AwaitingInput;
    w.map_indexing();
    let act = w.player_input(PlayerIntent::Interact);
    assert_eq!(act, PlayerAction::EnterWormhole);
    assert_eq!(w.state, AppState::NextLevel);
    match w.log.entries.last() {
        Some((_, LogEvent::EnteredWormhole)) => {},
        _ => panic!("entering the wormhole must be logged"),
    }
}

#[test]
fn interacting_with_plain_space_is_refused() {
    let mut w = open_world(10, 10, 5, 5);
    w.state = AppState::AwaitingInput;
    w.map_indexing();
    let act = w.player_input(PlayerIntent::Interact);
    assert_eq!(act, PlayerAction::NoAction);
    assert_eq!(w.state, AppState::AwaitingInput);
    match w.log.entries.last() {
        Some((_, LogEvent::CannotEnter)) => {},
        _ => panic!("the refusal must be logged"),
    }
}

#[test]
fn inventory_menu_suspends_and_resumes() {
    let mut w = open_world(10, 10, 5, 5);
    w.state = AppState::AwaitingInput;
    w.map_indexing();
    let act = w.player_input(PlayerIntent::OpenMenu);
    assert_eq!(act, PlayerAction::OpenInventoryMenu);
    assert_eq!(w.state, AppState::InventoryMenu);
    assert_eq!(w.ships[0].wait_timer.turns, 0);
    w.inventory_menu(false);
    assert_eq!(w.state, AppState::InventoryMenu);
    w.inventory_menu(true);
    assert_eq!(w.state, AppState::AwaitingInput);
}

#[test]
fn regeneration_waits_for_the_timer() {
    let mut w = open_world(10, 10, 5, 5);
    w.ships[0].stats.curr_health = 5;
    w.ships[0].health_timer.turns = 2;
    w.state = AppState::RunTimers;
    w.regen_health();
    assert_eq!(w.ships[0].stats.curr_health, 5);
    assert_eq!(w.ships[0].health_timer.turns, 1);
    assert_eq!(w.state, AppState::IncrementTime);
}

#[test]
fn regeneration_heals_one_and_resets_the_timer() {
    let mut w = open_world(10, 10, 5, 5);
    w.ships[0].stats.curr_health = 5;
    w.ships[0].health_timer.turns = 0;
    w.state = AppState::RunTimers;
    w.regen_health();
    assert_eq!(w.ships[0].stats.curr_health, 6);
    assert_eq!(w.ships[0].health_timer.turns, 10);
    match w.log.entries.last() {
        Some((_, LogEvent::Healed)) => {},
        _ => panic!("player healing must be logged"),
    }
}

#[test]
fn full_health_ships_do_not_overheal() {
    let mut w = open_world(10, 10, 5, 5);
    w.ships[0].health_timer.turns = 0;
    w.state = AppState::RunTimers;
    w.regen_health();
    assert_eq!(w.ships[0].stats.curr_health, 10);
    assert_eq!(w.log.entries.len(), 0);
}

#[test]
fn a_full_tick_cycles_back_to_increment_time() {
    let mut w = open_world(10, 10, 5, 5);
    w.ships.push(mk_pirate(1, 5, 3, "Chaser"));
    w.ships[0].wait_timer.turns = 3;
    w.state = AppState::IncrementTime;
    w.step();
    assert_eq!(w.state, AppState::RunAI);
    w.step();
    assert_eq!(w.state, AppState::RunCombat);
    w.step();
    assert_eq!(w.state, AppState::RunDamage);
    w.step();
    assert_eq!(w.state, AppState::DeleteDead);
    w.step();
    assert_eq!(w.state, AppState::RunTimers);
    w.step();
    assert_eq!(w.state, AppState::IncrementTime);
    assert_eq!(w.time.tick, 1);
}

#[test]
fn adjacent_pirate_kills_player_over_time() {
    // A pirate with heavy guns next to the player grinds it down to a
    // game over while the player keeps waiting.
    let mut w = open_world(10, 10, 5, 5);
    let mut p = mk_pirate(1, 5, 4, "Bruiser");
    p.stats.melee_dmg = 6;
    w.ships.push(p);
    w.state = AppState::IncrementTime;
    let mut guard = 0;
    while w.state != AppState::GameOver && guard < 200 {
        if w.state == AppState::AwaitingInput {
            w.player_input(PlayerIntent::Wait);
        } else {
            w.step();
        }
        guard += 1;
    }
    assert_eq!(w.state, AppState::GameOver);
}

#[test]
fn suffer_damage_accumulates_and_sums() {
    let mut s = SufferDamage::new_empty();
    assert_eq!(s.sum_dmg(), 0);
    s.new_damage(3);
    s.new_damage(4);
    assert_eq!(s.sum_dmg(), 7);
    s.clear();
    assert_eq!(s.sum_dmg(), 0);
}

#[test]
fn distance_is_taxicab() {
    let a = Position { x: 2, y: 3 };
    let b = Position { x: 5, y: 1 };
    assert_eq!(a.distance(&b), 5);
    assert_eq!(b.distance(&a), 5);
    assert_eq!(a.distance(&a), 0);
}

#[test]
fn shields_recharge_on_their_own_timer() {
    let mut w = open_world(10, 10, 5, 5);
    w.ships[0].stats.curr_shields = 2;
    w.ships[0].shield_timer.turns = 0;
    w.state = AppState::RunTimers;
    w.regen_health();
    assert_eq!(w.ships[0].stats.curr_shields, 3);
    assert_eq!(w.ships[0].shield_timer.turns, 1);
    // shield recharge alone is not logged
    assert_eq!(w.log.entries.len(), 0);
}

#[test]
fn death_check_with_random_debris_drops() {
    let mut w = open_world(10, 10, 5, 5);
    let mut p = mk_pirate(1, 2, 2, "Doomed");
    p.stats.curr_health = 0;
    w.ships.push(p);
    w.state = AppState::DeleteDead;
    w.delete_the_dead();
    assert_eq!(w.state, AppState::RunTimers);
    assert_eq!(w.ships.len(), 1);
    assert!(w.debris.len() <= 1);
    if let Some(d) = w.debris.first() {
        assert_eq!(*d, Position { x: 2, y: 2 });
    }
}

#[test]
fn table_rolls_land_on_listed_names() {
    let table = space_trader::spawner::room_table(1);
    let mut rng = rand::rngs::SmallRng::seed_from_u64(7);
    for _ in 0..50 {
        let name = table.roll(&mut rng);
        assert!(name == "Small Pirate" || name == "Big Pirate" || name == "None");
    }
}

#[test]
fn empty_table_never_rolls_a_name() {
    let table = space_trader::spawner::RandomTable::new();
    let mut rng = rand::rngs::SmallRng::seed_from_u64(7);
    assert_eq!(table.roll(&mut rng), "None");
}

#[test]
fn each_attack_logs_exactly_one_entry() {
    let mut w = open_world(10, 10, 0, 0);
    w.ships[0].stats.melee_dmg = 4;
    let mut target = mk_pirate(7, 1, 0, "Raider");
    target.stats.armor = 2;
    target.stats.curr_health = 3;
    w.ships.push(target);
    w.ships[0].wants_melee = Some(7);
    w.state = AppState::RunCombat;
    w.melee_combat_system();
    assert_eq!(w.log.entries.len(), 1);
    match &w.log.entries[0] {
        (0, LogEvent::Shoots { attacker, target, amount }) => {
            assert_eq!(attacker, "Enterprise");
            assert_eq!(target, "Raider");
            assert_eq!(*amount, 2);
        },
        _ => panic!("one damage-dealt entry was expected"),
    }
}

#[test]
fn dead_attacker_neither_hits_nor_logs() {
    let mut w = open_world(10, 10, 5, 5);
    let mut a = mk_pirate(1, 4, 5, "Ghost");
    a.stats.melee_dmg = 5;
    a.stats.curr_health = 0;
    a.wants_melee = Some(0);
    w.ships.push(a);
    w.state = AppState::RunCombat;
    w.melee_combat_system();
    assert_eq!(w.log.entries.len(), 0);
    assert!(w.ships[1].wants_melee.is_none());
    w.damage_system();
    assert_eq!(w.ships[0].stats.curr_health, 10);
}

#[test]
fn walled_off_pirate_stands_still() {
    let mut w = open_world(11, 11, 1, 1);
    // seal the pirate at (8,8) inside a wall box
    let mut p = mk_pirate(1, 8, 8, "Trapped");
    p.stats.speed = 4;
    w.ships.push(p);
    for (dx, dy) in [(-1, -1), (0, -1), (1, -1), (-1, 0), (1, 0), (-1, 1), (0, 1), (1, 1)] {
        let idx = w.map.xy_idx(8 + dx, 8 + dy);
        w.map.tiles[idx] = MapTileType::Wall;
    }
    w.state = AppState::RunAI;
    w.map_indexing();
    w.pirate_ai();
    let p = &w.ships[1];
    assert_eq!(p.pos, Position { x: 8, y: 8 });
    assert_eq!(p.wait_timer.turns, 0);
    assert!(p.wants_melee.is_none());
}

#[test]
fn pirate_with_a_path_must_close_in() {
    // Pirate far away on an open grid: after RunAI it has left its cell
    // and paid its movement speed.
    let mut w = open_world(12, 12, 2, 2);
    w.ships.push(mk_pirate(1, 9, 9, "Chaser"));
    w.state = AppState::RunAI;
    w.map_indexing();
    w.pirate_ai();
    let p = &w.ships[1];
    assert_ne!(p.pos, Position { x: 9, y: 9 });
    assert!((p.pos.x - 9).abs() <= 1 && (p.pos.y - 9).abs() <= 1);
    assert_eq!(p.wait_timer.turns, 4);
    // its old cell is no longer blocked, its new cell is
    let old_idx = w.map.xy_idx(9, 9);
    let new_idx = w.map.xy_idx(p.pos.x, p.pos.y);
    assert!(!w.map.blocked_tiles[old_idx]);
    assert!(w.map.blocked_tiles[new_idx]);
}
