use disguiser::cell_grid::{CellType, ItemKind, INVALID_REGION};
use disguiser::coord::Coord;
use disguiser::game::{blocked, finished_level, move_player, new_game};
use disguiser::guard::{Guard, GuardKind, GuardMode};

fn cell(map: &disguiser::map::LevelMap, x: i32, y: i32) -> disguiser::cell_grid::Cell {
    map.cells.data[(x as usize) * map.cells.size_y + (y as usize)]
}

fn make_guard(pos: Coord, dir: Coord, mode: GuardMode, goal: Coord) -> Guard {
    Guard {
        pos,
        dir,
        kind: GuardKind::Outer,
        mode,
        speaking: false,
        has_moved: false,
        heard_thief: false,
        hearing_guard: false,
        heard_guard: false,
        heard_guard_pos: pos,
        goal,
        mode_timeout: 0,
        region_goal: INVALID_REGION,
        region_prev: INVALID_REGION,
    }
}

/// Seed 42, level 0: walking onto a coin collects exactly that coin.
#[test]
fn picking_up_a_coin() {
    let mut game = new_game(42);
    assert_eq!(game.level, 0);
    assert!(game.map.total_loot > 0, "level 0 of seed 42 has loot");

    // Find a coin with a free neighbor to step in from.
    let coins: Vec<Coord> = game
        .map
        .items
        .iter()
        .filter(|it| it.kind == ItemKind::Coin)
        .map(|it| it.pos)
        .collect();
    let mut done = false;
    'outer: for pos in coins {
        for (dx, dy) in [(1, 0), (-1, 0), (0, 1), (0, -1)] {
            let from = Coord(pos.0 + dx, pos.1 + dy);
            if from.0 < 0 || from.1 < 0 || from.0 as usize >= game.map.cells.size_x
                || from.1 as usize >= game.map.cells.size_y
            {
                continue;
            }
            if cell(&game.map, from.0, from.1).move_cost != 0 {
                continue;
            }
            if blocked(&game.map, pos, from) || blocked(&game.map, from, pos) {
                continue;
            }
            game.player.pos = from;
            let gold_before = game.player.gold;
            let items_before = game.map.items.len();
            move_player(&mut game, Coord(-dx, -dy));
            assert_eq!(game.player.pos, pos);
            assert_eq!(game.player.gold, gold_before + 1);
            assert_eq!(game.map.items.len(), items_before - 1);
            assert!(!game.map.items.iter().any(|it| it.kind == ItemKind::Coin && it.pos == pos));
            done = true;
            break 'outer;
        }
    }
    assert!(done, "found a reachable coin");
}

/// A patrolling guard with the target beyond its cutoff and behind it
/// stays on patrol through a full turn.
#[test]
fn unalerted_guard_keeps_patrolling() {
    let mut game = new_game(42);

    // Put a guard on open ground, beyond every sight cutoff, facing away
    // from the player.
    let p = game.player.pos;
    let mut placed = false;
    'search: for x in 0..game.map.cells.size_x as i32 {
        for y in 0..game.map.cells.size_y as i32 {
            let d = Coord(p.0 - x, p.1 - y);
            if d.0 * d.0 + d.1 * d.1 <= 80 {
                continue;
            }
            if cell(&game.map, x, y).move_cost != 0 {
                continue;
            }
            // Face along the axis that points away from the player.
            let dir = if d.0.abs() >= d.1.abs() {
                Coord(if d.0 > 0 { -1 } else { 1 }, 0)
            } else {
                Coord(0, if d.1 > 0 { -1 } else { 1 })
            };
            let gpos = Coord(x, y);
            assert!(dir.0 * d.0 + dir.1 * d.1 < 0);
            game.map.guards.push(make_guard(gpos, dir, GuardMode::Patrol, gpos));
            placed = true;
            break 'search;
        }
    }
    assert!(placed);

    move_player(&mut game, Coord(0, 0));

    assert_eq!(game.map.guards.len(), 1);
    assert_eq!(game.map.guards[0].mode, GuardMode::Patrol);
    assert_eq!(game.player.health, 5);
}

/// A chasing guard adjacent to the player lands exactly one point of
/// damage per turn, and health floors at zero.
#[test]
fn adjacent_chaser_damages_once_per_turn() {
    let mut game = new_game(42);

    // Park the player on open ground with a guard right next to it,
    // already chasing and facing the player.
    let p = game.player.pos;
    let gpos = Coord(p.0 + 1, p.1);
    assert!((gpos.0 as usize) < game.map.cells.size_x);
    assert!(cell(&game.map, gpos.0, gpos.1).move_cost == 0);
    game.map.guards.push(make_guard(gpos, Coord(-1, 0), GuardMode::ChaseVisibleTarget, p));

    assert_eq!(game.player.health, 5);
    move_player(&mut game, Coord(0, 0));
    assert_eq!(game.player.health, 4);
    assert!(game.player.damaged_last_turn);
    move_player(&mut game, Coord(0, 0));
    assert_eq!(game.player.health, 3);

    // Health floors at zero and a dead player takes no further turns.
    game.player.health = 1;
    move_player(&mut game, Coord(0, 0));
    assert_eq!(game.player.health, 0);
    let seen_before = game.map.percent_seen();
    move_player(&mut game, Coord(1, 0));
    assert_eq!(game.player.health, 0);
    assert_eq!(game.map.percent_seen(), seen_before);
}

/// The level-complete flag is set by a turn exactly when all loot is
/// collected and every cell is seen.
#[test]
fn level_completes_exactly_when_looted_and_seen() {
    let mut game = new_game(42);
    assert!(!game.finished_level);

    // A waiting turn on an incomplete level does not finish it.
    move_player(&mut game, Coord(0, 0));
    assert!(!game.finished_level);
    assert!(!finished_level(&game.map));

    // Loot alone is not sufficient.
    game.player.gold += game.map.collect_all_loot();
    move_player(&mut game, Coord(0, 0));
    assert!(!game.finished_level);

    // Seeing everything as well completes the level on the next turn.
    game.map.mark_all_seen();
    assert!(finished_level(&game.map));
    move_player(&mut game, Coord(0, 0));
    assert!(game.finished_level);
}

/// Moving into a wall with a use-less target is a rejected intent: nothing
/// advances.
#[test]
fn blocked_moves_do_not_advance_time() {
    let mut game = new_game(42);
    // Find a wall neighbor.
    let p = game.player.pos;
    for (dx, dy) in [(1, 0), (-1, 0), (0, 1), (0, -1)] {
        let t = Coord(p.0 + dx, p.1 + dy);
        if t.0 < 0 || t.1 < 0 || t.0 as usize >= game.map.cells.size_x
            || t.1 as usize >= game.map.cells.size_y
        {
            continue;
        }
        if !blocked(&game.map, p, t) {
            continue;
        }
        if game.map.is_outfit_at(t) {
            continue;
        }
        let before = game.player.pos;
        move_player(&mut game, Coord(dx, dy));
        assert_eq!(game.player.pos, before);
        return;
    }
}

/// Visibility within a level only grows as the player moves.
#[test]
fn seen_cells_accumulate_across_turns() {
    let mut game = new_game(7);
    let snapshot: Vec<bool> = game.map.cells.data.iter().map(|c| c.seen).collect();
    // Take a few steps in arbitrary directions (blocked ones are no-ops).
    for d in [Coord(0, 1), Coord(1, 0), Coord(0, 1), Coord(-1, 0), Coord(0, -1)] {
        move_player(&mut game, d);
    }
    for (i, c) in game.map.cells.data.iter().enumerate() {
        if snapshot[i] {
            assert!(c.seen);
        }
    }
}

/// A longer smoke run on a guarded level: many turns leave the world
/// coherent and never heal the player.
#[test]
fn guarded_level_runs_many_turns() {
    let mut game = new_game(9);
    disguiser::game::advance_to_next_level(&mut game);
    disguiser::game::advance_to_next_level(&mut game);
    assert_eq!(game.level, 2);
    assert!(game.map.guards.len() >= 1);

    let mut health_prev = game.player.health;
    let script = [
        Coord(0, 1),
        Coord(1, 0),
        Coord(0, 0),
        Coord(0, 1),
        Coord(-1, 1),
        Coord(0, 0),
        Coord(1, 1),
        Coord(0, 1),
        Coord(0, -1),
        Coord(-1, 0),
        Coord(0, 0),
        Coord(0, 1),
    ];
    for d in script {
        move_player(&mut game, d);
        assert!(game.player.health <= health_prev);
        health_prev = game.player.health;
        let sx = game.map.cells.size_x as i32;
        let sy = game.map.cells.size_y as i32;
        assert!(game.player.pos.0 >= 0 && game.player.pos.0 < sx);
        assert!(game.player.pos.1 >= 0 && game.player.pos.1 < sy);
        for g in &game.map.guards {
            assert!(g.pos.0 >= 0 && g.pos.0 < sx && g.pos.1 >= 0 && g.pos.1 < sy);
            // Guards never stand inside walls.
            assert!(cell(&game.map, g.pos.0, g.pos.1).move_cost != disguiser::cell_grid::INFINITE_COST);
        }
    }
}
