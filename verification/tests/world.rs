use disguiser::cell_grid::{Cell, CellType, Item, ItemKind, INFINITE_COST, INVALID_REGION};
use disguiser::coord::Coord;
use disguiser::game::blocked;
use disguiser::grid::Grid;
use disguiser::guard::{Guard, GuardKind, GuardMode};
use disguiser::map::LevelMap;
use disguiser::cell_grid::make_player;

fn open_cell() -> Cell {
    Cell {
        cell_type: CellType::GroundNormal,
        move_cost: 0,
        region: INVALID_REGION,
        blocks_player_sight: false,
        blocks_sight: false,
        blocks_sound: false,
        hides_player: false,
        lit: true,
        seen: false,
    }
}

fn flat_map(sx: usize, sy: usize) -> LevelMap {
    LevelMap {
        cells: Grid { size_x: sx, size_y: sy, data: vec![open_cell(); sx * sy] },
        patrol_regions: Vec::new(),
        patrol_routes: Vec::new(),
        items: Vec::new(),
        guards: Vec::new(),
        pos_start: Coord(0, 0),
        total_loot: 0,
    }
}

fn edit(map: &mut LevelMap, x: usize, y: usize, f: impl FnOnce(&mut Cell)) {
    let sy = map.cells.size_y;
    f(&mut map.cells.data[x * sy + y]);
}

fn guard_at(pos: Coord, dir: Coord, mode: GuardMode) -> Guard {
    Guard {
        pos,
        dir,
        kind: GuardKind::Outer,
        mode,
        speaking: false,
        has_moved: false,
        heard_thief: false,
        hearing_guard: false,
        heard_guard: false,
        heard_guard_pos: pos,
        goal: pos,
        mode_timeout: 0,
        region_goal: INVALID_REGION,
        region_prev: INVALID_REGION,
    }
}

#[test]
fn corner_cutting_is_forbidden() {
    let mut map = flat_map(8, 8);
    // Wall out both orthogonal cells between (1,1) and (2,2).
    edit(&mut map, 1, 2, |c| c.move_cost = INFINITE_COST);
    edit(&mut map, 2, 1, |c| c.move_cost = INFINITE_COST);
    assert_eq!(map.guard_move_cost(Coord(1, 1), Coord(2, 2)), INFINITE_COST);

    // One open orthogonal neighbor is not enough.
    edit(&mut map, 1, 2, |c| c.move_cost = 0);
    assert_eq!(map.guard_move_cost(Coord(1, 1), Coord(2, 2)), INFINITE_COST);

    // Both open: the diagonal is allowed at the destination's cost.
    edit(&mut map, 2, 1, |c| c.move_cost = 0);
    assert_eq!(map.guard_move_cost(Coord(1, 1), Coord(2, 2)), 0);

    // Cardinal moves never trigger the rule.
    edit(&mut map, 1, 2, |c| c.move_cost = INFINITE_COST);
    assert_eq!(map.guard_move_cost(Coord(1, 1), Coord(2, 1)), 0);
}

#[test]
fn distance_field_on_flat_grid() {
    let map = flat_map(21, 21);
    let field = map.compute_distances_to_position(Coord(10, 10));
    // Cardinal steps cost 2 each, diagonal steps 3 each, on uniform ground.
    for d in 1..6usize {
        assert_eq!(field.data[(10 + d) * 21 + 10], 2 * d);
        assert_eq!(field.data[(10 - d) * 21 + 10], 2 * d);
        assert_eq!(field.data[10 * 21 + (10 + d)], 2 * d);
        assert_eq!(field.data[(10 + d) * 21 + (10 + d)], 3 * d);
        assert_eq!(field.data[(10 - d) * 21 + (10 - d)], 3 * d);
    }
    assert_eq!(field.data[10 * 21 + 10], 0);
}

#[test]
fn visibility_is_monotonic_and_walls_occlude() {
    let mut map = flat_map(12, 12);
    // A sight-blocking wall column at x == 6.
    for y in 0..12 {
        edit(&mut map, 6, y, |c| {
            c.cell_type = CellType::Wall0101;
            c.blocks_player_sight = true;
            c.blocks_sight = true;
            c.blocks_sound = true;
            c.move_cost = INFINITE_COST;
        });
    }
    // Pre-mark one far cell as seen; it must stay seen.
    edit(&mut map, 11, 11, |c| c.seen = true);

    map.recompute_visibility(Coord(2, 2));

    let at = |m: &LevelMap, x: usize, y: usize| m.cells.data[x * 12 + y];
    assert!(at(&map, 2, 2).seen);
    assert!(at(&map, 3, 2).seen);
    // The wall face is seen, the cell behind it is not.
    assert!(at(&map, 6, 2).seen);
    assert!(!at(&map, 8, 2).seen);
    // Monotonic: the pre-marked cell is still seen.
    assert!(at(&map, 11, 11).seen);

    // A second recompute never un-sees anything.
    let before: Vec<bool> = map.cells.data.iter().map(|c| c.seen).collect();
    map.recompute_visibility(Coord(4, 4));
    for (i, c) in map.cells.data.iter().enumerate() {
        if before[i] {
            assert!(c.seen);
        }
    }
}

#[test]
fn sound_stops_at_walls_and_radius() {
    let mut map = flat_map(12, 12);
    for y in 0..12 {
        edit(&mut map, 6, y, |c| {
            c.blocks_sound = true;
        });
    }
    let coords = map.coords_in_earshot(Coord(2, 2), 75);
    assert!(coords.contains(&Coord(2, 2)));
    assert!(coords.contains(&Coord(4, 2)));
    // Nothing beyond the sound-blocking column.
    assert!(!coords.iter().any(|c| c.0 >= 6));

    // The radius is squared Euclidean distance from the emitter.
    let small = map.coords_in_earshot(Coord(2, 2), 5);
    assert!(small.contains(&Coord(4, 2)));
    assert!(!small.contains(&Coord(5, 2)));

    map.guards.push(guard_at(Coord(4, 2), Coord(1, 0), GuardMode::Patrol));
    map.guards.push(guard_at(Coord(8, 2), Coord(1, 0), GuardMode::Patrol));
    let heard = map.guards_in_earshot(Coord(2, 2), 75);
    assert_eq!(heard, vec![0]);
}

#[test]
fn one_way_windows_block_one_direction() {
    let mut map = flat_map(8, 8);
    edit(&mut map, 4, 4, |c| c.cell_type = CellType::OneWayWindowE);
    // Passable only moving east (toward larger x).
    assert!(!blocked(&map, Coord(3, 4), Coord(4, 4)));
    assert!(blocked(&map, Coord(5, 4), Coord(4, 4)));

    edit(&mut map, 4, 4, |c| c.cell_type = CellType::OneWayWindowN);
    assert!(!blocked(&map, Coord(4, 3), Coord(4, 4)));
    assert!(blocked(&map, Coord(4, 5), Coord(4, 4)));

    // Guards and outfit stands block player movement.
    edit(&mut map, 4, 4, |c| c.cell_type = CellType::GroundNormal);
    map.guards.push(guard_at(Coord(4, 4), Coord(1, 0), GuardMode::Patrol));
    assert!(blocked(&map, Coord(3, 4), Coord(4, 4)));
    map.guards.clear();
    map.items.push(Item { pos: Coord(4, 4), kind: ItemKind::Outfit1 });
    assert!(blocked(&map, Coord(3, 4), Coord(4, 4)));
    // Staying put is never blocked.
    assert!(!blocked(&map, Coord(4, 4), Coord(4, 4)));
}

#[test]
fn collecting_loot_removes_exactly_the_coins_there() {
    let mut map = flat_map(8, 8);
    map.items.push(Item { pos: Coord(2, 2), kind: ItemKind::Coin });
    map.items.push(Item { pos: Coord(2, 2), kind: ItemKind::Chair });
    map.items.push(Item { pos: Coord(3, 3), kind: ItemKind::Coin });
    let gold = map.collect_loot_at(Coord(2, 2));
    assert_eq!(gold, 1);
    assert_eq!(map.items.len(), 2);
    assert!(!map.all_loot_collected());
    let gold2 = map.collect_loot_at(Coord(3, 3));
    assert_eq!(gold2, 1);
    assert!(map.all_loot_collected());
    // The chair is untouched.
    assert_eq!(map.items[0].kind, ItemKind::Chair);
}

#[test]
fn outfit_swap_exchanges_kinds() {
    let mut map = flat_map(8, 8);
    map.items.push(Item { pos: Coord(2, 2), kind: ItemKind::Outfit2 });
    // Wearing outfit 1, using the stand picks up outfit 2 and leaves 1.
    assert_eq!(map.try_use_outfit_at(Coord(2, 2), ItemKind::Outfit1), Some(ItemKind::Outfit2));
    assert_eq!(map.items[0].kind, ItemKind::Outfit1);
    // Using a stand holding the outfit already worn does nothing.
    assert_eq!(map.try_use_outfit_at(Coord(2, 2), ItemKind::Outfit1), None);
    assert_eq!(map.items[0].kind, ItemKind::Outfit1);
    // No outfit at an empty tile.
    assert_eq!(map.try_use_outfit_at(Coord(5, 5), ItemKind::Outfit1), None);
}

#[test]
fn guard_never_perceives_a_target_behind_it() {
    let map = flat_map(16, 16);
    let guard = guard_at(Coord(8, 8), Coord(1, 0), GuardMode::Patrol);
    // Directly behind, at various distances: never seen.
    for d in 1..8 {
        let player = make_player(Coord(8 - d, 8));
        assert!(!guard.sees_thief(&map, &player, false));
    }
    // Directly ahead and close on a lit tile: seen.
    let player = make_player(Coord(10, 8));
    assert!(guard.sees_thief(&map, &player, false));
    // Ahead but hidden: not seen by a patrolling guard.
    assert!(!guard.sees_thief(&map, &player, true));
}

#[test]
fn closest_region_finds_the_nearest_stamp() {
    let mut map = flat_map(12, 12);
    map.patrol_regions.push(disguiser::cell_grid::PatrolRegion {
        rect: disguiser::cell_grid::Rect { pos_min: Coord(8, 8), pos_max: Coord(10, 10) },
        inner: false,
    });
    for x in 8..10 {
        for y in 8..10 {
            edit(&mut map, x, y, |c| c.region = 0);
        }
    }
    assert_eq!(map.closest_region(Coord(1, 1)), 0);
    assert_eq!(map.closest_region(Coord(8, 8)), 0);
}

#[test]
fn percent_seen_counts_cells() {
    let mut map = flat_map(10, 10);
    assert_eq!(map.percent_seen(), 0);
    map.mark_all_seen();
    assert_eq!(map.percent_seen(), 100);
    assert!(map.all_seen());
    map.mark_all_unseen();
    assert_eq!(map.percent_seen(), 0);
    assert!(!map.all_seen());
    edit(&mut map, 0, 0, |c| c.seen = true);
    assert_eq!(map.percent_seen(), 1);
}
