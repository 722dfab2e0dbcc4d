use disguiser::cell_grid::{
    guard_move_cost_for_item_kind, guard_move_cost_for_tile_type, make_player, tile_def, CellType,
    ItemKind, INFINITE_COST,
};
use disguiser::coord::{
    coord_add, coord_dot, coord_length_squared, coord_mul_components, coord_negate, coord_scale,
    coord_subtract, Coord,
};
use disguiser::guard::{update_dir, LineIter};
use disguiser::guard_act::{pool_for_state_change, LinePool};
use disguiser::guard::GuardMode;
use disguiser::speech_bubbles::{new_popups, PopupType};

#[test]
fn coord_operations_are_exact() {
    let a = Coord(3, -4);
    let b = Coord(-2, 5);
    assert_eq!(coord_add(a, b), Coord(1, 1));
    assert_eq!(coord_subtract(a, b), Coord(5, -9));
    assert_eq!(coord_negate(a), Coord(-3, 4));
    assert_eq!(coord_scale(a, 3), Coord(9, -12));
    assert_eq!(coord_dot(a, b), -26);
    assert_eq!(coord_length_squared(a), 25);
    assert_eq!(coord_mul_components(a, b), Coord(-6, -20));
    assert_eq!(a.dot(b), -26);
    assert_eq!(a.length_squared(), 25);
    assert_eq!(a.mul_components(b), Coord(-6, -20));
}

#[test]
fn tile_catalog_capabilities() {
    let grass = tile_def(CellType::GroundGrass);
    assert!(!grass.blocks_player && !grass.blocks_sight && !grass.blocks_sound);
    assert!(!grass.ignores_lighting);

    let wall = tile_def(CellType::Wall0101);
    assert!(wall.blocks_player && wall.blocks_player_sight && wall.blocks_sight);
    assert!(wall.blocks_sound && wall.ignores_lighting);

    // The plain wall variant lets player sight through (wall caps).
    let cap = tile_def(CellType::Wall0000);
    assert!(cap.blocks_player && !cap.blocks_player_sight);

    let window = tile_def(CellType::OneWayWindowN);
    assert!(!window.blocks_player && window.blocks_sight && !window.blocks_sound);
    assert!(window.ignores_lighting);

    let door = tile_def(CellType::DoorNS);
    assert!(!door.blocks_player && !door.blocks_sight && door.ignores_lighting);
}

#[test]
fn tile_move_costs() {
    assert_eq!(guard_move_cost_for_tile_type(CellType::GroundNormal), 0);
    assert_eq!(guard_move_cost_for_tile_type(CellType::GroundWater), 4096);
    assert_eq!(guard_move_cost_for_tile_type(CellType::Wall1111), INFINITE_COST);
    assert_eq!(guard_move_cost_for_tile_type(CellType::OneWayWindowS), INFINITE_COST);
    assert_eq!(guard_move_cost_for_tile_type(CellType::PortcullisEW), 0);
    assert_eq!(guard_move_cost_for_tile_type(CellType::DoorEW), 0);
}

#[test]
fn item_move_costs() {
    assert_eq!(guard_move_cost_for_item_kind(ItemKind::Chair), 4);
    assert_eq!(guard_move_cost_for_item_kind(ItemKind::Table), 10);
    assert_eq!(guard_move_cost_for_item_kind(ItemKind::Bush), 10);
    assert_eq!(guard_move_cost_for_item_kind(ItemKind::Coin), 0);
    assert_eq!(guard_move_cost_for_item_kind(ItemKind::Outfit1), INFINITE_COST);
    assert_eq!(guard_move_cost_for_item_kind(ItemKind::Outfit2), INFINITE_COST);
}

#[test]
fn player_damage_saturates() {
    let mut p = make_player(Coord(1, 1));
    assert_eq!(p.health, 5);
    p.apply_damage(2);
    assert_eq!(p.health, 3);
    assert!(p.damaged_last_turn);
    p.apply_damage(10);
    assert_eq!(p.health, 0);
    p.apply_damage(1);
    assert_eq!(p.health, 0);
}

#[test]
fn update_dir_snaps_quarter_turns() {
    // Aim straight left of the facing: turn left.
    assert_eq!(update_dir(Coord(1, 0), Coord(0, 7)), Coord(0, 1));
    // Aim behind: turn around.
    assert_eq!(update_dir(Coord(1, 0), Coord(-3, 0)), Coord(-1, 0));
    // Perfect diagonal ties keep the forward axis.
    assert_eq!(update_dir(Coord(1, 0), Coord(5, 5)), Coord(1, 0));
    // Mostly-forward aims keep the facing.
    assert_eq!(update_dir(Coord(0, -1), Coord(1, -3)), Coord(0, -1));
    // Zero aim keeps the facing.
    assert_eq!(update_dir(Coord(0, 1), Coord(0, 0)), Coord(0, 1));
}

#[test]
fn line_iter_is_round_robin() {
    let mut it = LineIter::new(vec!["a", "b", "c"]);
    assert_eq!(it.next(), "a");
    assert_eq!(it.next(), "b");
    assert_eq!(it.next(), "c");
    assert_eq!(it.next(), "a");
}

#[test]
fn dialogue_pools_follow_transitions() {
    assert_eq!(
        pool_for_state_change(GuardMode::Patrol, GuardMode::ChaseVisibleTarget),
        Some(LinePool::Chase)
    );
    // Resuming a chase from a lost sighting says nothing.
    assert_eq!(
        pool_for_state_change(GuardMode::MoveToLastSighting, GuardMode::ChaseVisibleTarget),
        None
    );
    assert_eq!(
        pool_for_state_change(GuardMode::Look, GuardMode::Patrol),
        Some(LinePool::DoneLooking)
    );
    assert_eq!(
        pool_for_state_change(GuardMode::MoveToGuardShout, GuardMode::Patrol),
        Some(LinePool::EndInvestigate)
    );
    assert_eq!(pool_for_state_change(GuardMode::Patrol, GuardMode::Patrol), None);
}

#[test]
fn popups_collect_events() {
    let mut p = new_popups();
    p.guard_speech(Coord(1, 2), "Halt!");
    p.noise(Coord(3, 4), "creak");
    p.damage(Coord(1, 2), "Oof!");
    assert_eq!(p.popups.len(), 3);
    assert_eq!(p.popups[0].popup_type, PopupType::GuardSpeech);
    assert_eq!(p.popups[1].popup_type, PopupType::Noise);
    assert_eq!(p.popups[2].popup_type, PopupType::Damage);
    assert_eq!(p.popups[0].msg, "Halt!");
    p.clear();
    assert_eq!(p.popups.len(), 0);
}

#[test]
fn rng_draws_are_bounded_and_vary() {
    let mut r = disguiser::rng::Rng::new(1);
    let draws: Vec<usize> = (0..32).map(|_| r.below(100)).collect();
    assert!(draws.iter().all(|&d| d < 100));
    // A real generator does not return one constant.
    assert!(draws.iter().any(|&d| d != draws[0]));
    // The same seed replays the same draws; another seed differs somewhere.
    let mut r2 = disguiser::rng::Rng::new(1);
    let draws2: Vec<usize> = (0..32).map(|_| r2.below(100)).collect();
    assert_eq!(draws, draws2);
    let mut r3 = disguiser::rng::Rng::new(2);
    let draws3: Vec<usize> = (0..32).map(|_| r3.below(100)).collect();
    assert_ne!(draws, draws3);
}
