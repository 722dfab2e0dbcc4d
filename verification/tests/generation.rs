use disguiser::cell_grid::{ItemKind, INVALID_REGION};
use disguiser::map::LevelMap;
use disguiser::random_map::generate_map;
use disguiser::rng::Rng;

fn cell(map: &LevelMap, x: i32, y: i32) -> disguiser::cell_grid::Cell {
    map.cells.data[(x as usize) * map.cells.size_y + (y as usize)]
}

#[test]
fn generation_is_deterministic() {
    for seed in [42u64, 7, 123456789] {
        for level in 0..3usize {
            let mut r1 = Rng::new(seed);
            let mut r2 = Rng::new(seed);
            let m1 = generate_map(&mut r1, level);
            let m2 = generate_map(&mut r2, level);
            assert_eq!(m1.cells, m2.cells);
            assert_eq!(m1.items, m2.items);
            assert_eq!(m1.guards, m2.guards);
            assert_eq!(m1.patrol_regions, m2.patrol_regions);
            assert_eq!(m1.patrol_routes, m2.patrol_routes);
            assert_eq!(m1.pos_start, m2.pos_start);
            assert_eq!(m1.total_loot, m2.total_loot);
        }
    }
}

#[test]
fn region_stamps_cover_their_rectangles() {
    let mut r = Rng::new(42);
    let map = generate_map(&mut r, 3);
    assert!(map.patrol_regions.len() > 0);
    for (idx, region) in map.patrol_regions.iter().enumerate() {
        for x in region.rect.pos_min.0..region.rect.pos_max.0 {
            for y in region.rect.pos_min.1..region.rect.pos_max.1 {
                assert_eq!(cell(&map, x, y).region, idx);
            }
        }
    }
    // Every stamped cell names a region that exists.
    for c in &map.cells.data {
        assert!(c.region == INVALID_REGION || c.region < map.patrol_regions.len());
    }
}

#[test]
fn patrol_graph_is_connected() {
    for seed in [42u64, 7, 99] {
        let mut r = Rng::new(seed);
        let map = generate_map(&mut r, 2);
        let n = map.patrol_regions.len();
        assert!(n > 0);

        let start = map.closest_region(map.pos_start);
        assert!(start != INVALID_REGION && start < n);

        let mut reached = vec![false; n];
        reached[start] = true;
        let mut frontier = vec![start];
        while let Some(r0) = frontier.pop() {
            for &(a, b) in &map.patrol_routes {
                if a == r0 && !reached[b] {
                    reached[b] = true;
                    frontier.push(b);
                }
                if b == r0 && !reached[a] {
                    reached[a] = true;
                    frontier.push(a);
                }
            }
        }
        assert!(reached.iter().all(|&x| x), "patrol graph not connected for seed {}", seed);
    }
}

#[test]
fn generated_maps_are_coherent() {
    for level in 0..4usize {
        let mut r = Rng::new(1234);
        let map = generate_map(&mut r, level);
        let sx = map.cells.size_x as i32;
        let sy = map.cells.size_y as i32;

        // Start position and all items and guards are on the grid.
        assert!(map.pos_start.0 >= 0 && map.pos_start.0 < sx);
        assert!(map.pos_start.1 >= 0 && map.pos_start.1 < sy);
        for it in &map.items {
            assert!(it.pos.0 >= 0 && it.pos.0 < sx && it.pos.1 >= 0 && it.pos.1 < sy);
        }
        for g in &map.guards {
            assert!(g.pos.0 >= 0 && g.pos.0 < sx && g.pos.1 >= 0 && g.pos.1 < sy);
        }

        // Patrol routes name existing regions.
        for &(a, b) in &map.patrol_routes {
            assert!(a < map.patrol_regions.len() && b < map.patrol_regions.len());
        }

        // The recorded total is the number of coins placed.
        let coins = map.items.iter().filter(|it| it.kind == ItemKind::Coin).count();
        assert_eq!(map.total_loot, coins);

        // The first guarded level has exactly one guard of each kind at most.
        if level == 0 {
            assert_eq!(map.guards.len(), 0);
        } else {
            assert!(map.guards.len() >= 1);
        }
    }
}
