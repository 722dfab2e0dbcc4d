//! Weighted distance fields (Dijkstra over the move-cost grid with the
//! corner-cutting rule) and the sound flood fill.

use vstd::prelude::*;
use crate::cell_grid::{INFINITE_COST, INVALID_REGION};
use crate::coord::Coord;
use crate::grid::Grid;
use crate::map::{LevelMap, region_ok};

verus! {

/// `a + b`, saturating at the impassable cost.
fn add_cost(a: usize, b: usize) -> (r: usize)
    ensures
        r == if a + b <= usize::MAX {
            (a + b) as int
        } else {
            usize::MAX as int
        },
{
    if a <= usize::MAX - b {
        a + b
    } else {
        usize::MAX
    }
}

/// `a + b` over costs, saturating at the impassable sentinel.
pub open spec fn sat_cost(a: int, b: int) -> int {
    if a + b <= usize::MAX {
        a + b
    } else {
        usize::MAX as int
    }
}

/// The eight admissible guard steps, as one definition: cardinal moves
/// carry base weight 2, diagonal moves weight 3.
pub open spec fn spec_adjacent_move(k: int) -> (usize, i32, i32) {
    if k == 0 {
        (2usize, 1i32, 0i32)
    } else if k == 1 {
        (2usize, -1i32, 0i32)
    } else if k == 2 {
        (2usize, 0i32, 1i32)
    } else if k == 3 {
        (2usize, 0i32, -1i32)
    } else if k == 4 {
        (3usize, -1i32, -1i32)
    } else if k == 5 {
        (3usize, 1i32, -1i32)
    } else if k == 6 {
        (3usize, -1i32, 1i32)
    } else {
        (3usize, 1i32, 1i32)
    }
}

/// The eight admissible guard steps: cardinal moves carry base weight 2,
/// diagonal moves weight 3 (an exact-integer stand-in for Euclidean
/// distance).
fn adjacent_move(k: usize) -> (r: (usize, i32, i32))
    requires
        k < 8,
    ensures
        r == spec_adjacent_move(k as int),
        r.0 == 2 || r.0 == 3,
        -1 <= r.1 <= 1 && -1 <= r.2 <= 1,
{
    match k {
        0 => (2, 1, 0),
        1 => (2, -1, 0),
        2 => (2, 0, 1),
        3 => (2, 0, -1),
        4 => (3, -1, -1),
        5 => (3, 1, -1),
        6 => (3, -1, 1),
        _ => (3, 1, 1),
    }
}

/// One step of sound propagation: `q` is a cardinal neighbor of `p`, on
/// the grid, within the squared-distance radius of the emitter, and does
/// not block sound.
pub open spec fn sound_step_ok(
    map: LevelMap,
    emitter: Coord,
    radius: int,
    p: Coord,
    q: Coord,
) -> bool {
    &&& ((q.0 - p.0 == 1 && q.1 == p.1) || (q.0 - p.0 == -1 && q.1 == p.1) || (q.1 - p.1 == 1
        && q.0 == p.0) || (q.1 - p.1 == -1 && q.0 == p.0))
    &&& map.in_bounds(q)
    &&& (q.0 - emitter.0) * (q.0 - emitter.0) + (q.1 - emitter.1) * (q.1 - emitter.1) < radius
    &&& !map.cell_at(q).blocks_sound
}

/// A sound path: it starts at the emitter and each later cell is one valid
/// propagation step from its predecessor.
pub open spec fn sound_path_ok(map: LevelMap, emitter: Coord, radius: int, path: Seq<Coord>) -> bool {
    &&& path.len() >= 1
    &&& path[0] == emitter
    &&& forall|k: int|
        1 <= k < path.len() ==> sound_step_ok(map, emitter, radius, path[k - 1], #[trigger] path[k])
}

/// A cell hears a sound exactly when some sound path from the emitter ends
/// on it (the emitter itself always does, by the one-cell path).
pub open spec fn spec_in_earshot(map: LevelMap, emitter: Coord, radius: int, q: Coord) -> bool {
    exists|path: Seq<Coord>|
        sound_path_ok(map, emitter, radius, path) && #[trigger] path.last() == q
}

/// The relaxation property of one directed step: the label of the step's
/// target is at most the label of its start plus the step weight and the
/// target's own move cost, unless an entry at most that cheap for the
/// target is still pending in the queue. Steps the corner-cutting rule
/// forbids are exempt, and an infinite start label makes the bound
/// trivial.
pub open spec fn relaxed_step(
    map: LevelMap,
    field: Grid<usize>,
    queue: Seq<(usize, i32, i32)>,
    px: int,
    py: int,
    k: int,
) -> bool {
    let w = spec_adjacent_move(k).0;
    let qx = px + spec_adjacent_move(k).1 as int;
    let qy = py + spec_adjacent_move(k).2 as int;
    let bound = sat_cost(
        sat_cost(
            field.at(px, py) as int,
            map.cells.at(qx, qy).move_cost as int,
        ),
        w as int,
    );
    (map.cells.in_bounds(qx, qy) && map.spec_guard_move_cost(
        Coord(px as i32, py as i32),
        Coord(qx as i32, qy as i32),
    ) != INFINITE_COST) ==> (field.at(qx, qy) <= bound || exists|j: int|
        0 <= j < queue.len() && ((#[trigger] queue[j]).1 as int == qx && queue[j].2 as int == qy
            && queue[j].0 <= bound))
}

/// On a flat open grid (every cell's move cost zero), a distance field
/// satisfying the relaxation property with an empty pending queue labels
/// the cell `d` cardinal steps east of a zero-labeled goal with at most
/// `2*d`: cardinal steps cost two each.
pub proof fn lemma_flat_cardinal_distance_bound(
    map: LevelMap,
    field: Grid<usize>,
    goal: Coord,
    d: int,
)
    requires
        map.wf(),
        field.wf(),
        field.spec_size_x() == map.size_x(),
        field.spec_size_y() == map.size_y(),
        forall|x: int, y: int|
            map.cells.in_bounds(x, y) ==> (#[trigger] map.cells.at(x, y)).move_cost == 0,
        forall|px: int, py: int, k: int|
            field.in_bounds(px, py) && 0 <= k < 8 ==> #[trigger] relaxed_step(
                map,
                field,
                Seq::empty(),
                px,
                py,
                k,
            ),
        map.in_bounds(goal),
        field.at(goal.0 as int, goal.1 as int) == 0,
        0 <= d,
        goal.0 + d < map.size_x(),
    ensures
        field.at(goal.0 + d, goal.1 as int) <= 2 * d,
    decreases d,
{
    if d > 0 {
        lemma_flat_cardinal_distance_bound(map, field, goal, d - 1);
        let px = goal.0 + d - 1;
        let py = goal.1 as int;
        assert(relaxed_step(map, field, Seq::empty(), px, py, 0));
        let p = Coord(px as i32, py as i32);
        let q = Coord((px + 1) as i32, py as i32);
        assert(map.spec_guard_move_cost(p, q) == 0);
    }
}

/// On a flat open grid, the cell `d` diagonal steps northeast of a
/// zero-labeled goal is labeled with at most `3*d`: diagonal steps cost
/// three each (and no corner-cutting restriction triggers on open ground).
pub proof fn lemma_flat_diagonal_distance_bound(
    map: LevelMap,
    field: Grid<usize>,
    goal: Coord,
    d: int,
)
    requires
        map.wf(),
        field.wf(),
        field.spec_size_x() == map.size_x(),
        field.spec_size_y() == map.size_y(),
        forall|x: int, y: int|
            map.cells.in_bounds(x, y) ==> (#[trigger] map.cells.at(x, y)).move_cost == 0,
        forall|px: int, py: int, k: int|
            field.in_bounds(px, py) && 0 <= k < 8 ==> #[trigger] relaxed_step(
                map,
                field,
                Seq::empty(),
                px,
                py,
                k,
            ),
        map.in_bounds(goal),
        field.at(goal.0 as int, goal.1 as int) == 0,
        0 <= d,
        goal.0 + d < map.size_x(),
        goal.1 + d < map.size_y(),
    ensures
        field.at(goal.0 + d, goal.1 + d) <= 3 * d,
    decreases d,
{
    if d > 0 {
        lemma_flat_diagonal_distance_bound(map, field, goal, d - 1);
        let px = goal.0 + d - 1;
        let py = goal.1 + d - 1;
        assert(relaxed_step(map, field, Seq::empty(), px, py, 7));
        let p = Coord(px as i32, py as i32);
        let q = Coord((px + 1) as i32, (py + 1) as i32);
        assert(map.spec_guard_move_cost(p, q) == 0);
    }
}

/// Whether the goal list seeds cell (cx, cy) with that cell's move cost.
pub open spec fn seeded(goal: Seq<(usize, Coord)>, map: LevelMap, cx: int, cy: int) -> bool {
    exists|k: int|
        0 <= k < goal.len() && (#[trigger] goal[k]) == (
        map.cells.at(cx, cy).move_cost,
        Coord(cx as i32, cy as i32),
        )
}

/// Whether the index sequence holds `g`.
pub open spec fn contains_idx(s: Seq<usize>, g: int) -> bool {
    exists|k: int| 0 <= k < s.len() && (#[trigger] s[k]) as int == g
}

/// Which of the four propagation directions leads from `p` to `q`.
pub open spec fn dir_index(p: Coord, q: Coord) -> int {
    if q.0 - p.0 == -1 {
        0
    } else if q.0 - p.0 == 1 {
        1
    } else if q.1 - p.1 == -1 {
        2
    } else {
        3
    }
}

/// Extending a heard cell by one valid step stays heard.
proof fn lemma_earshot_step(map: LevelMap, emitter: Coord, radius: int, p: Coord, q: Coord)
    requires
        spec_in_earshot(map, emitter, radius, p),
        sound_step_ok(map, emitter, radius, p, q),
    ensures
        spec_in_earshot(map, emitter, radius, q),
{
    let path = choose|path: Seq<Coord>|
        sound_path_ok(map, emitter, radius, path) && #[trigger] path.last() == p;
    let path2 = path.push(q);
    assert forall|k: int|
        1 <= k < path2.len() implies sound_step_ok(map, emitter, radius, path2[k - 1], #[trigger] path2[k]) by {
        if k < path.len() {
            assert(path2[k] == path[k] && path2[k - 1] == path[k - 1]);
        } else {
            assert(path2[k] == q && path2[k - 1] == path[path.len() - 1]);
        }
    }
    assert(sound_path_ok(map, emitter, radius, path2));
    assert(path2.last() == q);
}

/// Flat grid indices of distinct in-bounds cells differ.
proof fn lemma_flat_injective(sx: int, sy: int, x: int, y: int)
    requires
        1 <= sy,
        0 <= x < sx,
        0 <= y < sy,
    ensures
        forall|x2: int, y2: int|
            0 <= x2 < sx && 0 <= y2 < sy && #[trigger] (x2 * sy + y2) == x * sy + y ==> x2 == x
                && y2 == y,
        0 <= x * sy + y < sx * sy,
{
    assert(0 <= x * sy + y < sx * sy) by (nonlinear_arith)
        requires
            1 <= sy,
            0 <= x < sx,
            0 <= y < sy,
    ;
    assert forall|x2: int, y2: int|
        0 <= x2 < sx && 0 <= y2 < sy && #[trigger] (x2 * sy + y2) == x * sy + y implies x2 == x
        && y2 == y by {
        assert(x2 == x && y2 == y) by (nonlinear_arith)
            requires
                0 <= y < sy,
                0 <= y2 < sy,
                x2 * sy + y2 == x * sy + y,
        ;
    }
}

/// The integer range [0, sx*sy) has sx*sy members.
proof fn lemma_flat_range_len(sx: int, sy: int)
    requires
        1 <= sx,
        1 <= sy,
    ensures
        vstd::set_lib::set_int_range(0, sx * sy).finite(),
        vstd::set_lib::set_int_range(0, sx * sy).len() == sx * sy,
{
    assert(sx * sy >= 0) by (nonlinear_arith)
        requires
            1 <= sx,
            1 <= sy,
    ;
    vstd::set_lib::lemma_int_range(0, sx * sy);
}

/// Every cell a sound path reaches is in the flood fill's list, given that
/// the list starts at the emitter and is closed under propagation steps.
proof fn lemma_earshot_reached(
    map: LevelMap,
    emitter: Coord,
    radius: int,
    reached: Seq<Coord>,
    visited: Grid<bool>,
    path: Seq<Coord>,
)
    requires
        sound_path_ok(map, emitter, radius, path),
        reached.len() >= 1,
        reached[0] == emitter,
        visited.spec_size_x() == map.size_x(),
        visited.spec_size_y() == map.size_y(),
        forall|x: int, y: int|
            visited.in_bounds(x, y) && #[trigger] visited.at(x, y) ==> exists|i: int|
                0 <= i < reached.len() && (#[trigger] reached[i]) == Coord(x as i32, y as i32),
        forall|i: int, q: Coord|
            0 <= i < reached.len() && #[trigger] sound_step_ok(
                map,
                emitter,
                radius,
                reached[i],
                q,
            ) ==> visited.at(q.0 as int, q.1 as int),
    ensures
        reached.contains(path.last()),
    decreases path.len(),
{
    if path.len() == 1 {
        assert(path.last() == emitter);
        assert(reached[0] == path.last());
    } else {
        let prefix = path.drop_last();
        assert forall|k: int|
            1 <= k < prefix.len() implies sound_step_ok(
            map,
            emitter,
            radius,
            prefix[k - 1],
            #[trigger] prefix[k],
        ) by {
            assert(prefix[k] == path[k] && prefix[k - 1] == path[k - 1]);
        }
        lemma_earshot_reached(map, emitter, radius, reached, visited, prefix);
        let p = prefix.last();
        let q = path.last();
        let i = choose|i: int| 0 <= i < reached.len() && reached[i] == p;
        assert(path[path.len() - 2] == p && sound_step_ok(map, emitter, radius, p, q));
        assert(visited.at(q.0 as int, q.1 as int));
        assert(visited.in_bounds(q.0 as int, q.1 as int));
        assert(exists|j: int|
            0 <= j < reached.len() && (#[trigger] reached[j]) == Coord(
                (q.0 as int) as i32,
                (q.1 as int) as i32,
            ));
        let j = choose|j: int|
            0 <= j < reached.len() && (#[trigger] reached[j]) == Coord(
                (q.0 as int) as i32,
                (q.1 as int) as i32,
            );
        assert(reached[j] == q);
    }
}

/// Relaxation survives extending the queue by new entries at the end.
proof fn lemma_relaxed_queue_extend(
    map: LevelMap,
    field: Grid<usize>,
    q1: Seq<(usize, i32, i32)>,
    q2: Seq<(usize, i32, i32)>,
    px: int,
    py: int,
    k: int,
)
    requires
        relaxed_step(map, field, q1, px, py, k),
        q2.len() >= q1.len(),
        forall|j: int| 0 <= j < q1.len() ==> q2[j] == q1[j],
    ensures
        relaxed_step(map, field, q2, px, py, k),
{
    let qx = px + spec_adjacent_move(k).1 as int;
    let qy = py + spec_adjacent_move(k).2 as int;
    let bound = sat_cost(
        sat_cost(field.at(px, py) as int, map.cells.at(qx, qy).move_cost as int),
        spec_adjacent_move(k).0 as int,
    );
    if map.cells.in_bounds(qx, qy) && map.spec_guard_move_cost(
        Coord(px as i32, py as i32),
        Coord(qx as i32, qy as i32),
    ) != INFINITE_COST && !(field.at(qx, qy) <= bound) {
        let j = choose|j: int|
            0 <= j < q1.len() && ((#[trigger] q1[j]).1 as int == qx && q1[j].2 as int == qy
                && q1[j].0 <= bound);
        assert(q2[j] == q1[j]);
    }
}

/// Relaxation survives removing one queue entry whose cell the field
/// already labels at or below that entry's cost.
proof fn lemma_relaxed_after_remove(
    map: LevelMap,
    field: Grid<usize>,
    queue0: Seq<(usize, i32, i32)>,
    best: int,
    queue1: Seq<(usize, i32, i32)>,
)
    requires
        0 <= best < queue0.len(),
        queue1 == queue0.remove(best),
        field.at(queue0[best].1 as int, queue0[best].2 as int) <= queue0[best].0,
        forall|px: int, py: int, k: int|
            field.in_bounds(px, py) && 0 <= k < 8 ==> #[trigger] relaxed_step(
                map,
                field,
                queue0,
                px,
                py,
                k,
            ),
        field.spec_size_x() == map.size_x(),
        field.spec_size_y() == map.size_y(),
    ensures
        forall|px: int, py: int, k: int|
            field.in_bounds(px, py) && 0 <= k < 8 ==> #[trigger] relaxed_step(
                map,
                field,
                queue1,
                px,
                py,
                k,
            ),
{
    assert forall|px: int, py: int, k: int|
        field.in_bounds(px, py) && 0 <= k < 8 implies #[trigger] relaxed_step(
        map,
        field,
        queue1,
        px,
        py,
        k,
    ) by {
        let qx = px + spec_adjacent_move(k).1 as int;
        let qy = py + spec_adjacent_move(k).2 as int;
        let bound = sat_cost(
            sat_cost(field.at(px, py) as int, map.cells.at(qx, qy).move_cost as int),
            spec_adjacent_move(k).0 as int,
        );
        assert(relaxed_step(map, field, queue0, px, py, k));
        if map.cells.in_bounds(qx, qy) && map.spec_guard_move_cost(
            Coord(px as i32, py as i32),
            Coord(qx as i32, qy as i32),
        ) != INFINITE_COST && !(field.at(qx, qy) <= bound) {
            let j = choose|j: int|
                0 <= j < queue0.len() && ((#[trigger] queue0[j]).1 as int == qx && queue0[j].2 as int
                    == qy && queue0[j].0 <= bound);
            if j == best {
                assert(field.at(qx, qy) <= queue0[best].0);
                assert(false);
            } else if j < best {
                assert(queue1[j] == queue0[j]);
            } else {
                assert(queue1[j - 1] == queue0[j]);
            }
        }
    }
}

/// Relaxation of a pair not sourced at the freshly settled cell survives
/// the settle: the source label is unchanged, the target can only have
/// dropped, and the removed queue entry is replaced by the new label.
proof fn lemma_relaxed_settle_other(
    map: LevelMap,
    field_a: Grid<usize>,
    field_b: Grid<usize>,
    queue0: Seq<(usize, i32, i32)>,
    best: int,
    queue1: Seq<(usize, i32, i32)>,
    x: int,
    y: int,
    dist: usize,
    px: int,
    py: int,
    k: int,
)
    requires
        0 <= best < queue0.len(),
        queue1 == queue0.remove(best),
        queue0[best].1 as int == x,
        queue0[best].2 as int == y,
        queue0[best].0 == dist,
        field_a.wf(),
        field_b.wf(),
        field_a.spec_size_x() == field_b.spec_size_x(),
        field_a.spec_size_y() == field_b.spec_size_y(),
        field_b.spec_size_x() == map.size_x(),
        field_b.spec_size_y() == map.size_y(),
        field_b.in_bounds(x, y),
        field_a.at(x, y) == INFINITE_COST,
        field_b.at(x, y) == dist,
        forall|i: int, j: int|
            field_b.in_bounds(i, j) && !(i == x && j == y) ==> field_b.at(i, j) == field_a.at(i, j),
        relaxed_step(map, field_a, queue0, px, py, k),
        field_b.in_bounds(px, py),
        !(px == x && py == y),
        0 <= k < 8,
    ensures
        relaxed_step(map, field_b, queue1, px, py, k),
{
    let qx = px + spec_adjacent_move(k).1 as int;
    let qy = py + spec_adjacent_move(k).2 as int;
    let w = spec_adjacent_move(k).0;
    let bound = sat_cost(
        sat_cost(field_b.at(px, py) as int, map.cells.at(qx, qy).move_cost as int),
        w as int,
    );
    assert(field_b.at(px, py) == field_a.at(px, py));
    if map.cells.in_bounds(qx, qy) && map.spec_guard_move_cost(
        Coord(px as i32, py as i32),
        Coord(qx as i32, qy as i32),
    ) != INFINITE_COST && !(field_b.at(qx, qy) <= bound) {
        if field_a.at(qx, qy) <= bound {
            // The target label only changed at the settled cell, downward.
            assert(qx == x && qy == y);
            assert(field_b.at(qx, qy) == dist <= INFINITE_COST);
            assert(bound >= INFINITE_COST as int);
            assert(false);
        } else {
            let j = choose|j: int|
                0 <= j < queue0.len() && ((#[trigger] queue0[j]).1 as int == qx && queue0[j].2 as int
                    == qy && queue0[j].0 <= bound);
            if j == best {
                assert(qx == x && qy == y);
                assert(field_b.at(qx, qy) == dist);
                assert(dist <= bound);
                assert(false);
            } else if j < best {
                assert(queue1[j] == queue0[j]);
            } else {
                assert(queue1[j - 1] == queue0[j]);
            }
        }
    }
}

/// After one queue entry is removed, every source is still pending in the
/// queue or already settled at or below its seed cost, provided the removed
/// entry's cell sits at or below the removed cost in the field.
proof fn lemma_sources_after_remove(
    map: LevelMap,
    sources: Seq<(usize, Coord)>,
    queue0: Seq<(usize, i32, i32)>,
    best: int,
    queue1: Seq<(usize, i32, i32)>,
    dist_field: Grid<usize>,
)
    requires
        0 <= best < queue0.len(),
        queue1 == queue0.remove(best),
        dist_field.wf(),
        forall|k: int|
            0 <= k < sources.len() ==> map.in_bounds((#[trigger] sources[k]).1),
        dist_field.spec_size_x() == map.size_x(),
        dist_field.spec_size_y() == map.size_y(),
        // Before the removal, every source was pending or settled cheaply.
        forall|k: int|
            0 <= k < sources.len() ==> ((exists|j: int|
                0 <= j < queue0.len() && (#[trigger] queue0[j]) == (
                sources[k].0,
                sources[k].1.0,
                sources[k].1.1,
                )) || dist_field.at(
                (#[trigger] sources[k]).1.0 as int,
                sources[k].1.1 as int,
            ) <= sources[k].0),
        // The removed entry's cell is settled at or below the removed cost.
        dist_field.at(queue0[best].1 as int, queue0[best].2 as int) <= queue0[best].0,
    ensures
        forall|k: int|
            0 <= k < sources.len() ==> ((exists|j: int|
                0 <= j < queue1.len() && (#[trigger] queue1[j]) == (
                sources[k].0,
                sources[k].1.0,
                sources[k].1.1,
                )) || dist_field.at(
                (#[trigger] sources[k]).1.0 as int,
                sources[k].1.1 as int,
            ) <= sources[k].0),
{
    assert forall|k: int| 0 <= k < sources.len() implies ((exists|j: int|
        0 <= j < queue1.len() && (#[trigger] queue1[j]) == (
        sources[k].0,
        sources[k].1.0,
        sources[k].1.1,
        )) || dist_field.at(
        (#[trigger] sources[k]).1.0 as int,
        sources[k].1.1 as int,
    ) <= sources[k].0) by {
        if dist_field.at(sources[k].1.0 as int, sources[k].1.1 as int) <= sources[k].0 {
        } else {
            let j = choose|j: int|
                0 <= j < queue0.len() && (#[trigger] queue0[j]) == (
                sources[k].0,
                sources[k].1.0,
                sources[k].1.1,
                );
            if j == best {
                assert(dist_field.at(sources[k].1.0 as int, sources[k].1.1 as int) <= sources[k].0);
            } else if j < best {
                assert(queue1[j] == queue0[j]);
            } else {
                assert(queue1[j - 1] == queue0[j]);
            }
        }
    }
}

impl LevelMap {
    /// Dijkstra's algorithm from the given weighted sources: the result
    /// grid holds, per cell, the least accumulated cost of reaching it,
    /// `INFINITE_COST` where unreachable. Each source ends up at or below
    /// its seed cost, and no settled cell can improve a neighbor by more
    /// than the step weight plus the neighbor's own move cost.
    #[verifier::rlimit(100)]
    pub fn compute_distance_field(&self, initial_distances: &Vec<(usize, Coord)>) -> (r: Grid<
        usize,
    >)
        requires
            self.wf(),
            forall|i: int|
                0 <= i < initial_distances.len() ==> self.in_bounds(
                    (#[trigger] initial_distances[i]).1,
                ),
        ensures
            r.wf(),
            r.spec_size_x() == self.size_x(),
            r.spec_size_y() == self.size_y(),
            forall|k: int|
                0 <= k < initial_distances.len() ==> r.at(
                    (#[trigger] initial_distances[k]).1.0 as int,
                    initial_distances[k].1.1 as int,
                ) <= initial_distances[k].0,
            forall|px: int, py: int, k: int|
                r.in_bounds(px, py) && 0 <= k < 8 ==> #[trigger] relaxed_step(
                    *self,
                    r,
                    Seq::empty(),
                    px,
                    py,
                    k,
                ),
    {
        let sx = self.cells.size_x();
        let sy = self.cells.size_y();
        proof {
            assert(sx * sy <= 0x10000000) by (nonlinear_arith)
                requires
                    1 <= sx <= 0x4000,
                    1 <= sy <= 0x4000,
            ;
        }
        let total = sx * sy;
        let mut dist_field: Grid<usize> = Grid::new(sx, sy, INFINITE_COST);
        let mut settled: Grid<bool> = Grid::new(sx, sy, false);
        let ghost mut sset: Set<int> = Set::empty();
        let mut queue: Vec<(usize, i32, i32)> = Vec::new();

        let n = initial_distances.len();
        let mut i: usize = 0;
        while i < n
            invariant
                i <= n,
                self.wf(),
                n == initial_distances.len(),
                forall|j: int|
                    0 <= j < initial_distances.len() ==> self.in_bounds(
                        (#[trigger] initial_distances[j]).1,
                    ),
                forall|j: int|
                    0 <= j < queue.len() ==> self.cells.in_bounds(
                        (#[trigger] queue[j]).1 as int,
                        queue[j].2 as int,
                    ),
                queue.len() == i,
                forall|k: int|
                    0 <= k < i ==> (#[trigger] queue[k]) == (
                    (#[trigger] initial_distances[k]).0,
                    initial_distances[k].1.0,
                    initial_distances[k].1.1,
                    ),
            decreases n - i,
        {
            let (dist, pos) = initial_distances[i];
            queue.push((dist, pos.0, pos.1));
            i = i + 1;
        }

        proof {
            assert forall|k: int| 0 <= k < initial_distances.len() implies (exists|j: int|
                0 <= j < queue.len() && (#[trigger] queue[j]) == (
                (#[trigger] initial_distances[k]).0,
                initial_distances[k].1.0,
                initial_distances[k].1.1,
                )) by {
                assert(queue[k] == (
                    initial_distances[k].0,
                    initial_distances[k].1.0,
                    initial_distances[k].1.1,
                ));
            }
        }

        proof {
            assert forall|px: int, py: int, k: int|
                dist_field.in_bounds(px, py) && 0 <= k < 8 implies #[trigger] relaxed_step(
                *self,
                dist_field,
                queue@,
                px,
                py,
                k,
            ) by {
                assert(dist_field.at(px, py) == INFINITE_COST);
            }
        }

        // Each cell is settled at most once, so the queue drains: every
        // iteration either discards an entry or settles a fresh cell, which
        // can enqueue at most eight more.
        while queue.len() > 0
            invariant
                self.wf(),
                forall|i2: int|
                    0 <= i2 < initial_distances.len() ==> self.in_bounds(
                        (#[trigger] initial_distances[i2]).1,
                    ),
                sx == self.size_x(),
                sy == self.size_y(),
                total == sx * sy,
                total <= 0x10000000,
                dist_field.wf(),
                dist_field.spec_size_x() == sx,
                dist_field.spec_size_y() == sy,
                settled.wf(),
                settled.spec_size_x() == sx,
                settled.spec_size_y() == sy,
                sset.finite(),
                sset.len() <= total,
                forall|t: int| sset.contains(t) ==> 0 <= t < total,
                forall|x: int, y: int|
                    settled.in_bounds(x, y) ==> (#[trigger] settled.at(x, y) == sset.contains(
                        x * sy + y,
                    )),
                forall|j: int|
                    0 <= j < queue.len() ==> self.cells.in_bounds(
                        (#[trigger] queue[j]).1 as int,
                        queue[j].2 as int,
                    ),
                // Unsettled cells still carry the infinite sentinel.
                forall|x: int, y: int|
                    dist_field.in_bounds(x, y) && !settled.at(x, y) ==> (#[trigger] dist_field.at(
                        x,
                        y,
                    )) == INFINITE_COST,
                // A settled value never exceeds any pending queue entry.
                forall|x: int, y: int, j: int|
                    dist_field.in_bounds(x, y) && #[trigger] settled.at(x, y) && 0 <= j
                        < queue.len() ==> dist_field.at(x, y) <= (#[trigger] queue[j]).0,
                // Every source is pending or already settled at or below its
                // seed cost.
                forall|k: int|
                    0 <= k < initial_distances.len() ==> ((exists|j: int|
                        0 <= j < queue.len() && (#[trigger] queue[j]) == (
                        initial_distances[k].0,
                        initial_distances[k].1.0,
                        initial_distances[k].1.1,
                        )) || dist_field.at(
                        (#[trigger] initial_distances[k]).1.0 as int,
                        initial_distances[k].1.1 as int,
                    ) <= initial_distances[k].0),
                forall|px: int, py: int, k: int|
                    dist_field.in_bounds(px, py) && 0 <= k < 8 ==> #[trigger] relaxed_step(
                        *self,
                        dist_field,
                        queue@,
                        px,
                        py,
                        k,
                    ),
            decreases queue.len() + 8 * (total - sset.len()),
        {
            // Extract the entry with the least accumulated cost.
            let mut best: usize = 0;
            let mut j: usize = 1;
            while j < queue.len()
                invariant
                    best < queue.len(),
                    j <= queue.len(),
                    forall|t: int| 0 <= t < j ==> queue[best as int].0 <= (#[trigger] queue[t]).0,
                decreases queue.len() - j,
            {
                if queue[j].0 < queue[best].0 {
                    best = j;
                }
                j = j + 1;
            }
            let ghost queue0 = queue@;
            let ghost best0 = best as int;
            let (dist, x, y) = queue.remove(best);
            proof {
                assert(queue@ == queue0.remove(best0));
                assert forall|j2: int| 0 <= j2 < queue.len() implies dist <= (
                #[trigger] queue[j2]).0 by {
                    if j2 < best0 {
                        assert(queue[j2] == queue0[j2]);
                    } else {
                        assert(queue[j2] == queue0[j2 + 1]);
                    }
                }
            }

            if settled.get(x as usize, y as usize) {
                // Already settled, and the settled value is at or below this
                // entry's cost; drop it.
                proof {
                    lemma_sources_after_remove(
                        *self,
                        initial_distances@,
                        queue0,
                        best0,
                        queue@,
                        dist_field,
                    );
                    lemma_relaxed_after_remove(*self, dist_field, queue0, best0, queue@);
                }
                continue;
            }

            let ghost field0 = dist_field;
            dist_field.set(x as usize, y as usize, dist);
            settled.set(x as usize, y as usize, true);
            proof {
                lemma_flat_injective(sx as int, sy as int, x as int, y as int);
                vstd::set::axiom_set_insert_len(sset, x as int * sy as int + y as int);
                sset = sset.insert(x as int * sy as int + y as int);
                lemma_flat_range_len(sx as int, sy as int);
                vstd::set_lib::lemma_len_subset(
                    sset,
                    vstd::set_lib::set_int_range(0, total as int),
                );
                // A source that was already at or below its seed cost stays
                // so: the one rewritten cell only got cheaper.
                assert forall|k: int| 0 <= k < initial_distances.len() implies ((exists|j: int|
                    0 <= j < queue0.len() && (#[trigger] queue0[j]) == (
                    initial_distances[k].0,
                    initial_distances[k].1.0,
                    initial_distances[k].1.1,
                    )) || dist_field.at(
                    (#[trigger] initial_distances[k]).1.0 as int,
                    initial_distances[k].1.1 as int,
                ) <= initial_distances[k].0) by {
                    let cx = initial_distances[k].1.0 as int;
                    let cy = initial_distances[k].1.1 as int;
                    if field0.at(cx, cy) <= initial_distances[k].0 {
                        if cx == x as int && cy == y as int {
                            assert(dist_field.at(cx, cy) == dist);
                        } else {
                            assert(dist_field.at(cx, cy) == field0.at(cx, cy));
                        }
                    }
                }
                lemma_sources_after_remove(
                    *self,
                    initial_distances@,
                    queue0,
                    best0,
                    queue@,
                    dist_field,
                );
            }

            let ghost qs = queue@;
            proof {
                // Every pair not sourced at the fresh cell keeps its
                // relaxation property across the removal and the settle.
                assert forall|px: int, py: int, k2: int|
                    dist_field.in_bounds(px, py) && 0 <= k2 < 8 && !(px == x as int && py
                        == y as int) implies #[trigger] relaxed_step(
                    *self,
                    dist_field,
                    qs,
                    px,
                    py,
                    k2,
                ) by {
                    lemma_relaxed_settle_other(
                        *self,
                        field0,
                        dist_field,
                        queue0,
                        best0,
                        qs,
                        x as int,
                        y as int,
                        dist,
                        px,
                        py,
                        k2,
                    );
                }
            }
            let mut k: usize = 0;
            while k < 8
                invariant
                    k <= 8,
                    self.wf(),
                    sx == self.size_x(),
                    sy == self.size_y(),
                    dist_field.wf(),
                    dist_field.spec_size_x() == sx,
                    dist_field.spec_size_y() == sy,
                    settled.wf(),
                    settled.spec_size_x() == sx,
                    settled.spec_size_y() == sy,
                    self.cells.in_bounds(x as int, y as int),
                    settled.at(x as int, y as int),
                    dist_field.at(x as int, y as int) == dist,
                    queue@.len() >= qs.len(),
                    queue@.len() <= qs.len() + k,
                    forall|j: int| 0 <= j < qs.len() ==> queue@[j] == qs[j],
                    forall|px: int, py: int, k2: int|
                        dist_field.in_bounds(px, py) && 0 <= k2 < 8 && !(px == x as int && py
                            == y as int) ==> #[trigger] relaxed_step(
                            *self,
                            dist_field,
                            qs,
                            px,
                            py,
                            k2,
                        ),
                    forall|k2: int|
                        0 <= k2 < k ==> #[trigger] relaxed_step(
                            *self,
                            dist_field,
                            queue@,
                            x as int,
                            y as int,
                            k2,
                        ),
                    forall|j: int|
                        0 <= j < queue.len() ==> self.cells.in_bounds(
                            (#[trigger] queue[j]).1 as int,
                            queue[j].2 as int,
                        ),
                    forall|x2: int, y2: int|
                        dist_field.in_bounds(x2, y2) && !settled.at(x2, y2) ==> (
                        #[trigger] dist_field.at(x2, y2)) == INFINITE_COST,
                    forall|x2: int, y2: int, j: int|
                        dist_field.in_bounds(x2, y2) && #[trigger] settled.at(x2, y2) && 0 <= j
                            < queue.len() ==> dist_field.at(x2, y2) <= (#[trigger] queue[j]).0,
                    forall|x2: int, y2: int|
                        dist_field.in_bounds(x2, y2) && #[trigger] settled.at(x2, y2) ==> dist_field.at(
                            x2,
                            y2,
                        ) <= dist,
                    forall|k2: int|
                        0 <= k2 < initial_distances.len() ==> ((exists|j: int|
                            0 <= j < qs.len() && (#[trigger] qs[j]) == (
                            initial_distances[k2].0,
                            initial_distances[k2].1.0,
                            initial_distances[k2].1.1,
                            )) || dist_field.at(
                            (#[trigger] initial_distances[k2]).1.0 as int,
                            initial_distances[k2].1.1 as int,
                        ) <= initial_distances[k2].0),
                decreases 8 - k,
            {
                let ghost qpre = queue@;
                let (move_dir_cost, ddx, ddy) = adjacent_move(k);
                let nx = x + ddx;
                let ny = y + ddy;
                let ghost qx = x as int + ddx as int;
                let ghost qy = y as int + ddy as int;
                if self.cells.contains(nx, ny) {
                    let move_cost = self.guard_move_cost(Coord(x, y), Coord(nx, ny));
                    if move_cost != INFINITE_COST {
                        let dist_new = add_cost(add_cost(dist, move_cost), move_dir_cost);
                        if dist_new < dist_field.get(nx as usize, ny as usize) {
                            queue.push((dist_new, nx, ny));
                            proof {
                                assert(queue[queue.len() - 1] == (dist_new, nx, ny));
                                assert(dist_new as int == sat_cost(
                                    sat_cost(
                                        dist_field.at(x as int, y as int) as int,
                                        self.cells.at(qx, qy).move_cost as int,
                                    ),
                                    move_dir_cost as int,
                                ));
                                assert(relaxed_step(
                                    *self,
                                    dist_field,
                                    queue@,
                                    x as int,
                                    y as int,
                                    k as int,
                                ));
                            }
                        } else {
                            proof {
                                assert(dist_field.at(qx, qy) <= dist_new);
                                assert(relaxed_step(
                                    *self,
                                    dist_field,
                                    queue@,
                                    x as int,
                                    y as int,
                                    k as int,
                                ));
                            }
                        }
                    } else {
                        proof {
                            assert(self.spec_guard_move_cost(
                                Coord(x, y),
                                Coord(nx, ny),
                            ) == INFINITE_COST);
                            assert(relaxed_step(
                                *self,
                                dist_field,
                                queue@,
                                x as int,
                                y as int,
                                k as int,
                            ));
                        }
                    }
                } else {
                    proof {
                        assert(!self.cells.in_bounds(qx, qy));
                        assert(relaxed_step(
                            *self,
                            dist_field,
                            queue@,
                            x as int,
                            y as int,
                            k as int,
                        ));
                    }
                }
                proof {
                    assert forall|k2: int| 0 <= k2 < k + 1 implies #[trigger] relaxed_step(
                        *self,
                        dist_field,
                        queue@,
                        x as int,
                        y as int,
                        k2,
                    ) by {
                        if k2 < k {
                            lemma_relaxed_queue_extend(
                                *self,
                                dist_field,
                                qpre,
                                queue@,
                                x as int,
                                y as int,
                                k2,
                            );
                        }
                    }
                }
                k = k + 1;
            }
            proof {
                assert forall|px: int, py: int, k2: int|
                    dist_field.in_bounds(px, py) && 0 <= k2 < 8 implies #[trigger] relaxed_step(
                    *self,
                    dist_field,
                    queue@,
                    px,
                    py,
                    k2,
                ) by {
                    if px == x as int && py == y as int {
                    } else {
                        lemma_relaxed_queue_extend(
                            *self,
                            dist_field,
                            qs,
                            queue@,
                            px,
                            py,
                            k2,
                        );
                    }
                }
                assert forall|k2: int| 0 <= k2 < initial_distances.len() implies ((exists|j: int|
                    0 <= j < queue.len() && (#[trigger] queue[j]) == (
                    initial_distances[k2].0,
                    initial_distances[k2].1.0,
                    initial_distances[k2].1.1,
                    )) || dist_field.at(
                    (#[trigger] initial_distances[k2]).1.0 as int,
                    initial_distances[k2].1.1 as int,
                ) <= initial_distances[k2].0) by {
                    if !(dist_field.at(
                        initial_distances[k2].1.0 as int,
                        initial_distances[k2].1.1 as int,
                    ) <= initial_distances[k2].0) {
                        let j = choose|j: int|
                            0 <= j < qs.len() && (#[trigger] qs[j]) == (
                            initial_distances[k2].0,
                            initial_distances[k2].1.0,
                            initial_distances[k2].1.1,
                            );
                        assert(queue[j] == qs[j]);
                    }
                }
            }
        }
        proof {
            assert(queue@ =~= Seq::<(usize, i32, i32)>::empty());
            assert forall|px: int, py: int, k: int|
                dist_field.in_bounds(px, py) && 0 <= k < 8 implies #[trigger] relaxed_step(
                *self,
                dist_field,
                Seq::empty(),
                px,
                py,
                k,
            ) by {
                assert(relaxed_step(*self, dist_field, queue@, px, py, k));
            }
        }
        dist_field
    }

    /// The distance field toward every cell of one patrol region, each
    /// region cell seeded with its own move cost: no cell of the region's
    /// rectangle ends up above its own move cost.
    pub fn compute_distances_to_region(&self, i_region_goal: usize) -> (r: Grid<usize>)
        requires
            self.wf(),
            i_region_goal < self.patrol_regions.len(),
        ensures
            r.wf(),
            r.spec_size_x() == self.size_x(),
            r.spec_size_y() == self.size_y(),
            ({
                let rect = self.patrol_regions[i_region_goal as int].rect;
                forall|cx: int, cy: int|
                    rect.pos_min.0 <= cx < rect.pos_max.0 && rect.pos_min.1 <= cy < rect.pos_max.1
                        ==> #[trigger] r.at(cx, cy) <= self.cells.at(cx, cy).move_cost
            }),
    {
        let region = self.patrol_regions[i_region_goal];
        let mut goal: Vec<(usize, Coord)> = Vec::new();

        let x0 = region.rect.pos_min.0;
        let x1 = region.rect.pos_max.0;
        let y0 = region.rect.pos_min.1;
        let y1 = region.rect.pos_max.1;
        let mut x = x0;
        while x < x1
            invariant
                self.wf(),
                x0 <= x <= x1 || x == x0,
                0 <= x0,
                x1 <= self.size_x(),
                0 <= y0 <= y1 <= self.size_y(),
                forall|j: int| 0 <= j < goal.len() ==> self.in_bounds((#[trigger] goal[j]).1),
                forall|cx: int, cy: int|
                    x0 <= cx < x && y0 <= cy < y1 ==> #[trigger] seeded(goal@, *self, cx, cy),
            decreases x1 - x,
        {
            let mut y = y0;
            while y < y1
                invariant
                    self.wf(),
                    0 <= x0 <= x < x1 <= self.size_x(),
                    y0 <= y <= y1 || y == y0,
                    0 <= y0,
                    y1 <= self.size_y(),
                    forall|j: int| 0 <= j < goal.len() ==> self.in_bounds((#[trigger] goal[j]).1),
                    forall|cx: int, cy: int|
                        x0 <= cx < x && y0 <= cy < y1 ==> #[trigger] seeded(goal@, *self, cx, cy),
                    forall|cy: int|
                        y0 <= cy < y ==> #[trigger] seeded(goal@, *self, x as int, cy),
                decreases y1 - y,
            {
                let p = Coord(x, y);
                let ghost goal0 = goal@;
                goal.push((self.guard_cell_cost(x as usize, y as usize), p));
                proof {
                    assert(goal[goal.len() - 1] == (
                        self.cells.at(x as int, y as int).move_cost,
                        Coord(x, y),
                    ));
                    assert(seeded(goal@, *self, x as int, y as int));
                    assert forall|cx: int, cy: int|
                        x0 <= cx < x && y0 <= cy < y1 implies #[trigger] seeded(
                        goal@,
                        *self,
                        cx,
                        cy,
                    ) by {
                        assert(seeded(goal0, *self, cx, cy));
                        let k = choose|k: int|
                            0 <= k < goal0.len() && (#[trigger] goal0[k]) == (
                            self.cells.at(cx, cy).move_cost,
                            Coord(cx as i32, cy as i32),
                            );
                        assert(goal@[k] == goal0[k]);
                    }
                    assert forall|cy: int| y0 <= cy < y + 1 implies #[trigger] seeded(
                        goal@,
                        *self,
                        x as int,
                        cy,
                    ) by {
                        if cy < y {
                            assert(seeded(goal0, *self, x as int, cy));
                            let k = choose|k: int|
                                0 <= k < goal0.len() && (#[trigger] goal0[k]) == (
                                self.cells.at(x as int, cy).move_cost,
                                Coord(x, cy as i32),
                                );
                            assert(goal@[k] == goal0[k]);
                        }
                    }
                }
                y = y + 1;
            }
            x = x + 1;
        }
        let field = self.compute_distance_field(&goal);
        proof {
            assert forall|cx: int, cy: int|
                x0 <= cx < x1 && y0 <= cy < y1 implies #[trigger] field.at(cx, cy)
                <= self.cells.at(cx, cy).move_cost by {
                assert(seeded(goal@, *self, cx, cy));
                let k = choose|k: int|
                    0 <= k < goal@.len() && (#[trigger] goal@[k]) == (
                    self.cells.at(cx, cy).move_cost,
                    Coord(cx as i32, cy as i32),
                    );
                assert(field.at(goal[k].1.0 as int, goal[k].1.1 as int) <= goal[k].0);
            }
        }
        field
    }

    /// The distance field toward a single position; the goal itself is at
    /// distance zero.
    pub fn compute_distances_to_position(&self, pos_goal: Coord) -> (r: Grid<usize>)
        requires
            self.wf(),
            self.in_bounds(pos_goal),
        ensures
            r.wf(),
            r.spec_size_x() == self.size_x(),
            r.spec_size_y() == self.size_y(),
            r.at(pos_goal.0 as int, pos_goal.1 as int) == 0,
    {
        let mut goal: Vec<(usize, Coord)> = Vec::new();
        goal.push((0, pos_goal));
        let field = self.compute_distance_field(&goal);
        proof {
            assert(field.at(goal[0].1.0 as int, goal[0].1.1 as int) <= goal[0].0);
        }
        field
    }

    /// The patrol region nearest to `pos` by weighted path distance: the
    /// same expansion as the distance field, stopped at the first dequeued
    /// cell that carries a region; the sentinel when none is reachable.
    pub fn closest_region(&self, pos: Coord) -> (r: usize)
        requires
            self.wf(),
            self.in_bounds(pos),
        ensures
            region_ok(r, self.patrol_regions.len() as int),
            self.cell_at(pos).region != INVALID_REGION ==> r == self.cell_at(pos).region,
    {
        // The expansion dequeues the start cell first, so a start that
        // already carries a region answers immediately.
        let r0 = self.cells.get(pos.0 as usize, pos.1 as usize).region;
        if r0 != INVALID_REGION {
            return r0;
        }

        let sx = self.cells.size_x();
        let sy = self.cells.size_y();
        let mut dist_field: Grid<usize> = Grid::new(sx, sy, INFINITE_COST);
        let mut queue: Vec<(usize, i32, i32)> = Vec::new();
        queue.push((0, pos.0, pos.1));

        let mut fuel: usize = 100_000_000;
        while queue.len() > 0 && fuel > 0
            invariant
                self.wf(),
                self.cell_at(pos).region == INVALID_REGION,
                dist_field.wf(),
                dist_field.spec_size_x() == self.size_x(),
                dist_field.spec_size_y() == self.size_y(),
                forall|j: int|
                    0 <= j < queue.len() ==> self.cells.in_bounds(
                        (#[trigger] queue[j]).1 as int,
                        queue[j].2 as int,
                    ),
            decreases fuel,
        {
            fuel = fuel - 1;

            let mut best: usize = 0;
            let mut j: usize = 1;
            while j < queue.len()
                invariant
                    best < queue.len(),
                    j <= queue.len(),
                decreases queue.len() - j,
            {
                if queue[j].0 < queue[best].0 {
                    best = j;
                }
                j = j + 1;
            }
            let (dist, x, y) = queue.remove(best);

            let region = self.cells.get(x as usize, y as usize).region;
            if region != INVALID_REGION {
                return region;
            }

            if dist >= dist_field.get(x as usize, y as usize) {
                continue;
            }
            dist_field.set(x as usize, y as usize, dist);

            let mut k: usize = 0;
            while k < 8
                invariant
                    k <= 8,
                    self.wf(),
                    dist_field.wf(),
                    dist_field.spec_size_x() == self.size_x(),
                    dist_field.spec_size_y() == self.size_y(),
                    self.cells.in_bounds(x as int, y as int),
                    forall|j: int|
                        0 <= j < queue.len() ==> self.cells.in_bounds(
                            (#[trigger] queue[j]).1 as int,
                            queue[j].2 as int,
                        ),
                decreases 8 - k,
            {
                let (move_dir_cost, ddx, ddy) = adjacent_move(k);
                let nx = x + ddx;
                let ny = y + ddy;
                if self.cells.contains(nx, ny) {
                    let move_cost = self.guard_move_cost(Coord(x, y), Coord(nx, ny));
                    if move_cost != INFINITE_COST {
                        let dist_new = add_cost(add_cost(dist, move_cost), move_dir_cost);
                        if dist_new < dist_field.get(nx as usize, ny as usize) {
                            queue.push((dist_new, nx, ny));
                        }
                    }
                }
                k = k + 1;
            }
        }
        INVALID_REGION
    }

    /// The cells a sound from `emitter_pos` reaches: a 4-connected flood
    /// fill that does not cross sound-blocking cells, bounded by squared
    /// Euclidean distance from the emitter (not path distance). The result
    /// holds exactly the cells with a sound path from the emitter.
    pub fn coords_in_earshot(&self, emitter_pos: Coord, radius: i32) -> (r: Vec<Coord>)
        requires
            self.wf(),
            self.in_bounds(emitter_pos),
        ensures
            r.len() >= 1,
            r[0] == emitter_pos,
            forall|i: int| 0 <= i < r.len() ==> self.in_bounds(#[trigger] r[i]),
            forall|i: int|
                0 <= i < r.len() ==> spec_in_earshot(
                    *self,
                    emitter_pos,
                    radius as int,
                    #[trigger] r[i],
                ),
            forall|q: Coord|
                #[trigger] spec_in_earshot(*self, emitter_pos, radius as int, q) ==> r@.contains(
                    q,
                ),
    {
        let sx = self.cells.size_x();
        let sy = self.cells.size_y();
        proof {
            assert(sx * sy <= 0x10000000) by (nonlinear_arith)
                requires
                    1 <= sx <= 0x4000,
                    1 <= sy <= 0x4000,
            ;
        }
        let total = sx * sy;
        let ghost radius_i = radius as int;

        let mut visited: Grid<bool> = Grid::new(sx, sy, false);
        visited.set(emitter_pos.0 as usize, emitter_pos.1 as usize, true);
        let mut reached: Vec<Coord> = Vec::new();
        reached.push(emitter_pos);
        let ghost mut vset: Set<int> = Set::empty().insert(
            emitter_pos.0 as int * sy as int + emitter_pos.1 as int,
        );
        let mut head: usize = 0;

        proof {
            let path = seq![emitter_pos];
            assert(sound_path_ok(*self, emitter_pos, radius_i, path));
            assert(path.last() == emitter_pos);
            assert(spec_in_earshot(*self, emitter_pos, radius_i, emitter_pos));
            lemma_flat_injective(sx as int, sy as int, emitter_pos.0 as int, emitter_pos.1 as int);
        }

        while head < reached.len()
            invariant
                self.wf(),
                self.in_bounds(emitter_pos),
                radius_i == radius as int,
                sx == self.size_x(),
                sy == self.size_y(),
                total == sx * sy,
                total <= 0x10000000,
                visited.wf(),
                visited.spec_size_x() == sx,
                visited.spec_size_y() == sy,
                head <= reached.len(),
                reached.len() >= 1,
                reached[0] == emitter_pos,
                // The visited grid, the ghost index set and the list agree.
                vset.finite(),
                vset.len() == reached.len(),
                forall|t: int| vset.contains(t) ==> 0 <= t < total,
                forall|x: int, y: int|
                    visited.in_bounds(x, y) ==> (#[trigger] visited.at(x, y) == vset.contains(
                        x * sy + y,
                    )),
                forall|i: int| 0 <= i < reached.len() ==> self.in_bounds(#[trigger] reached[i]),
                forall|i: int|
                    0 <= i < reached.len() ==> visited.at(
                        (#[trigger] reached[i]).0 as int,
                        reached[i].1 as int,
                    ),
                forall|x: int, y: int|
                    visited.in_bounds(x, y) && #[trigger] visited.at(x, y) ==> exists|i: int|
                        0 <= i < reached.len() && (#[trigger] reached[i]) == Coord(
                            x as i32,
                            y as i32,
                        ),
                // Every listed cell genuinely hears the sound.
                forall|i: int|
                    0 <= i < reached.len() ==> spec_in_earshot(
                        *self,
                        emitter_pos,
                        radius_i,
                        #[trigger] reached[i],
                    ),
                // Every qualifying neighbor of a processed cell is visited.
                forall|i: int, q: Coord|
                    0 <= i < head && #[trigger] sound_step_ok(
                        *self,
                        emitter_pos,
                        radius_i,
                        reached[i],
                        q,
                    ) ==> visited.at(q.0 as int, q.1 as int),
            decreases total - head,
        {
            proof {
                lemma_flat_range_len(sx as int, sy as int);
                vstd::set_lib::lemma_len_subset(
                    vset,
                    vstd::set_lib::set_int_range(0, total as int),
                );
            }
            let pos = reached[head];

            let mut k: usize = 0;
            while k < 4
                invariant
                    k <= 4,
                    self.wf(),
                    self.in_bounds(emitter_pos),
                    radius_i == radius as int,
                    sx == self.size_x(),
                    sy == self.size_y(),
                    total == sx * sy,
                    total <= 0x10000000,
                    visited.wf(),
                    visited.spec_size_x() == sx,
                    visited.spec_size_y() == sy,
                    head < reached.len(),
                    reached.len() >= 1,
                    reached[0] == emitter_pos,
                    pos == reached[head as int],
                    self.in_bounds(pos),
                    vset.finite(),
                    vset.len() == reached.len(),
                    forall|t: int| vset.contains(t) ==> 0 <= t < total,
                    forall|x: int, y: int|
                        visited.in_bounds(x, y) ==> (#[trigger] visited.at(x, y) == vset.contains(
                            x * sy + y,
                        )),
                    forall|i: int| 0 <= i < reached.len() ==> self.in_bounds(#[trigger] reached[i]),
                    forall|i: int|
                        0 <= i < reached.len() ==> visited.at(
                            (#[trigger] reached[i]).0 as int,
                            reached[i].1 as int,
                        ),
                    forall|x: int, y: int|
                        visited.in_bounds(x, y) && #[trigger] visited.at(x, y) ==> exists|i: int|
                            0 <= i < reached.len() && (#[trigger] reached[i]) == Coord(
                                x as i32,
                                y as i32,
                            ),
                    forall|i: int|
                        0 <= i < reached.len() ==> spec_in_earshot(
                            *self,
                            emitter_pos,
                            radius_i,
                            #[trigger] reached[i],
                        ),
                    forall|i: int, q: Coord|
                        0 <= i < head && #[trigger] sound_step_ok(
                            *self,
                            emitter_pos,
                            radius_i,
                            reached[i],
                            q,
                        ) ==> visited.at(q.0 as int, q.1 as int),
                    // The directions handled so far are closed for `pos`.
                    forall|q: Coord|
                        #[trigger] sound_step_ok(*self, emitter_pos, radius_i, pos, q) && dir_index(
                            pos,
                            q,
                        ) < k ==> visited.at(q.0 as int, q.1 as int),
                decreases 4 - k,
            {
                let (ddx, ddy): (i32, i32) = match k {
                    0 => (-1, 0),
                    1 => (1, 0),
                    2 => (0, -1),
                    _ => (0, 1),
                };
                let nx = pos.0 + ddx;
                let ny = pos.1 + ddy;
                let q = Coord(nx, ny);
                k = k + 1;
                if !self.cells.contains(nx, ny) {
                    continue;
                }
                if visited.get(nx as usize, ny as usize) {
                    continue;
                }
                let dx = nx - emitter_pos.0;
                let dy = ny - emitter_pos.1;
                proof {
                    assert(0 <= (dx as int) * (dx as int) <= 0x1000_0000 && 0 <= (dy as int) * (
                    dy as int) <= 0x1000_0000) by (nonlinear_arith)
                        requires
                            -0x4000 <= dx <= 0x4000,
                            -0x4000 <= dy <= 0x4000,
                    ;
                }
                let d2 = dx * dx + dy * dy;
                if d2 >= radius {
                    continue;
                }
                if self.cells.get(nx as usize, ny as usize).blocks_sound {
                    continue;
                }
                let ghost visited0 = visited;
                let ghost reached0 = reached@;
                visited.set(nx as usize, ny as usize, true);
                proof {
                    assert(sound_step_ok(*self, emitter_pos, radius_i, pos, q));
                    lemma_earshot_step(*self, emitter_pos, radius_i, pos, q);
                    lemma_flat_injective(sx as int, sy as int, nx as int, ny as int);
                    vset = vset.insert(nx as int * sy as int + ny as int);
                }
                reached.push(q);
                proof {
                    assert forall|x: int, y: int|
                        visited.in_bounds(x, y) && #[trigger] visited.at(x, y) implies exists|
                        i: int,
                    |
                        0 <= i < reached.len() && (#[trigger] reached[i]) == Coord(
                            x as i32,
                            y as i32,
                        ) by {
                        if x == nx as int && y == ny as int {
                            assert(reached[reached.len() - 1] == Coord(x as i32, y as i32));
                        } else {
                            assert(visited0.at(x, y));
                            let i = choose|i: int|
                                0 <= i < reached0.len() && (#[trigger] reached0[i]) == Coord(
                                    x as i32,
                                    y as i32,
                                );
                            assert(reached[i] == Coord(x as i32, y as i32));
                        }
                    }
                }
            }
            head = head + 1;
        }

        proof {
            assert forall|q: Coord|
                #[trigger] spec_in_earshot(*self, emitter_pos, radius_i, q) implies reached@.contains(
                q,
            ) by {
                let path = choose|path: Seq<Coord>|
                    sound_path_ok(*self, emitter_pos, radius_i, path) && path.last() == q;
                lemma_earshot_reached(*self, emitter_pos, radius_i, reached@, visited, path);
            }
        }
        reached
    }

    /// The indices of the guards standing inside the earshot of a sound at
    /// `emitter_pos`: exactly those whose position a sound path reaches, in
    /// guard-list order without repeats.
    pub fn guards_in_earshot(&self, emitter_pos: Coord, radius: i32) -> (r: Vec<usize>)
        requires
            self.wf(),
            self.in_bounds(emitter_pos),
        ensures
            forall|i: int| 0 <= i < r.len() ==> (#[trigger] r[i]) < self.guards.len(),
            forall|i: int, j: int| 0 <= i < j < r.len() ==> r[i] < r[j],
            forall|g: int|
                0 <= g < self.guards.len() ==> (#[trigger] contains_idx(r@, g) <==> spec_in_earshot(
                    *self,
                    emitter_pos,
                    radius as int,
                    self.guards[g].pos,
                )),
    {
        let coords = self.coords_in_earshot(emitter_pos, radius);
        let mut result: Vec<usize> = Vec::new();
        let n = self.guards.len();
        let mut i: usize = 0;
        while i < n
            invariant
                self.wf(),
                self.in_bounds(emitter_pos),
                i <= n,
                n == self.guards.len(),
                forall|a: int| 0 <= a < result.len() ==> (#[trigger] result[a]) < i,
                forall|a: int, b: int| 0 <= a < b < result.len() ==> result[a] < result[b],
                forall|q: Coord|
                    #[trigger] spec_in_earshot(*self, emitter_pos, radius as int, q)
                        ==> coords@.contains(q),
                forall|t: int|
                    0 <= t < coords.len() ==> spec_in_earshot(
                        *self,
                        emitter_pos,
                        radius as int,
                        #[trigger] coords[t],
                    ),
                forall|g: int|
                    0 <= g < i ==> (#[trigger] contains_idx(result@, g) <==> spec_in_earshot(
                        *self,
                        emitter_pos,
                        radius as int,
                        self.guards[g].pos,
                    )),
            decreases n - i,
        {
            let gp = self.guards[i].pos;
            let m = coords.len();
            let mut j: usize = 0;
            let mut found = false;
            while j < m
                invariant
                    j <= m,
                    m == coords.len(),
                    found == exists|t: int| 0 <= t < j && (#[trigger] coords[t]) == gp,
                decreases m - j,
            {
                if coords[j] == gp {
                    found = true;
                }
                j = j + 1;
            }
            let ghost result0 = result@;
            if found {
                result.push(i);
            }
            proof {
                if found {
                    assert(coords@.contains(gp));
                    assert(result[result.len() - 1] == i);
                    assert(contains_idx(result@, i as int));
                }
                assert forall|g: int|
                    0 <= g < i + 1 implies (#[trigger] contains_idx(result@, g)
                    <==> spec_in_earshot(
                    *self,
                    emitter_pos,
                    radius as int,
                    self.guards[g].pos,
                )) by {
                    if g < i {
                        assert(contains_idx(result0, g) <==> spec_in_earshot(
                            *self,
                            emitter_pos,
                            radius as int,
                            self.guards[g].pos,
                        ));
                        if contains_idx(result@, g) {
                            let k = choose|k: int|
                                0 <= k < result@.len() && (#[trigger] result@[k]) as int == g;
                            assert(k < result0.len());
                            assert(contains_idx(result0, g));
                        }
                        if contains_idx(result0, g) {
                            let k = choose|k: int|
                                0 <= k < result0.len() && (#[trigger] result0[k]) as int == g;
                            assert(result@[k] as int == g);
                            assert(contains_idx(result@, g));
                        }
                    } else {
                        if !found {
                            if contains_idx(result@, g) {
                                let k = choose|k: int|
                                    0 <= k < result@.len() && (#[trigger] result@[k]) as int == g;
                                assert(result@[k] < i);
                            }
                        }
                    }
                }
            }
            i = i + 1;
        }
        result
    }
}

} // verus!
