//! The guard state machine's per-turn behavior: sensing, mode transitions,
//! goal-directed movement, attacks, and guard-to-guard alerting.

use vstd::prelude::*;
use crate::cell_grid::{CellType, INFINITE_COST, INVALID_REGION, Player};
use crate::coord::Coord;
use crate::grid::Grid;
use crate::guard::{
    Guard, GuardMode, Lines, spec_adjacent, spec_sight_cutoff, update_dir,
};
use crate::map::LevelMap;
use crate::pathing::{contains_idx, spec_in_earshot};
use crate::rng::Rng;
use crate::speech_bubbles::Popups;

verus! {

/// A guard's alert on entering a chase: where the shouter stood and where
/// it reported the target.
pub struct Shout {
    pub pos_shouter: Coord,
    pub pos_target: Coord,
}

/// Whether the player is hidden from senses, given whether some other
/// guard is already chasing: an active chase suppresses all concealment;
/// otherwise concealing terrain (when undisguised) or being underwater
/// hides the player.
pub open spec fn spec_hidden_given(player: Player, map: LevelMap, any_chasing: bool) -> bool {
    if any_chasing {
        false
    } else if !player.disguised && map.cell_at(player.pos).hides_player {
        true
    } else if map.cell_at(player.pos).cell_type == CellType::GroundWater
        && player.turns_remaining_underwater > 0 {
        true
    } else {
        false
    }
}

pub fn hidden_given(player: &Player, map: &LevelMap, any_chasing: bool) -> (r: bool)
    requires
        map.wf(),
        map.in_bounds(player.pos),
    ensures
        r == spec_hidden_given(*player, *map, any_chasing),
{
    if any_chasing {
        return false;
    }
    if !player.disguised && map.hides_player(player.pos.0, player.pos.1) {
        return true;
    }
    let cell_type = map.cells.get(player.pos.0 as usize, player.pos.1 as usize).cell_type;
    if cell_type == CellType::GroundWater && player.turns_remaining_underwater > 0 {
        return true;
    }
    false
}

impl Player {
    /// Whether the player is hidden from the guards' senses right now.
    pub fn hidden(&self, map: &LevelMap) -> (r: bool)
        requires
            map.wf(),
            map.in_bounds(self.pos),
        ensures
            r == spec_hidden_given(
                *self,
                *map,
                exists|i: int|
                    0 <= i < map.guards.len() && (#[trigger] map.guards[i]).mode
                        == GuardMode::ChaseVisibleTarget,
            ),
    {
        let n = map.guards.len();
        let mut i: usize = 0;
        let mut any_chasing = false;
        while i < n
            invariant
                i <= n,
                n == map.guards.len(),
                any_chasing == exists|j: int|
                    0 <= j < i && (#[trigger] map.guards[j]).mode == GuardMode::ChaseVisibleTarget,
            decreases n - i,
        {
            if map.guards[i].mode == GuardMode::ChaseVisibleTarget {
                any_chasing = true;
            }
            i = i + 1;
        }
        hidden_given(self, map, any_chasing)
    }
}

/// One Bresenham step at a time: whether the remaining `n` steps of the
/// walk stay on the grid and clear of sight-blocking cells.
pub open spec fn spec_los_walk(
    map: LevelMap,
    x: int,
    y: int,
    x_inc: int,
    y_inc: int,
    ax2: int,
    ay2: int,
    error: int,
    n: int,
) -> bool
    decreases n,
{
    if n <= 0 {
        true
    } else {
        let x2 = if error > 0 {
            x
        } else {
            x + x_inc
        };
        let y2 = if error > 0 {
            y + y_inc
        } else {
            y
        };
        let e2 = if error > 0 {
            error - ax2
        } else {
            error + ay2
        };
        if !map.cells.in_bounds(x2, y2) {
            false
        } else if map.cells.at(x2, y2).blocks_sight {
            false
        } else {
            spec_los_walk(map, x2, y2, x_inc, y_inc, ax2, ay2, e2, n - 1)
        }
    }
}

/// The line-of-sight predicate: a Bresenham walk from `from` to `to` that
/// crosses no sight-blocking cell strictly between the endpoints.
pub open spec fn spec_line_of_sight(map: LevelMap, from: Coord, to: Coord) -> bool {
    let dx = to.0 - from.0;
    let dy = to.1 - from.1;
    let ax = if dx >= 0 {
        dx
    } else {
        -dx
    };
    let ay = if dy >= 0 {
        dy
    } else {
        -dy
    };
    let x_inc: int = if dx > 0 {
        1
    } else {
        -1
    };
    let y_inc: int = if dy > 0 {
        1
    } else {
        -1
    };
    spec_los_walk(map, from.0 as int, from.1 as int, x_inc, y_inc, 2 * ax, 2 * ay, ay - ax, ax + ay - 1)
}

/// Whether an unobstructed line of sight runs from `from` to `to`:
/// a Bresenham walk, blocked by any sight-blocking cell strictly between
/// the endpoints.
pub fn line_of_sight(map: &LevelMap, from: Coord, to: Coord) -> (r: bool)
    requires
        map.wf(),
        map.in_bounds(from),
        map.in_bounds(to),
    ensures
        r == spec_line_of_sight(*map, from, to),
{
    let mut x = from.0;
    let mut y = from.1;

    let dx = to.0 - x;
    let dy = to.1 - y;

    let mut ax = if dx >= 0 {
        dx
    } else {
        -dx
    };
    let mut ay = if dy >= 0 {
        dy
    } else {
        -dy
    };

    let x_inc: i32 = if dx > 0 {
        1
    } else {
        -1
    };
    let y_inc: i32 = if dy > 0 {
        1
    } else {
        -1
    };

    let mut error = ay - ax;
    let mut n = ax + ay - 1;

    ax = 2 * ax;
    ay = 2 * ay;

    while n > 0
        invariant
            map.wf(),
            -0x8000 <= x <= 0x8000,
            -0x8000 <= y <= 0x8000,
            -1 <= x_inc <= 1,
            -1 <= y_inc <= 1,
            -0x20000 <= error <= 0x20000,
            0 <= ax <= 0x10000,
            0 <= ay <= 0x10000,
            n <= 0x10000,
            spec_line_of_sight(*map, from, to) == spec_los_walk(
                *map,
                x as int,
                y as int,
                x_inc as int,
                y_inc as int,
                ax as int,
                ay as int,
                error as int,
                n as int,
            ),
        decreases n,
    {
        if error > 0 {
            y = y + y_inc;
            error = error - ax;
        } else {
            x = x + x_inc;
            error = error + ay;
        }

        // Cells off the map block sight; an in-bounds pair of endpoints
        // never walks off the map.
        if !map.cells.contains(x, y) {
            return false;
        }
        if map.blocks_sight(x, y) {
            return false;
        }

        n = n - 1;
    }
    true
}

/// Whether some guard other than `self_index` stood at `pos` in the
/// pre-turn snapshot.
pub open spec fn spec_other_guard_at(positions: Seq<Coord>, self_index: int, pos: Coord) -> bool {
    exists|j: int| 0 <= j < positions.len() && j != self_index && positions[j] == pos
}

fn is_other_guard_at(positions: &Vec<Coord>, self_index: usize, pos: Coord) -> (r: bool)
    ensures
        r == spec_other_guard_at(positions@, self_index as int, pos),
{
    let n = positions.len();
    let mut j: usize = 0;
    while j < n
        invariant
            j <= n,
            n == positions.len(),
            forall|k: int| 0 <= k < j && k != self_index ==> positions@[k] != pos,
        decreases n - j,
    {
        if j != self_index && positions[j] == pos {
            return true;
        }
        j = j + 1;
    }
    false
}

/// Whether a cell qualifies as a guard's next step: on the grid, in the
/// 3x3 window, with a finite distance label, a legal move from `pos_from`,
/// not water, and not under another guard.
pub open spec fn step_candidate_ok(
    map: LevelMap,
    field: Grid<usize>,
    positions: Seq<Coord>,
    self_index: int,
    pos_from: Coord,
    q: Coord,
) -> bool {
    &&& map.in_bounds(q)
    &&& spec_adjacent(pos_from, q)
    &&& field.at(q.0 as int, q.1 as int) != INFINITE_COST
    &&& map.spec_guard_move_cost(pos_from, q) != INFINITE_COST
    &&& map.cell_at(q).cell_type != CellType::GroundWater
    &&& !spec_other_guard_at(positions, self_index, q)
}

/// The best single step toward a goal: the candidate cell of the 3x3
/// window around `pos_from` with the least distance label; `pos_from`
/// itself when no cell qualifies.
fn pos_next_best(
    map: &LevelMap,
    distance_field: &Grid<usize>,
    pos_from: Coord,
    positions: &Vec<Coord>,
    self_index: usize,
) -> (r: Coord)
    requires
        map.wf(),
        map.in_bounds(pos_from),
        distance_field.wf(),
        distance_field.spec_size_x() == map.size_x(),
        distance_field.spec_size_y() == map.size_y(),
    ensures
        map.in_bounds(r),
        spec_adjacent(pos_from, r),
        r != pos_from ==> map.cell_at(r).cell_type != CellType::GroundWater
            && !spec_other_guard_at(positions@, self_index as int, r),
        (exists|q: Coord|
            #[trigger] step_candidate_ok(
                *map,
                *distance_field,
                positions@,
                self_index as int,
                pos_from,
                q,
            )) ==> step_candidate_ok(
            *map,
            *distance_field,
            positions@,
            self_index as int,
            pos_from,
            r,
        ),
        forall|q: Coord|
            #[trigger] step_candidate_ok(
                *map,
                *distance_field,
                positions@,
                self_index as int,
                pos_from,
                q,
            ) ==> distance_field.at(r.0 as int, r.1 as int) <= distance_field.at(
                q.0 as int,
                q.1 as int,
            ),
{
    let mut cost_best = INFINITE_COST;
    let mut pos_best = pos_from;

    let x_min = if pos_from.0 >= 1 {
        pos_from.0 - 1
    } else {
        0
    };
    let y_min = if pos_from.1 >= 1 {
        pos_from.1 - 1
    } else {
        0
    };
    let sx = map.cells.size_x() as i32;
    let sy = map.cells.size_y() as i32;
    let x_max = if pos_from.0 + 2 <= sx {
        pos_from.0 + 2
    } else {
        sx
    };
    let y_max = if pos_from.1 + 2 <= sy {
        pos_from.1 + 2
    } else {
        sy
    };

    let mut x = x_min;
    while x < x_max
        invariant
            map.wf(),
            map.in_bounds(pos_from),
            distance_field.wf(),
            distance_field.spec_size_x() == map.size_x(),
            distance_field.spec_size_y() == map.size_y(),
            pos_from.0 - 1 <= x_min <= x,
            0 <= x_min,
            x <= x_max || x == x_min,
            x_max <= map.size_x(),
            x_max <= pos_from.0 + 2,
            pos_from.1 - 1 <= y_min,
            0 <= y_min,
            y_max <= map.size_y(),
            y_max <= pos_from.1 + 2,
            x_min == (if pos_from.0 >= 1 {
                pos_from.0 - 1
            } else {
                0
            }),
            x_max == (if pos_from.0 + 2 <= map.size_x() {
                (pos_from.0 + 2) as int
            } else {
                map.size_x()
            }),
            y_min == (if pos_from.1 >= 1 {
                pos_from.1 - 1
            } else {
                0
            }),
            y_max == (if pos_from.1 + 2 <= map.size_y() {
                (pos_from.1 + 2) as int
            } else {
                map.size_y()
            }),
            map.in_bounds(pos_best),
            spec_adjacent(pos_from, pos_best),
            pos_best != pos_from ==> map.cell_at(pos_best).cell_type != CellType::GroundWater
                && !spec_other_guard_at(positions@, self_index as int, pos_best),
            cost_best != INFINITE_COST ==> (step_candidate_ok(
                *map,
                *distance_field,
                positions@,
                self_index as int,
                pos_from,
                pos_best,
            ) && distance_field.at(pos_best.0 as int, pos_best.1 as int) == cost_best),
            forall|q: Coord|
                #[trigger] step_candidate_ok(
                    *map,
                    *distance_field,
                    positions@,
                    self_index as int,
                    pos_from,
                    q,
                ) && q.0 < x ==> cost_best <= distance_field.at(q.0 as int, q.1 as int),
        decreases x_max - x,
    {
        let mut y = y_min;
        proof {
            assert forall|q: Coord|
                #[trigger] step_candidate_ok(
                    *map,
                    *distance_field,
                    positions@,
                    self_index as int,
                    pos_from,
                    q,
                ) && (q.0 < x || (q.0 == x && q.1 < y)) implies cost_best <= distance_field.at(
                q.0 as int,
                q.1 as int,
            ) by {
                assert(q.1 >= y_min);
            }
        }
        while y < y_max
            invariant
                map.wf(),
                map.in_bounds(pos_from),
                distance_field.wf(),
                distance_field.spec_size_x() == map.size_x(),
                distance_field.spec_size_y() == map.size_y(),
                pos_from.0 - 1 <= x_min <= x < x_max <= map.size_x(),
                x_max <= pos_from.0 + 2,
                0 <= x_min,
                pos_from.1 - 1 <= y_min <= y,
                0 <= y_min,
                y <= y_max || y == y_min,
                y_max <= map.size_y(),
                y_max <= pos_from.1 + 2,
                y_min == (if pos_from.1 >= 1 {
                    pos_from.1 - 1
                } else {
                    0
                }),
                y_max == (if pos_from.1 + 2 <= map.size_y() {
                    (pos_from.1 + 2) as int
                } else {
                    map.size_y()
                }),
                map.in_bounds(pos_best),
                spec_adjacent(pos_from, pos_best),
                pos_best != pos_from ==> map.cell_at(pos_best).cell_type != CellType::GroundWater
                    && !spec_other_guard_at(positions@, self_index as int, pos_best),
                cost_best != INFINITE_COST ==> (step_candidate_ok(
                    *map,
                    *distance_field,
                    positions@,
                    self_index as int,
                    pos_from,
                    pos_best,
                ) && distance_field.at(pos_best.0 as int, pos_best.1 as int) == cost_best),
                forall|q: Coord|
                    #[trigger] step_candidate_ok(
                        *map,
                        *distance_field,
                        positions@,
                        self_index as int,
                        pos_from,
                        q,
                    ) && (q.0 < x || (q.0 == x && q.1 < y)) ==> cost_best <= distance_field.at(
                        q.0 as int,
                        q.1 as int,
                    ),
            decreases y_max - y,
        {
            let pos = Coord(x, y);
            let cost = distance_field.get(x as usize, y as usize);
            if cost != INFINITE_COST && map.guard_move_cost(pos_from, pos) != INFINITE_COST
                && map.cells.get(x as usize, y as usize).cell_type != CellType::GroundWater
                && !is_other_guard_at(positions, self_index, pos) && cost < cost_best {
                cost_best = cost;
                pos_best = pos;
            }
            y = y + 1;
        }
        proof {
            assert forall|q: Coord|
                #[trigger] step_candidate_ok(
                    *map,
                    *distance_field,
                    positions@,
                    self_index as int,
                    pos_from,
                    q,
                ) && q.0 < x + 1 implies cost_best <= distance_field.at(q.0 as int, q.1 as int) by {
                if q.0 == x {
                    assert(y_min <= q.1 < y_max);
                }
            }
        }
        x = x + 1;
    }
    proof {
        assert forall|q: Coord|
            #[trigger] step_candidate_ok(
                *map,
                *distance_field,
                positions@,
                self_index as int,
                pos_from,
                q,
            ) implies cost_best <= distance_field.at(q.0 as int, q.1 as int) by {
            assert(q.0 < x_max && q.0 < x);
        }
        if cost_best == INFINITE_COST {
            assert forall|q: Coord|
                !#[trigger] step_candidate_ok(
                    *map,
                    *distance_field,
                    positions@,
                    self_index as int,
                    pos_from,
                    q,
                ) by {
                if step_candidate_ok(
                    *map,
                    *distance_field,
                    positions@,
                    self_index as int,
                    pos_from,
                    q,
                ) {
                    assert(cost_best <= distance_field.at(q.0 as int, q.1 as int));
                }
            }
        }
    }
    pos_best
}



/// Which dialogue pool a mode change draws from.
#[derive(Clone, Copy, Debug, PartialEq, Eq, Structural)]
pub enum LinePool {
    See,
    SeeDisguised,
    Hear,
    HearGuard,
    Chase,
    Investigate,
    EndChase,
    EndInvestigate,
    DoneLooking,
    DoneSeeingDisguised,
    DoneListening,
}

/// The fixed assignment of mode transitions to dialogue pools.
pub open spec fn spec_pool_for_state_change(mode_prev: GuardMode, mode_next: GuardMode) -> Option<
    LinePool,
> {
    if mode_next == mode_prev {
        None
    } else {
        match mode_next {
            GuardMode::Patrol => match mode_prev {
                GuardMode::Look => Some(LinePool::DoneLooking),
                GuardMode::LookAtDisguised => Some(LinePool::DoneSeeingDisguised),
                GuardMode::Listen => Some(LinePool::DoneListening),
                GuardMode::MoveToLastSound => Some(LinePool::EndInvestigate),
                GuardMode::MoveToGuardShout => Some(LinePool::EndInvestigate),
                GuardMode::MoveToLastSighting => Some(LinePool::EndChase),
                _ => None,
            },
            GuardMode::Look => Some(LinePool::See),
            GuardMode::LookAtDisguised => Some(LinePool::SeeDisguised),
            GuardMode::Listen => Some(LinePool::Hear),
            GuardMode::ChaseVisibleTarget => if mode_prev != GuardMode::MoveToLastSighting {
                Some(LinePool::Chase)
            } else {
                None
            },
            GuardMode::MoveToLastSighting => None,
            GuardMode::MoveToLastSound => Some(LinePool::Investigate),
            GuardMode::MoveToGuardShout => Some(LinePool::HearGuard),
        }
    }
}

pub fn pool_for_state_change(mode_prev: GuardMode, mode_next: GuardMode) -> (r: Option<LinePool>)
    ensures
        r == spec_pool_for_state_change(mode_prev, mode_next),
{
    if mode_next == mode_prev {
        None
    } else {
        match mode_next {
            GuardMode::Patrol => match mode_prev {
                GuardMode::Look => Some(LinePool::DoneLooking),
                GuardMode::LookAtDisguised => Some(LinePool::DoneSeeingDisguised),
                GuardMode::Listen => Some(LinePool::DoneListening),
                GuardMode::MoveToLastSound => Some(LinePool::EndInvestigate),
                GuardMode::MoveToGuardShout => Some(LinePool::EndInvestigate),
                GuardMode::MoveToLastSighting => Some(LinePool::EndChase),
                _ => None,
            },
            GuardMode::Look => Some(LinePool::See),
            GuardMode::LookAtDisguised => Some(LinePool::SeeDisguised),
            GuardMode::Listen => Some(LinePool::Hear),
            GuardMode::ChaseVisibleTarget => {
                if mode_prev != GuardMode::MoveToLastSighting {
                    Some(LinePool::Chase)
                } else {
                    None
                }
            },
            GuardMode::MoveToLastSighting => None,
            GuardMode::MoveToLastSound => Some(LinePool::Investigate),
            GuardMode::MoveToGuardShout => Some(LinePool::HearGuard),
        }
    }
}

/// Draw the next line, round robin, from the given pool.
pub fn next_line(lines: &mut Lines, pool: LinePool) -> (s: &'static str)
    requires
        old(lines).wf(),
    ensures
        final(lines).wf(),
{
    match pool {
        LinePool::See => lines.see.next(),
        LinePool::SeeDisguised => lines.see_disguised.next(),
        LinePool::Hear => lines.hear.next(),
        LinePool::HearGuard => lines.hear_guard.next(),
        LinePool::Chase => lines.chase.next(),
        LinePool::Investigate => lines.investigate.next(),
        LinePool::EndChase => lines.end_chase.next(),
        LinePool::EndInvestigate => lines.end_investigate.next(),
        LinePool::DoneLooking => lines.done_looking.next(),
        LinePool::DoneSeeingDisguised => lines.done_seeing_disguised.next(),
        LinePool::DoneListening => lines.done_listening.next(),
    }
}

impl Guard {
    /// Emit a speech popup when the player is near enough to read it.
    fn say(&mut self, popups: &mut Popups, player: &Player, see_all: bool, msg: &'static str)
        requires
            -0x8000 <= old(self).pos.0 <= 0x8000,
            -0x8000 <= old(self).pos.1 <= 0x8000,
            -0x8000 <= player.pos.0 <= 0x8000,
            -0x8000 <= player.pos.1 <= 0x8000,
        ensures
            *final(self) == (Guard { speaking: true, ..*old(self) }),
    {
        let dx = self.pos.0 - player.pos.0;
        let dy = self.pos.1 - player.pos.1;
        proof {
            assert(0 <= (dx as int) * (dx as int) <= 0x1_0000_0000 && 0 <= (dy as int) * (
            dy as int) <= 0x1_0000_0000) by (nonlinear_arith)
                requires
                    -0x10000 <= dx <= 0x10000,
                    -0x10000 <= dy <= 0x10000,
            ;
        }
        let dist_squared = (dx as i64) * (dx as i64) + (dy as i64) * (dy as i64);
        if dist_squared < 200 || see_all {
            popups.guard_speech(self.pos, msg);
        }
        self.speaking = true;
    }

    /// The full perception model, as one definition: a target strictly
    /// behind the guard (the dot product of facing and direction-to-target
    /// negative) is never perceived, nor is one at or beyond the mode's
    /// squared-distance cutoff; within those, an unhidden target with a
    /// clear line of sight is perceived, and an alerted (non-patrolling)
    /// guard additionally perceives any adjacent target.
    pub open spec fn spec_sees_thief(
        self,
        map: LevelMap,
        player: Player,
        player_hidden: bool,
    ) -> bool {
        let d0 = player.pos.0 - self.pos.0;
        let d1 = player.pos.1 - self.pos.1;
        let dot = self.dir.0 * d0 + self.dir.1 * d1;
        let thief_disguised = player.disguised && self.mode != GuardMode::ChaseVisibleTarget;
        let lit = !thief_disguised && map.cell_at(player.pos).lit;
        let d2 = d0 * d0 + d1 * d1;
        if dot < 0 {
            false
        } else if d2 >= spec_sight_cutoff(self.mode, lit) {
            false
        } else if !player_hidden && spec_line_of_sight(map, self.pos, player.pos) {
            true
        } else if self.mode != GuardMode::Patrol && spec_adjacent(self.pos, player.pos) {
            true
        } else {
            false
        }
    }

    /// The guard's sight sense; in particular a target behind the guard is
    /// never perceived, for any distance.
    pub fn sees_thief(&self, map: &LevelMap, player: &Player, player_hidden: bool) -> (r: bool)
        requires
            map.wf(),
            self.wf(map.size_x(), map.size_y(), map.patrol_regions.len() as int),
            map.in_bounds(player.pos),
        ensures
            r == self.spec_sees_thief(*map, *player, player_hidden),
            ({
                let d0 = player.pos.0 - self.pos.0;
                let d1 = player.pos.1 - self.pos.1;
                let dot = self.dir.0 * d0 + self.dir.1 * d1;
                dot < 0 ==> !r
            }),
    {
        let dx = player.pos.0 - self.pos.0;
        let dy = player.pos.1 - self.pos.1;
        proof {
            assert((-0x8000 <= (self.dir.0 as int) * (dx as int) <= 0x8000) && (-0x8000 <= (
            self.dir.1 as int) * (dy as int) <= 0x8000) && (0 <= (dx as int) * (dx as int)
                <= 0x1000_0000) && (0 <= (dy as int) * (dy as int) <= 0x1000_0000))
                by (nonlinear_arith)
                requires
                    -1 <= self.dir.0 <= 1,
                    -1 <= self.dir.1 <= 1,
                    -0x4000 <= dx <= 0x4000,
                    -0x4000 <= dy <= 0x4000,
            ;
        }
        let dot = self.dir.0 * dx + self.dir.1 * dy;
        if dot < 0 {
            return false;
        }

        let thief_disguised = player.disguised && self.mode != GuardMode::ChaseVisibleTarget;
        let player_is_lit = !thief_disguised && map.cells.get(
            player.pos.0 as usize,
            player.pos.1 as usize,
        ).lit;

        let d2 = dx * dx + dy * dy;
        if d2 >= self.sight_cutoff(player_is_lit) {
            return false;
        }

        if !player_hidden && line_of_sight(map, self.pos, player.pos) {
            return true;
        }

        if self.mode != GuardMode::Patrol && -1 <= dx && dx <= 1 && -1 <= dy && dy <= 1 {
            return true;
        }

        false
    }

    /// One patrol-mode step: walk toward the goal region, pick a fresh
    /// neighbor region on arrival, and start a chase on bumping into an
    /// undisguised player.
    fn patrol_step(
        &mut self,
        map: &LevelMap,
        player: &Player,
        random: &mut Rng,
        positions: &Vec<Coord>,
        self_index: usize,
    )
        requires
            map.wf(),
            old(self).wf(map.size_x(), map.size_y(), map.patrol_regions.len() as int),
            map.in_bounds(player.pos),
        ensures
            final(self).wf(map.size_x(), map.size_y(), map.patrol_regions.len() as int),
            spec_adjacent(old(self).pos, final(self).pos),
            !spec_adjacent(old(self).pos, player.pos) ==> final(self).mode == old(self).mode,
    {
        let bumped_thief = self.move_toward_region(map, player, positions, self_index);

        if map.cells.get(self.pos.0 as usize, self.pos.1 as usize).region == self.region_goal {
            let region_prev = self.region_prev;
            self.region_prev = self.region_goal;
            self.region_goal = map.random_neighbor_region(random, self.region_goal, region_prev);
        }

        if bumped_thief && !player.disguised {
            self.mode = GuardMode::ChaseVisibleTarget;
            self.goal = player.pos;
            let aim = Coord(self.goal.0 - self.pos.0, self.goal.1 - self.pos.1);
            self.dir = update_dir(self.dir, aim);
        }
    }

    /// The direction a freshly placed guard should face: toward the first
    /// step of its patrol.
    pub fn initial_dir(&self, map: &LevelMap) -> (r: Coord)
        requires
            map.wf(),
            self.wf(map.size_x(), map.size_y(), map.patrol_regions.len() as int),
        ensures
            -1 <= r.0 <= 1 && -1 <= r.1 <= 1,
    {
        if self.region_goal == INVALID_REGION {
            return self.dir;
        }
        let distance_field = map.compute_distances_to_region(self.region_goal);
        let empty: Vec<Coord> = Vec::new();
        let pos_next = pos_next_best(map, &distance_field, self.pos, &empty, 0);
        update_dir(self.dir, Coord(pos_next.0 - self.pos.0, pos_next.1 - self.pos.1))
    }

    /// Walk one step toward the goal region; true when the step would land
    /// on the player (a bump), in which case the guard stays put.
    fn move_toward_region(
        &mut self,
        map: &LevelMap,
        player: &Player,
        positions: &Vec<Coord>,
        self_index: usize,
    ) -> (bumped: bool)
        requires
            map.wf(),
            old(self).wf(map.size_x(), map.size_y(), map.patrol_regions.len() as int),
            map.in_bounds(player.pos),
        ensures
            final(self).wf(map.size_x(), map.size_y(), map.patrol_regions.len() as int),
            final(self).mode == old(self).mode,
            spec_adjacent(old(self).pos, final(self).pos),
            bumped ==> spec_adjacent(old(self).pos, player.pos) && final(self).pos == old(self).pos,
    {
        if self.region_goal == INVALID_REGION {
            return false;
        }
        let distance_field = map.compute_distances_to_region(self.region_goal);
        let pos_next = pos_next_best(map, &distance_field, self.pos, positions, self_index);
        if player.pos == pos_next {
            return true;
        }
        self.dir = update_dir(self.dir, Coord(pos_next.0 - self.pos.0, pos_next.1 - self.pos.1));
        self.pos = pos_next;
        false
    }

    /// Walk one step toward `goal`; true when the guard actually moved.
    fn move_toward_goal(
        &mut self,
        map: &LevelMap,
        player: &Player,
        positions: &Vec<Coord>,
        self_index: usize,
    ) -> (moved: bool)
        requires
            map.wf(),
            old(self).wf(map.size_x(), map.size_y(), map.patrol_regions.len() as int),
            map.in_bounds(player.pos),
        ensures
            final(self).wf(map.size_x(), map.size_y(), map.patrol_regions.len() as int),
            final(self).mode == old(self).mode,
            final(self).goal == old(self).goal,
            final(self).mode_timeout == old(self).mode_timeout,
    {
        let dist_field = map.compute_distances_to_position(self.goal);
        let pos_next = pos_next_best(map, &dist_field, self.pos, positions, self_index);
        if pos_next == self.pos {
            return false;
        }
        self.dir = update_dir(self.dir, Coord(pos_next.0 - self.pos.0, pos_next.1 - self.pos.1));
        if player.pos == pos_next {
            return false;
        }
        self.pos = pos_next;
        true
    }

    /// Re-seed the patrol goal region after an investigation ended or the
    /// guard was placed: a guard that still has a goal and stands in the
    /// region it came from keeps its plan; one outside all regions heads
    /// for the nearest; otherwise a random neighbor of the current region
    /// becomes the goal and the current region is remembered.
    pub fn setup_goal_region(&mut self, random: &mut Rng, map: &LevelMap)
        requires
            map.wf(),
            old(self).wf(map.size_x(), map.size_y(), map.patrol_regions.len() as int),
        ensures
            final(self).wf(map.size_x(), map.size_y(), map.patrol_regions.len() as int),
            ({
                let region_cur = map.cell_at(old(self).pos).region;
                &&& (old(self).region_goal != INVALID_REGION && region_cur == old(self).region_prev) ==> *final(self) == *old(self)
                &&& (!(old(self).region_goal != INVALID_REGION && region_cur == old(self).region_prev) && region_cur == INVALID_REGION) ==> (*final(self) == (Guard {
                    region_goal: final(self).region_goal,
                    ..*old(self)
                }) && (map.cell_at(old(self).pos).region != INVALID_REGION ==> final(self).region_goal == map.cell_at(old(self).pos).region))
                &&& (!(old(self).region_goal != INVALID_REGION && region_cur == old(self).region_prev) && region_cur != INVALID_REGION) ==> *final(self) == (Guard {
                    region_goal: final(self).region_goal,
                    region_prev: region_cur,
                    ..*old(self)
                })
            }),
    {
        let region_cur = map.cells.get(self.pos.0 as usize, self.pos.1 as usize).region;

        if self.region_goal != INVALID_REGION && region_cur == self.region_prev {
            return;
        }

        if region_cur == INVALID_REGION {
            self.region_goal = map.closest_region(self.pos);
        } else {
            self.region_goal = map.random_neighbor_region(random, region_cur, self.region_prev);
            self.region_prev = region_cur;
        }
    }
}


/// At least fifteen tiles apart along some axis: far enough that no sight
/// cutoff can be met from `a`, nor from any cell one step away from `a`.
pub open spec fn far_apart(a: Coord, b: Coord) -> bool {
    ||| b.0 - a.0 >= 15
    ||| b.0 - a.0 <= -15
    ||| b.1 - a.1 >= 15
    ||| b.1 - a.1 <= -15
}

/// Farther than every sight cutoff: a guard within one step of `a` cannot
/// meet any squared-distance cutoff against a target at `b`.
proof fn lemma_far_apart_beyond_cutoffs(a: Coord, b: Coord, g: Coord)
    requires
        far_apart(a, b),
        spec_adjacent(a, g),
    ensures
        (b.0 - g.0) * (b.0 - g.0) + (b.1 - g.1) * (b.1 - g.1) >= 196,
{
    let d0 = b.0 - g.0;
    let d1 = b.1 - g.1;
    assert(d0 >= 14 || d0 <= -14 || d1 >= 14 || d1 <= -14);
    assert(d0 * d0 >= 0 && d1 * d1 >= 0 && ((d0 >= 14 || d0 <= -14) ==> d0 * d0 >= 196) && ((d1
        >= 14 || d1 <= -14) ==> d1 * d1 >= 196)) by (nonlinear_arith);
}

impl Guard {
    /// The sight step of a guard's turn: a perceived target forces Look,
    /// LookAtDisguised or ChaseVisibleTarget, and a chaser that lost sight
    /// falls back to MoveToLastSighting. `turn_after` selects where the
    /// facing update happens (after moving, the guard always turns toward
    /// the target it perceives).
    fn sense_sight(
        &mut self,
        random: &mut Rng,
        player: &Player,
        map: &LevelMap,
        player_hidden: bool,
        turn_after: bool,
    )
        requires
            map.wf(),
            old(self).wf(map.size_x(), map.size_y(), map.patrol_regions.len() as int),
            map.in_bounds(player.pos),
        ensures
            final(self).wf(map.size_x(), map.size_y(), map.patrol_regions.len() as int),
            (!old(self).spec_sees_thief(*map, *player, player_hidden) && old(self).mode
                != GuardMode::ChaseVisibleTarget) ==> *final(self) == *old(self),
            (old(self).spec_sees_thief(*map, *player, player_hidden) && old(self).mode
                == GuardMode::ChaseVisibleTarget && !turn_after) ==> *final(self) == (Guard {
                goal: player.pos,
                ..*old(self)
            }),
            (old(self).mode == GuardMode::ChaseVisibleTarget && !old(self).spec_sees_thief(
                *map,
                *player,
                player_hidden,
            )) ==> *final(self) == (Guard {
                mode: GuardMode::MoveToLastSighting,
                mode_timeout: 3,
                goal: player.pos,
                ..*old(self)
            }),
            (old(self).mode == GuardMode::Patrol && old(self).spec_sees_thief(
                *map,
                *player,
                player_hidden,
            ) && (player.disguised || !spec_adjacent(old(self).pos, player.pos)) && !turn_after)
                ==> ({
                &&& *final(self) == (Guard {
                    mode: final(self).mode,
                    mode_timeout: final(self).mode_timeout,
                    dir: final(self).dir,
                    goal: player.pos,
                    ..*old(self)
                })
                &&& final(self).mode == (if player.disguised {
                    GuardMode::LookAtDisguised
                } else {
                    GuardMode::Look
                })
                &&& 3 <= final(self).mode_timeout < 6
            }),
            (old(self).spec_sees_thief(*map, *player, player_hidden) && !(old(self).mode
                == GuardMode::Patrol && (player.disguised || !spec_adjacent(
                old(self).pos,
                player.pos,
            ))) && !turn_after) ==> *final(self) == (Guard {
                mode: GuardMode::ChaseVisibleTarget,
                goal: player.pos,
                ..*old(self)
            }),
            (old(self).spec_sees_thief(*map, *player, player_hidden) && !(old(self).mode
                == GuardMode::Patrol && (player.disguised || !spec_adjacent(
                old(self).pos,
                player.pos,
            ))) && turn_after) ==> *final(self) == (Guard {
                mode: GuardMode::ChaseVisibleTarget,
                goal: player.pos,
                dir: final(self).dir,
                ..*old(self)
            }),
    {
        if self.sees_thief(map, player, player_hidden) {
            self.goal = player.pos;
            let aim = Coord(player.pos.0 - self.pos.0, player.pos.1 - self.pos.1);
            if self.mode == GuardMode::Patrol && (player.disguised || !self.adjacent_to(
                player.pos,
            )) {
                self.mode = if player.disguised {
                    GuardMode::LookAtDisguised
                } else {
                    GuardMode::Look
                };
                self.mode_timeout = random.range(3, 6);
                if !turn_after {
                    self.dir = update_dir(self.dir, aim);
                }
            } else {
                self.mode = GuardMode::ChaseVisibleTarget;
            }
            if turn_after {
                self.dir = update_dir(self.dir, aim);
            }
        } else if self.mode == GuardMode::ChaseVisibleTarget {
            self.mode = GuardMode::MoveToLastSighting;
            self.mode_timeout = 3;
            self.goal = player.pos;
        }
    }

    /// The hearing step: a received guard shout or heard thief noise sets
    /// an investigation mode, unless the guard is already chasing. A noise
    /// right next to the guard starts a chase outright.
    fn sense_sounds(&mut self, random: &mut Rng, player: &Player, map: &LevelMap)
        requires
            map.wf(),
            old(self).wf(map.size_x(), map.size_y(), map.patrol_regions.len() as int),
            map.in_bounds(player.pos),
        ensures
            final(self).wf(map.size_x(), map.size_y(), map.patrol_regions.len() as int),
            (!old(self).heard_guard && !old(self).heard_thief) ==> *final(self) == *old(self),
            old(self).mode == GuardMode::ChaseVisibleTarget ==> *final(self) == *old(self),
    {
        if self.mode != GuardMode::ChaseVisibleTarget {
            if self.heard_guard {
                self.mode = GuardMode::MoveToGuardShout;
                self.mode_timeout = random.range(2, 6);
                self.goal = self.heard_guard_pos;
            }

            if self.heard_thief {
                if self.adjacent_to(player.pos) {
                    self.mode = GuardMode::ChaseVisibleTarget;
                    self.goal = player.pos;
                } else if self.mode == GuardMode::Patrol {
                    self.mode = GuardMode::Listen;
                    self.mode_timeout = random.range(3, 6);
                    let aim = Coord(player.pos.0 - self.pos.0, player.pos.1 - self.pos.1);
                    self.dir = update_dir(self.dir, aim);
                } else {
                    self.mode = GuardMode::MoveToLastSound;
                    self.mode_timeout = random.range(3, 6);
                    self.goal = player.pos;
                }
            }
        }
    }

    /// Pass one turn in the current mode: patrol, wait out a timer, chase
    /// (attacking an adjacent target at one point of damage per turn), or
    /// walk toward an investigation goal.
    fn execute_mode(
        &mut self,
        mode_prev: GuardMode,
        random: &mut Rng,
        popups: &mut Popups,
        lines: &mut Lines,
        player: &mut Player,
        map: &LevelMap,
        positions: &Vec<Coord>,
        self_index: usize,
    )
        requires
            map.wf(),
            old(self).wf(map.size_x(), map.size_y(), map.patrol_regions.len() as int),
            map.in_bounds(old(player).pos),
            old(lines).wf(),
        ensures
            final(self).wf(map.size_x(), map.size_y(), map.patrol_regions.len() as int),
            final(lines).wf(),
            *final(player) == (Player {
                health: final(player).health,
                damaged_last_turn: final(player).damaged_last_turn,
                ..*old(player)
            }),
            final(player).health <= old(player).health,
            old(player).damaged_last_turn ==> final(player).damaged_last_turn,
            (old(self).mode == GuardMode::Patrol && !spec_adjacent(
                old(self).pos,
                old(player).pos,
            )) ==> (final(self).mode == GuardMode::Patrol && spec_adjacent(
                old(self).pos,
                final(self).pos,
            )),
            (old(self).mode == GuardMode::ChaseVisibleTarget && mode_prev
                == GuardMode::ChaseVisibleTarget && spec_adjacent(old(self).pos, old(player).pos))
                ==> (final(player).health == if old(player).health >= 1 {
                (old(player).health - 1) as usize
            } else {
                0usize
            } && final(self).pos == old(self).pos && final(player).damaged_last_turn),
            old(self).mode == GuardMode::ChaseVisibleTarget ==> (final(self).mode
                == GuardMode::ChaseVisibleTarget && final(self).goal == old(self).goal),
            ((old(self).mode == GuardMode::Look || old(self).mode == GuardMode::LookAtDisguised
                || old(self).mode == GuardMode::Listen) && old(self).mode_timeout >= 2) ==> (
            *final(self) == (Guard {
                mode_timeout: (old(self).mode_timeout - 1) as usize,
                ..*old(self)
            }) && *final(player) == *old(player)),
            ((old(self).mode == GuardMode::MoveToLastSighting || old(self).mode
                == GuardMode::MoveToLastSound || old(self).mode == GuardMode::MoveToGuardShout)
                && old(self).mode_timeout >= 2) ==> (final(self).mode == old(self).mode
                && final(self).goal == old(self).goal && *final(player) == *old(player)),
    {
        match self.mode {
            GuardMode::Patrol => {
                self.patrol_step(map, player, random, positions, self_index);
            },
            GuardMode::Look | GuardMode::LookAtDisguised | GuardMode::Listen => {
                if self.mode_timeout > 0 {
                    self.mode_timeout = self.mode_timeout - 1;
                }
                if self.mode_timeout == 0 {
                    self.mode = GuardMode::Patrol;
                }
            },
            GuardMode::ChaseVisibleTarget => {
                if self.adjacent_to(player.pos) {
                    let aim = Coord(self.goal.0 - self.pos.0, self.goal.1 - self.pos.1);
                    self.dir = update_dir(self.dir, aim);
                    if mode_prev == GuardMode::ChaseVisibleTarget {
                        if !player.damaged_last_turn {
                            let msg = lines.damage.next();
                            popups.damage(self.pos, msg);
                        }
                        player.apply_damage(1);
                    }
                } else {
                    self.move_toward_goal(map, player, positions, self_index);
                }
            },
            GuardMode::MoveToLastSighting
            | GuardMode::MoveToLastSound
            | GuardMode::MoveToGuardShout => {
                if !self.move_toward_goal(map, player, positions, self_index) {
                    if self.mode_timeout > 0 {
                        self.mode_timeout = self.mode_timeout - 1;
                    }
                }
                if self.mode_timeout == 0 {
                    self.mode = GuardMode::Patrol;
                    self.setup_goal_region(random, map);
                }
            },
        }
    }

    /// One guard's turn: sense, transition, move or attack, re-sense after
    /// moving, speak on a state change, and shout on entering a chase.
    /// The player is touched only to apply at most one point of damage.
    pub fn act(
        &mut self,
        random: &mut Rng,
        see_all: bool,
        popups: &mut Popups,
        lines: &mut Lines,
        player: &mut Player,
        map: &LevelMap,
        positions: &Vec<Coord>,
        self_index: usize,
        player_hidden: bool,
        shouts: &mut Vec<Shout>,
    )
        requires
            map.wf(),
            old(self).wf(map.size_x(), map.size_y(), map.patrol_regions.len() as int),
            map.in_bounds(old(player).pos),
            old(lines).wf(),
        ensures
            final(self).wf(map.size_x(), map.size_y(), map.patrol_regions.len() as int),
            final(lines).wf(),
            *final(player) == (Player {
                health: final(player).health,
                damaged_last_turn: final(player).damaged_last_turn,
                ..*old(player)
            }),
            final(player).health <= old(player).health,
            old(player).damaged_last_turn ==> final(player).damaged_last_turn,
            final(shouts)@.len() >= old(shouts)@.len(),
            forall|k: int| 0 <= k < old(shouts)@.len() ==> final(shouts)@[k] == old(shouts)@[k],
            forall|k: int|
                old(shouts)@.len() <= k < final(shouts)@.len() ==> map.in_bounds(
                    (#[trigger] final(shouts)@[k]).pos_shouter,
                ) && map.in_bounds(final(shouts)@[k].pos_target),
            (old(self).mode == GuardMode::Patrol && !old(self).heard_thief && !old(self).heard_guard && far_apart(old(self).pos, old(player).pos)) ==> final(self).mode
                == GuardMode::Patrol,
            (old(self).mode == GuardMode::ChaseVisibleTarget && old(self).spec_sees_thief(
                *map,
                *old(player),
                player_hidden,
            ) && spec_adjacent(old(self).pos, old(player).pos)) ==> (final(player).health == (
            if old(player).health >= 1 {
                (old(player).health - 1) as usize
            } else {
                0usize
            }) && final(player).damaged_last_turn && final(self).pos == old(self).pos
                && final(self).mode == GuardMode::ChaseVisibleTarget),
            final(shouts)@.len() == old(shouts)@.len() + (
            if final(self).mode == GuardMode::ChaseVisibleTarget && old(self).mode
                != GuardMode::ChaseVisibleTarget {
                1int
            } else {
                0int
            }),
            (final(self).mode == GuardMode::ChaseVisibleTarget && old(self).mode
                != GuardMode::ChaseVisibleTarget) ==> final(shouts)@.last() == (Shout {
                pos_shouter: final(self).pos,
                pos_target: final(player).pos,
            }),
            (old(self).mode == GuardMode::Patrol && old(self).spec_sees_thief(
                *map,
                *old(player),
                player_hidden,
            ) && (old(player).disguised || !spec_adjacent(old(self).pos, old(player).pos)) && !old(self).heard_guard && !old(self).heard_thief) ==> (final(self).mode == (
            if old(player).disguised {
                GuardMode::LookAtDisguised
            } else {
                GuardMode::Look
            }) && final(self).goal == old(player).pos && final(self).pos == old(self).pos),
            (old(self).spec_sees_thief(*map, *old(player), player_hidden) && !(old(self).mode
                == GuardMode::Patrol && (old(player).disguised || !spec_adjacent(
                old(self).pos,
                old(player).pos,
            )))) ==> ((final(self).mode == GuardMode::ChaseVisibleTarget || final(self).mode
                == GuardMode::MoveToLastSighting) && final(self).goal == old(player).pos),
            (old(self).mode == GuardMode::ChaseVisibleTarget && !old(self).spec_sees_thief(
                *map,
                *old(player),
                player_hidden,
            ) && !old(self).heard_guard && !old(self).heard_thief) ==> ((final(self).mode
                == GuardMode::MoveToLastSighting || final(self).mode
                == GuardMode::ChaseVisibleTarget) && final(self).goal == old(player).pos),
    {
        let ghost quiet = self.mode == GuardMode::Patrol && !self.heard_thief
            && !self.heard_guard && far_apart(self.pos, player.pos);
        let mode_prev = self.mode;
        let pos_prev = self.pos;

        // Sight, then hearing, may force a new mode.
        proof {
            if quiet {
                lemma_far_apart_beyond_cutoffs(self.pos, player.pos, self.pos);
                assert(!self.spec_sees_thief(*map, *player, player_hidden));
            }
        }
        self.sense_sight(random, player, map, player_hidden, false);
        self.sense_sounds(random, player, map);

        // Pass time in the current mode.
        self.execute_mode(mode_prev, random, popups, lines, player, map, positions, self_index);
        proof {
            if quiet {
                assert(self.mode == GuardMode::Patrol && spec_adjacent(pos_prev, self.pos));
            }
        }

        // A guard that moved may have gained or lost sight of the target.
        if self.pos != pos_prev {
            proof {
                if quiet {
                    lemma_far_apart_beyond_cutoffs(pos_prev, player.pos, self.pos);
                    assert(!self.spec_sees_thief(*map, *player, player_hidden));
                }
            }
            self.sense_sight(random, player, map, player_hidden, true);
        }

        self.heard_thief = false;

        // Speak on a state change.
        if let Some(pool) = pool_for_state_change(mode_prev, self.mode) {
            let msg = next_line(lines, pool);
            self.say(popups, player, see_all, msg);
        }

        // A fresh chase alerts the other guards.
        if self.mode == GuardMode::ChaseVisibleTarget && mode_prev
            != GuardMode::ChaseVisibleTarget {
            shouts.push(Shout { pos_shouter: self.pos, pos_target: player.pos });
        }
    }
}

/// Deliver one shout: exactly the guards a sound path from the shouter
/// reaches, other than one standing on the shouter's own cell, receive the
/// reported target position.
fn alert_nearby_guards(map: &mut LevelMap, shout: &Shout)
    requires
        old(map).wf(),
        old(map).in_bounds(shout.pos_shouter),
        old(map).in_bounds(shout.pos_target),
    ensures
        final(map).wf(),
        *final(map) == (LevelMap { guards: final(map).guards, ..*old(map) }),
        final(map).guards.len() == old(map).guards.len(),
        forall|g: int|
            0 <= g < old(map).guards.len() ==> #[trigger] final(map).guards[g] == (
            if spec_in_earshot(*old(map), shout.pos_shouter, 150, old(map).guards[g].pos) && old(
                map,
            ).guards[g].pos != shout.pos_shouter {
                Guard {
                    hearing_guard: true,
                    heard_guard_pos: shout.pos_target,
                    ..old(map).guards[g]
                }
            } else {
                old(map).guards[g]
            }),
{
    let indices = map.guards_in_earshot(shout.pos_shouter, 150);
    let n = indices.len();
    let mut i: usize = 0;
    while i < n
        invariant
            map.wf(),
            i <= n,
            n == indices.len(),
            map.guards.len() == old(map).guards.len(),
            forall|k: int| 0 <= k < indices.len() ==> (#[trigger] indices[k]) < old(map).guards.len(),
            forall|a: int, b: int| 0 <= a < b < indices.len() ==> indices[a] < indices[b],
            *map == (LevelMap { guards: map.guards, ..*old(map) }),
            map.in_bounds(shout.pos_target),
            forall|g: int|
                0 <= g < old(map).guards.len() ==> #[trigger] map.guards[g] == (
                if (exists|k: int| 0 <= k < i && (#[trigger] indices[k]) as int == g) && old(
                    map,
                ).guards[g].pos != shout.pos_shouter {
                    Guard {
                        hearing_guard: true,
                        heard_guard_pos: shout.pos_target,
                        ..old(map).guards[g]
                    }
                } else {
                    old(map).guards[g]
                }),
        decreases n - i,
    {
        let idx = indices[i];
        proof {
            assert(!(exists|k: int| 0 <= k < i && (#[trigger] indices[k]) as int == idx as int));
        }
        if map.guards[idx].pos != shout.pos_shouter {
            let mut g = map.guards[idx];
            g.hear_guard(shout.pos_target);
            map.guards.set(idx, g);
            proof {
                assert forall|j: int|
                    0 <= j < map.guards.len() implies (#[trigger] map.guards[j]).wf(
                    map.size_x(),
                    map.size_y(),
                    map.patrol_regions.len() as int,
                ) by {}
            }
        }
        proof {
            assert(exists|k: int| 0 <= k < i + 1 && (#[trigger] indices[k]) as int == idx as int);
        }
        i = i + 1;
    }
    proof {
        assert forall|g: int| 0 <= g < old(map).guards.len() implies #[trigger] map.guards[g] == (
        if spec_in_earshot(*old(map), shout.pos_shouter, 150, old(map).guards[g].pos) && old(
            map,
        ).guards[g].pos != shout.pos_shouter {
            Guard { hearing_guard: true, heard_guard_pos: shout.pos_target, ..old(map).guards[g] }
        } else {
            old(map).guards[g]
        }) by {
            if contains_idx(indices@, g) {
                let k = choose|k: int|
                    0 <= k < indices@.len() && (#[trigger] indices@[k]) as int == g;
                assert(exists|k2: int| 0 <= k2 < n && (#[trigger] indices[k2]) as int == g);
            }
            if exists|k: int| 0 <= k < n && (#[trigger] indices[k]) as int == g {
                let k = choose|k: int| 0 <= k < n && (#[trigger] indices[k]) as int == g;
                assert(contains_idx(indices@, g));
            }
        }
    }
}

/// Run every guard's turn, in a fixed order, against the pre-turn snapshot
/// of the other guards' positions and modes; then deliver all shouts in a
/// separate pass, so a shout never affects the shouter's own turn and all
/// recipients see the same shout list. Only the guard list and the player's
/// health can change.
pub fn guard_act_all(
    random: &mut Rng,
    see_all: bool,
    popups: &mut Popups,
    lines: &mut Lines,
    map: &mut LevelMap,
    player: &mut Player,
)
    requires
        old(map).wf(),
        old(map).in_bounds(old(player).pos),
        old(lines).wf(),
    ensures
        final(map).wf(),
        *final(map) == (LevelMap { guards: final(map).guards, ..*old(map) }),
        final(lines).wf(),
        *final(player) == (Player {
            health: final(player).health,
            damaged_last_turn: final(player).damaged_last_turn,
            ..*old(player)
        }),
        final(player).health <= old(player).health,
        old(player).damaged_last_turn ==> final(player).damaged_last_turn,
        final(map).guards.len() == old(map).guards.len(),
{
    // Latch shouts heard last turn and clear per-turn flags.
    let n = map.guards.len();
    let mut i: usize = 0;
    while i < n
        invariant
            map.wf(),
            n == map.guards.len(),
            *map == (LevelMap { guards: map.guards, ..*old(map) }),
        decreases n - i,
    {
        let mut g = map.guards[i];
        g.pre_turn();
        map.guards.set(i, g);
        proof {
            assert forall|j: int|
                0 <= j < map.guards.len() implies (#[trigger] map.guards[j]).wf(
                map.size_x(),
                map.size_y(),
                map.patrol_regions.len() as int,
            ) by {}
        }
        i = i + 1;
    }

    // Snapshot the pre-turn positions and whether anyone is chasing, so
    // every guard's update reads a consistent picture of the others.
    let mut positions: Vec<Coord> = Vec::new();
    let mut chase_count: usize = 0;
    let mut i: usize = 0;
    while i < n
        invariant
            map.wf(),
            n == map.guards.len(),
            i <= n,
            positions.len() == i,
            chase_count <= i,
        decreases n - i,
    {
        positions.push(map.guards[i].pos);
        if map.guards[i].mode == GuardMode::ChaseVisibleTarget {
            chase_count = chase_count + 1;
        }
        i = i + 1;
    }

    // Update each guard against the snapshot.
    let mut shouts: Vec<Shout> = Vec::new();
    let mut i: usize = 0;
    while i < n
        invariant
            map.wf(),
            lines.wf(),
            n == map.guards.len(),
            *map == (LevelMap { guards: map.guards, ..*old(map) }),
            map.in_bounds(player.pos),
            *player == (Player {
                health: player.health,
                damaged_last_turn: player.damaged_last_turn,
                ..*old(player)
            }),
            player.health <= old(player).health,
            old(player).damaged_last_turn ==> player.damaged_last_turn,
            forall|k: int|
                0 <= k < shouts.len() ==> map.in_bounds((#[trigger] shouts[k]).pos_shouter)
                    && map.in_bounds(shouts[k].pos_target),
            chase_count <= n,
        decreases n - i,
    {
        let mut g = map.guards[i];
        // Whether some other guard was already chasing before this turn.
        let others_chasing = if g.mode == GuardMode::ChaseVisibleTarget {
            chase_count > 1
        } else {
            chase_count > 0
        };
        let player_hidden = hidden_given(player, map, others_chasing);
        g.act(
            random,
            see_all,
            popups,
            lines,
            player,
            map,
            &positions,
            i,
            player_hidden,
            &mut shouts,
        );
        map.guards.set(i, g);
        proof {
            assert forall|j: int|
                0 <= j < map.guards.len() implies (#[trigger] map.guards[j]).wf(
                map.size_x(),
                map.size_y(),
                map.patrol_regions.len() as int,
            ) by {}
        }
        i = i + 1;
    }

    // Deliver the shouts after every guard has acted.
    let m = shouts.len();
    let mut s: usize = 0;
    while s < m
        invariant
            map.wf(),
            m == shouts.len(),
            map.guards.len() == old(map).guards.len(),
            *map == (LevelMap { guards: map.guards, ..*old(map) }),
            forall|k: int|
                0 <= k < shouts.len() ==> map.in_bounds((#[trigger] shouts[k]).pos_shouter)
                    && map.in_bounds(shouts[k].pos_target),
        decreases m - s,
    {
        alert_nearby_guards(map, &shouts[s]);
        s = s + 1;
    }
}

} // verus!
