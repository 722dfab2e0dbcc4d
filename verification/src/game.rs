//! The game session and the per-turn pipeline: the player's move or use
//! action, then every guard's turn, then the visibility recompute, then the
//! level-completion check — strictly one turn per accepted input.

use vstd::prelude::*;
use crate::cell_grid::{Cell, CellType, ItemKind, Player, is_wall_tile, make_player};
use crate::coord::Coord;
use crate::guard::{Lines, new_lines, update_dir};
use crate::guard_act::guard_act_all;
use crate::map::{LevelMap, coins_at, first_outfit_at, without_coins_at};
use crate::pathing::{contains_idx, spec_in_earshot};
use crate::guard::Guard;
use crate::random_map::generate_map;
use crate::rng::Rng;
use crate::speech_bubbles::{Popups, new_popups};
use crate::visibility::{only_seen_monotone, seen_monotone};

verus! {

/// A whole session: the deterministic random source, the current level's
/// map, the player, and the dialogue and popup state.
pub struct Game {
    pub random: Rng,
    pub level: usize,
    pub map: LevelMap,
    pub lines: Lines,
    pub popups: Popups,
    pub player: Player,
    pub finished_level: bool,
    pub see_all: bool,
}

/// The level is complete exactly when every coin is collected and every
/// cell has been seen.
pub open spec fn spec_level_complete(map: LevelMap) -> bool {
    &&& forall|i: int|
        0 <= i < map.items.len() ==> (#[trigger] map.items[i].kind) != ItemKind::Coin
    &&& forall|x: int, y: int| map.cells.in_bounds(x, y) ==> (#[trigger] map.cells.at(x, y)).seen
}

pub fn finished_level(map: &LevelMap) -> (r: bool)
    requires
        map.wf(),
    ensures
        r == spec_level_complete(*map),
{
    map.all_loot_collected() && map.all_seen()
}

impl Game {
    pub open spec fn wf(self) -> bool {
        &&& self.map.wf()
        &&& self.map.in_bounds(self.player.pos)
        &&& -1 <= self.player.dir.0 <= 1 && -1 <= self.player.dir.1 <= 1
        &&& self.lines.wf()
    }
}

/// Recompute visibility from the viewer, and from any adjacent cell the
/// viewer can see past (extending sight one step beyond walls the viewer
/// stands next to). Seen flags only ever turn on here.
pub fn update_map_visibility(map: &mut LevelMap, pos_viewer: Coord)
    requires
        old(map).wf(),
        old(map).in_bounds(pos_viewer),
    ensures
        final(map).wf(),
        only_seen_monotone(*old(map), *final(map)),
        final(map).cell_at(pos_viewer).seen,
{
    map.recompute_visibility(pos_viewer);

    let mut k: usize = 0;
    while k < 4
        invariant
            k <= 4,
            map.wf(),
            map.in_bounds(pos_viewer),
            only_seen_monotone(*old(map), *map),
            map.cell_at(pos_viewer).seen,
        decreases 4 - k,
    {
        let dir: Coord = match k {
            0 => Coord(-1, 0),
            1 => Coord(1, 0),
            2 => Coord(0, -1),
            _ => Coord(0, 1),
        };
        let pos = Coord(pos_viewer.0 + dir.0, pos_viewer.1 + dir.1);
        if map.cells.contains(pos.0, pos.1) && map.player_can_see_in_direction(pos_viewer, dir) {
            let ghost before = *map;
            map.recompute_visibility(pos);
            proof {
                lemma_seen_monotone_trans(*old(map), before, *map);
            }
        }
        k = k + 1;
    }
}

/// Monotone seen-only changes compose.
proof fn lemma_seen_monotone_trans(m0: LevelMap, m1: LevelMap, m2: LevelMap)
    requires
        only_seen_monotone(m0, m1),
        only_seen_monotone(m1, m2),
    ensures
        only_seen_monotone(m0, m2),
{
    assert forall|x: int, y: int| m2.cells.in_bounds(x, y) implies #[trigger] m2.cells.at(x, y)
        == (Cell { seen: m2.cells.at(x, y).seen, ..m0.cells.at(x, y) }) by {
        assert(m1.cells.at(x, y) == (Cell { seen: m1.cells.at(x, y).seen, ..m0.cells.at(x, y) }));
    }
    assert forall|x: int, y: int|
        m2.cells.in_bounds(x, y) && (#[trigger] m0.cells.at(x, y)).seen implies m2.cells.at(
        x,
        y,
    ).seen by {
        assert(m1.cells.at(x, y).seen);
    }
}

/// A fresh session: a generated first level, the player at its entrance,
/// visibility computed from there.
pub fn new_game(seed: u64) -> (game: Game)
    ensures
        game.wf(),
        game.level == 0,
        game.player.pos == game.map.pos_start,
        game.player.health == 5 && game.player.max_health == 5,
        game.player.gold == 0,
        !game.player.disguised && !game.player.noisy && !game.player.damaged_last_turn,
        game.player.turns_remaining_underwater == 0,
        !game.finished_level,
        !game.see_all,
        game.map.cell_at(game.player.pos).seen,
{
    let mut random = Rng::new(seed);
    let level: usize = 0;
    let mut map = generate_map(&mut random, level);
    let player = make_player(map.pos_start);
    let lines = new_lines();
    let popups = new_popups();

    update_map_visibility(&mut map, player.pos);

    Game {
        random,
        level,
        map,
        lines,
        popups,
        player,
        finished_level: false,
        see_all: false,
    }
}

/// Restart the session on a fresh first level.
pub fn restart_game(game: &mut Game)
    requires
        old(game).wf(),
    ensures
        final(game).wf(),
        !final(game).finished_level,
        final(game).level == 0,
{
    game.level = 0;
    game.map = generate_map(&mut game.random, game.level);
    game.finished_level = false;
    game.player = make_player(game.map.pos_start);
    game.popups = new_popups();

    update_map_visibility(&mut game.map, game.player.pos);
}

/// Move on to the next level: a fresh map with the player at its entrance,
/// facing south, with gold, disguise and the transient flags reset; only
/// health carries over.
pub fn advance_to_next_level(game: &mut Game)
    requires
        old(game).wf(),
    ensures
        final(game).wf(),
        !final(game).finished_level,
        old(game).level < usize::MAX ==> final(game).level == old(game).level + 1,
        final(game).player.pos == final(game).map.pos_start,
        final(game).player.gold == 0,
        !final(game).player.disguised,
        final(game).player.health == old(game).player.health,
{
    if game.level < usize::MAX {
        game.level = game.level + 1;
    }
    game.map = generate_map(&mut game.random, game.level);
    game.finished_level = false;

    game.player.pos = game.map.pos_start;
    game.player.dir = Coord(0, -1);
    game.player.gold = 0;
    game.player.noisy = false;
    game.player.disguised = false;
    game.player.damaged_last_turn = false;
    game.player.turns_remaining_underwater = 0;

    update_map_visibility(&mut game.map, game.player.pos);
}

/// Whether the player is on the level's grid.
pub fn on_level(map: &LevelMap, pos: Coord) -> (r: bool)
    requires
        map.wf(),
    ensures
        r == map.in_bounds(pos),
{
    map.cells.contains(pos.0, pos.1)
}

/// Whether the step from `pos_old` to `pos_new` is refused: off the level,
/// into a wall, against a one-way window's direction, or into a guard or
/// an outfit stand. Staying put is never blocked.
pub open spec fn spec_blocked(map: LevelMap, pos_old: Coord, pos_new: Coord) -> bool {
    if !map.in_bounds(pos_new) {
        true
    } else if pos_old == pos_new {
        false
    } else {
        let t = map.cell_at(pos_new).cell_type;
        ||| is_wall_tile(t)
        ||| (t == CellType::OneWayWindowE && pos_new.0 <= pos_old.0)
        ||| (t == CellType::OneWayWindowW && pos_new.0 >= pos_old.0)
        ||| (t == CellType::OneWayWindowN && pos_new.1 <= pos_old.1)
        ||| (t == CellType::OneWayWindowS && pos_new.1 >= pos_old.1)
        ||| (exists|i: int| 0 <= i < map.guards.len() && (#[trigger] map.guards[i]).pos == pos_new)
        ||| (exists|i: int|
            0 <= i < map.items.len() && crate::cell_grid::is_outfit(
                (#[trigger] map.items[i]).kind,
            ) && map.items[i].pos == pos_new)
    }
}

pub fn blocked(map: &LevelMap, pos_old: Coord, pos_new: Coord) -> (r: bool)
    requires
        map.wf(),
    ensures
        r == spec_blocked(*map, pos_old, pos_new),
{
    if !on_level(map, pos_new) {
        return true;
    }
    if pos_old == pos_new {
        return false;
    }

    let tile_type = map.cells.get(pos_new.0 as usize, pos_new.1 as usize).cell_type;
    let tile = crate::cell_grid::tile_def(tile_type);

    if tile.blocks_player {
        return true;
    }
    if tile_type == CellType::OneWayWindowE && pos_new.0 <= pos_old.0 {
        return true;
    }
    if tile_type == CellType::OneWayWindowW && pos_new.0 >= pos_old.0 {
        return true;
    }
    if tile_type == CellType::OneWayWindowN && pos_new.1 <= pos_old.1 {
        return true;
    }
    if tile_type == CellType::OneWayWindowS && pos_new.1 >= pos_old.1 {
        return true;
    }
    if map.is_guard_at(pos_new) {
        return true;
    }
    if map.is_outfit_at(pos_new) {
        return true;
    }
    false
}

/// Whether a diagonal slide must stop at `pos` instead of gliding past: a
/// guard or an outfit stand occupies it.
pub fn halts_slide(map: &LevelMap, pos: Coord) -> (r: bool)
    requires
        map.wf(),
    ensures
        r == (map.in_bounds(pos) && ((exists|i: int|
            0 <= i < map.guards.len() && (#[trigger] map.guards[i]).pos == pos) || (exists|i: int|
            0 <= i < map.items.len() && crate::cell_grid::is_outfit(
                (#[trigger] map.items[i]).kind,
            ) && map.items[i].pos == pos))),
{
    if !on_level(map, pos) {
        return false;
    }
    if map.is_guard_at(pos) {
        return true;
    }
    if map.is_outfit_at(pos) {
        return true;
    }
    false
}

/// Start-of-turn cleanup: popups cleared, transient player flags reset.
pub fn pre_turn(game: &mut Game)
    requires
        old(game).wf(),
    ensures
        final(game).wf(),
        *final(game) == (Game {
            popups: final(game).popups,
            player: final(game).player,
            ..*old(game)
        }),
        final(game).player == (Player {
            noisy: false,
            damaged_last_turn: false,
            ..old(game).player
        }),
{
    game.popups.clear();
    game.player.noisy = false;
    game.player.damaged_last_turn = false;
}

/// Emit a noise at the player's position: exactly the guards a sound path
/// from the player reaches are alerted.
pub fn make_noise(map: &mut LevelMap, player: &mut Player, popups: &mut Popups, noise:
    &'static str)
    requires
        old(map).wf(),
        old(map).in_bounds(old(player).pos),
    ensures
        final(map).wf(),
        *final(map) == (LevelMap { guards: final(map).guards, ..*old(map) }),
        *final(player) == (Player { noisy: true, ..*old(player) }),
        final(map).guards.len() == old(map).guards.len(),
        forall|g: int|
            0 <= g < old(map).guards.len() ==> #[trigger] final(map).guards[g] == (
            if spec_in_earshot(*old(map), old(player).pos, 75, old(map).guards[g].pos) {
                Guard { heard_thief: true, ..old(map).guards[g] }
            } else {
                old(map).guards[g]
            }),
{
    player.noisy = true;
    popups.noise(player.pos, noise);

    let indices = map.guards_in_earshot(player.pos, 75);
    let n = indices.len();
    let mut i: usize = 0;
    while i < n
        invariant
            map.wf(),
            i <= n,
            n == indices.len(),
            forall|k: int| 0 <= k < indices.len() ==> (#[trigger] indices[k]) < old(map).guards.len(),
            forall|a: int, b: int| 0 <= a < b < indices.len() ==> indices[a] < indices[b],
            map.guards.len() == old(map).guards.len(),
            *map == (LevelMap { guards: map.guards, ..*old(map) }),
            forall|g: int|
                0 <= g < old(map).guards.len() ==> #[trigger] map.guards[g] == (
                if exists|k: int| 0 <= k < i && (#[trigger] indices[k]) as int == g {
                    Guard { heard_thief: true, ..old(map).guards[g] }
                } else {
                    old(map).guards[g]
                }),
        decreases n - i,
    {
        let idx = indices[i];
        proof {
            assert(!(exists|k: int| 0 <= k < i && (#[trigger] indices[k]) as int == idx as int));
        }
        let mut g = map.guards[idx];
        g.hear_thief();
        map.guards.set(idx, g);
        proof {
            assert forall|j: int|
                0 <= j < map.guards.len() implies (#[trigger] map.guards[j]).wf(
                map.size_x(),
                map.size_y(),
                map.patrol_regions.len() as int,
            ) by {}
            assert(exists|k: int| 0 <= k < i + 1 && (#[trigger] indices[k]) as int == idx as int);
        }
        i = i + 1;
    }
    proof {
        assert forall|g: int| 0 <= g < old(map).guards.len() implies #[trigger] map.guards[g] == (
        if spec_in_earshot(*old(map), old(player).pos, 75, old(map).guards[g].pos) {
            Guard { heard_thief: true, ..old(map).guards[g] }
        } else {
            old(map).guards[g]
        }) by {
            if contains_idx(indices@, g) {
                let k = choose|k: int|
                    0 <= k < indices@.len() && (#[trigger] indices@[k]) as int == g;
                assert(exists|k2: int| 0 <= k2 < n && (#[trigger] indices[k2]) as int == g);
            }
            if exists|k: int| 0 <= k < n && (#[trigger] indices[k]) as int == g {
                let k = choose|k: int| 0 <= k < n && (#[trigger] indices[k]) as int == g;
                assert(contains_idx(indices@, g));
            }
        }
    }
}

/// Advance the world one turn after the player's action: track the
/// underwater counter, run every guard, recompute visibility, and set the
/// level-complete flag exactly when all loot is collected and every cell
/// is seen.
pub fn advance_time(game: &mut Game)
    requires
        old(game).wf(),
    ensures
        final(game).wf(),
        final(game).player.pos == old(game).player.pos,
        seen_monotone(old(game).map, final(game).map),
        final(game).map.cell_at(final(game).player.pos).seen,
        final(game).player.turns_remaining_underwater == (if old(game).map.cell_at(
            old(game).player.pos,
        ).cell_type == CellType::GroundWater {
            if old(game).player.turns_remaining_underwater > 0 {
                (old(game).player.turns_remaining_underwater - 1) as usize
            } else {
                0usize
            }
        } else {
            7usize
        }),
        final(game).finished_level == (old(game).finished_level || spec_level_complete(
            final(game).map,
        )),
        final(game).level == old(game).level,
        final(game).map.items@ == old(game).map.items@,
        final(game).player.gold == old(game).player.gold,
        final(game).player.disguised == old(game).player.disguised,
{
    if game.map.cells.get(
        game.player.pos.0 as usize,
        game.player.pos.1 as usize,
    ).cell_type == CellType::GroundWater {
        if game.player.turns_remaining_underwater > 0 {
            game.player.turns_remaining_underwater = game.player.turns_remaining_underwater - 1;
        }
    } else {
        game.player.turns_remaining_underwater = 7;
    }

    guard_act_all(
        &mut game.random,
        game.see_all,
        &mut game.popups,
        &mut game.lines,
        &mut game.map,
        &mut game.player,
    );

    update_map_visibility(&mut game.map, game.player.pos);

    if finished_level(&game.map) {
        game.finished_level = true;
    }
}

/// Try to swap outfits with an outfit stand one step away in `dpos`; a
/// successful swap consumes the turn, and anything else leaves the session
/// untouched (a rejected intent).
pub fn try_use_in_direction(game: &mut Game, dpos: Coord)
    requires
        old(game).wf(),
        -1 <= dpos.0 <= 1,
        -1 <= dpos.1 <= 1,
    ensures
        final(game).wf(),
        seen_monotone(old(game).map, final(game).map),
        ({
            let target = Coord(
                (old(game).player.pos.0 + dpos.0) as i32,
                (old(game).player.pos.1 + dpos.1) as i32,
            );
            let outfit_cur = if old(game).player.disguised {
                ItemKind::Outfit2
            } else {
                ItemKind::Outfit1
            };
            (match first_outfit_at(old(game).map.items@, target) {
                Some(i) => old(game).map.items@[i].kind == outfit_cur,
                None => true,
            }) ==> *final(game) == *old(game)
        }),
{
    let pos = Coord(game.player.pos.0 + dpos.0, game.player.pos.1 + dpos.1);
    let outfit_cur = if game.player.disguised {
        ItemKind::Outfit2
    } else {
        ItemKind::Outfit1
    };
    if let Some(outfit_new) = game.map.try_use_outfit_at(pos, outfit_cur) {
        pre_turn(game);
        game.player.disguised = outfit_new != ItemKind::Outfit1;
        game.player.dir = update_dir(game.player.dir, dpos);
        advance_time(game);
    }
}

/// Apply one player intent: a step (or wait) in `dpos`. A blocked diagonal
/// may slide along a wall; a blocked step may instead use an outfit stand;
/// stepping off a completed level advances to the next one; a dead player
/// does nothing. Afterward the world has advanced one turn (when the intent
/// consumed one).
pub fn move_player(game: &mut Game, dpos_in: Coord)
    requires
        old(game).wf(),
        -1 <= dpos_in.0 <= 1,
        -1 <= dpos_in.1 <= 1,
    ensures
        final(game).wf(),
        !spec_level_complete(old(game).map) ==> seen_monotone(old(game).map, final(game).map),
        old(game).player.health == 0 ==> *final(game) == *old(game),
        ({
            // A rejected intent: a blocked cardinal step with no usable
            // outfit stand at the target changes nothing.
            let target = Coord(
                (old(game).player.pos.0 + dpos_in.0) as i32,
                (old(game).player.pos.1 + dpos_in.1) as i32,
            );
            (old(game).player.health > 0 && old(game).map.in_bounds(target) && spec_blocked(
                old(game).map,
                old(game).player.pos,
                target,
            ) && (dpos_in.0 == 0 || dpos_in.1 == 0) && first_outfit_at(
                old(game).map.items@,
                target,
            ) is None) ==> *final(game) == *old(game)
        }),
        ({
            // A blocked diagonal with exactly the horizontal axis free (and
            // nothing there to stop a slide) glides horizontally.
            let pos0 = old(game).player.pos;
            let diag = Coord((pos0.0 + dpos_in.0) as i32, (pos0.1 + dpos_in.1) as i32);
            let hx = Coord((pos0.0 + dpos_in.0) as i32, pos0.1);
            let vy = Coord(pos0.0, (pos0.1 + dpos_in.1) as i32);
            (old(game).player.health > 0 && old(game).map.in_bounds(diag) && spec_blocked(
                old(game).map,
                pos0,
                diag,
            ) && dpos_in.0 != 0 && dpos_in.1 != 0 && !(exists|i: int|
                0 <= i < old(game).map.guards.len() && (#[trigger] old(game).map.guards[i]).pos
                    == diag) && !(exists|i: int|
                0 <= i < old(game).map.items.len() && crate::cell_grid::is_outfit(
                    (#[trigger] old(game).map.items[i]).kind,
                ) && old(game).map.items[i].pos == diag) && !spec_blocked(old(game).map, pos0, hx)
                && spec_blocked(old(game).map, pos0, vy)) ==> {
                &&& final(game).level == old(game).level
                &&& final(game).player.pos == hx
                &&& final(game).map.items@ == without_coins_at(old(game).map.items@, hx)
            }
        }),
        ({
            // The mirrored slide: only the vertical axis free.
            let pos0 = old(game).player.pos;
            let diag = Coord((pos0.0 + dpos_in.0) as i32, (pos0.1 + dpos_in.1) as i32);
            let hx = Coord((pos0.0 + dpos_in.0) as i32, pos0.1);
            let vy = Coord(pos0.0, (pos0.1 + dpos_in.1) as i32);
            (old(game).player.health > 0 && old(game).map.in_bounds(diag) && spec_blocked(
                old(game).map,
                pos0,
                diag,
            ) && dpos_in.0 != 0 && dpos_in.1 != 0 && !(exists|i: int|
                0 <= i < old(game).map.guards.len() && (#[trigger] old(game).map.guards[i]).pos
                    == diag) && !(exists|i: int|
                0 <= i < old(game).map.items.len() && crate::cell_grid::is_outfit(
                    (#[trigger] old(game).map.items[i]).kind,
                ) && old(game).map.items[i].pos == diag) && spec_blocked(old(game).map, pos0, hx)
                && !spec_blocked(old(game).map, pos0, vy)) ==> {
                &&& final(game).level == old(game).level
                &&& final(game).player.pos == vy
                &&& final(game).map.items@ == without_coins_at(old(game).map.items@, vy)
            }
        }),
        ({
            // An unblocked step: the player lands on the target, picks up
            // exactly the coins there, and the turn advances on this level.
            let target = Coord(
                (old(game).player.pos.0 + dpos_in.0) as i32,
                (old(game).player.pos.1 + dpos_in.1) as i32,
            );
            (old(game).player.health > 0 && old(game).map.in_bounds(target) && !spec_blocked(
                old(game).map,
                old(game).player.pos,
                target,
            )) ==> {
                &&& final(game).level == old(game).level
                &&& final(game).player.pos == target
                &&& final(game).map.items@ == without_coins_at(old(game).map.items@, target)
                &&& final(game).player.gold == (if old(game).player.gold + coins_at(
                    old(game).map.items@,
                    target,
                ) <= usize::MAX {
                    old(game).player.gold + coins_at(old(game).map.items@, target)
                } else {
                    usize::MAX as int
                })
            }
        }),
{
    let mut dpos = dpos_in;
    // A dead player stays down.
    if game.player.health == 0 {
        return ;
    }

    let pos_new = Coord(game.player.pos.0 + dpos.0, game.player.pos.1 + dpos.1);

    // Walking off the edge of a finished level leads to the next one.
    if !on_level(&game.map, pos_new) && finished_level(&game.map) {
        advance_to_next_level(game);
        return ;
    }

    if blocked(&game.map, game.player.pos, pos_new) {
        if dpos.0 == 0 || dpos.1 == 0 || halts_slide(&game.map, pos_new) {
            try_use_in_direction(game, dpos);
            return ;
        } else {
            // A diagonal may slide along a wall.
            let v_blocked = blocked(
                &game.map,
                game.player.pos,
                Coord(game.player.pos.0 + dpos.0, game.player.pos.1),
            );
            let h_blocked = blocked(
                &game.map,
                game.player.pos,
                Coord(game.player.pos.0, game.player.pos.1 + dpos.1),
            );

            if v_blocked {
                if h_blocked {
                    try_use_in_direction(game, dpos);
                    return ;
                }
                dpos = Coord(0, dpos.1);
            } else {
                if !h_blocked {
                    try_use_in_direction(game, dpos);
                    return ;
                }
                dpos = Coord(dpos.0, 0);
            }
        }
    }

    pre_turn(game);

    game.player.dir = update_dir(game.player.dir, dpos);
    let stepped = Coord(game.player.pos.0 + dpos.0, game.player.pos.1 + dpos.1);
    game.player.pos = stepped;

    let gold_found = game.map.collect_loot_at(game.player.pos);
    if game.player.gold <= usize::MAX - gold_found {
        game.player.gold = game.player.gold + gold_found;
    } else {
        game.player.gold = usize::MAX;
    }

    // Movement noise from creaky boards.
    let cell_type = game.map.cells.get(
        game.player.pos.0 as usize,
        game.player.pos.1 as usize,
    ).cell_type;

    if !(dpos.0 == 0 && dpos.1 == 0) && cell_type == CellType::GroundWoodCreaky {
        make_noise(&mut game.map, &mut game.player, &mut game.popups, "\u{ab}creak\u{bb}");
    }

    advance_time(game);
}

} // verus!
