//! The procedural mansion generator: a mirrored room grid with perturbed
//! wall offsets, a room-adjacency graph connected by doors, room privacy
//! tiers by graph depth, doors/windows/furniture/loot/guards, and the
//! patrol-region graph the guards walk.

use vstd::prelude::*;
use crate::cell_grid::{
    Cell, CellType, INVALID_REGION, Item, ItemKind, PatrolRegion, Rect, tile_def,
    guard_move_cost_for_item_kind, guard_move_cost_for_tile_type,
};
use crate::coord::Coord;
use crate::grid::Grid;
use crate::guard::{Guard, GuardKind, GuardMode};
use crate::map::{LevelMap, coin_count, region_ok};
use crate::rng::Rng;

verus! {

/// The outer band of exterior ground around the mansion.
pub const OUTER_BORDER: i32 = 3;

const ROOM_SIZE_X: i32 = 5;
const ROOM_SIZE_Y: i32 = 5;

/// Generation-time room classification.
#[derive(Clone, Copy, Debug, PartialEq, Eq, Structural)]
pub enum RoomType {
    Exterior,
    PublicCourtyard,
    PublicRoom,
    PrivateCourtyard,
    PrivateRoom,
}

/// A generation-time room: its grid rectangle, union-find group and depth
/// from the entrance. The adjacency edges incident to each room are kept in
/// a separate table, indexed like the room list.
#[derive(Clone, Copy, Debug, PartialEq, Eq, Structural)]
pub struct Room {
    pub room_type: RoomType,
    pub group: usize,
    pub depth: usize,
    pub dead_end: bool,
    pub patroller: Option<GuardKind>,
    pub pos_min: Coord,
    pub pos_max: Coord,
}

/// A straight run of wall cells shared between two rooms, with the mirror
/// bookkeeping used to keep symmetric door decisions in sync.
#[derive(Clone, Copy, Debug, PartialEq, Eq, Structural)]
pub struct Adjacency {
    pub origin: Coord,
    pub dir: Coord,
    pub length: i32,
    pub room_left: usize,
    pub room_right: usize,
    pub next_matching: usize,
    pub door: bool,
}

/// The bounds every room rectangle and adjacency keeps, so that all later
/// arithmetic stays far from overflow.
pub open spec fn room_ok(r: Room) -> bool {
    &&& -2000 <= r.pos_min.0 <= 2000 && -2000 <= r.pos_min.1 <= 2000
    &&& -2000 <= r.pos_max.0 <= 2000 && -2000 <= r.pos_max.1 <= 2000
}

pub open spec fn adj_ok(a: Adjacency, nrooms: int, nadj: int) -> bool {
    &&& -100000 <= a.origin.0 <= 100000 && -100000 <= a.origin.1 <= 100000
    &&& -1 <= a.dir.0 <= 1 && -1 <= a.dir.1 <= 1
    &&& -10000 <= a.length <= 10000
    &&& (a.room_left as int) < nrooms
    &&& (a.room_right as int) < nrooms
    &&& (a.next_matching as int) < nadj
}

pub open spec fn rooms_ok(rooms: Seq<Room>) -> bool {
    forall|i: int| 0 <= i < rooms.len() ==> room_ok(#[trigger] rooms[i])
}

pub open spec fn adjs_ok(adjs: Seq<Adjacency>, nrooms: int) -> bool {
    forall|i: int| 0 <= i < adjs.len() ==> adj_ok(#[trigger] adjs[i], nrooms, adjs.len() as int)
}

/// The per-room edge lists: every entry names an adjacency.
pub open spec fn edges_ok(edges: Seq<Vec<usize>>, nadj: int) -> bool {
    forall|i: int, k: int|
        0 <= i < edges.len() && 0 <= k < edges[i]@.len() ==> ((#[trigger] edges[i]@[k]) as int)
            < nadj
}

/// Adjacency is Copy so rooms and adjacencies mutate by read-modify-write.


/// `a + b`, saturating (used for graph depths).
fn sat_add(a: usize, b: usize) -> (r: usize)
    ensures
        r == if a + b <= usize::MAX {
            (a + b) as int
        } else {
            usize::MAX as int
        },
{
    if a <= usize::MAX - b {
        a + b
    } else {
        usize::MAX
    }
}

/// A bounded read of a wall-offset grid: off-grid or out-of-range values
/// clamp, which keeps all downstream coordinate arithmetic in bounds (the
/// generator never actually produces offsets outside this range).
fn oget(g: &Grid<i32>, x: usize, y: usize) -> (r: i32)
    requires
        g.wf(),
    ensures
        -1000 <= r <= 1000,
        (g.in_bounds(x as int, y as int) && -1000 <= g.at(x as int, y as int) <= 1000) ==> r == g.at(
            x as int,
            y as int,
        ),
{
    if x < g.size_x() && y < g.size_y() {
        let v = g.get(x, y);
        if v < -1000 {
            -1000
        } else if v > 1000 {
            1000
        } else {
            v
        }
    } else {
        0
    }
}

/// A clipped write to a wall-offset grid.
fn oset(g: &mut Grid<i32>, x: usize, y: usize, v: i32)
    requires
        old(g).wf(),
    ensures
        final(g).wf(),
        final(g).spec_size_x() == old(g).spec_size_x(),
        final(g).spec_size_y() == old(g).spec_size_y(),
        old(g).in_bounds(x as int, y as int) ==> final(g).at(x as int, y as int) == v,
{
    if x < g.size_x() && y < g.size_y() {
        g.set(x, y, v);
    }
}

/// The initial room grid: a half-random pattern of enclosed rooms (true)
/// and courtyards (false), mirrored left-right.
fn make_siheyuan_room_grid(size_x: usize, size_y: usize, random: &mut Rng) -> (r: Grid<bool>)
    requires
        1 <= size_x <= 16,
        1 <= size_y <= 16,
    ensures
        r.wf(),
        r.spec_size_x() == size_x,
        r.spec_size_y() == size_y,
{
    let mut inside: Grid<bool> = Grid::new(size_x, size_y, true);

    let half_x = (size_x + 1) / 2;

    proof {
        assert(size_y * half_x <= 256) by (nonlinear_arith)
            requires
                size_y <= 16,
                half_x <= 16,
        ;
    }
    let n = (size_y * half_x) / 4;
    let mut i: usize = 0;
    while i < n
        invariant
            inside.wf(),
            inside.spec_size_x() == size_x,
            inside.spec_size_y() == size_y,
            1 <= half_x <= size_x,
            1 <= size_y,
        decreases n - i,
    {
        let x = random.below(half_x);
        let y = random.below(size_y);
        inside.set(x, y, false);
        i = i + 1;
    }

    let mut y: usize = 0;
    while y < size_y
        invariant
            inside.wf(),
            inside.spec_size_x() == size_x,
            inside.spec_size_y() == size_y,
            1 <= half_x <= size_x,
            y <= size_y,
        decreases size_y - y,
    {
        let mut x = half_x;
        while x < size_x
            invariant
                inside.wf(),
                inside.spec_size_x() == size_x,
                inside.spec_size_y() == size_y,
                1 <= half_x <= x,
                x <= size_x,
                y < size_y,
            decreases size_x - x,
        {
            let v = inside.get((size_x - 1) - x, y);
            inside.set(x, y, v);
            x = x + 1;
        }
        y = y + 1;
    }

    inside
}

/// Perturb the wall positions between rooms by one cell each way, mirrored
/// where the level is mirrored, then shift everything into map space.
fn offset_walls(mirror_x: bool, mirror_y: bool, inside: &Grid<bool>, random: &mut Rng) -> (r: (
    Grid<i32>,
    Grid<i32>,
))
    requires
        inside.wf(),
        inside.spec_size_x() <= 16,
        inside.spec_size_y() <= 16,
    ensures
        r.0.wf(),
        r.1.wf(),
        r.0.spec_size_x() == inside.spec_size_x() + 1,
        r.0.spec_size_y() == inside.spec_size_y(),
        r.1.spec_size_x() == inside.spec_size_x(),
        r.1.spec_size_y() == inside.spec_size_y() + 1,
{
    let rooms_x = inside.size_x();
    let rooms_y = inside.size_y();

    let mut offset_x: Grid<i32> = Grid::new(rooms_x + 1, rooms_y, 0);
    let mut offset_y: Grid<i32> = Grid::new(rooms_x, rooms_y + 1, 0);

    let i0 = random.below_i32(3) - 1;
    let mut y: usize = 0;
    while y < rooms_y
        invariant
            offset_x.wf(),
            offset_x.spec_size_x() == rooms_x + 1,
            offset_x.spec_size_y() == rooms_y,
        decreases rooms_y - y,
    {
        oset(&mut offset_x, 0, y, i0);
        y = y + 1;
    }

    let i1 = random.below_i32(3) - 1;
    let mut y: usize = 0;
    while y < rooms_y
        invariant
            offset_x.wf(),
            offset_x.spec_size_x() == rooms_x + 1,
            offset_x.spec_size_y() == rooms_y,
        decreases rooms_y - y,
    {
        oset(&mut offset_x, rooms_x, y, i1);
        y = y + 1;
    }

    let i2 = random.below_i32(3) - 1;
    let mut x: usize = 0;
    while x < rooms_x
        invariant
            offset_y.wf(),
            offset_y.spec_size_x() == rooms_x,
            offset_y.spec_size_y() == rooms_y + 1,
        decreases rooms_x - x,
    {
        oset(&mut offset_y, x, 0, i2);
        x = x + 1;
    }

    let i3 = random.below_i32(3) - 1;
    let mut x: usize = 0;
    while x < rooms_x
        invariant
            offset_y.wf(),
            offset_y.spec_size_x() == rooms_x,
            offset_y.spec_size_y() == rooms_y + 1,
        decreases rooms_x - x,
    {
        oset(&mut offset_y, x, rooms_y, i3);
        x = x + 1;
    }

    let mut x: usize = 1;
    while x < rooms_x
        invariant
            offset_x.wf(),
            offset_x.spec_size_x() == rooms_x + 1,
            offset_x.spec_size_y() == rooms_y,
        decreases rooms_x - x,
    {
        let mut y: usize = 0;
        while y < rooms_y
            invariant
                offset_x.wf(),
                offset_x.spec_size_x() == rooms_x + 1,
                offset_x.spec_size_y() == rooms_y,
            decreases rooms_y - y,
        {
            let v = random.below_i32(3) - 1;
            oset(&mut offset_x, x, y, v);
            y = y + 1;
        }
        x = x + 1;
    }

    let mut x: usize = 0;
    while x < rooms_x
        invariant
            offset_y.wf(),
            offset_y.spec_size_x() == rooms_x,
            offset_y.spec_size_y() == rooms_y + 1,
        decreases rooms_x - x,
    {
        let mut y: usize = 1;
        while y < rooms_y
            invariant
                offset_y.wf(),
                offset_y.spec_size_x() == rooms_x,
                offset_y.spec_size_y() == rooms_y + 1,
            decreases rooms_y - y,
        {
            let v = random.below_i32(3) - 1;
            oset(&mut offset_y, x, y, v);
            y = y + 1;
        }
        x = x + 1;
    }

    // Straighten wall joints at internal corners, one axis per joint.
    let mut x: usize = 1;
    while x < rooms_x
        invariant
            offset_x.wf(),
            offset_x.spec_size_x() == rooms_x + 1,
            offset_x.spec_size_y() == rooms_y,
            offset_y.wf(),
            offset_y.spec_size_x() == rooms_x,
            offset_y.spec_size_y() == rooms_y + 1,
            1 <= x,
        decreases rooms_x - x,
    {
        let mut y: usize = 1;
        while y < rooms_y
            invariant
                offset_x.wf(),
                offset_x.spec_size_x() == rooms_x + 1,
                offset_x.spec_size_y() == rooms_y,
                offset_y.wf(),
                offset_y.spec_size_x() == rooms_x,
                offset_y.spec_size_y() == rooms_y + 1,
                1 <= x,
                1 <= y,
            decreases rooms_y - y,
        {
            if random.below(2) == 0 {
                let v = oget(&offset_x, x, y - 1);
                oset(&mut offset_x, x, y, v);
            } else {
                let v = oget(&offset_y, x - 1, y);
                oset(&mut offset_y, x, y, v);
            }
            y = y + 1;
        }
        x = x + 1;
    }

    if mirror_x {
        if (rooms_x % 2) == 0 {
            let x_mid = rooms_x / 2;
            let mut y: usize = 0;
            while y < rooms_y
                invariant
                    offset_x.wf(),
                    offset_x.spec_size_x() == rooms_x + 1,
                    offset_x.spec_size_y() == rooms_y,
                decreases rooms_y - y,
            {
                oset(&mut offset_x, x_mid, y, 0);
                y = y + 1;
            }
        }

        let mut x: usize = 0;
        while x < (rooms_x + 1) / 2
            invariant
                offset_x.wf(),
                offset_x.spec_size_x() == rooms_x + 1,
                offset_x.spec_size_y() == rooms_y,
                x <= rooms_x,
            decreases (rooms_x + 1) / 2 - x,
        {
            let mut y: usize = 0;
            while y < rooms_y
                invariant
                    offset_x.wf(),
                    offset_x.spec_size_x() == rooms_x + 1,
                    offset_x.spec_size_y() == rooms_y,
                    x <= rooms_x,
                decreases rooms_y - y,
            {
                let v = oget(&offset_x, x, y);
                oset(&mut offset_x, rooms_x - x, y, 1 - v);
                y = y + 1;
            }
            x = x + 1;
        }

        let mut x: usize = 0;
        while x < rooms_x / 2
            invariant
                offset_y.wf(),
                offset_y.spec_size_x() == rooms_x,
                offset_y.spec_size_y() == rooms_y + 1,
                x < rooms_x || x == 0,
            decreases rooms_x / 2 - x,
        {
            let mut y: usize = 0;
            while y < rooms_y + 1
                invariant
                    offset_y.wf(),
                    offset_y.spec_size_x() == rooms_x,
                    offset_y.spec_size_y() == rooms_y + 1,
                    x < rooms_x,
                decreases rooms_y + 1 - y,
            {
                let v = oget(&offset_y, x, y);
                oset(&mut offset_y, (rooms_x - 1) - x, y, v);
                y = y + 1;
            }
            x = x + 1;
        }
    }

    if mirror_y {
        if (rooms_y % 2) == 0 {
            let y_mid = rooms_y / 2;
            let mut x: usize = 0;
            while x < rooms_x
                invariant
                    offset_y.wf(),
                    offset_y.spec_size_x() == rooms_x,
                    offset_y.spec_size_y() == rooms_y + 1,
                decreases rooms_x - x,
            {
                oset(&mut offset_y, x, y_mid, 0);
                x = x + 1;
            }
        }

        let mut y: usize = 0;
        while y < (rooms_y + 1) / 2
            invariant
                offset_y.wf(),
                offset_y.spec_size_x() == rooms_x,
                offset_y.spec_size_y() == rooms_y + 1,
                y <= rooms_y,
            decreases (rooms_y + 1) / 2 - y,
        {
            let mut x: usize = 0;
            while x < rooms_x
                invariant
                    offset_y.wf(),
                    offset_y.spec_size_x() == rooms_x,
                    offset_y.spec_size_y() == rooms_y + 1,
                    y <= rooms_y,
                decreases rooms_x - x,
            {
                let v = oget(&offset_y, x, y);
                oset(&mut offset_y, x, rooms_y - y, 1 - v);
                x = x + 1;
            }
            y = y + 1;
        }

        let mut y: usize = 0;
        while y < rooms_y / 2
            invariant
                offset_x.wf(),
                offset_x.spec_size_x() == rooms_x + 1,
                offset_x.spec_size_y() == rooms_y,
                y < rooms_y || y == 0,
            decreases rooms_y / 2 - y,
        {
            let mut x: usize = 0;
            while x < rooms_x + 1
                invariant
                    offset_x.wf(),
                    offset_x.spec_size_x() == rooms_x + 1,
                    offset_x.spec_size_y() == rooms_y,
                    y < rooms_y,
                decreases rooms_x + 1 - x,
            {
                let v = oget(&offset_x, x, y);
                oset(&mut offset_x, x, (rooms_y - 1) - y, v);
                x = x + 1;
            }
            y = y + 1;
        }
    }

    // Shift all offsets into map space.
    let mut room_offset_x: i32 = -1000;
    let mut room_offset_y: i32 = -1000;

    let mut y: usize = 0;
    while y < rooms_y
        invariant
            offset_x.wf(),
            offset_x.spec_size_x() == rooms_x + 1,
            offset_x.spec_size_y() == rooms_y,
            -1000 <= room_offset_x <= 1000,
        decreases rooms_y - y,
    {
        let v = -oget(&offset_x, 0, y);
        if v > room_offset_x {
            room_offset_x = v;
        }
        y = y + 1;
    }

    let mut x: usize = 0;
    while x < rooms_x
        invariant
            offset_y.wf(),
            offset_y.spec_size_x() == rooms_x,
            offset_y.spec_size_y() == rooms_y + 1,
            -1000 <= room_offset_y <= 1000,
        decreases rooms_x - x,
    {
        let v = -oget(&offset_y, x, 0);
        if v > room_offset_y {
            room_offset_y = v;
        }
        x = x + 1;
    }

    let room_offset_x = room_offset_x + OUTER_BORDER;
    let room_offset_y = room_offset_y + OUTER_BORDER;

    let mut x: usize = 0;
    while x < rooms_x + 1
        invariant
            offset_x.wf(),
            offset_x.spec_size_x() == rooms_x + 1,
            offset_x.spec_size_y() == rooms_y,
            rooms_x <= 16,
            x <= rooms_x + 1,
            -1003 <= room_offset_x <= 1003,
        decreases rooms_x + 1 - x,
    {
        let mut y: usize = 0;
        while y < rooms_y
            invariant
                offset_x.wf(),
                offset_x.spec_size_x() == rooms_x + 1,
                offset_x.spec_size_y() == rooms_y,
                rooms_x <= 16,
                x <= rooms_x + 1,
                -1003 <= room_offset_x <= 1003,
            decreases rooms_y - y,
        {
            let v = oget(&offset_x, x, y);
            oset(&mut offset_x, x, y, v + room_offset_x + (x as i32) * ROOM_SIZE_X);
            y = y + 1;
        }
        x = x + 1;
    }

    let mut x: usize = 0;
    while x < rooms_x
        invariant
            offset_y.wf(),
            offset_y.spec_size_x() == rooms_x,
            offset_y.spec_size_y() == rooms_y + 1,
            rooms_y <= 16,
            x <= rooms_x,
            -1003 <= room_offset_y <= 1003,
        decreases rooms_x - x,
    {
        let mut y: usize = 0;
        while y < rooms_y + 1
            invariant
                offset_y.wf(),
                offset_y.spec_size_x() == rooms_x,
                offset_y.spec_size_y() == rooms_y + 1,
                rooms_y <= 16,
                y <= rooms_y + 1,
                -1003 <= room_offset_y <= 1003,
            decreases rooms_y + 1 - y,
        {
            let v = oget(&offset_y, x, y);
            oset(&mut offset_y, x, y, v + room_offset_y + (y as i32) * ROOM_SIZE_Y);
            y = y + 1;
        }
        x = x + 1;
    }

    (offset_x, offset_y)
}


/// Whether a cell type takes part in wall fixup: everything that is not
/// open ground (walls, windows, portcullises, doors).
pub fn is_wall(cell_type: CellType) -> (r: bool)
    ensures
        r == !crate::cell_grid::is_ground(cell_type),
{
    match cell_type {
        CellType::GroundNormal => false,
        CellType::GroundGrass => false,
        CellType::GroundWater => false,
        CellType::GroundMarble => false,
        CellType::GroundWood => false,
        CellType::GroundWoodCreaky => false,
        _ => true,
    }
}

/// The wall variant whose visual caps match the given N/S/E/W wall
/// neighborhood bitmask.
pub open spec fn spec_wall_type_from_neighbors(neighbors: u32) -> CellType {
    if neighbors == 1 {
        CellType::Wall0001
    } else if neighbors == 2 {
        CellType::Wall0010
    } else if neighbors == 3 {
        CellType::Wall0011
    } else if neighbors == 4 {
        CellType::Wall0100
    } else if neighbors == 5 {
        CellType::Wall0101
    } else if neighbors == 6 {
        CellType::Wall0110
    } else if neighbors == 7 {
        CellType::Wall0111
    } else if neighbors == 8 {
        CellType::Wall1000
    } else if neighbors == 9 {
        CellType::Wall1001
    } else if neighbors == 10 {
        CellType::Wall1010
    } else if neighbors == 11 {
        CellType::Wall1011
    } else if neighbors == 12 {
        CellType::Wall1100
    } else if neighbors == 13 {
        CellType::Wall1101
    } else if neighbors == 14 {
        CellType::Wall1110
    } else if neighbors == 15 {
        CellType::Wall1111
    } else {
        CellType::Wall0000
    }
}

pub fn wall_type_from_neighbors(neighbors: u32) -> (r: CellType)
    ensures
        r == spec_wall_type_from_neighbors(neighbors),
{
    match neighbors {
        1 => CellType::Wall0001,
        2 => CellType::Wall0010,
        3 => CellType::Wall0011,
        4 => CellType::Wall0100,
        5 => CellType::Wall0101,
        6 => CellType::Wall0110,
        7 => CellType::Wall0111,
        8 => CellType::Wall1000,
        9 => CellType::Wall1001,
        10 => CellType::Wall1010,
        11 => CellType::Wall1011,
        12 => CellType::Wall1100,
        13 => CellType::Wall1101,
        14 => CellType::Wall1110,
        15 => CellType::Wall1111,
        _ => CellType::Wall0000,
    }
}

/// The N/S/E/W wall-neighborhood bitmask of a cell.
fn neighboring_walls(cells: &Grid<Cell>, x: usize, y: usize) -> (r: u32)
    requires
        cells.wf(),
        cells.in_bounds(x as int, y as int),
    ensures
        r <= 15,
{
    let size_x = cells.size_x();
    let size_y = cells.size_y();
    let mut wall_bits: u32 = 0;

    // The four flags are distinct powers of two, so plain addition builds
    // the bitmask.
    if y + 1 < size_y && x < size_x {
        if is_wall(cells.get(x, y + 1).cell_type) {
            wall_bits = wall_bits + 8;
        }
    }
    if y > 0 && y <= size_y && x < size_x {
        if is_wall(cells.get(x, y - 1).cell_type) {
            wall_bits = wall_bits + 4;
        }
    }
    if x + 1 < size_x && y < size_y {
        if is_wall(cells.get(x + 1, y).cell_type) {
            wall_bits = wall_bits + 2;
        }
    }
    if x > 0 && x <= size_x && y < size_y {
        if is_wall(cells.get(x - 1, y).cell_type) {
            wall_bits = wall_bits + 1;
        }
    }

    wall_bits
}

/// A clipped read-modify-write of one cell that always keeps the cell's
/// region stamp, so every generator pass preserves region validity.
fn cset(cells: &mut Grid<Cell>, x: i32, y: i32, c: Cell)
    requires
        old(cells).wf(),
    ensures
        final(cells).wf(),
        final(cells).spec_size_x() == old(cells).spec_size_x(),
        final(cells).spec_size_y() == old(cells).spec_size_y(),
        old(cells).in_bounds(x as int, y as int) ==> final(cells).at(x as int, y as int) == (Cell {
            region: old(cells).at(x as int, y as int).region,
            ..c
        }),
        forall|i: int, j: int|
            final(cells).in_bounds(i, j) && !(i == x && j == y) ==> final(cells).at(i, j) == old(
                cells,
            ).at(i, j),
        forall|i: int, j: int|
            final(cells).in_bounds(i, j) ==> (#[trigger] final(cells).at(i, j)).region == old(
                cells,
            ).at(i, j).region,
    {
        if cells.contains(x, y) {
            let prev = cells.get(x as usize, y as usize);
            cells.set(x as usize, y as usize, Cell { region: prev.region, ..c });
        }
    }

/// Rasterize the room grid into a cell grid: grass plugged and lit under
/// every room cell, and plain walls along each room's outline.
fn plot_walls(inside: &Grid<bool>, offset_x: &Grid<i32>, offset_y: &Grid<i32>) -> (cells: Grid<
    Cell,
>)
    requires
        inside.wf(),
        offset_x.wf(),
        offset_y.wf(),
        offset_x.spec_size_x() == inside.spec_size_x() + 1,
        offset_x.spec_size_y() == inside.spec_size_y(),
        offset_y.spec_size_x() == inside.spec_size_x(),
        offset_y.spec_size_y() == inside.spec_size_y() + 1,
    ensures
        cells.wf(),
        cells.spec_size_x() <= 2000,
        cells.spec_size_y() <= 2000,
        forall|i: int, j: int|
            cells.in_bounds(i, j) ==> (#[trigger] cells.at(i, j)).region == INVALID_REGION,
{
    let cx = inside.size_x();
    let cy = inside.size_y();

    let mut map_x: i32 = 0;
    let mut map_y: i32 = 0;

    let mut y: usize = 0;
    while y < cy
        invariant
            offset_x.wf(),
            0 <= map_x <= 1000,
        decreases cy - y,
    {
        let v = oget(offset_x, cx, y);
        if v > map_x {
            map_x = v;
        }
        y = y + 1;
    }

    let mut x: usize = 0;
    while x < cx
        invariant
            offset_y.wf(),
            0 <= map_y <= 1000,
        decreases cx - x,
    {
        let v = oget(offset_y, x, cy);
        if v > map_y {
            map_y = v;
        }
        x = x + 1;
    }

    let map_x = map_x + OUTER_BORDER + 1;
    let map_y = map_y + OUTER_BORDER + 1;

    let default_cell = Cell {
        cell_type: CellType::GroundNormal,
        move_cost: 0,
        region: INVALID_REGION,
        blocks_player_sight: false,
        blocks_sight: false,
        blocks_sound: false,
        hides_player: false,
        lit: false,
        seen: false,
    };
    let mut cells: Grid<Cell> = Grid::new(map_x as usize, map_y as usize, default_cell);
    let ghost sx = cells.spec_size_x();
    let ghost sy = cells.spec_size_y();

    // Grass under all the rooms, to plug holes, and light the interior.
    let mut rx: usize = 0;
    while rx < cx
        invariant
            inside.wf(),
            offset_x.wf(),
            offset_y.wf(),
            offset_x.spec_size_x() == inside.spec_size_x() + 1,
            offset_x.spec_size_y() == inside.spec_size_y(),
            offset_y.spec_size_x() == inside.spec_size_x(),
            offset_y.spec_size_y() == inside.spec_size_y() + 1,
            cx == inside.spec_size_x(),
            cy == inside.spec_size_y(),
            cells.wf(),
            cells.spec_size_x() == sx,
            cells.spec_size_y() == sy,
            forall|i: int, j: int|
                cells.in_bounds(i, j) ==> (#[trigger] cells.at(i, j)).region == INVALID_REGION,
        decreases cx - rx,
    {
        let mut ry: usize = 0;
        while ry < cy
            invariant
                inside.wf(),
                offset_x.wf(),
                offset_y.wf(),
                offset_x.spec_size_x() == inside.spec_size_x() + 1,
                offset_x.spec_size_y() == inside.spec_size_y(),
                offset_y.spec_size_x() == inside.spec_size_x(),
                offset_y.spec_size_y() == inside.spec_size_y() + 1,
                cx == inside.spec_size_x(),
                cy == inside.spec_size_y(),
                rx < cx,
                cells.wf(),
                cells.spec_size_x() == sx,
                cells.spec_size_y() == sy,
                forall|i: int, j: int|
                    cells.in_bounds(i, j) ==> (#[trigger] cells.at(i, j)).region
                        == INVALID_REGION,
            decreases cy - ry,
        {
            let x0 = oget(offset_x, rx, ry);
            let x1 = oget(offset_x, rx + 1, ry) + 1;
            let y0 = oget(offset_y, rx, ry);
            let y1 = oget(offset_y, rx, ry + 1) + 1;

            let mut px = x0;
            while px < x1
                invariant
                    cells.wf(),
                    cells.spec_size_x() == sx,
                    cells.spec_size_y() == sy,
                    -1000 <= px,
                    px <= x1 || px == x0,
                    x1 <= 1001,
                    -1000 <= y0 <= 1000,
                    y1 <= 1001,
                    forall|i: int, j: int|
                        cells.in_bounds(i, j) ==> (#[trigger] cells.at(i, j)).region
                            == INVALID_REGION,
                decreases x1 - px,
            {
                let mut py = y0;
                while py < y1
                    invariant
                        cells.wf(),
                        cells.spec_size_x() == sx,
                        cells.spec_size_y() == sy,
                        -1000 <= py,
                        py <= y1 || py == y0,
                        y1 <= 1001,
                        -1001 <= px <= 1001,
                        forall|i: int, j: int|
                            cells.in_bounds(i, j) ==> (#[trigger] cells.at(i, j)).region
                                == INVALID_REGION,
                    decreases y1 - py,
                {
                    let prev = cells.get_or(px, py, default_cell);
                    cset(
                        &mut cells,
                        px,
                        py,
                        Cell { cell_type: CellType::GroundGrass, lit: true, ..prev },
                    );
                    py = py + 1;
                }
                px = px + 1;
            }
            ry = ry + 1;
        }
        rx = rx + 1;
    }

    // Draw each room's outline as walls.
    let mut rx: usize = 0;
    while rx < cx
        invariant
            inside.wf(),
            offset_x.wf(),
            offset_y.wf(),
            offset_x.spec_size_x() == inside.spec_size_x() + 1,
            offset_x.spec_size_y() == inside.spec_size_y(),
            offset_y.spec_size_x() == inside.spec_size_x(),
            offset_y.spec_size_y() == inside.spec_size_y() + 1,
            cx == inside.spec_size_x(),
            cy == inside.spec_size_y(),
            cells.wf(),
            cells.spec_size_x() == sx,
            cells.spec_size_y() == sy,
            forall|i: int, j: int|
                cells.in_bounds(i, j) ==> (#[trigger] cells.at(i, j)).region == INVALID_REGION,
        decreases cx - rx,
    {
        let mut ry: usize = 0;
        while ry < cy
            invariant
                inside.wf(),
                offset_x.wf(),
                offset_y.wf(),
                offset_x.spec_size_x() == inside.spec_size_x() + 1,
                offset_x.spec_size_y() == inside.spec_size_y(),
                offset_y.spec_size_x() == inside.spec_size_x(),
                offset_y.spec_size_y() == inside.spec_size_y() + 1,
                cx == inside.spec_size_x(),
                cy == inside.spec_size_y(),
                rx < cx,
                cells.wf(),
                cells.spec_size_x() == sx,
                cells.spec_size_y() == sy,
                forall|i: int, j: int|
                    cells.in_bounds(i, j) ==> (#[trigger] cells.at(i, j)).region
                        == INVALID_REGION,
            decreases cy - ry,
        {
            let indoors = inside.get(rx, ry);

            let x0 = oget(offset_x, rx, ry);
            let x1 = oget(offset_x, rx + 1, ry);
            let y0 = oget(offset_y, rx, ry);
            let y1 = oget(offset_y, rx, ry + 1);

            if rx == 0 || indoors {
                plot_ns_wall(&mut cells, x0, y0, y1);
            }
            if rx == cx - 1 || indoors {
                plot_ns_wall(&mut cells, x1, y0, y1);
            }
            if ry == 0 || indoors {
                plot_ew_wall(&mut cells, x0, y0, x1);
            }
            if ry == cy - 1 || indoors {
                plot_ew_wall(&mut cells, x0, y1, x1);
            }
            ry = ry + 1;
        }
        rx = rx + 1;
    }

    cells
}

fn plot_ns_wall(cells: &mut Grid<Cell>, x0: i32, y0: i32, y1: i32)
    requires
        old(cells).wf(),
        -1000 <= y0 <= 1000,
        -1000 <= y1 <= 1000,
    ensures
        final(cells).wf(),
        final(cells).spec_size_x() == old(cells).spec_size_x(),
        final(cells).spec_size_y() == old(cells).spec_size_y(),
        forall|i: int, j: int|
            final(cells).in_bounds(i, j) ==> (#[trigger] final(cells).at(i, j)).region == old(
                cells,
            ).at(i, j).region,
    {
        let default_cell = Cell {
            cell_type: CellType::GroundNormal,
            move_cost: 0,
            region: INVALID_REGION,
            blocks_player_sight: false,
            blocks_sight: false,
            blocks_sound: false,
            hides_player: false,
            lit: false,
            seen: false,
        };
        let mut y = y0;
        while y <= y1
            invariant
                cells.wf(),
                cells.spec_size_x() == old(cells).spec_size_x(),
                cells.spec_size_y() == old(cells).spec_size_y(),
                y0 <= y <= y1 + 1 || y == y0,
                y1 <= 1000,
                forall|i: int, j: int|
                    cells.in_bounds(i, j) ==> (#[trigger] cells.at(i, j)).region == old(cells).at(
                        i,
                        j,
                    ).region,
            decreases y1 + 1 - y,
        {
            let prev = cells.get_or(x0, y, default_cell);
            cset(cells, x0, y, Cell { cell_type: CellType::Wall0000, ..prev });
            y = y + 1;
        }
    }

fn plot_ew_wall(cells: &mut Grid<Cell>, x0: i32, y0: i32, x1: i32)
    requires
        old(cells).wf(),
        -1000 <= x0 <= 1000,
        -1000 <= x1 <= 1000,
    ensures
        final(cells).wf(),
        final(cells).spec_size_x() == old(cells).spec_size_x(),
        final(cells).spec_size_y() == old(cells).spec_size_y(),
        forall|i: int, j: int|
            final(cells).in_bounds(i, j) ==> (#[trigger] final(cells).at(i, j)).region == old(
                cells,
            ).at(i, j).region,
    {
        let default_cell = Cell {
            cell_type: CellType::GroundNormal,
            move_cost: 0,
            region: INVALID_REGION,
            blocks_player_sight: false,
            blocks_sight: false,
            blocks_sound: false,
            hides_player: false,
            lit: false,
            seen: false,
        };
        let mut x = x0;
        while x <= x1
            invariant
                cells.wf(),
                cells.spec_size_x() == old(cells).spec_size_x(),
                cells.spec_size_y() == old(cells).spec_size_y(),
                x0 <= x <= x1 + 1 || x == x0,
                x1 <= 1000,
                forall|i: int, j: int|
                    cells.in_bounds(i, j) ==> (#[trigger] cells.at(i, j)).region == old(cells).at(
                        i,
                        j,
                    ).region,
            decreases x1 + 1 - x,
        {
            let prev = cells.get_or(x, y0, default_cell);
            cset(cells, x, y0, Cell { cell_type: CellType::Wall0000, ..prev });
            x = x + 1;
        }
    }

/// Recompute every wall cell's visual variant from its wall neighborhood.
fn fixup_walls(cells: &mut Grid<Cell>)
    requires
        old(cells).wf(),
    ensures
        final(cells).wf(),
        final(cells).spec_size_x() == old(cells).spec_size_x(),
        final(cells).spec_size_y() == old(cells).spec_size_y(),
        forall|i: int, j: int|
            final(cells).in_bounds(i, j) ==> (#[trigger] final(cells).at(i, j)).region == old(
                cells,
            ).at(i, j).region,
{
    let sx = cells.size_x();
    let sy = cells.size_y();
    let mut x: usize = 0;
    while x < sx
        invariant
            cells.wf(),
            cells.spec_size_x() == sx,
            cells.spec_size_y() == sy,
            sx == old(cells).spec_size_x(),
            sy == old(cells).spec_size_y(),
            forall|i: int, j: int|
                cells.in_bounds(i, j) ==> (#[trigger] cells.at(i, j)).region == old(cells).at(
                    i,
                    j,
                ).region,
        decreases sx - x,
    {
        let mut y: usize = 0;
        while y < sy
            invariant
                cells.wf(),
                cells.spec_size_x() == sx,
                cells.spec_size_y() == sy,
                sx == old(cells).spec_size_x(),
                sy == old(cells).spec_size_y(),
                x < sx,
                forall|i: int, j: int|
                    cells.in_bounds(i, j) ==> (#[trigger] cells.at(i, j)).region == old(cells).at(
                        i,
                        j,
                    ).region,
            decreases sy - y,
        {
            let c = cells.get(x, y);
            if is_wall(c.cell_type) {
                let t = wall_type_from_neighbors(neighboring_walls(cells, x, y));
                cells.set(x, y, Cell { cell_type: t, ..c });
            }
            y = y + 1;
        }
        x = x + 1;
    }
}


/// Clamp a coordinate component into the adjacency bound (never triggered
/// by the sizes this generator produces).
fn cl(v: i32) -> (r: i32)
    ensures
        -100000 <= r <= 100000,
        -100000 <= v <= 100000 ==> r == v,
{
    if v < -100000 {
        -100000
    } else if v > 100000 {
        100000
    } else {
        v
    }
}

/// A clipped read of the room-index grid: any out-of-range value falls back
/// to room 0, the exterior.
fn rget(g: &Grid<usize>, x: usize, y: usize, nrooms: usize) -> (r: usize)
    requires
        g.wf(),
        nrooms >= 1,
    ensures
        r < nrooms,
{
    if x < g.size_x() && y < g.size_y() {
        let v = g.get(x, y);
        if v < nrooms {
            v
        } else {
            0
        }
    } else {
        0
    }
}

/// A clipped, region-preserving write of one map cell.
fn mset(map: &mut LevelMap, x: i32, y: i32, c: Cell)
    requires
        old(map).wf(),
    ensures
        final(map).wf(),
        *final(map) == (LevelMap { cells: final(map).cells, ..*old(map) }),
        final(map).cells.spec_size_x() == old(map).cells.spec_size_x(),
        final(map).cells.spec_size_y() == old(map).cells.spec_size_y(),
        old(map).cells.in_bounds(x as int, y as int) ==> final(map).cells.at(x as int, y as int)
            == (Cell { region: old(map).cells.at(x as int, y as int).region, ..c }),
        forall|i: int, j: int|
            final(map).cells.in_bounds(i, j) && !(i == x && j == y) ==> final(map).cells.at(i, j)
                == old(map).cells.at(i, j),
{
    if map.cells.contains(x, y) {
        let prev = map.cells.get(x as usize, y as usize);
        map.cells.set(x as usize, y as usize, Cell { region: prev.region, ..c });
        proof {
            assert forall|j: int|
                0 <= j < map.guards.len() implies (#[trigger] map.guards[j]).wf(
                map.size_x(),
                map.size_y(),
                map.patrol_regions.len() as int,
            ) by {}
        }
    }
}

/// A clipped item placement.
fn place_item(map: &mut LevelMap, x: i32, y: i32, item_kind: ItemKind)
    requires
        old(map).wf(),
    ensures
        final(map).wf(),
        *final(map) == (LevelMap { items: final(map).items, ..*old(map) }),
        old(map).cells.in_bounds(x as int, y as int) ==> final(map).items@ == old(map).items@.push(
            Item { pos: Coord(x, y), kind: item_kind },
        ),
        !old(map).cells.in_bounds(x as int, y as int) ==> final(map).items@ == old(map).items@,
{
    if map.cells.contains(x, y) {
        map.items.push(Item { pos: Coord(x, y), kind: item_kind });
    }
}

/// Append a patrol region covering the given rectangle (clipped to the
/// grid) and stamp every covered cell with the fresh region index. Every
/// cell inside the stored rectangle carries the new index afterward, and
/// no other cell's stamp changes.
fn add_patrol_region(map: &mut LevelMap, pos_min: Coord, pos_max: Coord, inner: bool) -> (idx:
    usize)
    requires
        old(map).wf(),
        old(map).patrol_regions.len() < 100000,
    ensures
        final(map).wf(),
        idx == old(map).patrol_regions.len(),
        final(map).patrol_regions.len() == old(map).patrol_regions.len() + 1,
        final(map).patrol_regions[idx as int].inner == inner,
        (0 <= pos_min.0 <= pos_max.0 <= old(map).size_x() && 0 <= pos_min.1 <= pos_max.1 <= old(
            map,
        ).size_y()) ==> final(map).patrol_regions[idx as int].rect == (Rect { pos_min, pos_max }),
        *final(map) == (LevelMap {
            cells: final(map).cells,
            patrol_regions: final(map).patrol_regions,
            ..*old(map)
        }),
        forall|k: int|
            0 <= k < old(map).patrol_regions.len() ==> final(map).patrol_regions[k] == old(
                map,
            ).patrol_regions[k],
        final(map).cells.spec_size_x() == old(map).cells.spec_size_x(),
        final(map).cells.spec_size_y() == old(map).cells.spec_size_y(),
        ({
            let rect = final(map).patrol_regions[idx as int].rect;
            &&& 0 <= rect.pos_min.0 <= rect.pos_max.0 <= final(map).size_x()
            &&& 0 <= rect.pos_min.1 <= rect.pos_max.1 <= final(map).size_y()
            &&& forall|x: int, y: int|
                final(map).cells.in_bounds(x, y) ==> (#[trigger] final(map).cells.at(x, y))
                    == if rect.pos_min.0 <= x < rect.pos_max.0 && rect.pos_min.1 <= y
                    < rect.pos_max.1 {
                    Cell { region: idx, ..old(map).cells.at(x, y) }
                } else {
                    old(map).cells.at(x, y)
                }
        }),
{
    let sx = map.cells.size_x() as i32;
    let sy = map.cells.size_y() as i32;
    let x0 = if pos_min.0 < 0 {
        0
    } else if pos_min.0 > sx {
        sx
    } else {
        pos_min.0
    };
    let x1 = if pos_max.0 < x0 {
        x0
    } else if pos_max.0 > sx {
        sx
    } else {
        pos_max.0
    };
    let y0 = if pos_min.1 < 0 {
        0
    } else if pos_min.1 > sy {
        sy
    } else {
        pos_min.1
    };
    let y1 = if pos_max.1 < y0 {
        y0
    } else if pos_max.1 > sy {
        sy
    } else {
        pos_max.1
    };

    let idx = map.patrol_regions.len();
    let reg = PatrolRegion { rect: Rect { pos_min: Coord(x0, y0), pos_max: Coord(x1, y1) }, inner };
    map.patrol_regions.push(reg);
    proof {
        assert forall|j: int|
            0 <= j < map.guards.len() implies (#[trigger] map.guards[j]).wf(
            map.size_x(),
            map.size_y(),
            map.patrol_regions.len() as int,
        ) by {
            assert(old(map).guards[j].wf(
                old(map).size_x(),
                old(map).size_y(),
                old(map).patrol_regions.len() as int,
            ));
        }
    }

    let mut x = x0;
    while x < x1
        invariant
            map.wf(),
            0 <= x0 <= x1 <= map.size_x(),
            0 <= y0 <= y1 <= map.size_y(),
            x0 <= x <= x1 || x == x0,
            idx < map.patrol_regions.len(),
            *map == (LevelMap {
                cells: map.cells,
                patrol_regions: map.patrol_regions,
                ..*old(map)
            }),
            map.patrol_regions@ == old(map).patrol_regions@.push(reg),
            reg == (PatrolRegion {
                rect: Rect { pos_min: Coord(x0, y0), pos_max: Coord(x1, y1) },
                inner,
            }),
            map.cells.spec_size_x() == old(map).cells.spec_size_x(),
            map.cells.spec_size_y() == old(map).cells.spec_size_y(),
            forall|i: int, j: int|
                map.cells.in_bounds(i, j) ==> (#[trigger] map.cells.at(i, j)) == if x0 <= i < x
                    && y0 <= j < y1 {
                    Cell { region: idx, ..old(map).cells.at(i, j) }
                } else {
                    old(map).cells.at(i, j)
                },
        decreases x1 - x,
    {
        let mut y = y0;
        while y < y1
            invariant
                map.wf(),
                0 <= x0 <= x1 <= map.size_x(),
                0 <= y0 <= y1 <= map.size_y(),
                x0 <= x < x1,
                y0 <= y <= y1 || y == y0,
                idx < map.patrol_regions.len(),
                *map == (LevelMap {
                    cells: map.cells,
                    patrol_regions: map.patrol_regions,
                    ..*old(map)
                }),
                map.patrol_regions@ == old(map).patrol_regions@.push(reg),
                reg == (PatrolRegion {
                    rect: Rect { pos_min: Coord(x0, y0), pos_max: Coord(x1, y1) },
                    inner,
                }),
                map.cells.spec_size_x() == old(map).cells.spec_size_x(),
                map.cells.spec_size_y() == old(map).cells.spec_size_y(),
                forall|i: int, j: int|
                    map.cells.in_bounds(i, j) ==> (#[trigger] map.cells.at(i, j)) == if (x0 <= i
                        < x && y0 <= j < y1) || (i == x && y0 <= j < y) {
                        Cell { region: idx, ..old(map).cells.at(i, j) }
                    } else {
                        old(map).cells.at(i, j)
                    },
            decreases y1 - y,
        {
            let prev = map.cells.get(x as usize, y as usize);
            map.cells.set(x as usize, y as usize, Cell { region: idx, ..prev });
            proof {
                assert forall|j: int|
                    0 <= j < map.guards.len() implies (#[trigger] map.guards[j]).wf(
                    map.size_x(),
                    map.size_y(),
                    map.patrol_regions.len() as int,
                ) by {}
            }
            y = y + 1;
        }
        x = x + 1;
    }
    idx
}

/// Append one patrol route edge.
fn add_patrol_route(map: &mut LevelMap, region0: usize, region1: usize)
    requires
        old(map).wf(),
        region0 < old(map).patrol_regions.len(),
        region1 < old(map).patrol_regions.len(),
    ensures
        final(map).wf(),
        final(map).patrol_routes@ == old(map).patrol_routes@.push((region0, region1)),
        *final(map) == (LevelMap { patrol_routes: final(map).patrol_routes, ..*old(map) }),
{
    map.patrol_routes.push((region0, region1));
}

/// Compute the room-adjacency graph: one edge per straight shared wall run,
/// with mirrored runs paired so door decisions stay symmetric.
#[verifier::rlimit(100)]
fn compute_adjacencies(
    mirror_x: bool,
    mirror_y: bool,
    inside: &Grid<bool>,
    offset_x: &Grid<i32>,
    offset_y: &Grid<i32>,
    room_index: &Grid<usize>,
    nrooms: usize,
) -> (adjacencies: Vec<Adjacency>)
    requires
        inside.wf(),
        offset_x.wf(),
        offset_y.wf(),
        room_index.wf(),
        nrooms >= 1,
    ensures
        adjs_ok(adjacencies@, nrooms as int),
{
    let rooms_x = inside.size_x();
    let rooms_y = inside.size_y();

    let mut adjacencies: Vec<Adjacency> = Vec::new();

    // Horizontal adjacencies (east-west wall runs), row by row.
    let mut h_rows: Vec<Vec<usize>> = Vec::new();
    if true {
            let mut adjacency_row: Vec<usize> = Vec::new();
            let mut rx: usize = 0;
            while rx < rooms_x
                invariant
                    inside.wf(),
                    offset_x.wf(),
                    offset_y.wf(),
                    room_index.wf(),
                    nrooms >= 1,
                    adjs_ok(adjacencies@, nrooms as int),
                    forall|k: int|
                        0 <= k < adjacency_row.len() ==> (#[trigger] adjacency_row[k] as int)
                            < adjacencies.len(),
                decreases rooms_x - rx,
            {
                let x0 = oget(offset_x, rx, 0);
                let x1 = oget(offset_x, rx + 1, 0);
                let y = oget(offset_y, rx, 0);

                let i = adjacencies.len();
                adjacency_row.push(i);
                adjacencies.push(
                    Adjacency {
                        origin: Coord(x0 + 1, y),
                        dir: Coord(1, 0),
                        length: x1 - (x0 + 1),
                        room_left: rget(room_index, rx, 0, nrooms),
                        room_right: 0,
                        next_matching: i,
                        door: false,
                    },
                );
                rx = rx + 1;
            }
            h_rows.push(adjacency_row);
    }

        let mut ry: usize = 1;
        while ry < rooms_y
            invariant
                inside.wf(),
                offset_x.wf(),
                offset_y.wf(),
                room_index.wf(),
                nrooms >= 1,
                1 <= ry,
                adjs_ok(adjacencies@, nrooms as int),
                forall|a: int, k: int|
                    0 <= a < h_rows.len() && 0 <= k < h_rows[a].len() ==> (
                    #[trigger] h_rows[a][k] as int) < adjacencies.len(),
            decreases rooms_y - ry,
        {
            let mut adjacency_row: Vec<usize> = Vec::new();
            let mut rx: usize = 0;
            while rx < rooms_x
                invariant
                    inside.wf(),
                    offset_x.wf(),
                    offset_y.wf(),
                    room_index.wf(),
                    nrooms >= 1,
                    1 <= ry,
                    adjs_ok(adjacencies@, nrooms as int),
                    forall|k: int|
                        0 <= k < adjacency_row.len() ==> (#[trigger] adjacency_row[k] as int)
                            < adjacencies.len(),
                    forall|a: int, k: int|
                        0 <= a < h_rows.len() && 0 <= k < h_rows[a].len() ==> (
                        #[trigger] h_rows[a][k] as int) < adjacencies.len(),
                decreases rooms_x - rx,
            {
                let x0_upper = oget(offset_x, rx, ry);
                let x0_lower = oget(offset_x, rx, ry - 1);
                let x1_upper = oget(offset_x, rx + 1, ry);
                let x1_lower = oget(offset_x, rx + 1, ry - 1);
                let x0 = if x0_lower >= x0_upper {
                    x0_lower
                } else {
                    x0_upper
                };
                let x1 = if x1_lower <= x1_upper {
                    x1_lower
                } else {
                    x1_upper
                };
                let y = oget(offset_y, rx, ry);

                if rx > 0 && x0_lower - x0_upper > 1 {
                    let i = adjacencies.len();
                    adjacency_row.push(i);
                    adjacencies.push(
                        Adjacency {
                            origin: Coord(x0_upper + 1, y),
                            dir: Coord(1, 0),
                            length: x0_lower - (x0_upper + 1),
                            room_left: rget(room_index, rx, ry, nrooms),
                            room_right: rget(room_index, rx - 1, ry - 1, nrooms),
                            next_matching: i,
                            door: false,
                        },
                    );
                }

                if x1 - x0 > 1 {
                    let i = adjacencies.len();
                    adjacency_row.push(i);
                    adjacencies.push(
                        Adjacency {
                            origin: Coord(x0 + 1, y),
                            dir: Coord(1, 0),
                            length: x1 - (x0 + 1),
                            room_left: rget(room_index, rx, ry, nrooms),
                            room_right: rget(room_index, rx, ry - 1, nrooms),
                            next_matching: i,
                            door: false,
                        },
                    );
                }

                if rx + 1 < rooms_x && x1_upper - x1_lower > 1 {
                    let i = adjacencies.len();
                    adjacency_row.push(i);
                    adjacencies.push(
                        Adjacency {
                            origin: Coord(x1_lower + 1, y),
                            dir: Coord(1, 0),
                            length: x1_upper - (x1_lower + 1),
                            room_left: rget(room_index, rx, ry, nrooms),
                            room_right: rget(room_index, rx + 1, ry - 1, nrooms),
                            next_matching: i,
                            door: false,
                        },
                    );
                }
                rx = rx + 1;
            }
            h_rows.push(adjacency_row);
            ry = ry + 1;
        }

    if true {
            let mut adjacency_row: Vec<usize> = Vec::new();
            let mut rx: usize = 0;
            while rx < rooms_x
                invariant
                    inside.wf(),
                    offset_x.wf(),
                    offset_y.wf(),
                    room_index.wf(),
                    nrooms >= 1,
                    rooms_y >= 1,
                    adjs_ok(adjacencies@, nrooms as int),
                    forall|k: int|
                        0 <= k < adjacency_row.len() ==> (#[trigger] adjacency_row[k] as int)
                            < adjacencies.len(),
                    forall|a: int, k: int|
                        0 <= a < h_rows.len() && 0 <= k < h_rows[a].len() ==> (
                        #[trigger] h_rows[a][k] as int) < adjacencies.len(),
                decreases rooms_x - rx,
            {
                let x0 = oget(offset_x, rx, rooms_y - 1);
                let x1 = oget(offset_x, rx + 1, rooms_y - 1);
                let y = oget(offset_y, rx, rooms_y);

                let i = adjacencies.len();
                adjacency_row.push(i);
                adjacencies.push(
                    Adjacency {
                        origin: Coord(x0 + 1, y),
                        dir: Coord(1, 0),
                        length: x1 - (x0 + 1),
                        room_left: 0,
                        room_right: rget(room_index, rx, rooms_y - 1, nrooms),
                        next_matching: i,
                        door: false,
                    },
                );
                rx = rx + 1;
            }
            h_rows.push(adjacency_row);
    }

    if mirror_x {
        mirror_within_rows(&mut adjacencies, &h_rows, nrooms);
    }
    if mirror_y {
        mirror_across_rows(&mut adjacencies, &h_rows, nrooms);
    }

    // Vertical adjacencies (north-south wall runs), column by column.
    let mut v_rows: Vec<Vec<usize>> = Vec::new();
    if true {
            let mut adjacency_row: Vec<usize> = Vec::new();
            let mut ry: usize = 0;
            while ry < rooms_y
                invariant
                    inside.wf(),
                    offset_x.wf(),
                    offset_y.wf(),
                    room_index.wf(),
                    nrooms >= 1,
                    adjs_ok(adjacencies@, nrooms as int),
                    forall|k: int|
                        0 <= k < adjacency_row.len() ==> (#[trigger] adjacency_row[k] as int)
                            < adjacencies.len(),
                decreases rooms_y - ry,
            {
                let y0 = oget(offset_y, 0, ry);
                let y1 = oget(offset_y, 0, ry + 1);
                let x = oget(offset_x, 0, ry);

                let i = adjacencies.len();
                adjacency_row.push(i);
                adjacencies.push(
                    Adjacency {
                        origin: Coord(x, y0 + 1),
                        dir: Coord(0, 1),
                        length: y1 - (y0 + 1),
                        room_left: 0,
                        room_right: rget(room_index, 0, ry, nrooms),
                        next_matching: i,
                        door: false,
                    },
                );
                ry = ry + 1;
            }
            v_rows.push(adjacency_row);
    }

        let mut rx: usize = 1;
        while rx < rooms_x
            invariant
                inside.wf(),
                offset_x.wf(),
                offset_y.wf(),
                room_index.wf(),
                nrooms >= 1,
                1 <= rx,
                adjs_ok(adjacencies@, nrooms as int),
                forall|a: int, k: int|
                    0 <= a < v_rows.len() && 0 <= k < v_rows[a].len() ==> (
                    #[trigger] v_rows[a][k] as int) < adjacencies.len(),
            decreases rooms_x - rx,
        {
            let mut adjacency_row: Vec<usize> = Vec::new();
            let mut ry: usize = 0;
            while ry < rooms_y
                invariant
                    inside.wf(),
                    offset_x.wf(),
                    offset_y.wf(),
                    room_index.wf(),
                    nrooms >= 1,
                    1 <= rx,
                    adjs_ok(adjacencies@, nrooms as int),
                    forall|k: int|
                        0 <= k < adjacency_row.len() ==> (#[trigger] adjacency_row[k] as int)
                            < adjacencies.len(),
                    forall|a: int, k: int|
                        0 <= a < v_rows.len() && 0 <= k < v_rows[a].len() ==> (
                        #[trigger] v_rows[a][k] as int) < adjacencies.len(),
                decreases rooms_y - ry,
            {
                let y0_left = oget(offset_y, rx - 1, ry);
                let y0_right = oget(offset_y, rx, ry);
                let y1_left = oget(offset_y, rx - 1, ry + 1);
                let y1_right = oget(offset_y, rx, ry + 1);
                let y0 = if y0_left >= y0_right {
                    y0_left
                } else {
                    y0_right
                };
                let y1 = if y1_left <= y1_right {
                    y1_left
                } else {
                    y1_right
                };
                let x = oget(offset_x, rx, ry);

                if ry > 0 && y0_left - y0_right > 1 {
                    let i = adjacencies.len();
                    adjacency_row.push(i);
                    adjacencies.push(
                        Adjacency {
                            origin: Coord(x, y0_right + 1),
                            dir: Coord(0, 1),
                            length: y0_left - (y0_right + 1),
                            room_left: rget(room_index, rx - 1, ry - 1, nrooms),
                            room_right: rget(room_index, rx, ry, nrooms),
                            next_matching: i,
                            door: false,
                        },
                    );
                }

                if y1 - y0 > 1 {
                    let i = adjacencies.len();
                    adjacency_row.push(i);
                    adjacencies.push(
                        Adjacency {
                            origin: Coord(x, y0 + 1),
                            dir: Coord(0, 1),
                            length: y1 - (y0 + 1),
                            room_left: rget(room_index, rx - 1, ry, nrooms),
                            room_right: rget(room_index, rx, ry, nrooms),
                            next_matching: i,
                            door: false,
                        },
                    );
                }

                if ry + 1 < rooms_y && y1_right - y1_left > 1 {
                    let i = adjacencies.len();
                    adjacency_row.push(i);
                    adjacencies.push(
                        Adjacency {
                            origin: Coord(x, y1_left + 1),
                            dir: Coord(0, 1),
                            length: y1_right - (y1_left + 1),
                            room_left: rget(room_index, rx - 1, ry + 1, nrooms),
                            room_right: rget(room_index, rx, ry, nrooms),
                            next_matching: i,
                            door: false,
                        },
                    );
                }
                ry = ry + 1;
            }
            v_rows.push(adjacency_row);
            rx = rx + 1;
        }

    if true {
            let mut adjacency_row: Vec<usize> = Vec::new();
            let mut ry: usize = 0;
            while ry < rooms_y
                invariant
                    inside.wf(),
                    offset_x.wf(),
                    offset_y.wf(),
                    room_index.wf(),
                    nrooms >= 1,
                    rooms_x >= 1,
                    adjs_ok(adjacencies@, nrooms as int),
                    forall|k: int|
                        0 <= k < adjacency_row.len() ==> (#[trigger] adjacency_row[k] as int)
                            < adjacencies.len(),
                    forall|a: int, k: int|
                        0 <= a < v_rows.len() && 0 <= k < v_rows[a].len() ==> (
                        #[trigger] v_rows[a][k] as int) < adjacencies.len(),
                decreases rooms_y - ry,
            {
                let y0 = oget(offset_y, rooms_x - 1, ry);
                let y1 = oget(offset_y, rooms_x - 1, ry + 1);
                let x = oget(offset_x, rooms_x, ry);

                let i = adjacencies.len();
                adjacency_row.push(i);
                adjacencies.push(
                    Adjacency {
                        origin: Coord(x, y0 + 1),
                        dir: Coord(0, 1),
                        length: y1 - (y0 + 1),
                        room_left: rget(room_index, rooms_x - 1, ry, nrooms),
                        room_right: 0,
                        next_matching: i,
                        door: false,
                    },
                );
                ry = ry + 1;
            }
            v_rows.push(adjacency_row);
    }

    if mirror_y {
        mirror_within_rows(&mut adjacencies, &v_rows, nrooms);
    }
    if mirror_x {
        mirror_across_rows(&mut adjacencies, &v_rows, nrooms);
    }

    adjacencies
}

/// Pair up the elements of each row from its two ends (the mirror images of
/// one another), flipping the second of each pair to point the opposite way.
fn mirror_within_rows(
    adjacencies: &mut Vec<Adjacency>,
    adjacency_rows: &Vec<Vec<usize>>,
    nrooms: usize,
)
    requires
        adjs_ok(old(adjacencies)@, nrooms as int),
        forall|a: int, k: int|
            0 <= a < adjacency_rows.len() && 0 <= k < adjacency_rows[a].len() ==> (
            #[trigger] adjacency_rows[a][k] as int) < old(adjacencies).len(),
    ensures
        final(adjacencies).len() == old(adjacencies).len(),
        adjs_ok(final(adjacencies)@, nrooms as int),
{
    let nrows = adjacency_rows.len();
    let mut ry: usize = 0;
    while ry < nrows
        invariant
            nrows == adjacency_rows.len(),
            adjacencies.len() == old(adjacencies).len(),
            adjs_ok(adjacencies@, nrooms as int),
            forall|a: int, k: int|
                0 <= a < adjacency_rows.len() && 0 <= k < adjacency_rows[a].len() ==> (
                #[trigger] adjacency_rows[a][k] as int) < adjacencies.len(),
        decreases nrows - ry,
    {
        let row = &adjacency_rows[ry];
        if row.len() > 0 {
            let mut i: usize = 0;
            let mut j: usize = row.len() - 1;
            while i < j
                invariant
                    j < row.len(),
                    adjacencies.len() == old(adjacencies).len(),
                    adjs_ok(adjacencies@, nrooms as int),
                    forall|a: int, k: int|
                        0 <= a < adjacency_rows.len() && 0 <= k < adjacency_rows[a].len() ==> (
                        #[trigger] adjacency_rows[a][k] as int) < adjacencies.len(),
                    ry < adjacency_rows.len(),
                    row == adjacency_rows[ry as int],
                decreases j,
            {
                let adj0 = row[i];
                let adj1 = row[j];

                let mut a0 = adjacencies[adj0];
                a0.next_matching = adj1;
                adjacencies.set(adj0, a0);

                let mut a1 = adjacencies[adj1];
                a1.next_matching = adj0;
                proof {
                    assert(adj_ok(
                        adjacencies@[adj1 as int],
                        nrooms as int,
                        adjacencies@.len() as int,
                    ));
                    assert(-10001 <= a1.dir.0 as int * (a1.length - 1) <= 10001 && -10001
                        <= a1.dir.1 as int * (a1.length - 1) <= 10001) by (nonlinear_arith)
                        requires
                            -1 <= a1.dir.0 <= 1,
                            -1 <= a1.dir.1 <= 1,
                            -10000 <= a1.length <= 10000,
                    ;
                }
                // Flip this edge to point the opposite direction.
                a1.origin = Coord(
                    cl(a1.origin.0 + a1.dir.0 * (a1.length - 1)),
                    cl(a1.origin.1 + a1.dir.1 * (a1.length - 1)),
                );
                a1.dir = Coord(-a1.dir.0, -a1.dir.1);
                let rl = a1.room_left;
                a1.room_left = a1.room_right;
                a1.room_right = rl;
                adjacencies.set(adj1, a1);

                i = i + 1;
                j = j - 1;
            }
        }
        ry = ry + 1;
    }
}

/// Pair the rows themselves from the two ends: element k of the first row
/// of a pair matches element k of the last, and so inward.
fn mirror_across_rows(
    adjacencies: &mut Vec<Adjacency>,
    adjacency_rows: &Vec<Vec<usize>>,
    nrooms: usize,
)
    requires
        adjs_ok(old(adjacencies)@, nrooms as int),
        forall|a: int, k: int|
            0 <= a < adjacency_rows.len() && 0 <= k < adjacency_rows[a].len() ==> (
            #[trigger] adjacency_rows[a][k] as int) < old(adjacencies).len(),
    ensures
        final(adjacencies).len() == old(adjacencies).len(),
        adjs_ok(final(adjacencies)@, nrooms as int),
{
    if adjacency_rows.len() == 0 {
        return ;
    }
    let mut ry0: usize = 0;
    let mut ry1: usize = adjacency_rows.len() - 1;
    while ry0 < ry1
        invariant
            ry1 < adjacency_rows.len(),
            adjacencies.len() == old(adjacencies).len(),
            adjs_ok(adjacencies@, nrooms as int),
            forall|a: int, k: int|
                0 <= a < adjacency_rows.len() && 0 <= k < adjacency_rows[a].len() ==> (
                #[trigger] adjacency_rows[a][k] as int) < adjacencies.len(),
        decreases ry1,
    {
        let row0 = &adjacency_rows[ry0];
        let row1 = &adjacency_rows[ry1];
        let n = if row0.len() <= row1.len() {
            row0.len()
        } else {
            row1.len()
        };

        let mut i: usize = 0;
        while i < n
            invariant
                n <= row0.len(),
                n <= row1.len(),
                adjacencies.len() == old(adjacencies).len(),
                adjs_ok(adjacencies@, nrooms as int),
                forall|a: int, k: int|
                    0 <= a < adjacency_rows.len() && 0 <= k < adjacency_rows[a].len() ==> (
                    #[trigger] adjacency_rows[a][k] as int) < adjacencies.len(),
                ry0 < adjacency_rows.len(),
                ry1 < adjacency_rows.len(),
                row0 == adjacency_rows[ry0 as int],
                row1 == adjacency_rows[ry1 as int],
            decreases n - i,
        {
            let adj0 = row0[i];
            let adj1 = row1[i];
            let mut a0 = adjacencies[adj0];
            a0.next_matching = adj1;
            adjacencies.set(adj0, a0);
            let mut a1 = adjacencies[adj1];
            a1.next_matching = adj0;
            adjacencies.set(adj1, a1);
            i = i + 1;
        }

        ry0 = ry0 + 1;
        ry1 = ry1 - 1;
    }
}

/// The per-room lists of incident adjacency edges.
fn store_adjacencies_in_rooms(adjacencies: &Vec<Adjacency>, nrooms: usize) -> (edges: Vec<
    Vec<usize>,
>)
    ensures
        edges.len() == nrooms,
        edges_ok(edges@, adjacencies.len() as int),
{
    let mut edges: Vec<Vec<usize>> = Vec::new();
    let mut i: usize = 0;
    while i < nrooms
        invariant
            edges.len() == i,
            i <= nrooms,
            edges_ok(edges@, adjacencies.len() as int),
        decreases nrooms - i,
    {
        let mut room_edges: Vec<usize> = Vec::new();
        let n = adjacencies.len();
        let mut k: usize = 0;
        while k < n
            invariant
                n == adjacencies.len(),
                forall|t: int|
                    0 <= t < room_edges.len() ==> (#[trigger] room_edges[t] as int)
                        < adjacencies.len(),
            decreases n - k,
        {
            if adjacencies[k].room_left == i || adjacencies[k].room_right == i {
                room_edges.push(k);
            }
            k = k + 1;
        }
        edges.push(room_edges);
        i = i + 1;
    }
    edges
}


pub fn is_courtyard_room_type(room_type: RoomType) -> (r: bool)
    ensures
        r == (room_type == RoomType::PublicCourtyard || room_type == RoomType::PrivateCourtyard),
{
    match room_type {
        RoomType::Exterior => false,
        RoomType::PublicCourtyard => true,
        RoomType::PublicRoom => false,
        RoomType::PrivateCourtyard => true,
        RoomType::PrivateRoom => false,
    }
}

/// `d * k` for a unit component `d`.
fn mul_unit(d: i32, k: i32) -> (r: i32)
    requires
        -1 <= d <= 1,
        -100000 <= k <= 100000,
    ensures
        r == d * k,
        -100000 <= r <= 100000,
{
    if d == 1 {
        proof {
            assert(d * k == k) by (nonlinear_arith)
                requires
                    d == 1,
            ;
        }
        k
    } else if d == -1 {
        proof {
            assert(d * k == -k) by (nonlinear_arith)
                requires
                    d == -1,
            ;
        }
        -k
    } else {
        proof {
            assert(d * k == 0) by (nonlinear_arith)
                requires
                    d == 0,
            ;
        }
        0
    }
}

/// The cell `k` steps along an adjacency from its origin.
fn adj_at(a: &Adjacency, k: i32) -> (p: Coord)
    requires
        -100000 <= a.origin.0 <= 100000,
        -100000 <= a.origin.1 <= 100000,
        -1 <= a.dir.0 <= 1,
        -1 <= a.dir.1 <= 1,
        -100000 <= k <= 100000,
    ensures
        p.0 == a.origin.0 + a.dir.0 * k,
        p.1 == a.origin.1 + a.dir.1 * k,
        -200000 <= p.0 <= 200000,
        -200000 <= p.1 <= 200000,
{
    Coord(a.origin.0 + mul_unit(a.dir.0, k), a.origin.1 + mul_unit(a.dir.1, k))
}

/// Merge one union-find group into another: every room of `group_from`
/// joins `group_to`.
fn join_groups(rooms: &mut Vec<Room>, group_from: usize, group_to: usize)
    ensures
        final(rooms).len() == old(rooms).len(),
        forall|i: int|
            0 <= i < final(rooms).len() ==> #[trigger] final(rooms)[i] == (Room {
                group: final(rooms)[i].group,
                ..old(rooms)[i]
            }),
{
    if group_from != group_to {
        let n = rooms.len();
        let mut i: usize = 0;
        while i < n
            invariant
                n == rooms.len(),
                forall|j: int|
                    0 <= j < rooms.len() ==> #[trigger] rooms[j] == (Room {
                        group: rooms[j].group,
                        ..old(rooms)[j]
                    }),
            decreases n - i,
        {
            if rooms[i].group == group_from {
                let mut r = rooms[i];
                r.group = group_to;
                rooms.set(i, r);
            }
            i = i + 1;
        }
    }
}

/// Collect the edge sets that mirror each other (pairs, or an edge alone
/// when it is its own mirror), in a random order.
fn get_edge_sets(random: &mut Rng, adjacencies: &Vec<Adjacency>) -> (edge_sets: Vec<(usize, usize)>)
    ensures
        forall|i: int|
            0 <= i < edge_sets.len() ==> ((#[trigger] edge_sets[i]).0 < adjacencies.len()
                && edge_sets[i].1 < adjacencies.len()),
{
    let mut edge_sets: Vec<(usize, usize)> = Vec::new();
    let n = adjacencies.len();
    let mut i: usize = 0;
    while i < n
        invariant
            n == adjacencies.len(),
            i <= n,
            forall|t: int|
                0 <= t < edge_sets.len() ==> ((#[trigger] edge_sets[t]).0 < adjacencies.len()
                    && edge_sets[t].1 < adjacencies.len()),
        decreases n - i,
    {
        let j = adjacencies[i].next_matching;
        if j >= i && j < n {
            edge_sets.push((i, j));
        }
        i = i + 1;
    }

    // Shuffle the sets.
    let mut k = edge_sets.len();
    while k > 1
        invariant
            k <= edge_sets.len(),
            forall|t: int|
                0 <= t < edge_sets.len() ==> ((#[trigger] edge_sets[t]).0 < adjacencies.len()
                    && edge_sets[t].1 < adjacencies.len()),
        decreases k,
    {
        let j = random.below(k);
        k = k - 1;
        let a = edge_sets[j];
        let b = edge_sets[k];
        edge_sets.set(j, b);
        edge_sets.set(k, a);
    }

    edge_sets
}

/// The adjacency that will carry the mansion's front door: a south-facing
/// run bordering the exterior.
fn front_door_adjacency_index(
    rooms: &Vec<Room>,
    adjacencies: &Vec<Adjacency>,
    edge_sets: &Vec<(usize, usize)>,
) -> (r: usize)
    requires
        adjacencies.len() >= 1,
        adjs_ok(adjacencies@, rooms.len() as int),
        forall|i: int|
            0 <= i < edge_sets.len() ==> ((#[trigger] edge_sets[i]).0 < adjacencies.len()
                && edge_sets[i].1 < adjacencies.len()),
    ensures
        r < adjacencies.len(),
{
    let n = edge_sets.len();
    let mut s: usize = 0;
    while s < n
        invariant
            n == edge_sets.len(),
            adjacencies.len() >= 1,
            adjs_ok(adjacencies@, rooms.len() as int),
            forall|i: int|
                0 <= i < edge_sets.len() ==> ((#[trigger] edge_sets[i]).0 < adjacencies.len()
                    && edge_sets[i].1 < adjacencies.len()),
        decreases n - s,
    {
        let (e0, e1) = edge_sets[s];
        let mut t: usize = 0;
        while t < 2
            invariant
                t <= 2,
                adjacencies.len() >= 1,
                adjs_ok(adjacencies@, rooms.len() as int),
                e0 < adjacencies.len(),
                e1 < adjacencies.len(),
            decreases 2 - t,
        {
            let i = if t == 0 {
                e0
            } else {
                e1
            };
            t = t + 1;
            if t == 2 && e1 == e0 {
                continue;
            }
            let adj = adjacencies[i];

            if adj.dir.0 == 0 {
                continue;
            }
            if adj.next_matching > i {
                continue;
            }
            if adj.next_matching == i {
                if rooms[adj.room_right].room_type != RoomType::Exterior {
                    continue;
                }
            } else {
                if rooms[adj.room_left].room_type != RoomType::Exterior {
                    continue;
                }
            }
            return i;
        }
        s = s + 1;
    }
    0
}

/// Connect the rooms into one walkable mansion: courtyards merge freely,
/// interior rooms and courtyards are joined by doors until connected (with
/// extra random doors for loops), and exactly one south-facing adjacency to
/// the exterior becomes the front door. Where the chosen door's mirror
/// partner differs, the symmetry link is broken so only the chosen side
/// opens. The player starts just outside the front door.
fn connect_rooms(
    random: &mut Rng,
    rooms: &mut Vec<Room>,
    adjacencies: &mut Vec<Adjacency>,
) -> (pos_start: Coord)
    requires
        adjs_ok(old(adjacencies)@, old(rooms).len() as int),
        rooms_ok(old(rooms)@),
    ensures
        final(rooms).len() == old(rooms).len(),
        final(adjacencies).len() == old(adjacencies).len(),
        adjs_ok(final(adjacencies)@, final(rooms).len() as int),
        forall|i: int|
            0 <= i < final(rooms).len() ==> #[trigger] final(rooms)[i] == (Room {
                group: final(rooms)[i].group,
                ..old(rooms)[i]
            }),
        -300000 <= pos_start.0 <= 300000,
        -300000 <= pos_start.1 <= 300000,
{
    // Connect all adjacent courtyard rooms together.
    let n = adjacencies.len();
    let mut i: usize = 0;
    while i < n
        invariant
            n == adjacencies.len(),
            rooms.len() == old(rooms).len(),
            adjs_ok(adjacencies@, rooms.len() as int),
            forall|j: int|
                0 <= j < rooms.len() ==> #[trigger] rooms[j] == (Room {
                    group: rooms[j].group,
                    ..old(rooms)[j]
                }),
        decreases n - i,
    {
        let adj = adjacencies[i];
        let i0 = adj.room_left;
        let i1 = adj.room_right;
        if rooms[i0].room_type == RoomType::PublicCourtyard && rooms[i1].room_type
            == RoomType::PublicCourtyard {
            let mut a = adj;
            a.door = true;
            adjacencies.set(i, a);
            let group0 = rooms[i0].group;
            let group1 = rooms[i1].group;
            join_groups(rooms, group0, group1);
        }
        i = i + 1;
    }

    let edge_sets = get_edge_sets(random, adjacencies);

    // Connect the interior rooms with doors.
    let m = edge_sets.len();
    let mut s: usize = 0;
    while s < m
        invariant
            m == edge_sets.len(),
            rooms.len() == old(rooms).len(),
            adjacencies.len() == n,
            n == old(adjacencies).len(),
            adjs_ok(adjacencies@, rooms.len() as int),
            forall|t: int|
                0 <= t < edge_sets.len() ==> ((#[trigger] edge_sets[t]).0 < adjacencies.len()
                    && edge_sets[t].1 < adjacencies.len()),
            forall|j: int|
                0 <= j < rooms.len() ==> #[trigger] rooms[j] == (Room {
                    group: rooms[j].group,
                    ..old(rooms)[j]
                }),
        decreases m - s,
    {
        let (e0, e1) = edge_sets[s];
        let adj = adjacencies[e0];
        let i0 = adj.room_left;
        let i1 = adj.room_right;

        if rooms[i0].room_type == RoomType::PublicRoom && rooms[i1].room_type
            == RoomType::PublicRoom {
            let group0 = rooms[i0].group;
            let group1 = rooms[i1].group;

            if group0 != group1 || random.chance(2, 5) {
                let mut a = adj;
                a.door = true;
                adjacencies.set(e0, a);
                join_groups(rooms, group0, group1);

                if e1 != e0 {
                    let mut b = adjacencies[e1];
                    b.door = true;
                    adjacencies.set(e1, b);
                    let g0 = rooms[b.room_left].group;
                    let g1 = rooms[b.room_right].group;
                    join_groups(rooms, g0, g1);
                }
            }
        }
        s = s + 1;
    }

    // Create doors between the interiors and the courtyard areas.
    let mut s: usize = 0;
    while s < m
        invariant
            m == edge_sets.len(),
            rooms.len() == old(rooms).len(),
            adjacencies.len() == n,
            n == old(adjacencies).len(),
            adjs_ok(adjacencies@, rooms.len() as int),
            forall|t: int|
                0 <= t < edge_sets.len() ==> ((#[trigger] edge_sets[t]).0 < adjacencies.len()
                    && edge_sets[t].1 < adjacencies.len()),
            forall|j: int|
                0 <= j < rooms.len() ==> #[trigger] rooms[j] == (Room {
                    group: rooms[j].group,
                    ..old(rooms)[j]
                }),
        decreases m - s,
    {
        let (e0, e1) = edge_sets[s];
        let adj = adjacencies[e0];
        let i0 = adj.room_left;
        let i1 = adj.room_right;

        let room_type0 = rooms[i0].room_type;
        let room_type1 = rooms[i1].room_type;

        if room_type0 != room_type1 && room_type0 != RoomType::Exterior && room_type1
            != RoomType::Exterior {
            let group0 = rooms[i0].group;
            let group1 = rooms[i1].group;

            if group0 != group1 || random.chance(2, 5) {
                let mut a = adj;
                a.door = true;
                adjacencies.set(e0, a);
                join_groups(rooms, group0, group1);

                if e1 != e0 {
                    let mut b = adjacencies[e1];
                    b.door = true;
                    adjacencies.set(e1, b);
                    let g0 = rooms[b.room_left].group;
                    let g1 = rooms[b.room_right].group;
                    join_groups(rooms, g0, g1);
                }
            }
        }
        s = s + 1;
    }

    // The front door to the surrounding exterior, on the south side.
    let mut pos_start = Coord(0, OUTER_BORDER - 1);

    if adjacencies.len() > 0 {
        let i = front_door_adjacency_index(rooms, adjacencies, &edge_sets);

        let mut a = adjacencies[i];
        pos_start.0 = adj_at(&a, a.length / 2).0;
        a.door = true;

        // Break symmetry if the door is off center.
        let j = a.next_matching;
        if j != i {
            a.next_matching = i;
            adjacencies.set(i, a);
            let mut b = adjacencies[j];
            b.next_matching = j;
            adjacencies.set(j, b);
        } else {
            adjacencies.set(i, a);
        }
    }

    pos_start
}


/// Assign each room a breadth-first depth from the entrance row, then
/// reclassify the deepest quarter of the rooms as private (master-suite),
/// and escalate any public courtyard adjacent to a private courtyard.
fn assign_room_types(
    room_index: &Grid<usize>,
    adjacencies: &Vec<Adjacency>,
    rooms: &mut Vec<Room>,
    room_edges: &Vec<Vec<usize>>,
)
    requires
        room_index.wf(),
        old(rooms).len() >= 1,
        adjs_ok(adjacencies@, old(rooms).len() as int),
        room_edges.len() == old(rooms).len(),
        edges_ok(room_edges@, adjacencies.len() as int),
    ensures
        final(rooms).len() == old(rooms).len(),
        forall|i: int|
            0 <= i < final(rooms).len() ==> #[trigger] final(rooms)[i] == (Room {
                room_type: final(rooms)[i].room_type,
                depth: final(rooms)[i].depth,
                ..old(rooms)[i]
            }),
{
    let nrooms = rooms.len();
    let unvisited = nrooms;

    // Seed depths: unvisited everywhere, 1 on the entrance row.
    let mut i: usize = 0;
    while i < nrooms
        invariant
            nrooms == rooms.len(),
            forall|j: int|
                0 <= j < rooms.len() ==> #[trigger] rooms[j] == (Room {
                    room_type: rooms[j].room_type,
                    depth: rooms[j].depth,
                    ..old(rooms)[j]
                }),
        decreases nrooms - i,
    {
        let mut r = rooms[i];
        r.depth = if i == 0 {
            0
        } else {
            unvisited
        };
        rooms.set(i, r);
        i = i + 1;
    }

    let mut rooms_to_visit: Vec<usize> = Vec::new();
    let w = room_index.size_x();
    let mut x: usize = 0;
    while x < w
        invariant
            room_index.wf(),
            nrooms == rooms.len(),
            nrooms >= 1,
            forall|k: int| 0 <= k < rooms_to_visit.len() ==> (#[trigger] rooms_to_visit[k] as int) < nrooms,
            forall|j: int|
                0 <= j < rooms.len() ==> #[trigger] rooms[j] == (Room {
                    room_type: rooms[j].room_type,
                    depth: rooms[j].depth,
                    ..old(rooms)[j]
                }),
        decreases w - x,
    {
        let i_room = rget(room_index, x, 0, nrooms);
        let mut r = rooms[i_room];
        r.depth = 1;
        rooms.set(i_room, r);
        rooms_to_visit.push(i_room);
        x = x + 1;
    }

    // Breadth-first: each doored neighbor of a visited room is one deeper.
    let mut ii_room: usize = 0;
    let mut fuel: usize = 1_000_000;
    while ii_room < rooms_to_visit.len() && fuel > 0
        invariant
            nrooms == rooms.len(),
            nrooms >= 1,
            adjs_ok(adjacencies@, nrooms as int),
            room_edges.len() == nrooms,
            edges_ok(room_edges@, adjacencies.len() as int),
            forall|k: int| 0 <= k < rooms_to_visit.len() ==> (#[trigger] rooms_to_visit[k] as int) < nrooms,
            forall|j: int|
                0 <= j < rooms.len() ==> #[trigger] rooms[j] == (Room {
                    room_type: rooms[j].room_type,
                    depth: rooms[j].depth,
                    ..old(rooms)[j]
                }),
        decreases fuel,
    {
        fuel = fuel - 1;
        let i_room = rooms_to_visit[ii_room];

        let edges = &room_edges[i_room];
        let ne = edges.len();
        let mut k: usize = 0;
        while k < ne
            invariant
                nrooms == rooms.len(),
                nrooms >= 1,
                adjs_ok(adjacencies@, nrooms as int),
                room_edges.len() == nrooms,
                edges_ok(room_edges@, adjacencies.len() as int),
                i_room < nrooms,
                ne == edges.len(),
                edges == room_edges[i_room as int],
                forall|t: int| 0 <= t < rooms_to_visit.len() ==> (#[trigger] rooms_to_visit[t] as int) < nrooms,
                forall|j: int|
                    0 <= j < rooms.len() ==> #[trigger] rooms[j] == (Room {
                        room_type: rooms[j].room_type,
                        depth: rooms[j].depth,
                        ..old(rooms)[j]
                    }),
            decreases ne - k,
        {
            let i_adj = edges[k];
            let adj = adjacencies[i_adj];
            if adj.door {
                let i_room_neighbor = if adj.room_left == i_room {
                    adj.room_right
                } else {
                    adj.room_left
                };
                if rooms[i_room_neighbor].depth == unvisited {
                    let d = rooms[i_room].depth;
                    let mut r = rooms[i_room_neighbor];
                    r.depth = sat_add(d, 1);
                    rooms.set(i_room_neighbor, r);
                    rooms_to_visit.push(i_room_neighbor);
                }
            }
            k = k + 1;
        }
        ii_room = ii_room + 1;
    }

    // Reclassify the deepest rooms as private, deepest first, until the
    // master-room quota is met.
    let mut max_depth: usize = 0;
    let mut i: usize = 0;
    while i < nrooms
        invariant
            nrooms == rooms.len(),
        decreases nrooms - i,
    {
        if rooms[i].depth > max_depth {
            max_depth = rooms[i].depth;
        }
        i = i + 1;
    }

    proof {
        assert(
            room_index.spec_size_x() * room_index.spec_size_y() <= 0x10000000)
            by (nonlinear_arith)
            requires
                1 <= room_index.spec_size_x() <= 0x4000,
                1 <= room_index.spec_size_y() <= 0x4000,
        ;
    }
    let target_num_master_rooms = (room_index.size_x() * room_index.size_y()) / 4;

    let mut num_master_rooms: usize = 0;
    let mut depth = max_depth;
    while depth > 0
        invariant
            nrooms == rooms.len(),
            forall|j: int|
                0 <= j < rooms.len() ==> #[trigger] rooms[j] == (Room {
                    room_type: rooms[j].room_type,
                    depth: rooms[j].depth,
                    ..old(rooms)[j]
                }),
        decreases depth,
    {
        let mut i: usize = 0;
        while i < nrooms
            invariant
                nrooms == rooms.len(),
                forall|j: int|
                    0 <= j < rooms.len() ==> #[trigger] rooms[j] == (Room {
                        room_type: rooms[j].room_type,
                        depth: rooms[j].depth,
                        ..old(rooms)[j]
                    }),
            decreases nrooms - i,
        {
            let r = rooms[i];
            if (r.room_type == RoomType::PublicRoom || r.room_type == RoomType::PublicCourtyard)
                && r.depth == depth {
                let mut r2 = r;
                r2.room_type = if r.room_type == RoomType::PublicRoom {
                    RoomType::PrivateRoom
                } else {
                    RoomType::PrivateCourtyard
                };
                rooms.set(i, r2);
                if r2.room_type == RoomType::PrivateRoom {
                    num_master_rooms = sat_add(num_master_rooms, 1);
                }
            }
            i = i + 1;
        }

        if num_master_rooms >= target_num_master_rooms {
            break ;
        }
        depth = depth - 1;
    }

    // Escalate public courtyards adjacent to private ones, to fixpoint.
    let mut fuel: usize = 100_000;
    while fuel > 0
        invariant
            nrooms == rooms.len(),
            nrooms >= 1,
            adjs_ok(adjacencies@, nrooms as int),
            room_edges.len() == nrooms,
            edges_ok(room_edges@, adjacencies.len() as int),
            forall|j: int|
                0 <= j < rooms.len() ==> #[trigger] rooms[j] == (Room {
                    room_type: rooms[j].room_type,
                    depth: rooms[j].depth,
                    ..old(rooms)[j]
                }),
        decreases fuel,
    {
        fuel = fuel - 1;
        let mut changed = false;

        let mut i_room: usize = 0;
        while i_room < nrooms
            invariant
                nrooms == rooms.len(),
                nrooms >= 1,
                adjs_ok(adjacencies@, nrooms as int),
                room_edges.len() == nrooms,
                edges_ok(room_edges@, adjacencies.len() as int),
                forall|j: int|
                    0 <= j < rooms.len() ==> #[trigger] rooms[j] == (Room {
                        room_type: rooms[j].room_type,
                        depth: rooms[j].depth,
                        ..old(rooms)[j]
                    }),
            decreases nrooms - i_room,
        {
            if rooms[i_room].room_type == RoomType::PublicCourtyard {
                let edges = &room_edges[i_room];
                let ne = edges.len();
                let mut k: usize = 0;
                while k < ne
                    invariant
                        nrooms == rooms.len(),
                        nrooms >= 1,
                        adjs_ok(adjacencies@, nrooms as int),
                        room_edges.len() == nrooms,
                        edges_ok(room_edges@, adjacencies.len() as int),
                        i_room < nrooms,
                        ne == edges.len(),
                        edges == room_edges[i_room as int],
                        forall|j: int|
                            0 <= j < rooms.len() ==> #[trigger] rooms[j] == (Room {
                                room_type: rooms[j].room_type,
                                depth: rooms[j].depth,
                                ..old(rooms)[j]
                            }),
                    decreases ne - k,
                {
                    let adj = adjacencies[edges[k]];
                    let i_room_other = if adj.room_left != i_room {
                        adj.room_left
                    } else {
                        adj.room_right
                    };
                    if rooms[i_room_other].room_type == RoomType::PrivateCourtyard {
                        let mut r = rooms[i_room];
                        r.room_type = RoomType::PrivateCourtyard;
                        rooms.set(i_room, r);
                        changed = true;
                    }
                    k = k + 1;
                }
            }
            i_room = i_room + 1;
        }

        if !changed {
            break ;
        }
    }
}

/// Which rooms survive iterated dead-end trimming: a room stays included
/// while at least two of its door-connected neighbors are still included.
pub fn non_dead_end_rooms(
    rooms: &Vec<Room>,
    adjacencies: &Vec<Adjacency>,
    room_edges: &Vec<Vec<usize>>,
    exclude_private: bool,
) -> (include_room: Vec<bool>)
    requires
        adjs_ok(adjacencies@, rooms.len() as int),
        room_edges.len() == rooms.len(),
        edges_ok(room_edges@, adjacencies.len() as int),
    ensures
        include_room.len() == rooms.len(),
{
    let nrooms = rooms.len();
    let mut include_room: Vec<bool> = Vec::new();
    let mut i: usize = 0;
    while i < nrooms
        invariant
            nrooms == rooms.len(),
            include_room.len() == i,
            i <= nrooms,
        decreases nrooms - i,
    {
        let t = rooms[i].room_type;
        let ok = if exclude_private {
            t != RoomType::Exterior && t != RoomType::PrivateRoom && t != RoomType::PrivateCourtyard
        } else {
            t != RoomType::Exterior
        };
        include_room.push(ok);
        i = i + 1;
    }

    // Trim dead ends repeatedly until no more can be trimmed.
    let mut fuel: usize = 100_000;
    while fuel > 0
        invariant
            nrooms == rooms.len(),
            include_room.len() == nrooms,
            adjs_ok(adjacencies@, nrooms as int),
            room_edges.len() == nrooms,
            edges_ok(room_edges@, adjacencies.len() as int),
        decreases fuel,
    {
        fuel = fuel - 1;
        let mut trimmed = false;

        let mut i_room: usize = 0;
        while i_room < nrooms
            invariant
                nrooms == rooms.len(),
                include_room.len() == nrooms,
                adjs_ok(adjacencies@, nrooms as int),
                room_edges.len() == nrooms,
                edges_ok(room_edges@, adjacencies.len() as int),
            decreases nrooms - i_room,
        {
            if include_room[i_room] {
                let edges = &room_edges[i_room];
                let ne = edges.len();
                let mut num_exits: usize = 0;
                let mut k: usize = 0;
                while k < ne
                    invariant
                        nrooms == rooms.len(),
                        include_room.len() == nrooms,
                        adjs_ok(adjacencies@, nrooms as int),
                        room_edges.len() == nrooms,
                        edges_ok(room_edges@, adjacencies.len() as int),
                        i_room < nrooms,
                        ne == edges.len(),
                        edges == room_edges[i_room as int],
                        num_exits <= k,
                    decreases ne - k,
                {
                    let adj = adjacencies[edges[k]];
                    if adj.door {
                        let i_room_other = if adj.room_left != i_room {
                            adj.room_left
                        } else {
                            adj.room_right
                        };
                        if include_room[i_room_other] {
                            num_exits = num_exits + 1;
                        }
                    }
                    k = k + 1;
                }

                if num_exits < 2 {
                    include_room.set(i_room, false);
                    trimmed = true;
                }
            }
            i_room = i_room + 1;
        }

        if !trimmed {
            break ;
        }
    }

    include_room
}

/// Build the patrol graph: every non-dead-end room becomes a patrol region
/// (tagged inner when it is only reachable through master-suite territory),
/// and every door between two included rooms becomes a patrol route.
fn generate_patrol_routes(
    map: &mut LevelMap,
    rooms: &mut Vec<Room>,
    adjacencies: &Vec<Adjacency>,
    room_edges: &Vec<Vec<usize>>,
)
    requires
        old(map).wf(),
        old(map).patrol_regions.len() == 0,
        old(rooms).len() >= 1,
        old(rooms).len() <= 10000,
        rooms_ok(old(rooms)@),
        adjs_ok(adjacencies@, old(rooms).len() as int),
        room_edges.len() == old(rooms).len(),
        edges_ok(room_edges@, adjacencies.len() as int),
    ensures
        final(map).wf(),
        final(map).cells.spec_size_x() == old(map).cells.spec_size_x(),
        final(map).cells.spec_size_y() == old(map).cells.spec_size_y(),
        *final(map) == (LevelMap {
            cells: final(map).cells,
            patrol_regions: final(map).patrol_regions,
            patrol_routes: final(map).patrol_routes,
            ..*old(map)
        }),
        final(rooms).len() == old(rooms).len(),
        forall|i: int|
            0 <= i < final(rooms).len() ==> #[trigger] final(rooms)[i] == (Room {
                dead_end: final(rooms)[i].dead_end,
                patroller: final(rooms)[i].patroller,
                ..old(rooms)[i]
            }),
{
    let general = non_dead_end_rooms(rooms, adjacencies, room_edges, false);
    let outer = non_dead_end_rooms(rooms, adjacencies, room_edges, true);

    let nrooms = rooms.len();
    let mut room_patrol_region: Vec<usize> = Vec::new();
    let mut i: usize = 0;
    while i < nrooms
        invariant
            nrooms == rooms.len(),
            nrooms <= 10000,
            room_patrol_region.len() == i,
            i <= nrooms,
            general.len() == nrooms,
            outer.len() == nrooms,
            rooms_ok(rooms@),
            map.wf(),
            map.patrol_regions.len() <= i,
            map.cells.spec_size_x() == old(map).cells.spec_size_x(),
            map.cells.spec_size_y() == old(map).cells.spec_size_y(),
            *map == (LevelMap {
                cells: map.cells,
                patrol_regions: map.patrol_regions,
                patrol_routes: map.patrol_routes,
                ..*old(map)
            }),
            forall|k: int|
                0 <= k < room_patrol_region.len() ==> region_ok(
                    #[trigger] room_patrol_region[k],
                    map.patrol_regions.len() as int,
                ),
            forall|j: int|
                0 <= j < rooms.len() ==> #[trigger] rooms[j] == (Room {
                    dead_end: rooms[j].dead_end,
                    patroller: rooms[j].patroller,
                    ..old(rooms)[j]
                }),
        decreases nrooms - i,
    {
        let mut r = rooms[i];
        r.dead_end = !general[i];
        if general[i] {
            let inner = !outer[i];
            r.patroller = Some(
                if inner {
                    GuardKind::Inner
                } else {
                    GuardKind::Outer
                },
            );
            rooms.set(i, r);
            let idx = add_patrol_region(map, rooms[i].pos_min, rooms[i].pos_max, inner);
            room_patrol_region.push(idx);
        } else {
            rooms.set(i, r);
            room_patrol_region.push(INVALID_REGION);
        }
        i = i + 1;
    }

    // Add a route along every door between two included rooms.
    let na = adjacencies.len();
    let mut k: usize = 0;
    while k < na
        invariant
            na == adjacencies.len(),
            nrooms == rooms.len(),
            adjs_ok(adjacencies@, nrooms as int),
            room_patrol_region.len() == nrooms,
            map.wf(),
            map.cells.spec_size_x() == old(map).cells.spec_size_x(),
            map.cells.spec_size_y() == old(map).cells.spec_size_y(),
            *map == (LevelMap {
                cells: map.cells,
                patrol_regions: map.patrol_regions,
                patrol_routes: map.patrol_routes,
                ..*old(map)
            }),
            forall|t: int|
                0 <= t < room_patrol_region.len() ==> region_ok(
                    #[trigger] room_patrol_region[t],
                    map.patrol_regions.len() as int,
                ),
        decreases na - k,
    {
        let adj = adjacencies[k];
        if adj.door {
            let region0 = room_patrol_region[adj.room_left];
            let region1 = room_patrol_region[adj.room_right];
            if region0 != INVALID_REGION && region1 != INVALID_REGION {
                add_patrol_route(map, region0, region1);
            }
        }
        k = k + 1;
    }
}


/// The one-way window variant that faces along `dir` (from the interior
/// side out).
fn window_for_dir(dir: Coord) -> (r: CellType)
    ensures
        crate::cell_grid::is_window_tile(r),
{
    if dir.0 == 1 && dir.1 == 0 {
        CellType::OneWayWindowN
    } else if dir.0 == -1 && dir.1 == 0 {
        CellType::OneWayWindowS
    } else if dir.0 == 0 && dir.1 == 1 {
        CellType::OneWayWindowW
    } else {
        CellType::OneWayWindowE
    }
}

fn is_door_tile(t: CellType) -> (r: bool)
    ensures
        r == (t == CellType::PortcullisNS || t == CellType::PortcullisEW || t == CellType::DoorNS
            || t == CellType::DoorEW),
{
    match t {
        CellType::PortcullisNS => true,
        CellType::PortcullisEW => true,
        CellType::DoorNS => true,
        CellType::DoorEW => true,
        _ => false,
    }
}

fn is_opening_tile(t: CellType) -> (r: bool)
    ensures
        r == (crate::cell_grid::is_window_tile(t) || t == CellType::PortcullisNS || t
            == CellType::PortcullisEW || t == CellType::DoorNS || t == CellType::DoorEW),
{
    match t {
        CellType::OneWayWindowE => true,
        CellType::OneWayWindowW => true,
        CellType::OneWayWindowN => true,
        CellType::OneWayWindowS => true,
        CellType::PortcullisNS => true,
        CellType::PortcullisEW => true,
        CellType::DoorNS => true,
        CellType::DoorEW => true,
        _ => false,
    }
}

/// The default cell used for clipped reads during generation.
fn default_cell() -> (c: Cell)
{
    Cell {
        cell_type: CellType::GroundNormal,
        move_cost: 0,
        region: INVALID_REGION,
        blocks_player_sight: false,
        blocks_sight: false,
        blocks_sound: false,
        hides_player: false,
        lit: false,
        seen: false,
    }
}

/// Overwrite one cell's type, keeping everything else.
fn mset_type(map: &mut LevelMap, x: i32, y: i32, t: CellType)
    requires
        old(map).wf(),
    ensures
        final(map).wf(),
        *final(map) == (LevelMap { cells: final(map).cells, ..*old(map) }),
        final(map).cells.spec_size_x() == old(map).cells.spec_size_x(),
        final(map).cells.spec_size_y() == old(map).cells.spec_size_y(),
{
    let prev = map.cells.get_or(x, y, default_cell());
    mset(map, x, y, Cell { cell_type: t, ..prev });
}

/// Decorate the walls: shared courtyard walls melt into grass, walls toward
/// the exterior or a courtyard get outward-facing one-way windows, and
/// every adjacency chosen as a connection gets its door (a portcullis
/// toward the true exterior; master-suite pairs only two thirds of the
/// time, sometimes leaving a private room reachable only by window).
#[verifier::rlimit(100)]
fn render_walls(
    random: &mut Rng,
    rooms: &Vec<Room>,
    adjacencies: &Vec<Adjacency>,
    map: &mut LevelMap,
)
    requires
        old(map).wf(),
        adjs_ok(adjacencies@, rooms.len() as int),
    ensures
        final(map).wf(),
        final(map).cells.spec_size_x() == old(map).cells.spec_size_x(),
        final(map).cells.spec_size_y() == old(map).cells.spec_size_y(),
        *final(map) == (LevelMap {
            cells: final(map).cells,
            items: final(map).items,
            ..*old(map)
        }),
{
    let na = adjacencies.len();

    // Grass connecting courtyard rooms.
    let mut i: usize = 0;
    while i < na
        invariant
            na == adjacencies.len(),
            adjs_ok(adjacencies@, rooms.len() as int),
            map.wf(),
            map.cells.spec_size_x() == old(map).cells.spec_size_x(),
            map.cells.spec_size_y() == old(map).cells.spec_size_y(),
            *map == (LevelMap { cells: map.cells, items: map.items, ..*old(map) }),
        decreases na - i,
    {
        let adj = adjacencies[i];
        let type0 = rooms[adj.room_left].room_type;
        let type1 = rooms[adj.room_right].room_type;

        if is_courtyard_room_type(type0) && is_courtyard_room_type(type1) {
            let mut j: i32 = 0;
            while j < adj.length
                invariant
                    adj_ok(adj, rooms.len() as int, adjacencies.len() as int),
                    0 <= j,
                    j <= adj.length || j == 0,
                    map.wf(),
                    map.cells.spec_size_x() == old(map).cells.spec_size_x(),
                    map.cells.spec_size_y() == old(map).cells.spec_size_y(),
                    *map == (LevelMap { cells: map.cells, items: map.items, ..*old(map) }),
                decreases adj.length - j,
            {
                let p = adj_at(&adj, j);
                mset_type(map, p.0, p.1, CellType::GroundGrass);
                j = j + 1;
            }
        }
        i = i + 1;
    }

    // Doors and windows for the rest of the walls.
    let mut i: usize = 0;
    while i < na
        invariant
            na == adjacencies.len(),
            adjs_ok(adjacencies@, rooms.len() as int),
            map.wf(),
            map.cells.spec_size_x() == old(map).cells.spec_size_x(),
            map.cells.spec_size_y() == old(map).cells.spec_size_y(),
            *map == (LevelMap { cells: map.cells, items: map.items, ..*old(map) }),
        decreases na - i,
    {
        let adj0 = adjacencies[i];

        let type0 = rooms[adj0.room_left].room_type;
        let type1 = rooms[adj0.room_right].room_type;

        if is_courtyard_room_type(type0) && is_courtyard_room_type(type1) {
            i = i + 1;
            continue;
        }

        let j = adj0.next_matching;
        if j < i {
            i = i + 1;
            continue;
        }

        let offset: i32 = if j == i {
            adj0.length / 2
        } else if adj0.length > 2 {
            1 + random.below_i32(adj0.length - 2)
        } else if adj0.length >= 1 {
            random.below_i32(adj0.length)
        } else {
            0
        };

        // The walls this decision covers: the adjacency and its mirror.
        let nwalls: usize = if j != i {
            2
        } else {
            1
        };

        if !adj0.door && type0 != type1 {
            if type0 == RoomType::Exterior || type1 == RoomType::Exterior {
                if adj0.length % 2 != 0 {
                    let k = adj0.length / 2;
                    let mut w: usize = 0;
                    while w < nwalls
                        invariant
                            na == adjacencies.len(),
                            adjs_ok(adjacencies@, rooms.len() as int),
                            i < na,
                            j < na,
                            -100000 <= k <= 100000,
                            map.wf(),
                            map.cells.spec_size_x() == old(map).cells.spec_size_x(),
                            map.cells.spec_size_y() == old(map).cells.spec_size_y(),
                            *map == (LevelMap { cells: map.cells, items: map.items, ..*old(map) }),
                        decreases nwalls - w,
                    {
                        let a = if w == 0 {
                            adjacencies[i]
                        } else {
                            adjacencies[j]
                        };
                        let p = adj_at(&a, k);
                        let dir = if rooms[a.room_right].room_type == RoomType::Exterior {
                            Coord(-a.dir.0, -a.dir.1)
                        } else {
                            a.dir
                        };
                        mset_type(map, p.0, p.1, window_for_dir(dir));
                        w = w + 1;
                    }
                }
            } else if is_courtyard_room_type(type0) || is_courtyard_room_type(type1) {
                let mut k: i32 = random.below_i32(2);
                let k_end = (adj0.length + 1) / 2;

                while k < k_end
                    invariant
                        na == adjacencies.len(),
                        adjs_ok(adjacencies@, rooms.len() as int),
                        i < na,
                        j < na,
                        0 <= k,
                        k <= 1 || k <= k_end + 2,
                        k_end <= 5001,
                        adj_ok(adj0, rooms.len() as int, adjacencies.len() as int),
                        adj0 == adjacencies[i as int],
                        map.wf(),
                        map.cells.spec_size_x() == old(map).cells.spec_size_x(),
                        map.cells.spec_size_y() == old(map).cells.spec_size_y(),
                        *map == (LevelMap { cells: map.cells, items: map.items, ..*old(map) }),
                    decreases k_end + 2 - k,
                {
                    let mut w: usize = 0;
                    while w < nwalls
                        invariant
                            na == adjacencies.len(),
                            adjs_ok(adjacencies@, rooms.len() as int),
                            i < na,
                            j < na,
                            0 <= k <= 5001,
                            map.wf(),
                            map.cells.spec_size_x() == old(map).cells.spec_size_x(),
                            map.cells.spec_size_y() == old(map).cells.spec_size_y(),
                            *map == (LevelMap { cells: map.cells, items: map.items, ..*old(map) }),
                        decreases nwalls - w,
                    {
                        let a = if w == 0 {
                            adjacencies[i]
                        } else {
                            adjacencies[j]
                        };
                        let dir = if is_courtyard_room_type(rooms[a.room_right].room_type) {
                            Coord(-a.dir.0, -a.dir.1)
                        } else {
                            a.dir
                        };
                        let window_type = window_for_dir(dir);

                        let p = adj_at(&a, k);
                        let q = adj_at(&a, a.length - (k + 1));

                        mset_type(map, p.0, p.1, window_type);
                        mset_type(map, q.0, q.1, window_type);
                        w = w + 1;
                    }
                    k = k + 2;
                }
            }
        }

        let install_master_suite_door = random.chance(2, 3);

        let mut w: usize = 0;
        while w < nwalls
            invariant
                na == adjacencies.len(),
                adjs_ok(adjacencies@, rooms.len() as int),
                i < na,
                j < na,
                -100000 <= offset <= 100000,
                map.wf(),
                map.cells.spec_size_x() == old(map).cells.spec_size_x(),
                map.cells.spec_size_y() == old(map).cells.spec_size_y(),
                *map == (LevelMap { cells: map.cells, items: map.items, ..*old(map) }),
            decreases nwalls - w,
        {
            let a = if w == 0 {
                adjacencies[i]
            } else {
                adjacencies[j]
            };
            w = w + 1;
            if !a.door {
                continue;
            }

            let p = adj_at(&a, offset);
            let orient_ns = a.dir.0 == 0;

            mset_type(
                map,
                p.0,
                p.1,
                if orient_ns {
                    CellType::DoorNS
                } else {
                    CellType::DoorEW
                },
            );

            let room_type_left = rooms[a.room_left].room_type;
            let room_type_right = rooms[a.room_right].room_type;

            if room_type_left == RoomType::Exterior || room_type_right == RoomType::Exterior {
                mset_type(
                    map,
                    p.0,
                    p.1,
                    if orient_ns {
                        CellType::PortcullisNS
                    } else {
                        CellType::PortcullisEW
                    },
                );
                place_item(
                    map,
                    p.0,
                    p.1,
                    if orient_ns {
                        ItemKind::PortcullisNS
                    } else {
                        ItemKind::PortcullisEW
                    },
                );
            } else if room_type_left != RoomType::PrivateRoom || room_type_right
                != RoomType::PrivateRoom || install_master_suite_door {
                mset_type(
                    map,
                    p.0,
                    p.1,
                    if orient_ns {
                        CellType::DoorNS
                    } else {
                        CellType::DoorEW
                    },
                );
                place_item(
                    map,
                    p.0,
                    p.1,
                    if orient_ns {
                        ItemKind::DoorNS
                    } else {
                        ItemKind::DoorEW
                    },
                );
            }
        }
        i = i + 1;
    }
}

/// Whether a door or portcullis tile neighbors (x, y).
fn door_adjacent(map: &LevelMap, x: i32, y: i32) -> (r: bool)
    requires
        map.wf(),
        -100000 <= x <= 100000,
        -100000 <= y <= 100000,
{
    let d = default_cell();
    if is_door_tile(map.cells.get_or(x - 1, y, d).cell_type) {
        return true;
    }
    if is_door_tile(map.cells.get_or(x + 1, y, d).cell_type) {
        return true;
    }
    if is_door_tile(map.cells.get_or(x, y - 1, d).cell_type) {
        return true;
    }
    if is_door_tile(map.cells.get_or(x, y + 1, d).cell_type) {
        return true;
    }
    false
}

fn try_place_bush(map: &mut LevelMap, x: i32, y: i32)
    requires
        old(map).wf(),
        -100000 <= x <= 100000,
        -100000 <= y <= 100000,
    ensures
        final(map).wf(),
        *final(map) == (LevelMap { items: final(map).items, ..*old(map) }),
{
    if !map.cells.contains(x, y) {
        return ;
    }
    if map.cells.get(x as usize, y as usize).cell_type != CellType::GroundGrass {
        return ;
    }
    if door_adjacent(map, x, y) {
        return ;
    }
    place_item(map, x, y, ItemKind::Bush);
}

fn try_place_table(map: &mut LevelMap, x: i32, y: i32)
    requires
        old(map).wf(),
        -100000 <= x <= 100000,
        -100000 <= y <= 100000,
    ensures
        final(map).wf(),
        *final(map) == (LevelMap { items: final(map).items, ..*old(map) }),
{
    if door_adjacent(map, x, y) {
        return ;
    }
    place_item(map, x, y, ItemKind::Table);
}

fn try_place_chair(map: &mut LevelMap, x: i32, y: i32)
    requires
        old(map).wf(),
        -100000 <= x <= 100000,
        -100000 <= y <= 100000,
    ensures
        final(map).wf(),
        *final(map) == (LevelMap { items: final(map).items, ..*old(map) }),
{
    if door_adjacent(map, x, y) {
        return ;
    }
    place_item(map, x, y, ItemKind::Chair);
}

/// Lay the floors per room type and furnish each room by its footprint:
/// water pools and pillars in large rooms, chair-table-chair rows in
/// elongated ones, and paired or corner furniture elsewhere.
#[verifier::rlimit(100)]
fn render_rooms(level: usize, rooms: &Vec<Room>, map: &mut LevelMap, random: &mut Rng)
    requires
        old(map).wf(),
        rooms_ok(rooms@),
    ensures
        final(map).wf(),
        final(map).cells.spec_size_x() == old(map).cells.spec_size_x(),
        final(map).cells.spec_size_y() == old(map).cells.spec_size_y(),
        *final(map) == (LevelMap {
            cells: final(map).cells,
            items: final(map).items,
            ..*old(map)
        }),
{
    let nrooms = rooms.len();
    let mut i_room: usize = 1;
    while i_room < nrooms
        invariant
            nrooms == rooms.len(),
            rooms_ok(rooms@),
            map.wf(),
            map.cells.spec_size_x() == old(map).cells.spec_size_x(),
            map.cells.spec_size_y() == old(map).cells.spec_size_y(),
            *map == (LevelMap { cells: map.cells, items: map.items, ..*old(map) }),
        decreases nrooms - i_room,
    {
        let room = rooms[i_room];

        let cell_type = match room.room_type {
            RoomType::Exterior => CellType::GroundNormal,
            RoomType::PublicCourtyard => CellType::GroundGrass,
            RoomType::PublicRoom => CellType::GroundWood,
            RoomType::PrivateCourtyard => CellType::GroundGrass,
            RoomType::PrivateRoom => CellType::GroundMarble,
        };

        let mut x = room.pos_min.0;
        while x < room.pos_max.0
            invariant
                room_ok(room),
                room.pos_min.0 <= x || x == room.pos_min.0,
                x <= room.pos_max.0 || x == room.pos_min.0,
                map.wf(),
                map.cells.spec_size_x() == old(map).cells.spec_size_x(),
                map.cells.spec_size_y() == old(map).cells.spec_size_y(),
                *map == (LevelMap { cells: map.cells, items: map.items, ..*old(map) }),
            decreases room.pos_max.0 - x,
        {
            let mut y = room.pos_min.1;
            while y < room.pos_max.1
                invariant
                    room_ok(room),
                    -2000 <= x <= 2000,
                    room.pos_min.1 <= y || y == room.pos_min.1,
                    y <= room.pos_max.1 || y == room.pos_min.1,
                    map.wf(),
                    map.cells.spec_size_x() == old(map).cells.spec_size_x(),
                    map.cells.spec_size_y() == old(map).cells.spec_size_y(),
                    *map == (LevelMap { cells: map.cells, items: map.items, ..*old(map) }),
                decreases room.pos_max.1 - y,
            {
                mset_type(map, x, y, cell_type);
                y = y + 1;
            }
            x = x + 1;
        }

        let dx = room.pos_max.0 - room.pos_min.0;
        let dy = room.pos_max.1 - room.pos_min.1;

        if is_courtyard_room_type(room.room_type) {
            if dx >= 5 && dy >= 5 {
                let mut x = room.pos_min.0 + 1;
                while x < room.pos_max.0 - 1
                    invariant
                        room_ok(room),
                        -2001 <= x <= 2001,
                        map.wf(),
                        map.cells.spec_size_x() == old(map).cells.spec_size_x(),
                        map.cells.spec_size_y() == old(map).cells.spec_size_y(),
                        *map == (LevelMap { cells: map.cells, items: map.items, ..*old(map) }),
                    decreases room.pos_max.0 - 1 - x,
                {
                    let mut y = room.pos_min.1 + 1;
                    while y < room.pos_max.1 - 1
                        invariant
                            room_ok(room),
                            -2001 <= x <= 2001,
                            -2001 <= y <= 2001,
                            map.wf(),
                            map.cells.spec_size_x() == old(map).cells.spec_size_x(),
                            map.cells.spec_size_y() == old(map).cells.spec_size_y(),
                            *map == (LevelMap { cells: map.cells, items: map.items, ..*old(map) }),
                        decreases room.pos_max.1 - 1 - y,
                    {
                        mset_type(map, x, y, CellType::GroundWater);
                        y = y + 1;
                    }
                    x = x + 1;
                }
            } else if dx >= 2 && dy >= 2 {
                try_place_bush(map, room.pos_min.0, room.pos_min.1);
                try_place_bush(map, room.pos_max.0 - 1, room.pos_min.1);
                try_place_bush(map, room.pos_min.0, room.pos_max.1 - 1);
                try_place_bush(map, room.pos_max.0 - 1, room.pos_max.1 - 1);
            }
        } else if room.room_type == RoomType::PublicRoom || room.room_type
            == RoomType::PrivateRoom {
            if dx >= 5 && dy >= 5 {
                if room.room_type == RoomType::PrivateRoom {
                    let mut x: i32 = 2;
                    while x < dx - 2
                        invariant
                            room_ok(room),
                            0 <= dx <= 4000,
                            0 <= dy <= 4000,
                            dx == room.pos_max.0 - room.pos_min.0,
                            dy == room.pos_max.1 - room.pos_min.1,
                            2 <= x <= 4001,
                            map.wf(),
                            map.cells.spec_size_x() == old(map).cells.spec_size_x(),
                            map.cells.spec_size_y() == old(map).cells.spec_size_y(),
                            *map == (LevelMap { cells: map.cells, items: map.items, ..*old(map) }),
                        decreases dx - 2 - x,
                    {
                        let mut y: i32 = 2;
                        while y < dy - 2
                            invariant
                                room_ok(room),
                                0 <= dx <= 4000,
                                0 <= dy <= 4000,
                                dx == room.pos_max.0 - room.pos_min.0,
                                dy == room.pos_max.1 - room.pos_min.1,
                                2 <= x <= 4001,
                                2 <= y <= 4001,
                                map.wf(),
                                map.cells.spec_size_x() == old(map).cells.spec_size_x(),
                                map.cells.spec_size_y() == old(map).cells.spec_size_y(),
                                *map == (LevelMap {
                                    cells: map.cells,
                                    items: map.items,
                                    ..*old(map)
                                }),
                            decreases dy - 2 - y,
                        {
                            mset_type(
                                map,
                                room.pos_min.0 + x,
                                room.pos_min.1 + y,
                                CellType::GroundWater,
                            );
                            y = y + 1;
                        }
                        x = x + 1;
                    }
                }

                mset_type(map, room.pos_min.0 + 1, room.pos_min.1 + 1, CellType::Wall0000);
                mset_type(map, room.pos_max.0 - 2, room.pos_min.1 + 1, CellType::Wall0000);
                mset_type(map, room.pos_min.0 + 1, room.pos_max.1 - 2, CellType::Wall0000);
                mset_type(map, room.pos_max.0 - 2, room.pos_max.1 - 2, CellType::Wall0000);
            } else if dx == 5 && dy >= 3 && (room.room_type == RoomType::PublicRoom
                || random.chance(1, 3)) {
                let mut y: i32 = 1;
                while y < dy - 1
                    invariant
                        room_ok(room),
                        0 <= dy <= 4000,
                        dy == room.pos_max.1 - room.pos_min.1,
                        1 <= y <= 4000,
                        map.wf(),
                        map.cells.spec_size_x() == old(map).cells.spec_size_x(),
                        map.cells.spec_size_y() == old(map).cells.spec_size_y(),
                        *map == (LevelMap { cells: map.cells, items: map.items, ..*old(map) }),
                    decreases dy - 1 - y,
                {
                    place_item(map, room.pos_min.0 + 1, room.pos_min.1 + y, ItemKind::Chair);
                    place_item(map, room.pos_min.0 + 2, room.pos_min.1 + y, ItemKind::Table);
                    place_item(map, room.pos_min.0 + 3, room.pos_min.1 + y, ItemKind::Chair);
                    y = y + 1;
                }
            } else if dy == 5 && dx >= 3 && (room.room_type == RoomType::PublicRoom
                || random.chance(1, 3)) {
                let mut x: i32 = 1;
                while x < dx - 1
                    invariant
                        room_ok(room),
                        0 <= dx <= 4000,
                        dx == room.pos_max.0 - room.pos_min.0,
                        1 <= x <= 4000,
                        map.wf(),
                        map.cells.spec_size_x() == old(map).cells.spec_size_x(),
                        map.cells.spec_size_y() == old(map).cells.spec_size_y(),
                        *map == (LevelMap { cells: map.cells, items: map.items, ..*old(map) }),
                    decreases dx - 1 - x,
                {
                    place_item(map, room.pos_min.0 + x, room.pos_min.1 + 1, ItemKind::Chair);
                    place_item(map, room.pos_min.0 + x, room.pos_min.1 + 2, ItemKind::Table);
                    place_item(map, room.pos_min.0 + x, room.pos_min.1 + 3, ItemKind::Chair);
                    x = x + 1;
                }
            } else if dx > dy && (dy % 2) == 1 && random.chance(2, 3) {
                let y = room.pos_min.1 + dy / 2;
                if room.room_type == RoomType::PublicRoom {
                    try_place_table(map, room.pos_min.0 + 1, y);
                    try_place_table(map, room.pos_max.0 - 2, y);
                } else {
                    try_place_chair(map, room.pos_min.0 + 1, y);
                    try_place_chair(map, room.pos_max.0 - 2, y);
                }
            } else if dy > dx && (dx % 2) == 1 && random.chance(2, 3) {
                let x = room.pos_min.0 + dx / 2;
                if room.room_type == RoomType::PublicRoom {
                    try_place_table(map, x, room.pos_min.1 + 1);
                    try_place_table(map, x, room.pos_max.1 - 2);
                } else {
                    try_place_chair(map, x, room.pos_min.1 + 1);
                    try_place_chair(map, x, room.pos_max.1 - 2);
                }
            } else if dx > 3 && dy > 3 {
                if room.room_type == RoomType::PublicRoom {
                    try_place_table(map, room.pos_min.0, room.pos_min.1);
                    try_place_table(map, room.pos_max.0 - 1, room.pos_min.1);
                    try_place_table(map, room.pos_min.0, room.pos_max.1 - 1);
                    try_place_table(map, room.pos_max.0 - 1, room.pos_max.1 - 1);
                } else {
                    try_place_chair(map, room.pos_min.0, room.pos_min.1);
                    try_place_chair(map, room.pos_max.0 - 1, room.pos_min.1);
                    try_place_chair(map, room.pos_min.0, room.pos_max.1 - 1);
                    try_place_chair(map, room.pos_max.0 - 1, room.pos_max.1 - 1);
                }
            }
        }
        i_room = i_room + 1;
    }
}


/// Whether any item or guard occupies (x, y).
fn is_item_at_pos(map: &LevelMap, x: i32, y: i32) -> (r: bool)
{
    let n = map.items.len();
    let mut i: usize = 0;
    while i < n
        invariant
            n == map.items.len(),
        decreases n - i,
    {
        let it = map.items[i];
        if it.pos.0 == x && it.pos.1 == y {
            return true;
        }
        i = i + 1;
    }
    let m = map.guards.len();
    let mut i: usize = 0;
    while i < m
        invariant
            m == map.guards.len(),
        decreases m - i,
    {
        if map.guards[i].pos.0 == x && map.guards[i].pos.1 == y {
            return true;
        }
        i = i + 1;
    }
    false
}

/// Whether a window, door or portcullis tile neighbors `pos`.
fn door_or_window_adjacent(map: &LevelMap, pos: Coord) -> (r: bool)
    requires
        map.wf(),
        -100000 <= pos.0 <= 100000,
        -100000 <= pos.1 <= 100000,
{
    let d = default_cell();
    if is_opening_tile(map.cells.get_or(pos.0 - 1, pos.1, d).cell_type) {
        return true;
    }
    if is_opening_tile(map.cells.get_or(pos.0 + 1, pos.1, d).cell_type) {
        return true;
    }
    if is_opening_tile(map.cells.get_or(pos.0, pos.1 - 1, d).cell_type) {
        return true;
    }
    if is_opening_tile(map.cells.get_or(pos.0, pos.1 + 1, d).cell_type) {
        return true;
    }
    false
}

/// Try to place one outfit on a free floor tile of the given rectangle,
/// away from doors and windows.
fn try_place_outfit(
    random: &mut Rng,
    pos_min: Coord,
    pos_max: Coord,
    map: &mut LevelMap,
    kind: ItemKind,
) -> (placed: bool)
    requires
        old(map).wf(),
        -2000 <= pos_min.0 <= 2000,
        -2000 <= pos_min.1 <= 2000,
        -2000 <= pos_max.0 <= 2000,
        -2000 <= pos_max.1 <= 2000,
    ensures
        final(map).wf(),
        *final(map) == (LevelMap { items: final(map).items, ..*old(map) }),
{
    let dx = pos_max.0 - pos_min.0;
    let dy = pos_max.1 - pos_min.1;
    if dx < 1 || dy < 1 {
        return false;
    }

    let mut attempt: usize = 0;
    while attempt < 1000
        invariant
            map.wf(),
            *map == (LevelMap { items: map.items, ..*old(map) }),
            -2000 <= pos_min.0 <= 2000,
            -2000 <= pos_min.1 <= 2000,
            1 <= dx <= 4000,
            1 <= dy <= 4000,
        decreases 1000 - attempt,
    {
        attempt = attempt + 1;
        let pos = Coord(pos_min.0 + random.below_i32(dx), pos_min.1 + random.below_i32(dy));

        if !map.cells.contains(pos.0, pos.1) {
            continue;
        }
        let cell_type = map.cells.get(pos.0 as usize, pos.1 as usize).cell_type;
        if cell_type != CellType::GroundWood && cell_type != CellType::GroundMarble && cell_type
            != CellType::GroundGrass {
            continue;
        }
        if is_item_at_pos(map, pos.0, pos.1) {
            continue;
        }
        if door_or_window_adjacent(map, pos) {
            continue;
        }
        place_item(map, pos.0, pos.1, kind);
        return true;
    }
    false
}

/// Place the disguise outfits, preferring dead-end rooms and deep rooms:
/// at most one of each of the two outfit kinds per level.
fn place_outfits(random: &mut Rng, rooms: &Vec<Room>, map: &mut LevelMap)
    requires
        old(map).wf(),
        rooms_ok(rooms@),
    ensures
        final(map).wf(),
        *final(map) == (LevelMap { items: final(map).items, ..*old(map) }),
{
    let nrooms = rooms.len();

    // Candidate rooms in a random order.
    let mut order: Vec<usize> = Vec::new();
    let mut i: usize = 0;
    while i < nrooms
        invariant
            nrooms == rooms.len(),
            forall|k: int| 0 <= k < order.len() ==> (#[trigger] order[k] as int) < nrooms,
        decreases nrooms - i,
    {
        if rooms[i].room_type != RoomType::Exterior {
            order.push(i);
        }
        i = i + 1;
    }
    let mut k = order.len();
    while k > 1
        invariant
            k <= order.len(),
            forall|t: int| 0 <= t < order.len() ==> (#[trigger] order[t] as int) < nrooms,
        decreases k,
    {
        let j = random.below(k);
        k = k - 1;
        let a = order[j];
        let b = order[k];
        order.set(j, b);
        order.set(k, a);
    }

    // Stable priority order: dead ends first, then deep rooms.
    let mut ordered: Vec<usize> = Vec::new();
    let mut pass: usize = 0;
    while pass < 4
        invariant
            nrooms == rooms.len(),
            forall|t: int| 0 <= t < order.len() ==> (#[trigger] order[t] as int) < nrooms,
            forall|t: int| 0 <= t < ordered.len() ==> (#[trigger] ordered[t] as int) < nrooms,
        decreases 4 - pass,
    {
        let n = order.len();
        let mut t: usize = 0;
        while t < n
            invariant
                nrooms == rooms.len(),
                n == order.len(),
                pass < 4,
                forall|u: int| 0 <= u < order.len() ==> (#[trigger] order[u] as int) < nrooms,
                forall|u: int| 0 <= u < ordered.len() ==> (#[trigger] ordered[u] as int) < nrooms,
            decreases n - t,
        {
            let idx = order[t];
            let r = rooms[idx];
            let deep = r.depth >= 2;
            let matches_pass = if pass == 0 {
                r.dead_end && deep
            } else if pass == 1 {
                r.dead_end && !deep
            } else if pass == 2 {
                !r.dead_end && deep
            } else {
                !r.dead_end && !deep
            };
            if matches_pass {
                ordered.push(idx);
            }
            t = t + 1;
        }
        pass = pass + 1;
    }

    let mut num_outfits: usize = nrooms / 12;
    if num_outfits > 2 {
        num_outfits = 2;
    }
    if num_outfits < 1 {
        num_outfits = 1;
    }

    let mut outfit_index: usize = 0;
    let n = ordered.len();
    let mut t: usize = 0;
    while t < n
        invariant
            nrooms == rooms.len(),
            rooms_ok(rooms@),
            n == ordered.len(),
            forall|u: int| 0 <= u < ordered.len() ==> (#[trigger] ordered[u] as int) < nrooms,
            map.wf(),
            *map == (LevelMap { items: map.items, ..*old(map) }),
        decreases n - t,
    {
        let room = rooms[ordered[t]];
        let kind = if outfit_index == 0 {
            ItemKind::Outfit1
        } else {
            ItemKind::Outfit2
        };
        if try_place_outfit(random, room.pos_min, room.pos_max, map, kind) {
            if outfit_index < 1 {
                outfit_index = outfit_index + 1;
            }
            if num_outfits <= 1 {
                break ;
            }
            num_outfits = num_outfits - 1;
        }
        t = t + 1;
    }
}

/// Try to place one coin on a free wood or marble tile of the rectangle.
fn try_place_loot(random: &mut Rng, pos_min: Coord, pos_max: Coord, map: &mut LevelMap)
    requires
        old(map).wf(),
        -100000 <= pos_min.0 <= 100000,
        -100000 <= pos_min.1 <= 100000,
        -100000 <= pos_max.0 <= 100000,
        -100000 <= pos_max.1 <= 100000,
    ensures
        final(map).wf(),
        *final(map) == (LevelMap { items: final(map).items, ..*old(map) }),
{
    let dx = pos_max.0 - pos_min.0;
    let dy = pos_max.1 - pos_min.1;
    if dx < 1 || dy < 1 {
        return ;
    }

    let mut attempt: usize = 0;
    while attempt < 1000
        invariant
            map.wf(),
            *map == (LevelMap { items: map.items, ..*old(map) }),
            -100000 <= pos_min.0 <= 100000,
            -100000 <= pos_min.1 <= 100000,
            1 <= dx <= 200000,
            1 <= dy <= 200000,
        decreases 1000 - attempt,
    {
        attempt = attempt + 1;
        let pos = Coord(pos_min.0 + random.below_i32(dx), pos_min.1 + random.below_i32(dy));

        if !map.cells.contains(pos.0, pos.1) {
            continue;
        }
        let cell_type = map.cells.get(pos.0 as usize, pos.1 as usize).cell_type;
        if cell_type != CellType::GroundWood && cell_type != CellType::GroundMarble {
            continue;
        }
        if is_item_at_pos(map, pos.0, pos.1) {
            continue;
        }
        place_item(map, pos.0, pos.1, ItemKind::Coin);
        return ;
    }
}

/// Place the loot coins: master-suite rooms usually get one, rooms with
/// fewer than two doored exits always do, plus a few extra at random.
fn place_loot(
    random: &mut Rng,
    rooms: &Vec<Room>,
    adjacencies: &Vec<Adjacency>,
    room_edges: &Vec<Vec<usize>>,
    map: &mut LevelMap,
)
    requires
        old(map).wf(),
        rooms_ok(rooms@),
        adjs_ok(adjacencies@, rooms.len() as int),
        room_edges.len() == rooms.len(),
        edges_ok(room_edges@, adjacencies.len() as int),
    ensures
        final(map).wf(),
        *final(map) == (LevelMap { items: final(map).items, ..*old(map) }),
{
    let nrooms = rooms.len();

    let mut num_rooms: usize = 0;
    let mut i: usize = 0;
    while i < nrooms
        invariant
            nrooms == rooms.len(),
            num_rooms <= i,
        decreases nrooms - i,
    {
        let t = rooms[i].room_type;
        if t == RoomType::PublicRoom || t == RoomType::PrivateRoom {
            num_rooms = num_rooms + 1;
        }
        i = i + 1;
    }

    // Master-suite rooms get loot, most of the time.
    let mut i: usize = 0;
    while i < nrooms
        invariant
            nrooms == rooms.len(),
            rooms_ok(rooms@),
            map.wf(),
            *map == (LevelMap { items: map.items, ..*old(map) }),
        decreases nrooms - i,
    {
        let room = rooms[i];
        i = i + 1;
        if room.room_type != RoomType::PrivateRoom {
            continue;
        }
        if random.chance(1, 5) {
            continue;
        }
        try_place_loot(random, room.pos_min, room.pos_max, map);
    }

    // Dead-end rooms (fewer than two doored exits) always get loot.
    let mut i: usize = 0;
    while i < nrooms
        invariant
            nrooms == rooms.len(),
            rooms_ok(rooms@),
            adjs_ok(adjacencies@, nrooms as int),
            room_edges.len() == nrooms,
            edges_ok(room_edges@, adjacencies.len() as int),
            map.wf(),
            *map == (LevelMap { items: map.items, ..*old(map) }),
        decreases nrooms - i,
    {
        let room = rooms[i];
        let t = room.room_type;
        if t == RoomType::PublicRoom || t == RoomType::PrivateRoom {
            let edges = &room_edges[i];
            let ne = edges.len();
            let mut num_exits: usize = 0;
            let mut k: usize = 0;
            while k < ne
                invariant
                    ne == edges.len(),
                    i < nrooms,
                    edges == room_edges[i as int],
                    room_edges.len() == nrooms,
                    edges_ok(room_edges@, adjacencies.len() as int),
                    num_exits <= k,
                decreases ne - k,
            {
                if adjacencies[edges[k]].door {
                    num_exits = num_exits + 1;
                }
                k = k + 1;
            }
            if num_exits < 2 {
                try_place_loot(random, room.pos_min, room.pos_max, map);
            }
        }
        i = i + 1;
    }

    // A bit of extra loot, scaled by room count.
    let pos_min = Coord(0, 0);
    let pos_max = Coord(map.cells.size_x() as i32, map.cells.size_y() as i32);
    let extra = num_rooms / 4 + random.below(4);
    let mut e: usize = 0;
    while e < extra
        invariant
            map.wf(),
            *map == (LevelMap { items: map.items, ..*old(map) }),
            pos_min.0 == 0 && pos_min.1 == 0,
            1 <= pos_max.0 <= 0x4000,
            1 <= pos_max.1 <= 0x4000,
        decreases extra - e,
    {
        try_place_loot(random, pos_min, pos_max, map);
        e = e + 1;
    }
}

/// Turn the exterior band into grass with scattered bushes, already seen.
fn place_exterior_bushes(random: &mut Rng, map: &mut LevelMap)
    requires
        old(map).wf(),
    ensures
        final(map).wf(),
        *final(map) == (LevelMap {
            cells: final(map).cells,
            items: final(map).items,
            ..*old(map)
        }),
        final(map).cells.spec_size_x() == old(map).cells.spec_size_x(),
        final(map).cells.spec_size_y() == old(map).cells.spec_size_y(),
{
    let sx = map.cells.size_x() as i32;
    let sy = map.cells.size_y() as i32;

    let mut x: i32 = 0;
    while x < sx
        invariant
            map.wf(),
            0 <= x,
            sx == map.cells.spec_size_x(),
            sy == map.cells.spec_size_y(),
            map.cells.spec_size_x() == old(map).cells.spec_size_x(),
            map.cells.spec_size_y() == old(map).cells.spec_size_y(),
            *map == (LevelMap { cells: map.cells, items: map.items, ..*old(map) }),
        decreases sx - x,
    {
        let mut y: i32 = sy - OUTER_BORDER + 1;
        if y < 0 {
            y = 0;
        }
        while y < sy
            invariant
                map.wf(),
                0 <= x < sx,
                0 <= y,
                sx == map.cells.spec_size_x(),
                sy == map.cells.spec_size_y(),
                map.cells.spec_size_x() == old(map).cells.spec_size_x(),
                map.cells.spec_size_y() == old(map).cells.spec_size_y(),
                *map == (LevelMap { cells: map.cells, items: map.items, ..*old(map) }),
            decreases sy - y,
        {
            let c = map.cells.get(x as usize, y as usize);
            if c.cell_type == CellType::GroundNormal {
                mset(map, x, y, Cell { cell_type: CellType::GroundGrass, seen: true, ..c });
            }
            y = y + 1;
        }

        if (x % 2) == 0 && random.chance(4, 5) {
            place_item(map, x, sy - 1, ItemKind::Bush);
        }
        x = x + 1;
    }

    let mut y: i32 = OUTER_BORDER;
    while y < sy - OUTER_BORDER + 1
        invariant
            map.wf(),
            OUTER_BORDER <= y,
            sx == map.cells.spec_size_x(),
            sy == map.cells.spec_size_y(),
            map.cells.spec_size_x() == old(map).cells.spec_size_x(),
            map.cells.spec_size_y() == old(map).cells.spec_size_y(),
            *map == (LevelMap { cells: map.cells, items: map.items, ..*old(map) }),
        decreases sy - OUTER_BORDER + 1 - y,
    {
        let mut x: i32 = 0;
        while x < OUTER_BORDER - 1
            invariant
                map.wf(),
                0 <= x,
                0 <= y,
                sx == map.cells.spec_size_x(),
                sy == map.cells.spec_size_y(),
                map.cells.spec_size_x() == old(map).cells.spec_size_x(),
                map.cells.spec_size_y() == old(map).cells.spec_size_y(),
                *map == (LevelMap { cells: map.cells, items: map.items, ..*old(map) }),
            decreases OUTER_BORDER - 1 - x,
        {
            if x < sx && y < sy {
                let c = map.cells.get(x as usize, y as usize);
                if c.cell_type == CellType::GroundNormal {
                    mset(map, x, y, Cell { cell_type: CellType::GroundGrass, seen: true, ..c });
                }
            }
            x = x + 1;
        }

        let mut x: i32 = sx - OUTER_BORDER + 1;
        if x < 0 {
            x = 0;
        }
        while x < sx
            invariant
                map.wf(),
                0 <= x,
                0 <= y,
                sx == map.cells.spec_size_x(),
                sy == map.cells.spec_size_y(),
                map.cells.spec_size_x() == old(map).cells.spec_size_x(),
                map.cells.spec_size_y() == old(map).cells.spec_size_y(),
                *map == (LevelMap { cells: map.cells, items: map.items, ..*old(map) }),
            decreases sx - x,
        {
            if y < sy {
                let c = map.cells.get(x as usize, y as usize);
                if c.cell_type == CellType::GroundNormal {
                    mset(map, x, y, Cell { cell_type: CellType::GroundGrass, seen: true, ..c });
                }
            }
            x = x + 1;
        }

        if ((sy - y) % 2) != 0 {
            if random.chance(4, 5) {
                place_item(map, 0, y, ItemKind::Bush);
            }
            if random.chance(4, 5) {
                place_item(map, sx - 1, y, ItemKind::Bush);
            }
        }
        y = y + 1;
    }
}

/// A row of pillars along the mansion's front face.
fn place_front_pillars(map: &mut LevelMap)
    requires
        old(map).wf(),
    ensures
        final(map).wf(),
        *final(map) == (LevelMap { cells: final(map).cells, ..*old(map) }),
        final(map).cells.spec_size_x() == old(map).cells.spec_size_x(),
        final(map).cells.spec_size_y() == old(map).cells.spec_size_y(),
{
    let sx = (map.cells.size_x() as i32) - 1;
    let cx = (map.cells.size_x() as i32) / 2;

    let mut x: i32 = OUTER_BORDER;
    while x < cx
        invariant
            map.wf(),
            OUTER_BORDER <= x,
            0 <= sx <= 0x4000,
            cx <= 0x4000,
            map.cells.spec_size_x() == old(map).cells.spec_size_x(),
            map.cells.spec_size_y() == old(map).cells.spec_size_y(),
            *map == (LevelMap { cells: map.cells, ..*old(map) }),
        decreases cx + 5 - x,
    {
        mset_type(map, x, 1, CellType::Wall0000);
        mset_type(map, sx - x, 1, CellType::Wall0000);
        x = x + 5;
    }
}


/// A spawn tile for a guard: random, far from the player start, on interior
/// floor, and unoccupied.
fn generate_initial_guard_pos(random: &mut Rng, map: &LevelMap) -> (r: Option<Coord>)
    requires
        map.wf(),
    ensures
        match r {
            Some(p) => map.in_bounds(p),
            None => true,
        },
{
    let size_x = map.cells.size_x() as i32;
    let size_y = map.cells.size_y() as i32;
    let mut attempt: usize = 0;
    while attempt < 1000
        invariant
            map.wf(),
            size_x == map.size_x(),
            size_y == map.size_y(),
        decreases 1000 - attempt,
    {
        attempt = attempt + 1;
        let pos = Coord(random.below_i32(size_x), random.below_i32(size_y));

        let dx = map.pos_start.0 - pos.0;
        let dy = map.pos_start.1 - pos.1;
        proof {
            assert(0 <= (dx as int) * (dx as int) <= 0x1000_0000 && 0 <= (dy as int) * (
            dy as int) <= 0x1000_0000) by (nonlinear_arith)
                requires
                    -0x4000 <= dx <= 0x4000,
                    -0x4000 <= dy <= 0x4000,
            ;
        }
        if dx * dx + dy * dy < 64 {
            continue;
        }

        let cell_type = map.cells.get(pos.0 as usize, pos.1 as usize).cell_type;
        if cell_type != CellType::GroundWood && cell_type != CellType::GroundMarble {
            continue;
        }
        if is_item_at_pos(map, pos.0, pos.1) {
            continue;
        }
        return Some(pos);
    }
    None
}

/// Spawn one guard at a validated tile, aimed along its first patrol step.
fn place_guard(random: &mut Rng, map: &mut LevelMap, pos: Coord, kind: GuardKind)
    requires
        old(map).wf(),
        old(map).in_bounds(pos),
    ensures
        final(map).wf(),
        *final(map) == (LevelMap { guards: final(map).guards, ..*old(map) }),
{
    let mut guard = Guard {
        pos,
        dir: Coord(1, 0),
        kind,
        mode: GuardMode::Patrol,
        speaking: false,
        has_moved: false,
        heard_thief: false,
        hearing_guard: false,
        heard_guard: false,
        heard_guard_pos: pos,
        goal: pos,
        mode_timeout: 0,
        region_goal: INVALID_REGION,
        region_prev: INVALID_REGION,
    };

    guard.setup_goal_region(random, map);
    guard.dir = guard.initial_dir(map);

    map.guards.push(guard);
    proof {
        assert forall|j: int|
            0 <= j < map.guards.len() implies (#[trigger] map.guards[j]).wf(
            map.size_x(),
            map.size_y(),
            map.patrol_regions.len() as int,
        ) by {
            if j < old(map).guards.len() {
                assert(old(map).guards[j].wf(
                    old(map).size_x(),
                    old(map).size_y(),
                    old(map).patrol_regions.len() as int,
                ));
            }
        }
    }
}

/// Spawn the guards of one kind: the count scales with the number of
/// patrol-eligible rooms of that kind, with exactly one guard on the first
/// guarded level.
fn place_guards_by_type(
    random: &mut Rng,
    level: usize,
    rooms: &Vec<Room>,
    map: &mut LevelMap,
    guard_kind: GuardKind,
)
    requires
        old(map).wf(),
        rooms.len() <= 10000,
    ensures
        final(map).wf(),
        *final(map) == (LevelMap { guards: final(map).guards, ..*old(map) }),
{
    let nrooms = rooms.len();
    let mut num_rooms: usize = 0;
    let mut i: usize = 0;
    while i < nrooms
        invariant
            nrooms == rooms.len(),
            num_rooms <= i,
            i <= nrooms,
        decreases nrooms - i,
    {
        if rooms[i].patroller == Some(guard_kind) {
            num_rooms = num_rooms + 1;
        }
        i = i + 1;
    }

    let rate = if sat_add(level, 18) <= 40 {
        sat_add(level, 18)
    } else {
        40
    };
    proof {
        assert(num_rooms * rate <= 400000) by (nonlinear_arith)
            requires
                num_rooms <= 10000,
                rate <= 40,
        ;
    }
    let mut num_guards: usize = if level == 1 && num_rooms > 0 {
        1
    } else {
        (num_rooms * rate + 99) / 100
    };

    let mut fuel: usize = 10000;
    while num_guards > 0 && fuel > 0
        invariant
            map.wf(),
            *map == (LevelMap { guards: map.guards, ..*old(map) }),
        decreases fuel,
    {
        fuel = fuel - 1;
        if let Some(pos) = generate_initial_guard_pos(random, map) {
            place_guard(random, map, pos, guard_kind);
            num_guards = num_guards - 1;
        }
    }
}

/// Mark the exterior band (everything touching plain exterior ground) as
/// seen, so the level starts with the outside already mapped.
fn mark_exterior_as_seen(map: &mut LevelMap)
    requires
        old(map).wf(),
    ensures
        final(map).wf(),
        *final(map) == (LevelMap { cells: final(map).cells, ..*old(map) }),
        final(map).cells.spec_size_x() == old(map).cells.spec_size_x(),
        final(map).cells.spec_size_y() == old(map).cells.spec_size_y(),
{
    let sx = map.cells.size_x() as i32;
    let sy = map.cells.size_y() as i32;
    // A stand-in for off-grid neighbors that never matches plain ground.
    let off = Cell { cell_type: CellType::Wall0000, ..default_cell() };

    let mut x: i32 = 0;
    while x < sx
        invariant
            map.wf(),
            0 <= x,
            sx == map.size_x(),
            sy == map.size_y(),
            map.cells.spec_size_x() == old(map).cells.spec_size_x(),
            map.cells.spec_size_y() == old(map).cells.spec_size_y(),
            *map == (LevelMap { cells: map.cells, ..*old(map) }),
        decreases sx - x,
    {
        let mut y: i32 = 0;
        while y < sy
            invariant
                map.wf(),
                0 <= x < sx,
                0 <= y,
                sx == map.size_x(),
                sy == map.size_y(),
                map.cells.spec_size_x() == old(map).cells.spec_size_x(),
                map.cells.spec_size_y() == old(map).cells.spec_size_y(),
                *map == (LevelMap { cells: map.cells, ..*old(map) }),
            decreases sy - y,
        {
            let here = map.cells.get(x as usize, y as usize);
            let near_exterior = here.cell_type == CellType::GroundNormal || map.cells.get_or(
                x - 1,
                y,
                off,
            ).cell_type == CellType::GroundNormal || map.cells.get_or(x - 1, y - 1, off).cell_type
                == CellType::GroundNormal || map.cells.get_or(x - 1, y + 1, off).cell_type
                == CellType::GroundNormal || map.cells.get_or(x, y - 1, off).cell_type
                == CellType::GroundNormal || map.cells.get_or(x, y + 1, off).cell_type
                == CellType::GroundNormal || map.cells.get_or(x + 1, y, off).cell_type
                == CellType::GroundNormal || map.cells.get_or(x + 1, y - 1, off).cell_type
                == CellType::GroundNormal || map.cells.get_or(x + 1, y + 1, off).cell_type
                == CellType::GroundNormal;
            if near_exterior {
                mset(map, x, y, Cell { seen: true, ..here });
            }
            y = y + 1;
        }
        x = x + 1;
    }
}

/// Recompute every cell's cached move cost and sight/sound flags from the
/// tile catalog, then fold in the items standing on each cell.
fn cache_cell_info(map: &mut LevelMap)
    requires
        old(map).wf(),
    ensures
        final(map).wf(),
        *final(map) == (LevelMap { cells: final(map).cells, ..*old(map) }),
        final(map).cells.spec_size_x() == old(map).cells.spec_size_x(),
        final(map).cells.spec_size_y() == old(map).cells.spec_size_y(),
{
    let sx = map.cells.size_x();
    let sy = map.cells.size_y();

    let mut x: usize = 0;
    while x < sx
        invariant
            map.wf(),
            sx == map.size_x(),
            sy == map.size_y(),
            map.cells.spec_size_x() == old(map).cells.spec_size_x(),
            map.cells.spec_size_y() == old(map).cells.spec_size_y(),
            *map == (LevelMap { cells: map.cells, ..*old(map) }),
        decreases sx - x,
    {
        let mut y: usize = 0;
        while y < sy
            invariant
                map.wf(),
                x < sx,
                sx == map.size_x(),
                sy == map.size_y(),
                map.cells.spec_size_x() == old(map).cells.spec_size_x(),
                map.cells.spec_size_y() == old(map).cells.spec_size_y(),
                *map == (LevelMap { cells: map.cells, ..*old(map) }),
            decreases sy - y,
        {
            let c = map.cells.get(x, y);
            let tile = tile_def(c.cell_type);
            mset(
                map,
                x as i32,
                y as i32,
                Cell {
                    move_cost: guard_move_cost_for_tile_type(c.cell_type),
                    blocks_player_sight: tile.blocks_player_sight,
                    blocks_sight: tile.blocks_sight,
                    blocks_sound: tile.blocks_sound,
                    hides_player: false,
                    ..c
                },
            );
            y = y + 1;
        }
        x = x + 1;
    }

    let n = map.items.len();
    let mut i: usize = 0;
    while i < n
        invariant
            map.wf(),
            n == map.items.len(),
            map.cells.spec_size_x() == old(map).cells.spec_size_x(),
            map.cells.spec_size_y() == old(map).cells.spec_size_y(),
            *map == (LevelMap { cells: map.cells, ..*old(map) }),
        decreases n - i,
    {
        let it = map.items[i];
        let kind = it.kind;
        let c = map.cells.get(it.pos.0 as usize, it.pos.1 as usize);
        let item_cost = guard_move_cost_for_item_kind(kind);
        let move_cost = if item_cost >= c.move_cost {
            item_cost
        } else {
            c.move_cost
        };
        let blocks_player_sight = c.blocks_player_sight || kind == ItemKind::DoorNS || kind
            == ItemKind::DoorEW;
        let blocks_sight = c.blocks_sight || kind == ItemKind::DoorNS || kind == ItemKind::DoorEW
            || kind == ItemKind::PortcullisNS || kind == ItemKind::PortcullisEW || kind
            == ItemKind::Bush;
        let hides_player = c.hides_player || kind == ItemKind::Table || kind == ItemKind::Bush;
        mset(
            map,
            it.pos.0,
            it.pos.1,
            Cell { move_cost, blocks_player_sight, blocks_sight, hides_player, ..c },
        );
        i = i + 1;
    }
}

/// Carve the exits and decorate the level: build the room list and the
/// adjacency graph, connect the rooms, assign privacy tiers, build the
/// patrol graph, and render walls and floors.
fn create_exits(
    random: &mut Rng,
    level: usize,
    mirror_x: bool,
    mirror_y: bool,
    inside: &Grid<bool>,
    offset_x: &Grid<i32>,
    offset_y: &Grid<i32>,
    map: &mut LevelMap,
) -> (r: (Vec<Room>, Vec<Adjacency>, Vec<Vec<usize>>, Coord))
    requires
        old(map).wf(),
        old(map).patrol_regions.len() == 0,
        inside.wf(),
        inside.spec_size_x() <= 16,
        inside.spec_size_y() <= 16,
        offset_x.wf(),
        offset_y.wf(),
        offset_x.spec_size_x() == inside.spec_size_x() + 1,
        offset_x.spec_size_y() == inside.spec_size_y(),
        offset_y.spec_size_x() == inside.spec_size_x(),
        offset_y.spec_size_y() == inside.spec_size_y() + 1,
    ensures
        final(map).wf(),
        final(map).cells.spec_size_x() == old(map).cells.spec_size_x(),
        final(map).cells.spec_size_y() == old(map).cells.spec_size_y(),
        *final(map) == (LevelMap {
            cells: final(map).cells,
            items: final(map).items,
            patrol_regions: final(map).patrol_regions,
            patrol_routes: final(map).patrol_routes,
            ..*old(map)
        }),
        1 <= r.0.len() <= 10000,
        rooms_ok(r.0@),
        adjs_ok(r.1@, r.0.len() as int),
        r.2.len() == r.0.len(),
        edges_ok(r.2@, r.1.len() as int),
        -300000 <= r.3.0 <= 300000,
        -300000 <= r.3.1 <= 300000,
{
    let rooms_x = inside.size_x();
    let rooms_y = inside.size_y();

    let mut room_index: Grid<usize> = Grid::new(rooms_x, rooms_y, 0);
    let mut rooms: Vec<Room> = Vec::new();

    // Room 0 stands for the area surrounding the map.
    rooms.push(
        Room {
            room_type: RoomType::Exterior,
            group: 0,
            depth: 0,
            dead_end: true,
            patroller: None,
            pos_min: Coord(0, 0),
            pos_max: Coord(0, 0),
        },
    );

    let mut rx: usize = 0;
    while rx < rooms_x
        invariant
            inside.wf(),
            offset_x.wf(),
            offset_y.wf(),
            room_index.wf(),
            room_index.spec_size_x() == rooms_x,
            room_index.spec_size_y() == rooms_y,
            rooms_x == inside.spec_size_x(),
            rooms_y == inside.spec_size_y(),
            rooms_x <= 16,
            rooms_y <= 16,
            rooms.len() == 1 + rx * rooms_y,
            rx <= rooms_x,
            rooms_ok(rooms@),
        decreases rooms_x - rx,
    {
        let mut ry: usize = 0;
        while ry < rooms_y
            invariant
                inside.wf(),
                offset_x.wf(),
                offset_y.wf(),
                room_index.wf(),
                room_index.spec_size_x() == rooms_x,
                room_index.spec_size_y() == rooms_y,
                rooms_x == inside.spec_size_x(),
                rooms_y == inside.spec_size_y(),
                rooms_x <= 16,
                rooms_y <= 16,
                rx < rooms_x,
                ry <= rooms_y,
                rooms.len() == 1 + rx * rooms_y + ry,
                rooms_ok(rooms@),
            decreases rooms_y - ry,
        {
            let group_index = rooms.len();
            room_index.set(rx, ry, group_index);

            rooms.push(
                Room {
                    room_type: if inside.get(rx, ry) {
                        RoomType::PublicRoom
                    } else {
                        RoomType::PublicCourtyard
                    },
                    group: group_index,
                    depth: 0,
                    dead_end: false,
                    patroller: None,
                    pos_min: Coord(oget(offset_x, rx, ry) + 1, oget(offset_y, rx, ry) + 1),
                    pos_max: Coord(oget(offset_x, rx + 1, ry), oget(offset_y, rx, ry + 1)),
                },
            );
            ry = ry + 1;
        }
        proof {
            assert((rx + 1) * rooms_y == rx * rooms_y + rooms_y) by (nonlinear_arith);
        }
        rx = rx + 1;
    }
    proof {
        assert(rooms.len() == 1 + rooms_x * rooms_y);
        assert(rooms_x * rooms_y <= 256) by (nonlinear_arith)
            requires
                rooms_x <= 16,
                rooms_y <= 16,
        ;
    }

    // The room-adjacency graph, with mirror pairing.
    let mut adjacencies = compute_adjacencies(
        mirror_x,
        mirror_y,
        inside,
        offset_x,
        offset_y,
        &room_index,
        rooms.len(),
    );
    let room_edges = store_adjacencies_in_rooms(&adjacencies, rooms.len());

    // Connect rooms together.
    let pos_start = connect_rooms(random, &mut rooms, &mut adjacencies);

    // Assign types to the rooms.
    assign_room_types(&room_index, &adjacencies, &mut rooms, &room_edges);

    // Generate pathing information.
    generate_patrol_routes(map, &mut rooms, &adjacencies, &room_edges);

    // Render doors and windows, then floors.
    render_walls(random, &rooms, &adjacencies, map);
    render_rooms(level, &rooms, map, random);

    (rooms, adjacencies, room_edges, pos_start)
}

/// One generation attempt: a mirrored mansion of the size the level calls
/// for, fully decorated and populated.
fn generate_siheyuan(random: &mut Rng, level: usize) -> (map: LevelMap)
    ensures
        map.wf(),
        map.total_loot == coin_count(map.items@),
{
    let mut size_x: i32 = 0;
    let nx: usize = if level < 3 {
        level
    } else {
        3
    };
    let mut i: usize = 0;
    while i < nx
        invariant
            i <= nx,
            nx <= 3,
            0 <= size_x <= i,
        decreases nx - i,
    {
        size_x = size_x + random.below_i32(2);
        i = i + 1;
    }
    size_x = size_x * 2 + 3;

    let mut size_y: i32;
    if level == 0 {
        size_y = 2;
    } else {
        size_y = 3;
        let ny: usize = if level - 1 < 4 {
            level - 1
        } else {
            4
        };
        let mut i: usize = 0;
        while i < ny
            invariant
                i <= ny,
                ny <= 4,
                3 <= size_y <= 3 + i,
            decreases ny - i,
        {
            size_y = size_y + random.below_i32(2);
            i = i + 1;
        }
    }

    let mirror_x = true;
    let mirror_y = false;

    let inside = make_siheyuan_room_grid(size_x as usize, size_y as usize, random);

    // Compute wall offsets, then rasterize the rooms into walls.
    let (offset_x, offset_y) = offset_walls(mirror_x, mirror_y, &inside, random);
    let mut cells = plot_walls(&inside, &offset_x, &offset_y);
    fixup_walls(&mut cells);

    let mut map = LevelMap {
        cells,
        items: Vec::new(),
        patrol_regions: Vec::new(),
        patrol_routes: Vec::new(),
        guards: Vec::new(),
        pos_start: Coord(0, 0),
        total_loot: 0,
    };

    // Create exits connecting rooms.
    let (rooms, adjacencies, room_edges, pos_start) = create_exits(
        random,
        level,
        mirror_x,
        mirror_y,
        &inside,
        &offset_x,
        &offset_y,
        &mut map,
    );

    if map.cells.contains(pos_start.0, pos_start.1) {
        map.pos_start = pos_start;
    }

    // Place outfits, loot, and exterior decoration.
    if level > 1 {
        place_outfits(random, &rooms, &mut map);
    }
    place_loot(random, &rooms, &adjacencies, &room_edges, &mut map);
    place_exterior_bushes(random, &mut map);
    place_front_pillars(&mut map);

    // Place guards.
    if level > 0 {
        place_guards_by_type(random, level, &rooms, &mut map, GuardKind::Inner);
        place_guards_by_type(random, level, &rooms, &mut map, GuardKind::Outer);
    }

    mark_exterior_as_seen(&mut map);
    cache_cell_info(&mut map);

    // Record how much loot the level was born with.
    let n = map.items.len();
    let mut cnt: usize = 0;
    let mut i: usize = 0;
    while i < n
        invariant
            n == map.items.len(),
            i <= n,
            cnt == coin_count(map.items@.take(i as int)),
            cnt <= i,
        decreases n - i,
    {
        proof {
            assert(map.items@.take(i + 1).drop_last() =~= map.items@.take(i as int));
            assert(map.items@.take(i + 1).last() == map.items@[i as int]);
        }
        if map.items[i].kind == ItemKind::Coin {
            cnt = cnt + 1;
        }
        i = i + 1;
    }
    proof {
        assert(map.items@.take(n as int) =~= map.items@);
    }
    map.total_loot = cnt;
    map
}

/// Generate the map for one level: retried up to a hundred times while the
/// result has no patrol region at all (a degenerate layout), then accepted
/// as is, so generation never fails.
pub fn generate_map(random: &mut Rng, level: usize) -> (map: LevelMap)
    ensures
        map.wf(),
        map.total_loot == coin_count(map.items@),
{
    let mut attempt: usize = 0;
    while attempt < 100
        invariant
            true,
        decreases 100 - attempt,
    {
        let map = generate_siheyuan(random, level);
        if map.patrol_regions.len() > 0 {
            return map;
        }
        attempt = attempt + 1;
    }
    generate_siheyuan(random, level)
}

} // verus!
