//! The visibility engine: recursive shadow-casting over the four cardinal
//! portals of each cell, on exact integer arithmetic over doubled
//! coordinates. Marking is monotonic: a seen cell is never un-seen here.

use vstd::prelude::*;
use crate::cell_grid::Cell;
use crate::coord::Coord;
use crate::map::LevelMap;

verus! {

/// Whether vector a points strictly right of vector b (cross product sign).
pub open spec fn spec_a_right_of_b(ax: int, ay: int, bx: int, by: int) -> bool {
    ax * by > ay * bx
}

pub fn a_right_of_b(ax: i32, ay: i32, bx: i32, by: i32) -> (r: bool)
    ensures
        r == spec_a_right_of_b(ax as int, ay as int, bx as int, by as int),
{
    proof {
        assert(-0x4000_0000_0000_0000 <= ax as int * by as int <= 0x4000_0000_0000_0000
            && -0x4000_0000_0000_0000 <= ay as int * bx as int <= 0x4000_0000_0000_0000)
            by (nonlinear_arith)
            requires
                -0x8000_0000 <= ax <= 0x7fff_ffff,
                -0x8000_0000 <= ay <= 0x7fff_ffff,
                -0x8000_0000 <= bx <= 0x7fff_ffff,
                -0x8000_0000 <= by <= 0x7fff_ffff,
        ;
    }
    (ax as i64) * (by as i64) > (ay as i64) * (bx as i64)
}

/// One pending view frustum: a target cell and the left and right frustum
/// edges relative to the viewer, in doubled coordinates.
struct Frame {
    target_x: i32,
    target_y: i32,
    ldx: i32,
    ldy: i32,
    rdx: i32,
    rdy: i32,
}

impl Frame {
    spec fn bounded(self) -> bool {
        &&& -0x8000 <= self.target_x <= 0x8000
        &&& -0x8000 <= self.target_y <= 0x8000
        &&& -0x20000 <= self.ldx <= 0x20000
        &&& -0x20000 <= self.ldy <= 0x20000
        &&& -0x20000 <= self.rdx <= 0x20000
        &&& -0x20000 <= self.rdy <= 0x20000
    }
}

/// The offsets of portal `k` out of a cell: the left and right corners of
/// the portal relative to the cell's center (doubled coordinates) and the
/// step to the neighboring cell.
fn portal_info(k: usize) -> (r: (i32, i32, i32, i32, i32, i32))
    requires
        k < 4,
    ensures
        -1 <= r.0 <= 1 && -1 <= r.1 <= 1 && -1 <= r.2 <= 1 && -1 <= r.3 <= 1,
        -1 <= r.4 <= 1 && -1 <= r.5 <= 1,
{
    //       lx  ly  rx  ry  nx  ny
    match k {
        0 => (-1, -1, -1, 1, -1, 0),
        1 => (-1, 1, 1, 1, 0, 1),
        2 => (1, 1, 1, -1, 1, 0),
        _ => (1, -1, -1, -1, 0, -1),
    }
}

/// The seen-set only ever grows between two map states of one level: every
/// cell seen in `m0` is still seen in `m1`.
pub open spec fn seen_monotone(m0: LevelMap, m1: LevelMap) -> bool {
    &&& m1.cells.spec_size_x() == m0.cells.spec_size_x()
    &&& m1.cells.spec_size_y() == m0.cells.spec_size_y()
    &&& forall|x: int, y: int|
        m1.cells.in_bounds(x, y) && (#[trigger] m0.cells.at(x, y)).seen ==> m1.cells.at(x, y).seen
}

/// A map state reached from `m0` by only setting `seen` flags: every cell
/// is unchanged except that its `seen` flag may have turned true, and
/// nothing else of the map changed.
pub open spec fn only_seen_monotone(m0: LevelMap, m1: LevelMap) -> bool {
    &&& m1.cells.wf()
    &&& m1.cells.spec_size_x() == m0.cells.spec_size_x()
    &&& m1.cells.spec_size_y() == m0.cells.spec_size_y()
    &&& forall|x: int, y: int|
        m1.cells.in_bounds(x, y) ==> #[trigger] m1.cells.at(x, y) == (Cell {
            seen: m1.cells.at(x, y).seen,
            ..m0.cells.at(x, y)
        })
    &&& forall|x: int, y: int|
        m1.cells.in_bounds(x, y) && (#[trigger] m0.cells.at(x, y)).seen ==> m1.cells.at(x, y).seen
    &&& m1 == (LevelMap { cells: m1.cells, ..m0 })
}

/// Every cell seen in `m1` but not in `m0` lies within the visibility
/// radius of the viewer: its squared distance over doubled coordinates is
/// at most 1928 (the 1600 cutoff, plus the one-cell reach of the
/// diagonal-corner marks).
pub open spec fn newly_seen_within_radius(m0: LevelMap, m1: LevelMap, viewer: Coord) -> bool {
    forall|x: int, y: int|
        m1.cells.in_bounds(x, y) && (#[trigger] m1.cells.at(x, y)).seen && !m0.cells.at(x, y).seen
            ==> (2 * (x - viewer.0)) * (2 * (x - viewer.0)) + (2 * (y - viewer.1)) * (2 * (y
            - viewer.1)) <= 1928
}

/// Marking one in-radius cell seen preserves the radius bound on the
/// newly-seen set.
proof fn lemma_radius_extend(m0: LevelMap, m1: LevelMap, m2: LevelMap, viewer: Coord, x: int, y: int)
    requires
        newly_seen_within_radius(m0, m1, viewer),
        m2.cells.spec_size_x() == m1.cells.spec_size_x(),
        m2.cells.spec_size_y() == m1.cells.spec_size_y(),
        forall|i: int, j: int|
            m2.cells.in_bounds(i, j) && !(i == x && j == y) ==> m2.cells.at(i, j) == m1.cells.at(
                i,
                j,
            ),
        (2 * (x - viewer.0)) * (2 * (x - viewer.0)) + (2 * (y - viewer.1)) * (2 * (y - viewer.1))
            <= 1928,
    ensures
        newly_seen_within_radius(m0, m2, viewer),
{
    assert forall|i: int, j: int|
        m2.cells.in_bounds(i, j) && (#[trigger] m2.cells.at(i, j)).seen && !m0.cells.at(i, j).seen
            implies (2 * (i - viewer.0)) * (2 * (i - viewer.0)) + (2 * (j - viewer.1)) * (2 * (j
        - viewer.1)) <= 1928 by {
        if !(i == x && j == y) {
            assert(m2.cells.at(i, j) == m1.cells.at(i, j));
            assert(m1.cells.at(i, j).seen);
        }
    }
}

impl LevelMap {
    /// Mark a cell seen; everything else is untouched.
    fn mark_seen(&mut self, x: i32, y: i32)
        requires
            old(self).wf(),
            old(self).cells.in_bounds(x as int, y as int),
        ensures
            final(self).wf(),
            only_seen_monotone(*old(self), *final(self)),
            final(self).cells.at(x as int, y as int).seen,
            forall|i: int, j: int|
                final(self).cells.in_bounds(i, j) && !(i == x && j == y) ==> final(self).cells.at(
                    i,
                    j,
                ) == old(self).cells.at(i, j),
    {
        let mut c = self.cells.get(x as usize, y as usize);
        c.seen = true;
        self.cells.set(x as usize, y as usize, c);
        proof {
            assert forall|i: int|
                0 <= i < self.guards.len() implies (#[trigger] self.guards[i]).wf(
                self.size_x(),
                self.size_y(),
                self.patrol_regions.len() as int,
            ) by {
                assert(self.guards[i] == old(self).guards[i]);
            }
        }
    }

    /// Recompute what the player can see from `pos_viewer`, marking every
    /// cell reached by an unobstructed line of sight as seen. Never clears
    /// a `seen` flag, and changes nothing but `seen` flags.
    pub fn recompute_visibility(&mut self, pos_viewer: Coord)
        requires
            old(self).wf(),
            old(self).in_bounds(pos_viewer),
        ensures
            final(self).wf(),
            only_seen_monotone(*old(self), *final(self)),
            final(self).cell_at(pos_viewer).seen,
            newly_seen_within_radius(*old(self), *final(self), pos_viewer),
    {
        let viewer_x = pos_viewer.0;
        let viewer_y = pos_viewer.1;
        let ghost pre0 = *old(self);
        self.mark_seen(viewer_x, viewer_y);
        proof {
            assert((2 * (viewer_x as int - pos_viewer.0)) * (2 * (viewer_x as int - pos_viewer.0))
                + (2 * (viewer_y as int - pos_viewer.1)) * (2 * (viewer_y as int - pos_viewer.1))
                == 0) by (nonlinear_arith)
                requires
                    viewer_x == pos_viewer.0,
                    viewer_y == pos_viewer.1,
            ;
            lemma_radius_extend(
                pre0,
                pre0,
                *self,
                pos_viewer,
                viewer_x as int,
                viewer_y as int,
            );
        }

        let mut stack: Vec<Frame> = Vec::new();
        let mut k: usize = 0;
        while k < 4
            invariant
                k <= 4,
                0 <= viewer_x <= 0x4000,
                0 <= viewer_y <= 0x4000,
                forall|i: int| 0 <= i < stack.len() ==> (#[trigger] stack[i]).bounded(),
            decreases 4 - k,
        {
            let (lx, ly, rx, ry, _, _) = portal_info(k);
            stack.push(
                Frame { target_x: viewer_x, target_y: viewer_y, ldx: lx, ldy: ly, rdx: rx, rdy: ry },
            );
            k = k + 1;
        }

        // The frustum splitting always terminates in practice (every
        // recursion strictly narrows the angular span); the budget only
        // bounds the work formally.
        let mut fuel: usize = 100_000_000;
        while stack.len() > 0 && fuel > 0
            invariant
                self.wf(),
                self.in_bounds(pos_viewer),
                viewer_x == pos_viewer.0,
                viewer_y == pos_viewer.1,
                only_seen_monotone(*old(self), *self),
                newly_seen_within_radius(*old(self), *self, pos_viewer),
                self.cell_at(pos_viewer).seen,
                forall|i: int| 0 <= i < stack.len() ==> (#[trigger] stack[i]).bounded(),
            decreases fuel,
        {
            fuel = fuel - 1;
            let frame = stack.pop().unwrap();
            let target_x = frame.target_x;
            let target_y = frame.target_y;

            // Out of bounds ends this branch of the recursion.
            if !self.cells.contains(target_x, target_y) {
                continue;
            }

            // Too far away (squared distance over doubled coordinates).
            let dx = 2 * (target_x - viewer_x);
            let dy = 2 * (target_y - viewer_y);
            proof {
                assert(0 <= (dx as int) * (dx as int) < 0x10_0000_0000 && 0 <= (dy as int) * (
                dy as int) < 0x10_0000_0000) by (nonlinear_arith)
                    requires
                        -0x18000 <= dx <= 0x18000,
                        -0x18000 <= dy <= 0x18000,
                ;
            }
            if (dx as i64) * (dx as i64) + (dy as i64) * (dy as i64) > 1600 {
                continue;
            }

            // This cell is visible.
            self.mark_seen(target_x, target_y);

            // An occluding cell ends this branch.
            if self.blocks_player_sight(target_x, target_y) {
                continue;
            }

            // Mark diagonal neighbors whose shared corner lies inside the
            // frustum.
            let mut cx: i32 = 0;
            while cx < 2
                invariant
                    0 <= cx <= 2,
                    self.wf(),
                    self.in_bounds(pos_viewer),
                    only_seen_monotone(*old(self), *self),
                    newly_seen_within_radius(*old(self), *self, pos_viewer),
                    self.cell_at(pos_viewer).seen,
                    viewer_x == pos_viewer.0,
                    viewer_y == pos_viewer.1,
                    dx == 2 * (target_x - viewer_x),
                    dy == 2 * (target_y - viewer_y),
                    dx as int * dx as int + dy as int * dy as int <= 1600,
                    -0x8000 <= target_x <= 0x8000,
                    -0x8000 <= target_y <= 0x8000,
                    -0x18000 <= dx <= 0x18000,
                    -0x18000 <= dy <= 0x18000,
                    frame.bounded(),
                decreases 2 - cx,
            {
                let mut cy: i32 = 0;
                while cy < 2
                    invariant
                        0 <= cx < 2,
                        0 <= cy <= 2,
                        self.wf(),
                        self.in_bounds(pos_viewer),
                        only_seen_monotone(*old(self), *self),
                        newly_seen_within_radius(*old(self), *self, pos_viewer),
                        self.cell_at(pos_viewer).seen,
                        viewer_x == pos_viewer.0,
                        viewer_y == pos_viewer.1,
                        dx == 2 * (target_x - viewer_x),
                        dy == 2 * (target_y - viewer_y),
                        dx as int * dx as int + dy as int * dy as int <= 1600,
                        -0x8000 <= target_x <= 0x8000,
                        -0x8000 <= target_y <= 0x8000,
                        -0x18000 <= dx <= 0x18000,
                        -0x18000 <= dy <= 0x18000,
                        frame.bounded(),
                    decreases 2 - cy,
                {
                    let nx = target_x + 2 * cx - 1;
                    let ny = target_y + 2 * cy - 1;
                    let cdx = dx + 2 * cx - 1;
                    let cdy = dy + 2 * cy - 1;
                    if self.cells.contains(nx, ny) && !a_right_of_b(frame.ldx, frame.ldy, cdx, cdy)
                        && !a_right_of_b(cdx, cdy, frame.rdx, frame.rdy) {
                        let ghost pre_mark = *self;
                        self.mark_seen(nx, ny);
                        proof {
                            // The diagonal neighbor sits two doubled units
                            // off the target, which is itself within the
                            // cutoff.
                            let mx = 2 * (nx as int - pos_viewer.0);
                            let my = 2 * (ny as int - pos_viewer.1);
                            assert(mx == dx as int + 2 * (2 * cx - 1) && my == dy as int + 2 * (2
                                * cy - 1));
                            assert(mx * mx + my * my <= 1928) by (nonlinear_arith)
                                requires
                                    dx as int * dx as int + dy as int * dy as int <= 1600,
                                    -0x18000 <= dx <= 0x18000,
                                    -0x18000 <= dy <= 0x18000,
                                    (mx == dx + 2 || mx == dx - 2),
                                    (my == dy + 2 || my == dy - 2),
                            ;
                            lemma_radius_extend(
                                *old(self),
                                pre_mark,
                                *self,
                                pos_viewer,
                                nx as int,
                                ny as int,
                            );
                        }
                    }
                    cy = cy + 1;
                }
                cx = cx + 1;
            }

            // Clip each portal against the frustum and recurse through the
            // visible portions.
            let mut k: usize = 0;
            while k < 4
                invariant
                    k <= 4,
                    forall|i: int| 0 <= i < stack.len() ==> (#[trigger] stack[i]).bounded(),
                    0 <= target_x <= 0x4000,
                    0 <= target_y <= 0x4000,
                    -0x18000 <= dx <= 0x18000,
                    -0x18000 <= dy <= 0x18000,
                    frame.bounded(),
                decreases 4 - k,
            {
                let (plx, ply, prx, pry, nx, ny) = portal_info(k);
                let pldx = dx + plx;
                let pldy = dy + ply;
                let prdx = dx + prx;
                let prdy = dy + pry;

                let (cldx, cldy) = if a_right_of_b(frame.ldx, frame.ldy, pldx, pldy) {
                    (frame.ldx, frame.ldy)
                } else {
                    (pldx, pldy)
                };
                let (crdx, crdy) = if a_right_of_b(frame.rdx, frame.rdy, prdx, prdy) {
                    (prdx, prdy)
                } else {
                    (frame.rdx, frame.rdy)
                };

                if a_right_of_b(crdx, crdy, cldx, cldy) {
                    stack.push(
                        Frame {
                            target_x: target_x + nx,
                            target_y: target_y + ny,
                            ldx: cldx,
                            ldy: cldy,
                            rdx: crdx,
                            rdy: crdy,
                        },
                    );
                }
                k = k + 1;
            }
        }
    }

    /// Whether sight extends from `pos_viewer` one step in cardinal
    /// direction `dir`: true at the map edge, and otherwise exactly when
    /// the adjacent cell does not block player sight.
    pub fn player_can_see_in_direction(&self, pos_viewer: Coord, dir: Coord) -> (r: bool)
        requires
            self.wf(),
            self.in_bounds(pos_viewer),
            -1 <= dir.0 <= 1,
            -1 <= dir.1 <= 1,
        ensures
            r == {
                let t = Coord((pos_viewer.0 + dir.0) as i32, (pos_viewer.1 + dir.1) as i32);
                !self.in_bounds(t) || !self.cell_at(t).blocks_player_sight
            },
    {
        let tx = pos_viewer.0 + dir.0;
        let ty = pos_viewer.1 + dir.1;
        if !self.cells.contains(tx, ty) {
            return true;
        }
        !self.blocks_player_sight(tx, ty)
    }
}

} // verus!
