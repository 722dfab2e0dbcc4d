//! The per-level world state: cell grid, patrol graph, items and guards,
//! with the query surface the turn pipeline and the renderer read.

use vstd::prelude::*;
use crate::cell_grid::{
    Cell, INFINITE_COST, INVALID_REGION, Item, ItemKind, PatrolRegion, is_outfit,
};
use crate::coord::Coord;
use crate::grid::Grid;
use crate::guard::Guard;
use crate::rng::{Rng, pcg_below};

verus! {

/// A region index is either the sentinel or a valid index below `n`.
pub open spec fn region_ok(r: usize, n: int) -> bool {
    r == INVALID_REGION || (r as int) < n
}

/// How many coins at `pos` the item sequence holds.
pub open spec fn coins_at(items: Seq<Item>, pos: Coord) -> int
    decreases items.len(),
{
    if items.len() == 0 {
        0
    } else {
        coins_at(items.drop_last(), pos) + if items.last().kind == ItemKind::Coin
            && items.last().pos == pos {
            1int
        } else {
            0int
        }
    }
}

/// The item sequence with the coins at `pos` removed.
pub open spec fn without_coins_at(items: Seq<Item>, pos: Coord) -> Seq<Item>
    decreases items.len(),
{
    if items.len() == 0 {
        items
    } else if items.last().kind == ItemKind::Coin && items.last().pos == pos {
        without_coins_at(items.drop_last(), pos)
    } else {
        without_coins_at(items.drop_last(), pos).push(items.last())
    }
}

/// How many coins the item sequence holds.
pub open spec fn coin_count(items: Seq<Item>) -> int
    decreases items.len(),
{
    if items.len() == 0 {
        0
    } else {
        coin_count(items.drop_last()) + if items.last().kind == ItemKind::Coin {
            1int
        } else {
            0int
        }
    }
}

/// The item sequence with every coin removed.
pub open spec fn without_coins(items: Seq<Item>) -> Seq<Item>
    decreases items.len(),
{
    if items.len() == 0 {
        items
    } else if items.last().kind == ItemKind::Coin {
        without_coins(items.drop_last())
    } else {
        without_coins(items.drop_last()).push(items.last())
    }
}

/// How many cells of the sequence are marked seen.
pub open spec fn seen_count(cells: Seq<Cell>) -> int
    decreases cells.len(),
{
    if cells.len() == 0 {
        0
    } else {
        seen_count(cells.drop_last()) + if cells.last().seen {
            1int
        } else {
            0int
        }
    }
}

/// The regions neighboring `region` along the patrol routes, leaving out
/// `region_exclude`, in route order.
pub open spec fn neighbor_regions(
    routes: Seq<(usize, usize)>,
    region: usize,
    region_exclude: usize,
) -> Seq<usize>
    decreases routes.len(),
{
    if routes.len() == 0 {
        Seq::empty()
    } else {
        let rest = neighbor_regions(routes.drop_last(), region, region_exclude);
        let r = routes.last();
        if r.0 == region && r.1 != region_exclude {
            rest.push(r.1)
        } else if r.1 == region && r.0 != region_exclude {
            rest.push(r.0)
        } else {
            rest
        }
    }
}

/// The world of one level.
pub struct LevelMap {
    pub cells: Grid<Cell>,
    pub patrol_regions: Vec<PatrolRegion>,
    pub patrol_routes: Vec<(usize, usize)>,
    pub items: Vec<Item>,
    pub guards: Vec<Guard>,
    pub pos_start: Coord,
    pub total_loot: usize,
}

impl LevelMap {
    pub open spec fn size_x(self) -> int {
        self.cells.spec_size_x()
    }

    pub open spec fn size_y(self) -> int {
        self.cells.spec_size_y()
    }

    pub open spec fn in_bounds(self, p: Coord) -> bool {
        self.cells.in_bounds(p.0 as int, p.1 as int)
    }

    pub open spec fn cell_at(self, p: Coord) -> Cell {
        self.cells.at(p.0 as int, p.1 as int)
    }

    pub open spec fn rect_ok(self, r: PatrolRegion) -> bool {
        &&& 0 <= r.rect.pos_min.0 <= r.rect.pos_max.0 <= self.size_x()
        &&& 0 <= r.rect.pos_min.1 <= r.rect.pos_max.1 <= self.size_y()
    }

    /// The structural invariant every operation preserves: everything that
    /// names a cell is on the grid, and everything that names a patrol
    /// region names one that exists.
    pub open spec fn wf(self) -> bool {
        &&& self.cells.wf()
        &&& forall|i: int|
            0 <= i < self.items.len() ==> self.in_bounds(#[trigger] self.items[i].pos)
        &&& forall|i: int|
            0 <= i < self.guards.len() ==> (#[trigger] self.guards[i]).wf(
                self.size_x(),
                self.size_y(),
                self.patrol_regions.len() as int,
            )
        &&& forall|i: int|
            0 <= i < self.patrol_routes.len() ==> ((#[trigger] self.patrol_routes[i]).0
                < self.patrol_regions.len() && self.patrol_routes[i].1 < self.patrol_regions.len())
        &&& forall|i: int|
            0 <= i < self.patrol_regions.len() ==> self.rect_ok(#[trigger] self.patrol_regions[i])
        &&& forall|x: int, y: int|
            self.cells.in_bounds(x, y) ==> region_ok(
                (#[trigger] self.cells.at(x, y)).region,
                self.patrol_regions.len() as int,
            )
        &&& self.in_bounds(self.pos_start)
    }

    /// Remove the coins at `pos` from the item list; the count removed is
    /// the gold the player picks up there.
    pub fn collect_loot_at(&mut self, pos: Coord) -> (gold: usize)
        requires
            old(self).wf(),
        ensures
            final(self).wf(),
            gold == coins_at(old(self).items@, pos),
            final(self).items@ == without_coins_at(old(self).items@, pos),
            *final(self) == (LevelMap { items: final(self).items, ..*old(self) }),
    {
        let mut kept: Vec<Item> = Vec::new();
        let mut gold: usize = 0;
        let n = self.items.len();
        let mut i: usize = 0;
        while i < n
            invariant
                i <= n,
                n == self.items.len(),
                gold == coins_at(self.items@.take(i as int), pos),
                kept@ == without_coins_at(self.items@.take(i as int), pos),
                gold <= i,
            decreases n - i,
        {
            let it = self.items[i];
            proof {
                assert(self.items@.take(i + 1).drop_last() =~= self.items@.take(i as int));
                assert(self.items@.take(i + 1).last() == self.items@[i as int]);
            }
            if it.kind == ItemKind::Coin && it.pos == pos {
                gold = gold + 1;
            } else {
                kept.push(it);
            }
            i = i + 1;
        }
        proof {
            assert(self.items@.take(n as int) =~= self.items@);
            assert forall|j: int| 0 <= j < kept@.len() implies self.in_bounds(
                #[trigger] kept@[j].pos,
            ) by {
                lemma_without_coins_at_sub(self.items@, pos);
            }
        }
        self.items = kept;
        gold
    }

    /// Remove every coin from the item list (a debug command).
    pub fn collect_all_loot(&mut self) -> (gold: usize)
        requires
            old(self).wf(),
        ensures
            final(self).wf(),
            gold == coin_count(old(self).items@),
            final(self).items@ == without_coins(old(self).items@),
            *final(self) == (LevelMap { items: final(self).items, ..*old(self) }),
    {
        let mut kept: Vec<Item> = Vec::new();
        let mut gold: usize = 0;
        let n = self.items.len();
        let mut i: usize = 0;
        while i < n
            invariant
                i <= n,
                n == self.items.len(),
                gold == coin_count(self.items@.take(i as int)),
                kept@ == without_coins(self.items@.take(i as int)),
                gold <= i,
            decreases n - i,
        {
            let it = self.items[i];
            proof {
                assert(self.items@.take(i + 1).drop_last() =~= self.items@.take(i as int));
                assert(self.items@.take(i + 1).last() == self.items@[i as int]);
            }
            if it.kind == ItemKind::Coin {
                gold = gold + 1;
            } else {
                kept.push(it);
            }
            i = i + 1;
        }
        proof {
            assert(self.items@.take(n as int) =~= self.items@);
            assert forall|j: int| 0 <= j < kept@.len() implies self.in_bounds(
                #[trigger] kept@[j].pos,
            ) by {
                lemma_without_coins_sub(self.items@);
            }
        }
        self.items = kept;
        gold
    }

    /// No coin is left on the map.
    pub fn all_loot_collected(&self) -> (r: bool)
        ensures
            r == (forall|i: int|
                0 <= i < self.items.len() ==> (#[trigger] self.items[i].kind) != ItemKind::Coin),
    {
        let n = self.items.len();
        let mut i: usize = 0;
        while i < n
            invariant
                i <= n,
                n == self.items.len(),
                forall|j: int| 0 <= j < i ==> (#[trigger] self.items[j].kind) != ItemKind::Coin,
            decreases n - i,
        {
            if self.items[i].kind == ItemKind::Coin {
                return false;
            }
            i = i + 1;
        }
        true
    }

    /// Every cell of the level has been seen.
    pub fn all_seen(&self) -> (r: bool)
        requires
            self.wf(),
        ensures
            r == (forall|x: int, y: int|
                self.cells.in_bounds(x, y) ==> (#[trigger] self.cells.at(x, y)).seen),
    {
        let sx = self.cells.size_x();
        let sy = self.cells.size_y();
        let mut x: usize = 0;
        while x < sx
            invariant
                self.wf(),
                x <= sx,
                sx == self.size_x(),
                sy == self.size_y(),
                forall|i: int, j: int|
                    0 <= i < x && 0 <= j < sy ==> (#[trigger] self.cells.at(i, j)).seen,
            decreases sx - x,
        {
            let mut y: usize = 0;
            while y < sy
                invariant
                    self.wf(),
                    x < sx,
                    y <= sy,
                    sx == self.size_x(),
                    sy == self.size_y(),
                    forall|i: int, j: int|
                        0 <= i < x && 0 <= j < sy ==> (#[trigger] self.cells.at(i, j)).seen,
                    forall|j: int| 0 <= j < y ==> (#[trigger] self.cells.at(x as int, j)).seen,
                decreases sy - y,
            {
                if !self.cells.get(x, y).seen {
                    return false;
                }
                y = y + 1;
            }
            x = x + 1;
        }
        true
    }

    /// The share of cells seen so far, in whole percent.
    pub fn percent_seen(&self) -> (r: usize)
        requires
            self.wf(),
        ensures
            r == seen_count(self.cells.data@) * 100 / self.cells.data@.len() as int,
    {
        let n = self.cells.data.len();
        let mut num_seen: usize = 0;
        let mut i: usize = 0;
        while i < n
            invariant
                i <= n,
                n == self.cells.data.len(),
                num_seen == seen_count(self.cells.data@.take(i as int)),
                num_seen <= i,
            decreases n - i,
        {
            proof {
                assert(self.cells.data@.take(i + 1).drop_last() =~= self.cells.data@.take(i as int));
            }
            if self.cells.data[i].seen {
                num_seen = num_seen + 1;
            }
            i = i + 1;
        }
        proof {
            assert(self.cells.data@.take(n as int) =~= self.cells.data@);
            lemma_seen_count_bound(self.cells.data@);
            assert(1 <= n <= 0x10000000) by (nonlinear_arith)
                requires
                    n == self.cells.spec_size_x() * self.cells.spec_size_y(),
                    1 <= self.cells.spec_size_x() <= 0x4000,
                    1 <= self.cells.spec_size_y() <= 0x4000,
            ;
            assert((num_seen as int * 100) / (n as int) <= 100) by (nonlinear_arith)
                requires
                    0 <= num_seen <= n,
                    n >= 1,
            ;
        }
        ((num_seen as u64 * 100) / (n as u64)) as usize
    }

    /// Set every cell's `seen` flag (a debug command).
    pub fn mark_all_seen(&mut self)
        requires
            old(self).wf(),
        ensures
            final(self).wf(),
            final(self).cells.spec_size_x() == old(self).cells.spec_size_x(),
            final(self).cells.spec_size_y() == old(self).cells.spec_size_y(),
            forall|x: int, y: int|
                final(self).cells.in_bounds(x, y) ==> #[trigger] final(self).cells.at(x, y)
                    == (Cell { seen: true, ..old(self).cells.at(x, y) }),
            *final(self) == (LevelMap { cells: final(self).cells, ..*old(self) }),
    {
        self.set_all_seen(true);
    }

    /// Clear every cell's `seen` flag (a debug command; the only way `seen`
    /// is ever cleared within a level).
    pub fn mark_all_unseen(&mut self)
        requires
            old(self).wf(),
        ensures
            final(self).wf(),
            final(self).cells.spec_size_x() == old(self).cells.spec_size_x(),
            final(self).cells.spec_size_y() == old(self).cells.spec_size_y(),
            forall|x: int, y: int|
                final(self).cells.in_bounds(x, y) ==> #[trigger] final(self).cells.at(x, y)
                    == (Cell { seen: false, ..old(self).cells.at(x, y) }),
            *final(self) == (LevelMap { cells: final(self).cells, ..*old(self) }),
    {
        self.set_all_seen(false);
    }

    fn set_all_seen(&mut self, value: bool)
        requires
            old(self).wf(),
        ensures
            final(self).wf(),
            final(self).cells.spec_size_x() == old(self).cells.spec_size_x(),
            final(self).cells.spec_size_y() == old(self).cells.spec_size_y(),
            forall|x: int, y: int|
                final(self).cells.in_bounds(x, y) ==> #[trigger] final(self).cells.at(x, y)
                    == (Cell { seen: value, ..old(self).cells.at(x, y) }),
            *final(self) == (LevelMap { cells: final(self).cells, ..*old(self) }),
    {
        let sx = self.cells.size_x();
        let sy = self.cells.size_y();
        let mut x: usize = 0;
        while x < sx
            invariant
                self.cells.wf(),
                x <= sx,
                sx == self.cells.spec_size_x(),
                sy == self.cells.spec_size_y(),
                forall|i: int, j: int|
                    0 <= i < x && 0 <= j < sy ==> #[trigger] self.cells.at(i, j) == (Cell {
                        seen: value,
                        ..old(self).cells.at(i, j)
                    }),
                forall|i: int, j: int|
                    x <= i < sx && 0 <= j < sy ==> #[trigger] self.cells.at(i, j) == old(
                        self,
                    ).cells.at(i, j),
                *self == (LevelMap { cells: self.cells, ..*old(self) }),
            decreases sx - x,
        {
            let mut y: usize = 0;
            while y < sy
                invariant
                    self.cells.wf(),
                    x < sx,
                    y <= sy,
                    sx == self.cells.spec_size_x(),
                    sy == self.cells.spec_size_y(),
                    forall|i: int, j: int|
                        0 <= i < x && 0 <= j < sy ==> #[trigger] self.cells.at(i, j) == (Cell {
                            seen: value,
                            ..old(self).cells.at(i, j)
                        }),
                    forall|j: int|
                        0 <= j < y ==> #[trigger] self.cells.at(x as int, j) == (Cell {
                            seen: value,
                            ..old(self).cells.at(x as int, j)
                        }),
                    forall|j: int|
                        y <= j < sy ==> #[trigger] self.cells.at(x as int, j) == old(self).cells.at(
                            x as int,
                            j,
                        ),
                    forall|i: int, j: int|
                        x < i < sx && 0 <= j < sy ==> #[trigger] self.cells.at(i, j) == old(
                            self,
                        ).cells.at(i, j),
                    *self == (LevelMap { cells: self.cells, ..*old(self) }),
                decreases sy - y,
            {
                let mut c = self.cells.get(x, y);
                c.seen = value;
                self.cells.set(x, y, c);
                y = y + 1;
            }
            x = x + 1;
        }
        proof {
            assert forall|i: int|
                0 <= i < self.guards.len() implies (#[trigger] self.guards[i]).wf(
                self.size_x(),
                self.size_y(),
                self.patrol_regions.len() as int,
            ) by {
                assert(self.guards[i] == old(self).guards[i]);
            }
        }
    }

    /// Whether any guard stands at `pos`.
    pub fn is_guard_at(&self, pos: Coord) -> (r: bool)
        ensures
            r == (exists|i: int| 0 <= i < self.guards.len() && (#[trigger] self.guards[i]).pos == pos),
    {
        let n = self.guards.len();
        let mut i: usize = 0;
        while i < n
            invariant
                i <= n,
                n == self.guards.len(),
                forall|j: int| 0 <= j < i ==> (#[trigger] self.guards[j]).pos != pos,
            decreases n - i,
        {
            if self.guards[i].pos == pos {
                return true;
            }
            i = i + 1;
        }
        false
    }

    /// Whether an outfit item lies at `pos`.
    pub fn is_outfit_at(&self, pos: Coord) -> (r: bool)
        ensures
            r == (exists|i: int|
                0 <= i < self.items.len() && is_outfit((#[trigger] self.items[i]).kind)
                    && self.items[i].pos == pos),
    {
        let n = self.items.len();
        let mut i: usize = 0;
        while i < n
            invariant
                i <= n,
                n == self.items.len(),
                forall|j: int|
                    0 <= j < i ==> !(is_outfit((#[trigger] self.items[j]).kind) && self.items[j].pos
                        == pos),
            decreases n - i,
        {
            let it = self.items[i];
            if (it.kind == ItemKind::Chair || it.kind == ItemKind::Table || it.kind
                == ItemKind::Bush || it.kind == ItemKind::Coin || it.kind == ItemKind::DoorNS
                || it.kind == ItemKind::DoorEW || it.kind == ItemKind::PortcullisNS || it.kind
                == ItemKind::PortcullisEW) == false && it.pos == pos {
                return true;
            }
            i = i + 1;
        }
        false
    }

    /// Swap the player's current outfit with the first differing outfit
    /// item at `pos`, handing back the outfit picked up.
    pub fn try_use_outfit_at(&mut self, pos: Coord, outfit_cur: ItemKind) -> (r: Option<ItemKind>)
        requires
            old(self).wf(),
        ensures
            final(self).wf(),
            match first_outfit_at(old(self).items@, pos) {
                Some(i) => {
                    if old(self).items@[i].kind != outfit_cur {
                        &&& r == Some(old(self).items@[i].kind)
                        &&& final(self).items@ == old(self).items@.update(
                            i,
                            Item { pos: old(self).items@[i].pos, kind: outfit_cur },
                        )
                    } else {
                        r == None::<ItemKind> && *final(self) == *old(self)
                    }
                },
                None => r == None::<ItemKind> && *final(self) == *old(self),
            },
            *final(self) == (LevelMap { items: final(self).items, ..*old(self) }),
    {
        let n = self.items.len();
        let mut i: usize = 0;
        while i < n
            invariant
                i <= n,
                *self == *old(self),
                old(self).wf(),
                n == self.items.len(),
                forall|j: int|
                    0 <= j < i ==> !(is_outfit((#[trigger] self.items@[j]).kind) && self.items@[j].pos
                        == pos),
            decreases n - i,
        {
            let it = self.items[i];
            if (it.kind == ItemKind::Outfit1 || it.kind == ItemKind::Outfit2) && it.pos == pos {
                proof {
                    lemma_first_outfit_at(self.items@, pos, i as int);
                }
                if it.kind != outfit_cur {
                    self.items.set(i, Item { pos: it.pos, kind: outfit_cur });
                    proof {
                        assert forall|j: int| 0 <= j < self.items.len() implies self.in_bounds(
                            #[trigger] self.items[j].pos,
                        ) by {
                            assert(old(self).in_bounds(old(self).items[j].pos));
                        }
                    }
                    return Some(it.kind);
                }
                return None;
            }
            i = i + 1;
        }
        proof {
            lemma_no_outfit_at(self.items@, pos);
        }
        None
    }

    /// Pick a random neighbor of `region` along the patrol routes,
    /// excluding `region_exclude`; degrades to `region` itself when no
    /// neighbor qualifies.
    pub fn random_neighbor_region(
        &self,
        random: &mut Rng,
        region: usize,
        region_exclude: usize,
    ) -> (r: usize)
        requires
            self.wf(),
            region_ok(region, self.patrol_regions.len() as int),
        ensures
            region_ok(r, self.patrol_regions.len() as int),
            final(random).seed() == old(random).seed(),
            ({
                let nbrs = neighbor_regions(self.patrol_routes@, region, region_exclude);
                if nbrs.len() == 0 {
                    r == region && *final(random) == *old(random)
                } else {
                    &&& (pcg_below(
                        old(random).seed(),
                        old(random).history(),
                        nbrs.len() as usize,
                    ) as int) < nbrs.len()
                    &&& r == nbrs[pcg_below(
                        old(random).seed(),
                        old(random).history(),
                        nbrs.len() as usize,
                    ) as int]
                    &&& final(random).history() == old(random).history().push(
                        nbrs.len() as usize,
                    )
                }
            }),
    {
        let mut neighbors: Vec<usize> = Vec::new();
        let n = self.patrol_routes.len();
        let mut i: usize = 0;
        while i < n
            invariant
                self.wf(),
                i <= n,
                n == self.patrol_routes.len(),
                neighbors@ == neighbor_regions(
                    self.patrol_routes@.take(i as int),
                    region,
                    region_exclude,
                ),
            decreases n - i,
        {
            let (region0, region1) = self.patrol_routes[i];
            proof {
                assert(self.patrol_routes@.take(i + 1).drop_last() =~= self.patrol_routes@.take(
                    i as int,
                ));
            }
            if region0 == region && region1 != region_exclude {
                neighbors.push(region1);
            } else if region1 == region && region0 != region_exclude {
                neighbors.push(region0);
            }
            i = i + 1;
        }
        proof {
            assert(self.patrol_routes@.take(n as int) =~= self.patrol_routes@);
            lemma_neighbor_regions_ok(
                self.patrol_routes@,
                region,
                region_exclude,
                self.patrol_regions.len() as int,
            );
        }
        if neighbors.len() == 0 {
            return region;
        }
        let k = random.below(neighbors.len());
        neighbors[k]
    }

    /// The guard move cost of the cell at (x, y).
    pub fn guard_cell_cost(&self, x: usize, y: usize) -> (r: usize)
        requires
            self.wf(),
            self.cells.in_bounds(x as int, y as int),
        ensures
            r == self.cells.at(x as int, y as int).move_cost,
    {
        self.cells.get(x, y).move_cost
    }

    /// What stepping from `pos_old` to adjacent `pos_new` costs a guard.
    /// A diagonal step is refused outright when either cell orthogonally
    /// adjacent to both endpoints is itself impassable: guards may not cut
    /// corners.
    pub fn guard_move_cost(&self, pos_old: Coord, pos_new: Coord) -> (r: usize)
        requires
            self.wf(),
            self.in_bounds(pos_old),
            self.in_bounds(pos_new),
        ensures
            r == self.spec_guard_move_cost(pos_old, pos_new),
            (pos_old.0 != pos_new.0 && pos_old.1 != pos_new.1 && (self.cell_at(
                Coord(pos_old.0, pos_new.1),
            ).move_cost == INFINITE_COST || self.cell_at(Coord(pos_new.0, pos_old.1)).move_cost
                == INFINITE_COST)) ==> r == INFINITE_COST,
    {
        let cost = self.guard_cell_cost(pos_new.0 as usize, pos_new.1 as usize);
        if cost == INFINITE_COST {
            return cost;
        }
        if pos_old.0 != pos_new.0 && pos_old.1 != pos_new.1 && (self.guard_cell_cost(
            pos_old.0 as usize,
            pos_new.1 as usize,
        ) == INFINITE_COST || self.guard_cell_cost(pos_new.0 as usize, pos_old.1 as usize)
            == INFINITE_COST) {
            return INFINITE_COST;
        }
        cost
    }

    /// The corner-cutting cost model, as a single definition.
    pub open spec fn spec_guard_move_cost(self, pos_old: Coord, pos_new: Coord) -> usize {
        let cost = self.cell_at(pos_new).move_cost;
        if cost == INFINITE_COST {
            INFINITE_COST
        } else if pos_old.0 != pos_new.0 && pos_old.1 != pos_new.1 && (self.cell_at(
            Coord(pos_old.0, pos_new.1),
        ).move_cost == INFINITE_COST || self.cell_at(Coord(pos_new.0, pos_old.1)).move_cost
            == INFINITE_COST) {
            INFINITE_COST
        } else {
            cost
        }
    }

    pub fn blocks_sight(&self, x: i32, y: i32) -> (r: bool)
        requires
            self.wf(),
            self.cells.in_bounds(x as int, y as int),
        ensures
            r == self.cells.at(x as int, y as int).blocks_sight,
    {
        self.cells.get(x as usize, y as usize).blocks_sight
    }

    pub fn blocks_player_sight(&self, x: i32, y: i32) -> (r: bool)
        requires
            self.wf(),
            self.cells.in_bounds(x as int, y as int),
        ensures
            r == self.cells.at(x as int, y as int).blocks_player_sight,
    {
        self.cells.get(x as usize, y as usize).blocks_player_sight
    }

    pub fn hides_player(&self, x: i32, y: i32) -> (r: bool)
        requires
            self.wf(),
            self.cells.in_bounds(x as int, y as int),
        ensures
            r == self.cells.at(x as int, y as int).hides_player,
    {
        self.cells.get(x as usize, y as usize).hides_player
    }
}

/// The index of the first outfit item at `pos`, if any.
pub open spec fn first_outfit_at(items: Seq<Item>, pos: Coord) -> Option<int>
    decreases items.len(),
{
    if items.len() == 0 {
        None
    } else if is_outfit(items[0].kind) && items[0].pos == pos {
        Some(0int)
    } else {
        match first_outfit_at(items.drop_first(), pos) {
            Some(i) => Some(i + 1),
            None => None,
        }
    }
}

proof fn lemma_first_outfit_at(items: Seq<Item>, pos: Coord, i: int)
    requires
        0 <= i < items.len(),
        is_outfit(items[i].kind) && items[i].pos == pos,
        forall|j: int| 0 <= j < i ==> !(is_outfit((#[trigger] items[j]).kind) && items[j].pos == pos),
    ensures
        first_outfit_at(items, pos) == Some(i),
    decreases i,
{
    if i == 0 {
    } else {
        assert(!(is_outfit(items[0].kind) && items[0].pos == pos));
        lemma_first_outfit_at(items.drop_first(), pos, i - 1);
    }
}

proof fn lemma_no_outfit_at(items: Seq<Item>, pos: Coord)
    requires
        forall|j: int|
            0 <= j < items.len() ==> !(is_outfit((#[trigger] items[j]).kind) && items[j].pos == pos),
    ensures
        first_outfit_at(items, pos) is None,
    decreases items.len(),
{
    if items.len() > 0 {
        lemma_no_outfit_at(items.drop_first(), pos);
    }
}

/// Everything kept by `without_coins_at` was in the original sequence.
proof fn lemma_without_coins_at_sub(items: Seq<Item>, pos: Coord)
    ensures
        forall|j: int|
            0 <= j < without_coins_at(items, pos).len() ==> exists|k: int|
                0 <= k < items.len() && items[k] == #[trigger] without_coins_at(items, pos)[j],
    decreases items.len(),
{
    if items.len() > 0 {
        lemma_without_coins_at_sub(items.drop_last(), pos);
        assert forall|j: int| 0 <= j < without_coins_at(items, pos).len() implies exists|k: int|
            0 <= k < items.len() && items[k] == #[trigger] without_coins_at(items, pos)[j] by {
            let w = without_coins_at(items, pos);
            let wd = without_coins_at(items.drop_last(), pos);
            if items.last().kind == ItemKind::Coin && items.last().pos == pos {
                let k = choose|k: int|
                    0 <= k < items.drop_last().len() && items.drop_last()[k] == wd[j];
                assert(items[k] == wd[j]);
            } else {
                if j < wd.len() {
                    let k = choose|k: int|
                        0 <= k < items.drop_last().len() && items.drop_last()[k] == wd[j];
                    assert(items[k] == w[j]);
                } else {
                    assert(w[j] == items.last());
                    assert(items[items.len() - 1] == w[j]);
                }
            }
        }
    }
}

/// Everything kept by `without_coins` was in the original sequence.
proof fn lemma_without_coins_sub(items: Seq<Item>)
    ensures
        forall|j: int|
            0 <= j < without_coins(items).len() ==> exists|k: int|
                0 <= k < items.len() && items[k] == #[trigger] without_coins(items)[j],
    decreases items.len(),
{
    if items.len() > 0 {
        lemma_without_coins_sub(items.drop_last());
        assert forall|j: int| 0 <= j < without_coins(items).len() implies exists|k: int|
            0 <= k < items.len() && items[k] == #[trigger] without_coins(items)[j] by {
            let w = without_coins(items);
            let wd = without_coins(items.drop_last());
            if items.last().kind == ItemKind::Coin {
                let k = choose|k: int|
                    0 <= k < items.drop_last().len() && items.drop_last()[k] == wd[j];
                assert(items[k] == wd[j]);
            } else {
                if j < wd.len() {
                    let k = choose|k: int|
                        0 <= k < items.drop_last().len() && items.drop_last()[k] == wd[j];
                    assert(items[k] == w[j]);
                } else {
                    assert(w[j] == items.last());
                    assert(items[items.len() - 1] == w[j]);
                }
            }
        }
    }
}

proof fn lemma_seen_count_bound(cells: Seq<Cell>)
    ensures
        0 <= seen_count(cells) <= cells.len(),
    decreases cells.len(),
{
    if cells.len() > 0 {
        lemma_seen_count_bound(cells.drop_last());
    }
}

/// Every neighbor hands back an endpoint of some route, so with valid
/// routes every neighbor is a valid region index.
proof fn lemma_neighbor_regions_ok(
    routes: Seq<(usize, usize)>,
    region: usize,
    region_exclude: usize,
    nregions: int,
)
    requires
        forall|i: int|
            0 <= i < routes.len() ==> ((#[trigger] routes[i]).0 < nregions && routes[i].1
                < nregions),
    ensures
        forall|j: int|
            0 <= j < neighbor_regions(routes, region, region_exclude).len()
                ==> (#[trigger] neighbor_regions(routes, region, region_exclude)[j] as int)
                < nregions,
    decreases routes.len(),
{
    if routes.len() > 0 {
        lemma_neighbor_regions_ok(routes.drop_last(), region, region_exclude, nregions);
        let whole = neighbor_regions(routes, region, region_exclude);
        let rest = neighbor_regions(routes.drop_last(), region, region_exclude);
        assert forall|j: int| 0 <= j < whole.len() implies (#[trigger] whole[j] as int)
            < nregions by {
            if j < rest.len() {
                assert(whole[j] == rest[j]);
            } else {
                assert(routes[routes.len() - 1] == routes.last());
            }
        }
    }
}

} // verus!
