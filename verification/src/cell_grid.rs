//! Cell types, the static tile catalog, items, and the player.

use vstd::prelude::*;
use crate::coord::Coord;

verus! {

/// Sentinel region index for cells that belong to no patrol region.
pub const INVALID_REGION: usize = usize::MAX;

/// Move cost of an impassable cell; guard pathing treats it as a hard wall.
pub const INFINITE_COST: usize = usize::MAX;

/// The closed set of tile kinds. The sixteen wall variants encode which of
/// the N/S/E/W neighbors are also walls; the distinction is visual only and
/// all walls behave identically.
#[derive(Clone, Copy, Debug, PartialEq, Eq, Structural)]
pub enum CellType {
    GroundNormal,
    GroundGrass,
    GroundWater,
    GroundMarble,
    GroundWood,
    GroundWoodCreaky,
    //  NSEW
    Wall0000,
    Wall0001,
    Wall0010,
    Wall0011,
    Wall0100,
    Wall0101,
    Wall0110,
    Wall0111,
    Wall1000,
    Wall1001,
    Wall1010,
    Wall1011,
    Wall1100,
    Wall1101,
    Wall1110,
    Wall1111,
    OneWayWindowE,
    OneWayWindowW,
    OneWayWindowN,
    OneWayWindowS,
    PortcullisNS,
    PortcullisEW,
    DoorNS,
    DoorEW,
}

pub open spec fn is_ground(t: CellType) -> bool {
    ||| t == CellType::GroundNormal
    ||| t == CellType::GroundGrass
    ||| t == CellType::GroundWater
    ||| t == CellType::GroundMarble
    ||| t == CellType::GroundWood
    ||| t == CellType::GroundWoodCreaky
}

pub open spec fn is_wall_tile(t: CellType) -> bool {
    ||| t == CellType::Wall0000
    ||| t == CellType::Wall0001
    ||| t == CellType::Wall0010
    ||| t == CellType::Wall0011
    ||| t == CellType::Wall0100
    ||| t == CellType::Wall0101
    ||| t == CellType::Wall0110
    ||| t == CellType::Wall0111
    ||| t == CellType::Wall1000
    ||| t == CellType::Wall1001
    ||| t == CellType::Wall1010
    ||| t == CellType::Wall1011
    ||| t == CellType::Wall1100
    ||| t == CellType::Wall1101
    ||| t == CellType::Wall1110
    ||| t == CellType::Wall1111
}

pub open spec fn is_window_tile(t: CellType) -> bool {
    ||| t == CellType::OneWayWindowE
    ||| t == CellType::OneWayWindowW
    ||| t == CellType::OneWayWindowN
    ||| t == CellType::OneWayWindowS
}

/// The static capabilities of a tile kind.
#[derive(Clone, Copy, Debug, PartialEq, Eq, Structural)]
pub struct Tile {
    pub blocks_player: bool,
    pub blocks_player_sight: bool,
    pub blocks_sight: bool,
    pub blocks_sound: bool,
    pub ignores_lighting: bool,
}

/// The tile catalog: maps a cell type to its immutable properties.
pub fn tile_def(tile_type: CellType) -> (r: Tile)
    ensures
        r.blocks_player == is_wall_tile(tile_type),
        r.blocks_player_sight == (is_wall_tile(tile_type) && tile_type != CellType::Wall0000),
        r.blocks_sight == (is_wall_tile(tile_type) || is_window_tile(tile_type)),
        r.blocks_sound == is_wall_tile(tile_type),
        r.ignores_lighting == !is_ground(tile_type),
{
    let wall = match tile_type {
        CellType::GroundNormal => false,
        CellType::GroundGrass => false,
        CellType::GroundWater => false,
        CellType::GroundMarble => false,
        CellType::GroundWood => false,
        CellType::GroundWoodCreaky => false,
        CellType::OneWayWindowE => false,
        CellType::OneWayWindowW => false,
        CellType::OneWayWindowN => false,
        CellType::OneWayWindowS => false,
        CellType::PortcullisNS => false,
        CellType::PortcullisEW => false,
        CellType::DoorNS => false,
        CellType::DoorEW => false,
        _ => true,
    };
    let window = match tile_type {
        CellType::OneWayWindowE => true,
        CellType::OneWayWindowW => true,
        CellType::OneWayWindowN => true,
        CellType::OneWayWindowS => true,
        _ => false,
    };
    let ground = match tile_type {
        CellType::GroundNormal => true,
        CellType::GroundGrass => true,
        CellType::GroundWater => true,
        CellType::GroundMarble => true,
        CellType::GroundWood => true,
        CellType::GroundWoodCreaky => true,
        _ => false,
    };
    Tile {
        blocks_player: wall,
        blocks_player_sight: wall && tile_type != CellType::Wall0000,
        blocks_sight: wall || window,
        blocks_sound: wall,
        ignores_lighting: !ground,
    }
}

/// What entering a tile of this kind costs a guard; `INFINITE_COST` for
/// tiles guards can never enter (walls and one-way windows).
pub open spec fn spec_tile_move_cost(t: CellType) -> usize {
    if is_wall_tile(t) || is_window_tile(t) {
        INFINITE_COST
    } else if t == CellType::GroundWater {
        4096
    } else {
        0
    }
}

pub fn guard_move_cost_for_tile_type(tile_type: CellType) -> (r: usize)
    ensures
        r == spec_tile_move_cost(tile_type),
{
    match tile_type {
        CellType::GroundNormal => 0,
        CellType::GroundGrass => 0,
        CellType::GroundWater => 4096,
        CellType::GroundMarble => 0,
        CellType::GroundWood => 0,
        CellType::GroundWoodCreaky => 0,
        CellType::PortcullisNS => 0,
        CellType::PortcullisEW => 0,
        CellType::DoorNS => 0,
        CellType::DoorEW => 0,
        _ => INFINITE_COST,
    }
}

/// Things that can occupy a tile. Coins are the loot; outfits are the two
/// disguises; doors and portcullises exist both as tiles and as items.
#[derive(Clone, Copy, Debug, PartialEq, Eq, Structural)]
pub enum ItemKind {
    Chair,
    Table,
    Bush,
    Coin,
    DoorNS,
    DoorEW,
    PortcullisNS,
    PortcullisEW,
    Outfit1,
    Outfit2,
}

/// The extra move cost an item adds to the tile it stands on.
pub open spec fn spec_item_move_cost(kind: ItemKind) -> usize {
    match kind {
        ItemKind::Chair => 4,
        ItemKind::Table => 10,
        ItemKind::Bush => 10,
        ItemKind::Coin => 0,
        ItemKind::DoorNS => 0,
        ItemKind::DoorEW => 0,
        ItemKind::PortcullisNS => 0,
        ItemKind::PortcullisEW => 0,
        ItemKind::Outfit1 => INFINITE_COST,
        ItemKind::Outfit2 => INFINITE_COST,
    }
}

pub fn guard_move_cost_for_item_kind(kind: ItemKind) -> (r: usize)
    ensures
        r == spec_item_move_cost(kind),
{
    match kind {
        ItemKind::Chair => 4,
        ItemKind::Table => 10,
        ItemKind::Bush => 10,
        ItemKind::Coin => 0,
        ItemKind::DoorNS => 0,
        ItemKind::DoorEW => 0,
        ItemKind::PortcullisNS => 0,
        ItemKind::PortcullisEW => 0,
        ItemKind::Outfit1 => INFINITE_COST,
        ItemKind::Outfit2 => INFINITE_COST,
    }
}

pub open spec fn is_outfit(kind: ItemKind) -> bool {
    kind == ItemKind::Outfit1 || kind == ItemKind::Outfit2
}

/// Per-tile mutable state. The sight/sound/cost fields are caches computed
/// once after generation from the tile catalog and the items on the tile.
#[derive(Clone, Copy, Debug, PartialEq, Eq, Structural)]
pub struct Cell {
    pub cell_type: CellType,
    pub move_cost: usize,
    pub region: usize,
    pub blocks_player_sight: bool,
    pub blocks_sight: bool,
    pub blocks_sound: bool,
    pub hides_player: bool,
    pub lit: bool,
    pub seen: bool,
}

/// An axis-aligned rectangle of cells: pos_min inclusive, pos_max exclusive.
#[derive(Clone, Copy, Debug, PartialEq, Eq, Structural)]
pub struct Rect {
    pub pos_min: Coord,
    pub pos_max: Coord,
}

/// A patrol zone: a rectangle of cells, classified inner (reachable only
/// through master-suite territory) or outer.
#[derive(Clone, Copy, Debug, PartialEq, Eq, Structural)]
pub struct PatrolRegion {
    pub rect: Rect,
    pub inner: bool,
}

/// An item on the map.
#[derive(Clone, Copy, Debug, PartialEq, Eq, Structural)]
pub struct Item {
    pub pos: Coord,
    pub kind: ItemKind,
}

/// The player: position, facing, health, loot, disguise, and the transient
/// per-turn flags the guards' senses read.
#[derive(Clone, Copy, Debug, PartialEq, Eq, Structural)]
pub struct Player {
    pub pos: Coord,
    pub dir: Coord,
    pub max_health: usize,
    pub health: usize,
    pub gold: usize,
    pub disguised: bool,
    pub noisy: bool,
    pub damaged_last_turn: bool,
    pub turns_remaining_underwater: usize,
}

pub fn make_player(pos: Coord) -> (p: Player)
    ensures
        p.pos == pos,
        p.dir.0 == 0 && p.dir.1 == -1,
        p.max_health == 5,
        p.health == 5,
        p.gold == 0,
        !p.disguised,
        !p.noisy,
        !p.damaged_last_turn,
        p.turns_remaining_underwater == 0,
{
    Player {
        pos,
        dir: Coord(0, -1),
        max_health: 5,
        health: 5,
        gold: 0,
        disguised: false,
        noisy: false,
        damaged_last_turn: false,
        turns_remaining_underwater: 0,
    }
}

impl Player {
    /// Damage saturates: health never goes below zero.
    pub fn apply_damage(&mut self, d: usize)
        ensures
            final(self).health == if d <= old(self).health {
                (old(self).health - d) as usize
            } else {
                0usize
            },
            final(self).damaged_last_turn,
            *final(self) == (Player {
                health: final(self).health,
                damaged_last_turn: true,
                ..*old(self)
            }),
    {
        if d <= self.health {
            self.health = self.health - d;
        } else {
            self.health = 0;
        }
        self.damaged_last_turn = true;
    }
}

} // verus!
