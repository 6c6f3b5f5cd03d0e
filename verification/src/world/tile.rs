use vstd::prelude::*;
use crate::agent::AgentId;

verus! {

/// Floor coverings.
#[derive(Debug, Clone, Copy, PartialEq, Eq, Structural, Hash)]
pub enum FloorKind {
    Wood,
    Tile,
    Carpet,
    Concrete,
}

/// Wall kinds.
#[derive(Debug, Clone, Copy, PartialEq, Eq, Structural, Hash)]
pub enum WallKind {
    Solid,
    Window,
}

/// What stands on a cell of the grid.
#[derive(Debug, Clone, Copy, PartialEq, Eq, Structural, Hash)]
pub enum Tile {
    Floor(FloorKind),
    Wall(WallKind),
    Rug,
    DoorOpen,
    Desk,
    VendingMachine,
    CoffeeMachine,
    Couch,
    Plant,
    PinballMachine,
    GymTreadmill,
    Whiteboard,
    WeightBench,
    YogaMat,
    FloorLamp,
    MeetingTable,
    SmallArmchair,
    ServerRack,
    FileCabinet,
    KitchenCounter,
    PingPongTableLeft,
    PingPongTableRight,
}

/// Floors, rugs and open doors can be walked on; walls and furniture cannot.
pub open spec fn tile_solid(t: Tile) -> bool {
    match t {
        Tile::Floor(_) | Tile::Rug | Tile::DoorOpen => false,
        _ => true,
    }
}

impl Tile {
    pub fn is_solid(&self) -> (b: bool)
        ensures
            b == tile_solid(*self),
    {
        match self {
            Tile::Floor(_) | Tile::Rug | Tile::DoorOpen => false,
            _ => true,
        }
    }
}

/// One cell of the grid: its tile and the agent standing on it, if any.
#[derive(Debug, Clone, Copy, PartialEq, Eq)]
pub struct Cell {
    pub tile: Tile,
    pub occupant: Option<AgentId>,
}

/// A cell can be entered when its tile is not solid and nobody stands on it.
pub open spec fn cell_walkable(c: Cell) -> bool {
    !tile_solid(c.tile) && c.occupant is None
}

impl Cell {
    /// An empty cell of the given floor.
    pub fn floor(kind: FloorKind) -> (c: Cell)
        ensures
            c.tile == Tile::Floor(kind),
            c.occupant is None,
    {
        Cell { tile: Tile::Floor(kind), occupant: None }
    }

    /// An empty cell holding a solid wall.
    pub fn wall() -> (c: Cell)
        ensures
            c.tile == Tile::Wall(WallKind::Solid),
            c.occupant is None,
    {
        Cell { tile: Tile::Wall(WallKind::Solid), occupant: None }
    }

    pub fn is_walkable(&self) -> (b: bool)
        ensures
            b == cell_walkable(*self),
    {
        !self.tile.is_solid() && self.occupant.is_none()
    }
}

} // verus!
