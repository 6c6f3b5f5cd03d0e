//! The world: positions, tiles, the grid, pathfinding, the office layout,
//! its events and the simulation that moves agents on their own.

pub mod events;
pub mod grid;
pub mod office;
pub mod pathfind;
pub mod position;
pub mod simulation;
pub mod tile;

pub use events::WorldEvent;
pub use grid::Grid;
pub use office::build_office_world;
pub use position::{Direction, Position};
pub use tile::{Cell, FloorKind, Tile, WallKind};
