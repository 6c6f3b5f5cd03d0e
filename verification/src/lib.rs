//! A shared office world in which AI agents live, move and talk to each other.
//!
//! The library holds the world model (the tile grid, pathfinding and the office
//! layout), the agents and their registry, the observability store, the
//! decisions behind the REST API, the sprites, the key handling of the
//! terminal interface and the configuration defaults.

pub mod a2a;
pub mod agent;
pub mod api;
pub mod avatar;
pub mod config;
pub mod error;
pub mod laws;
pub mod mission;
pub mod overlay;
pub mod text;
pub mod tui;
pub mod world;
