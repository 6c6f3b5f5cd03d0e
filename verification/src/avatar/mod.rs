//! The colours and symbols with which agents and tiles are drawn.

pub mod palette;
pub mod sprite;
pub mod agents;
pub mod floors;
pub mod furniture;
