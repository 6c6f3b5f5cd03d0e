//! The A2A (agent-to-agent) protocol: its message shapes, how a remote
//! task's state shows in the world, and the bridge's decisions.

pub mod bridge;
pub mod error_codes;
pub mod types;
