//! What happens in the world, as it is streamed to subscribers.

use vstd::prelude::*;
use crate::agent::types::{AgentId, AgentState};
use crate::world::position::Position;

verus! {

/// Something that happened in the world.
#[derive(Debug, Clone)]
pub enum WorldEvent {
    /// The world advanced to tick `count`.
    Tick { count: u64 },
    AgentSpawned { agent_id: AgentId, position: Position },
    AgentRemoved { agent_id: AgentId },
    AgentMoved { agent_id: AgentId, from: Position, to: Position },
    AgentStateChanged { agent_id: AgentId, state: AgentState },
    MessageSent { from: AgentId, to: AgentId, text: String },
}

} // verus!
