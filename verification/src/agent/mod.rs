//! Agents: identities, states, goals, the registry and messages.

pub mod message;
pub mod registry;
pub mod table;
pub mod types;

pub use message::{AgentMessage, MessageLog};
pub use registry::AgentRegistry;
pub use types::{Agent, AgentGoal, AgentId, AgentKind, AgentState, AnimState, Facing};
