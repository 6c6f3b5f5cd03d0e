//! The shapes of the API's requests and responses.

use vstd::prelude::*;
use crate::api::observability::{ActivityEntry, HeartbeatInfo, TaskRecord};

verus! {

#[derive(Debug)]
pub struct ConnectRequest {
    pub name: String,
    pub endpoint: Option<String>,
}

#[derive(Debug)]
pub struct ConnectResponse {
    pub agent_id: String,
    pub position: (u16, u16),
}

#[derive(Debug)]
pub struct ApiAgent {
    pub id: String,
    pub name: String,
    pub state: String,
    pub position: (u16, u16),
    pub task_count: u32,
    pub speech: Option<String>,
}

#[derive(Debug)]
pub struct ApiMessage {
    pub text: String,
    /// Optional target agent ID for agent-to-agent messaging.
    pub to: Option<String>,
}

#[derive(Debug)]
pub struct WorldSnapshot {
    pub width: u16,
    pub height: u16,
    pub agents: Vec<ApiAgent>,
    pub tick: u64,
}

#[derive(Debug)]
pub struct HealthResponse {
    pub status: String,
    pub version: String,
    pub agents: usize,
}

#[derive(Debug)]
pub struct MoveRequest {
    pub x: u16,
    pub y: u16,
}

#[derive(Debug)]
pub struct GoalRequest {
    /// One of: "desk", "vending", "coffee", "pinball", "gym", "treadmill",
    /// "weights", "yoga", "meeting", "server", "archive", "couch", "wander".
    pub goal: String,
}

#[derive(Debug)]
pub struct StateRequest {
    /// One of: "idle", "walking", "thinking", "working", "messaging", "eating",
    /// "exercising", "playing", "error", "offline".
    pub state: String,
}

#[derive(Debug)]
pub struct RenameRequest {
    pub name: String,
}

#[derive(Debug)]
pub struct ApiCell {
    pub tile: String,
    pub occupant: Option<String>,
}

#[derive(Debug)]
pub struct TileMapResponse {
    pub width: u16,
    pub height: u16,
    pub tiles: Vec<Vec<ApiCell>>,
}

#[derive(Debug)]
pub struct MessageResponse {
    pub status: String,
    pub delivered_to: Option<String>,
}

#[derive(Debug)]
pub struct DeleteResponse {
    pub status: String,
    pub agent_id: String,
}

#[derive(Debug)]
pub struct InboxMessage {
    pub from: String,
    pub from_name: String,
    pub text: String,
    /// Milliseconds since the Unix epoch (RFC 3339 text on the wire).
    pub timestamp: i64,
}

#[derive(Debug)]
pub struct InboxResponse {
    pub agent_id: String,
    pub count: usize,
    pub messages: Vec<InboxMessage>,
}

#[derive(Debug)]
pub struct ApiAgentDetail {
    pub id: String,
    pub name: String,
    pub kind: String,
    pub state: String,
    pub position: (u16, u16),
    pub task_count: u32,
    pub speech: Option<String>,
    pub goal: Option<String>,
    pub last_activity_secs_ago: u64,
    pub connection_health: String,
}

#[derive(Debug)]
pub struct HeartbeatRequest {
    pub status: String,
    /// JSON text.
    pub metadata: Option<String>,
}

#[derive(Debug)]
pub struct HeartbeatResponse {
    pub status: String,
    /// Milliseconds since the Unix epoch (RFC 3339 text on the wire).
    pub last_seen: i64,
}

#[derive(Debug)]
pub struct AgentStatusResponse {
    pub agent_id: String,
    pub name: String,
    pub state: String,
    pub connection_health: String,
    pub heartbeat: Option<HeartbeatInfo>,
}

#[derive(Debug)]
pub struct ActivityResponse {
    pub agent_id: String,
    pub count: usize,
    pub entries: Vec<ActivityEntry>,
}

#[derive(Debug)]
pub struct TaskHistoryResponse {
    pub agent_id: String,
    pub count: usize,
    pub tasks: Vec<TaskRecord>,
}

#[derive(Debug)]
pub struct LimitQuery {
    pub limit: Option<usize>,
}

#[derive(Debug)]
pub struct DashboardResponse {
    pub agent: ApiAgentDetail,
    pub recent_activity: Vec<ActivityEntry>,
    pub task_history: Vec<TaskRecord>,
    pub heartbeat: Option<HeartbeatInfo>,
    pub connection_health: String,
}

#[derive(Debug)]
pub struct TaskReportRequest {
    pub task_id: String,
    pub state: String,
    pub summary: Option<String>,
    /// The full scope of the task.
    pub scope: Option<String>,
}

} // verus!
