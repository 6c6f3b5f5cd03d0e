use vstd::prelude::*;
use crate::agent::types::AgentState;

verus! {

/// Lifecycle of a remote A2A task.
#[derive(Debug, Clone, Copy, PartialEq, Eq, Structural)]
pub enum TaskState {
    Submitted,
    Working,
    Completed,
    Failed,
    Canceled,
    InputRequired,
    Rejected,
    AuthRequired,
}

/// Who wrote a message.
#[derive(Debug, Clone, Copy, PartialEq, Eq, Structural)]
pub enum Role {
    User,
    Agent,
}

/// One part of a message: text, structured data (JSON text) or a file URL.
#[derive(Debug, Clone)]
pub struct Part {
    pub text: Option<String>,
    pub data: Option<String>,
    pub url: Option<String>,
    pub media_type: Option<String>,
    pub filename: Option<String>,
}

impl Part {
    /// A part holding only `text`.
    pub fn text(text: &str) -> (p: Part)
        ensures
            p.text matches Some(t) && t@ == text@,
            p.data is None,
            p.url is None,
            p.media_type is None,
            p.filename is None,
    {
        Part { text: Some(String::from_str(text)), data: None, url: None, media_type: None, filename: None }
    }
}

/// A protocol message; `metadata` is JSON text.
#[derive(Debug, Clone)]
pub struct Message {
    pub message_id: Option<String>,
    pub context_id: Option<String>,
    pub task_id: Option<String>,
    pub role: Role,
    pub parts: Vec<Part>,
    pub metadata: Option<String>,
}

/// The status of a remote task; `timestamp` is RFC 3339 text.
#[derive(Debug, Clone)]
pub struct TaskStatus {
    pub state: TaskState,
    pub message: Option<Message>,
    pub timestamp: Option<String>,
}

/// An output of a remote task.
#[derive(Debug, Clone)]
pub struct Artifact {
    pub artifact_id: String,
    pub name: Option<String>,
    pub parts: Vec<Part>,
}

/// A remote task as reported by an A2A agent.
#[derive(Debug, Clone)]
pub struct Task {
    pub id: String,
    pub context_id: Option<String>,
    pub status: TaskStatus,
    pub artifacts: Vec<Artifact>,
    pub history: Vec<Message>,
    pub metadata: Option<String>,
}

/// A JSON-RPC request; `params` and `id` are JSON text.
#[derive(Debug, Clone)]
pub struct JsonRpcRequest {
    pub jsonrpc: String,
    pub method: String,
    pub params: String,
    pub id: String,
}

/// A JSON-RPC error object; `data` is JSON text.
#[derive(Debug, Clone)]
pub struct JsonRpcError {
    pub code: i32,
    pub message: String,
    pub data: Option<String>,
}

/// A JSON-RPC response; `result` and `id` are JSON text.
#[derive(Debug, Clone)]
pub struct JsonRpcResponse {
    pub jsonrpc: String,
    pub result: Option<String>,
    pub error: Option<JsonRpcError>,
    pub id: String,
}

impl JsonRpcResponse {
    /// A successful response carrying `result`.
    pub fn success(id: String, result: String) -> (r: JsonRpcResponse)
        ensures
            r.jsonrpc@ == "2.0"@,
            r.result == Some(result),
            r.error is None,
            r.id == id,
    {
        JsonRpcResponse { jsonrpc: String::from_str("2.0"), result: Some(result), error: None, id }
    }

    /// An error response with `code` and `message`.
    pub fn error(id: String, code: i32, message: &str) -> (r: JsonRpcResponse)
        ensures
            r.jsonrpc@ == "2.0"@,
            r.result is None,
            r.error matches Some(e) && e.code == code && e.message@ == message@ && e.data is None,
            r.id == id,
    {
        JsonRpcResponse {
            jsonrpc: String::from_str("2.0"),
            result: None,
            error: Some(JsonRpcError { code, message: String::from_str(message), data: None }),
            id,
        }
    }
}

/// How an A2A agent can be reached.
#[derive(Debug, Clone)]
pub struct SupportedInterface {
    pub url: String,
    pub protocol_binding: String,
    pub protocol_version: Option<String>,
}

/// Who runs an A2A agent.
#[derive(Debug, Clone)]
pub struct AgentProvider {
    pub organization: String,
    pub url: Option<String>,
}

/// What an A2A agent supports.
#[derive(Debug, Clone, Copy)]
pub struct AgentCapabilities {
    pub streaming: bool,
    pub push_notifications: bool,
    pub state_transition_history: bool,
}

/// A skill an A2A agent advertises.
#[derive(Debug, Clone)]
pub struct AgentSkill {
    pub id: String,
    pub name: String,
    pub description: Option<String>,
    pub tags: Vec<String>,
    pub examples: Vec<String>,
    pub input_modes: Vec<String>,
    pub output_modes: Vec<String>,
}

/// The self-description an A2A agent publishes.
#[derive(Debug, Clone)]
pub struct AgentCard {
    pub name: String,
    pub description: Option<String>,
    pub version: Option<String>,
    pub documentation_url: Option<String>,
    pub icon_url: Option<String>,
    pub supported_interfaces: Vec<SupportedInterface>,
    pub provider: Option<AgentProvider>,
    pub capabilities: Option<AgentCapabilities>,
    pub skills: Vec<AgentSkill>,
    pub default_input_modes: Vec<String>,
    pub default_output_modes: Vec<String>,
}

/// Parameters of `message/send`; `configuration` and `metadata` are JSON text.
#[derive(Debug, Clone)]
pub struct SendMessageParams {
    pub message: Message,
    pub configuration: Option<String>,
    pub metadata: Option<String>,
}

/// Parameters of `tasks/get`.
#[derive(Debug, Clone)]
pub struct GetTaskParams {
    pub id: String,
}

/// Parameters of `tasks/cancel`.
#[derive(Debug, Clone)]
pub struct CancelTaskParams {
    pub id: String,
}

/// How the state of a remote task shows on its agent in the world.
pub open spec fn agent_state_for_task(state: TaskState) -> AgentState {
    match state {
        TaskState::Submitted => AgentState::Thinking,
        TaskState::Working => AgentState::Working,
        TaskState::Completed => AgentState::Idle,
        TaskState::Failed => AgentState::Error,
        TaskState::Canceled => AgentState::Idle,
        TaskState::InputRequired => AgentState::Messaging,
        TaskState::Rejected => AgentState::Error,
        TaskState::AuthRequired => AgentState::Error,
    }
}

pub fn task_state_to_agent_state(state: &TaskState) -> (s: AgentState)
    ensures
        s == agent_state_for_task(*state),
{
    match state {
        TaskState::Submitted => AgentState::Thinking,
        TaskState::Working => AgentState::Working,
        TaskState::Completed => AgentState::Idle,
        TaskState::Failed => AgentState::Error,
        TaskState::Canceled => AgentState::Idle,
        TaskState::InputRequired => AgentState::Messaging,
        TaskState::Rejected => AgentState::Error,
        TaskState::AuthRequired => AgentState::Error,
    }
}

} // verus!
