use agentverse::a2a::error_codes;
use agentverse::a2a::types::{JsonRpcResponse, Part};

#[test]
fn test_part_text_creation() {
    let part = Part::text("hello world");
    assert_eq!(part.text.as_deref(), Some("hello world"));
    assert!(part.data.is_none());
    assert!(part.url.is_none());
}

#[test]
fn test_json_rpc_success_response() {
    let resp = JsonRpcResponse::success("1".to_string(), r#"{"status":"ok"}"#.to_string());
    assert_eq!(resp.jsonrpc, "2.0");
    assert!(resp.result.is_some());
    assert!(resp.error.is_none());
}

#[test]
fn test_json_rpc_error_response() {
    let resp = JsonRpcResponse::error("1".to_string(), error_codes::METHOD_NOT_FOUND, "Method not found");
    let err = resp.error.unwrap();
    assert_eq!(err.code, -32601);
    assert_eq!(err.message, "Method not found");
}

#[test]
fn test_error_codes() {
    assert_eq!(error_codes::PARSE_ERROR, -32700);
    assert_eq!(error_codes::INVALID_REQUEST, -32600);
    assert_eq!(error_codes::METHOD_NOT_FOUND, -32601);
    assert_eq!(error_codes::INVALID_PARAMS, -32602);
    assert_eq!(error_codes::INTERNAL_ERROR, -32603);
    assert_eq!(error_codes::TASK_NOT_FOUND, -32001);
    assert_eq!(error_codes::UNSUPPORTED_OPERATION, -32003);
}

use agentverse::a2a::bridge::{
    admit_remote_agent, apply_task, discovery_url, jsonrpc_endpoint, mark_thinking, remove_remote_agent, rpc_result,
    signed_decimal, user_message,
};
use agentverse::a2a::types::{
    task_state_to_agent_state, AgentCapabilities, AgentCard, AgentProvider, JsonRpcError, Message, Role,
    SupportedInterface, Task, TaskState, TaskStatus,
};
use agentverse::agent::{AgentKind, AgentRegistry, AgentState};
use agentverse::world::{Grid, Position};

fn card_with(interfaces: Vec<SupportedInterface>) -> AgentCard {
    AgentCard {
        name: "TestAgent".to_string(),
        description: Some("A test agent".to_string()),
        version: Some("0.1.0".to_string()),
        documentation_url: None,
        icon_url: None,
        supported_interfaces: interfaces,
        provider: Some(AgentProvider { organization: "OpenCrabs".to_string(), url: None }),
        capabilities: Some(AgentCapabilities { streaming: false, push_notifications: false, state_transition_history: false }),
        skills: vec![],
        default_input_modes: vec!["text/plain".to_string()],
        default_output_modes: vec!["text/plain".to_string()],
    }
}

fn interface(url: &str, binding: &str) -> SupportedInterface {
    SupportedInterface { url: url.to_string(), protocol_binding: binding.to_string(), protocol_version: Some("1.0".to_string()) }
}

fn task_in(state: TaskState, reply: Option<&str>) -> Task {
    Task {
        id: "task-1".to_string(),
        context_id: None,
        status: TaskStatus {
            state,
            message: reply.map(|r| Message {
                message_id: None,
                context_id: None,
                task_id: None,
                role: Role::Agent,
                parts: vec![Part::text(r)],
                metadata: None,
            }),
            timestamp: Some("2026-03-14T00:00:00Z".to_string()),
        },
        artifacts: vec![],
        history: vec![],
        metadata: None,
    }
}

#[test]
fn test_task_states_show_on_agents() {
    assert_eq!(task_state_to_agent_state(&TaskState::Submitted), AgentState::Thinking);
    assert_eq!(task_state_to_agent_state(&TaskState::Working), AgentState::Working);
    assert_eq!(task_state_to_agent_state(&TaskState::Completed), AgentState::Idle);
    assert_eq!(task_state_to_agent_state(&TaskState::Failed), AgentState::Error);
    assert_eq!(task_state_to_agent_state(&TaskState::Canceled), AgentState::Idle);
    assert_eq!(task_state_to_agent_state(&TaskState::InputRequired), AgentState::Messaging);
    assert_eq!(task_state_to_agent_state(&TaskState::Rejected), AgentState::Error);
    assert_eq!(task_state_to_agent_state(&TaskState::AuthRequired), AgentState::Error);
}

#[test]
fn test_endpoint_prefers_jsonrpc_interface() {
    let card = card_with(vec![interface("http://grpc", "GRPC"), interface("http://localhost:18789/a2a/v1", "JSONRPC")]);
    assert_eq!(jsonrpc_endpoint(&card, "http://localhost:18789"), "http://localhost:18789/a2a/v1");
}

#[test]
fn test_endpoint_falls_back_to_base_url() {
    let card = card_with(vec![interface("http://grpc", "GRPC")]);
    assert_eq!(jsonrpc_endpoint(&card, "http://agent.example//"), "http://agent.example/a2a/v1");
    let empty = card_with(vec![]);
    assert_eq!(jsonrpc_endpoint(&empty, "http://agent.example"), "http://agent.example/a2a/v1");
}

#[test]
fn test_discovery_url() {
    assert_eq!(discovery_url("http://agent.example/"), "http://agent.example/.well-known/agent.json");
    assert_eq!(discovery_url("http://agent.example"), "http://agent.example/.well-known/agent.json");
}

#[test]
fn test_signed_decimal() {
    assert_eq!(signed_decimal(-32601), "-32601");
    assert_eq!(signed_decimal(0), "0");
    assert_eq!(signed_decimal(42), "42");
    assert_eq!(signed_decimal(i32::MIN), "-2147483648");
}

#[test]
fn test_rpc_result_cases() {
    let ok = JsonRpcResponse::success("1".to_string(), "{\"id\":\"t\"}".to_string());
    assert_eq!(rpc_result(&ok).unwrap(), "{\"id\":\"t\"}");
    let err = JsonRpcResponse::error("1".to_string(), error_codes::TASK_NOT_FOUND, "Task not found");
    assert_eq!(rpc_result(&err).unwrap_err(), "A2A error -32001: Task not found");
    let empty = JsonRpcResponse { jsonrpc: "2.0".to_string(), result: None, error: None, id: "1".to_string() };
    assert_eq!(rpc_result(&empty).unwrap_err(), "empty result");
    let both = JsonRpcResponse {
        jsonrpc: "2.0".to_string(),
        result: Some("{}".to_string()),
        error: Some(JsonRpcError { code: -32603, message: "boom".to_string(), data: None }),
        id: "1".to_string(),
    };
    assert_eq!(rpc_result(&both).unwrap_err(), "A2A error -32603: boom");
}

#[test]
fn test_send_message_params() {
    let params = user_message("Hello", "msg-1".to_string());
    assert_eq!(params.message.message_id.as_deref(), Some("msg-1"));
    assert_eq!(params.message.role, Role::User);
    assert_eq!(params.message.parts.len(), 1);
    assert_eq!(params.message.parts[0].text.as_deref(), Some("Hello"));
    assert!(params.configuration.is_none());
}

#[test]
fn test_admit_remote_agent_and_apply_task() {
    let mut registry = AgentRegistry::new();
    let mut grid = Grid::with_walls(8, 6);
    let (id, pos) = admit_remote_agent(&mut registry, &mut grid, "remote", "http://r/a2a/v1".to_string());
    assert_eq!(grid.get(pos).unwrap().occupant, Some(id));
    let agent = registry.get(&id).unwrap();
    assert_eq!(agent.kind, AgentKind::OpenCrabs { endpoint: "http://r/a2a/v1".to_string() });
    assert_eq!(agent.name, "remote");

    mark_thinking(&mut registry, &id);
    assert_eq!(registry.get(&id).unwrap().state, AgentState::Thinking);

    apply_task(&mut registry, &id, &task_in(TaskState::Completed, Some("Done!")));
    let agent = registry.get(&id).unwrap();
    assert_eq!(agent.state, AgentState::Idle);
    assert_eq!(agent.task_count, 1);
    assert_eq!(agent.speech.as_deref(), Some("Done!"));

    apply_task(&mut registry, &id, &task_in(TaskState::Failed, None));
    let agent = registry.get(&id).unwrap();
    assert_eq!(agent.state, AgentState::Error);
    assert_eq!(agent.task_count, 2);
    assert_eq!(agent.speech.as_deref(), Some("Done!"));

    remove_remote_agent(&mut registry, &mut grid, &id);
    assert_eq!(registry.count(), 0);
    assert!(grid.get(pos).unwrap().occupant.is_none());
}

#[test]
fn test_admit_remote_agent_without_floor_uses_fallback() {
    let mut registry = AgentRegistry::new();
    let mut grid = Grid::with_walls(2, 2);
    let (id, pos) = admit_remote_agent(&mut registry, &mut grid, "squeezed", "http://s".to_string());
    assert_eq!(pos, Position::new(1, 1));
    assert_eq!(registry.get(&id).unwrap().position, Position::new(1, 1));
    // (1,1) is a wall here, so nobody stands on the grid.
    assert!(grid.get(pos).unwrap().occupant.is_none());
}
