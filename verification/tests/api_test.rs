use agentverse::agent::{AgentGoal, AgentId, AgentKind, AgentState};
use agentverse::api::observability::ActivityKind;
use agentverse::api::service::{parse_agent_state, ApiState};
use agentverse::api::views::check_api_key;
use agentverse::error::ApiError;
use agentverse::world::pathfind::find_path;
use agentverse::world::{build_office_world, Grid, Position, Tile};

const NOW: i64 = 1_700_000_000_000;

fn test_state() -> ApiState {
    ApiState::new(Grid::with_walls(16, 12), 500, 200)
}

fn connect(state: &mut ApiState, name: &str) -> AgentId {
    let (id, _, _) = state.connect_agent(name, None, NOW).unwrap();
    id
}

fn short(id: AgentId) -> String {
    id.short_string()
}

fn agent_state_of(state: &ApiState, id: AgentId) -> AgentState {
    state.registry.get(&id).unwrap().state
}

fn not_found_message(e: &ApiError) -> String {
    match e {
        ApiError::NotFound(m) => m.clone(),
        other => panic!("expected not found, got {:?}", other),
    }
}

fn bad_request_message(e: &ApiError) -> String {
    match e {
        ApiError::BadRequest(m) => m.clone(),
        other => panic!("expected bad request, got {:?}", other),
    }
}

// ─── Health and listing ─────────────────────────────────────

#[test]
fn test_health_endpoint() {
    let state = test_state();
    let health = state.health("0.1.0");
    assert_eq!(health.status, "ok");
    assert_eq!(health.version, "0.1.0");
    assert_eq!(health.agents, 0);
}

#[test]
fn test_list_agents_empty() {
    let state = test_state();
    assert!(state.list_agents().is_empty());
}

#[test]
fn test_connect_agent() {
    let mut state = test_state();
    let (id, pos, note) = state.connect_agent("test-bot", None, NOW).unwrap();
    assert_eq!(state.registry.count(), 1);
    assert_eq!(id.full_string().len(), 36);
    assert_eq!(state.grid.get(pos).unwrap().occupant, Some(id));
    assert_eq!(note.kind, ActivityKind::Spawned);
    assert_eq!(note.detail, format!("Agent 'test-bot' connected at ({},{})", pos.x, pos.y));
}

#[test]
fn test_connect_agent_with_endpoint() {
    let mut state = test_state();
    let (id, _, _) = state.connect_agent("ext", Some("http://localhost:9090".to_string()), NOW).unwrap();
    let agent = state.registry.get(&id).unwrap();
    assert_eq!(agent.kind, AgentKind::External { endpoint: "http://localhost:9090".to_string() });
}

#[test]
fn test_connect_multiple_agents() {
    let mut state = test_state();
    for i in 0..3 {
        connect(&mut state, &format!("bot-{}", i));
    }
    assert_eq!(state.registry.count(), 3);
}

#[test]
fn test_connect_fails_when_world_full() {
    // A 3x3 walled grid has exactly one floor cell.
    let mut state = ApiState::new(Grid::with_walls(3, 3), 500, 200);
    connect(&mut state, "first");
    let err = state.connect_agent("second", None, NOW).unwrap_err();
    match err {
        ApiError::ServiceUnavailable(m) => assert_eq!(m, "no empty floor available"),
        other => panic!("unexpected {:?}", other),
    }
    assert_eq!(state.registry.count(), 1);
}

#[test]
fn test_list_agents_after_connect() {
    let mut state = test_state();
    let id = connect(&mut state, "lister");
    let agents = state.list_agents();
    assert_eq!(agents.len(), 1);
    assert_eq!(agents[0].name, "lister");
    assert_eq!(agents[0].state, "idle");
    assert_eq!(agents[0].id, short(id));
    assert_eq!(agents[0].task_count, 0);
}

#[test]
fn test_delete_agent() {
    let mut state = test_state();
    let id = connect(&mut state, "delete-me");
    let (removed, note) = state.delete_agent(&short(id), NOW).unwrap();
    assert_eq!(removed, id);
    assert_eq!(note.detail, "Agent disconnected");
    assert_eq!(state.registry.count(), 0);
    assert!(state.observer.get_activity(&id, 10).is_empty());
}

#[test]
fn test_delete_nonexistent_agent() {
    let mut state = test_state();
    let err = state.delete_agent("nonexistent", NOW).unwrap_err();
    assert_eq!(not_found_message(&err), "agent 'nonexistent' not found");
    assert_eq!(err.status_code(), 404);
}

#[test]
fn test_delete_clears_grid_occupant() {
    let mut state = test_state();
    let (id, pos, _) = state.connect_agent("grid-check", None, NOW).unwrap();
    state.delete_agent(&id.full_string(), NOW).unwrap();
    assert!(state.grid.get(pos).unwrap().occupant.is_none());
}

#[test]
fn test_spawn_agent_logs_nothing() {
    let mut state = test_state();
    let (id, pos) = state.spawn_agent("crab-alpha").unwrap();
    assert_eq!(state.grid.get(pos).unwrap().occupant, Some(id));
    assert_eq!(state.registry.get(&id).unwrap().name, "crab-alpha");
    assert!(state.observer.get_activity(&id, 10).is_empty());
}

// ─── Messaging ──────────────────────────────────────────────

#[test]
fn test_message_to_nonexistent_agent() {
    let mut state = test_state();
    let err = state.send_agent_message("nope", None, "hi", NOW).unwrap_err();
    assert_eq!(not_found_message(&err), "agent 'nope' not found");
}

#[test]
fn test_send_self_message() {
    let mut state = test_state();
    let id = connect(&mut state, "talker");
    let out = state.send_agent_message(&short(id), None, "Hello world!", NOW).unwrap();
    assert!(out.recipient.is_none());
    assert!(out.webhook.is_none());
    let agent = state.registry.get(&id).unwrap();
    assert_eq!(agent.speech.as_deref(), Some("Hello world!"));
    assert_eq!(agent.state, AgentState::Messaging);
    assert_eq!(out.notes.len(), 1);
    assert_eq!(out.notes[0].detail, "Speech: Hello world!");
}

#[test]
fn test_agent_to_agent_message() {
    let mut state = test_state();
    let a = connect(&mut state, "agent-a");
    let b = connect(&mut state, "agent-b");
    let out = state.send_agent_message(&short(a), Some(&short(b)), "hey b", NOW).unwrap();
    let (rid, text) = out.recipient.unwrap();
    assert_eq!(rid, b);
    assert_eq!(text, short(b));
    let target = state.registry.get(&b).unwrap();
    assert_eq!(target.speech.as_deref(), Some("hey b"));
    assert_eq!(target.state, AgentState::Messaging);
    assert_eq!(target.inbox.len(), 1);
    assert_eq!(out.notes.len(), 2);
    assert_eq!(out.notes[0].kind, ActivityKind::MessageSent);
    assert_eq!(out.notes[0].detail, format!("Sent to {}: hey b", short(b)));
    assert_eq!(out.notes[1].kind, ActivityKind::MessageReceived);
    assert_eq!(out.notes[1].detail, format!("From {}: hey b", short(a)));
}

#[test]
fn test_message_sent_text_shows_eight_characters_of_target() {
    let mut state = test_state();
    let a = connect(&mut state, "agent-a");
    let b = connect(&mut state, "agent-b");
    let out = state.send_agent_message(&short(a), Some(&b.full_string()), "x", NOW).unwrap();
    assert_eq!(out.notes[0].detail, format!("Sent to {}: x", short(b)));
}

#[test]
fn test_message_webhook_for_external_target() {
    let mut state = test_state();
    let a = connect(&mut state, "agent-a");
    let (b, _, _) = state.connect_agent("ext", Some("http://hook".to_string()), NOW).unwrap();
    let out = state.send_agent_message(&short(a), Some(&short(b)), "ping", NOW).unwrap();
    assert_eq!(out.webhook.as_deref(), Some("http://hook"));
}

#[test]
fn test_message_to_invalid_target() {
    let mut state = test_state();
    let a = connect(&mut state, "agent-a");
    let err = state.send_agent_message(&short(a), Some("ghost"), "hi", NOW).unwrap_err();
    assert_eq!(not_found_message(&err), "agent 'ghost' not found");
}

#[test]
fn test_inbox_empty() {
    let mut state = test_state();
    let id = connect(&mut state, "lonely");
    let inbox = state.get_agent_messages(&short(id), None).unwrap();
    assert_eq!(inbox.count, 0);
    assert_eq!(inbox.agent_id, id.full_string());
}

#[test]
fn test_inbox_receives_message() {
    let mut state = test_state();
    let a = connect(&mut state, "agent-a");
    let b = connect(&mut state, "agent-b");
    state.send_agent_message(&short(a), Some(&short(b)), "hello b", NOW).unwrap();
    let inbox = state.get_agent_messages(&short(b), None).unwrap();
    assert_eq!(inbox.count, 1);
    assert_eq!(inbox.messages[0].text, "hello b");
    assert_eq!(inbox.messages[0].from, a.full_string());
    assert_eq!(inbox.messages[0].from_name, "agent-a");
    assert_eq!(inbox.messages[0].timestamp, NOW);
}

#[test]
fn test_inbox_multiple_messages() {
    let mut state = test_state();
    let a = connect(&mut state, "agent-a");
    let b = connect(&mut state, "agent-b");
    for text in ["msg-1", "msg-2", "msg-3"] {
        state.send_agent_message(&short(a), Some(&short(b)), text, NOW).unwrap();
    }
    let inbox = state.get_agent_messages(&short(b), None).unwrap();
    assert_eq!(inbox.count, 3);
    // Newest first.
    assert_eq!(inbox.messages[0].text, "msg-3");
    assert_eq!(inbox.messages[2].text, "msg-1");
}

#[test]
fn test_inbox_limit() {
    let mut state = test_state();
    let a = connect(&mut state, "agent-a");
    let b = connect(&mut state, "agent-b");
    for i in 0..5 {
        state.send_agent_message(&short(a), Some(&short(b)), &format!("msg-{}", i), NOW).unwrap();
    }
    let inbox = state.get_agent_messages(&short(b), Some(2)).unwrap();
    assert_eq!(inbox.count, 2);
    assert_eq!(inbox.messages[0].text, "msg-4");
    assert_eq!(inbox.messages[1].text, "msg-3");
}

#[test]
fn test_inbox_ack_clears() {
    let mut state = test_state();
    let a = connect(&mut state, "agent-a");
    let b = connect(&mut state, "agent-b");
    state.send_agent_message(&short(a), Some(&short(b)), "hello", NOW).unwrap();
    assert_eq!(state.ack_agent_messages(&short(b)).unwrap(), 1);
    assert_eq!(state.get_agent_messages(&short(b), None).unwrap().count, 0);
}

#[test]
fn test_self_message_not_in_inbox() {
    let mut state = test_state();
    let id = connect(&mut state, "self-talker");
    state.send_agent_message(&short(id), None, "thinking out loud", NOW).unwrap();
    assert_eq!(state.get_agent_messages(&short(id), None).unwrap().count, 0);
}

#[test]
fn test_inbox_cap_at_500() {
    let mut state = test_state();
    let a = connect(&mut state, "spammer");
    let b = connect(&mut state, "receiver");
    for i in 0..505 {
        state.send_agent_message(&short(a), Some(&short(b)), &format!("msg-{}", i), NOW).unwrap();
    }
    let inbox = state.get_agent_messages(&short(b), Some(600)).unwrap();
    assert_eq!(inbox.count, 500);
    // Oldest messages were dropped: the oldest kept is msg-5.
    assert_eq!(inbox.messages.last().unwrap().text, "msg-5");
    assert_eq!(inbox.messages[0].text, "msg-504");
}

#[test]
fn test_inbox_multiple_senders() {
    let mut state = test_state();
    let a = connect(&mut state, "agent-a");
    let b = connect(&mut state, "agent-b");
    let c = connect(&mut state, "agent-c");
    state.send_agent_message(&short(a), Some(&short(c)), "from A", NOW).unwrap();
    state.send_agent_message(&short(b), Some(&short(c)), "from B", NOW).unwrap();
    let inbox = state.get_agent_messages(&short(c), None).unwrap();
    assert_eq!(inbox.count, 2);
    let names: Vec<&str> = inbox.messages.iter().map(|m| m.from_name.as_str()).collect();
    assert!(names.contains(&"agent-a"));
    assert!(names.contains(&"agent-b"));
}

#[test]
fn test_inbox_sender_gone_shows_short_id() {
    let mut state = test_state();
    let a = connect(&mut state, "agent-a");
    let b = connect(&mut state, "agent-b");
    state.send_agent_message(&short(a), Some(&short(b)), "bye", NOW).unwrap();
    state.delete_agent(&short(a), NOW).unwrap();
    let inbox = state.get_agent_messages(&short(b), None).unwrap();
    assert_eq!(inbox.messages[0].from_name, short(a));
}

// ─── Moving and goals ───────────────────────────────────────

#[test]
fn test_move_agent() {
    let mut state = test_state();
    let (id, pos, _) = state.connect_agent("mover", None, NOW).unwrap();
    let target = state.grid.find_adjacent_floor(pos).expect("no adjacent floor found");
    let note = state.move_agent(&short(id), target.x, target.y, NOW).unwrap();
    assert_eq!(note.kind, ActivityKind::Movement);
    assert_eq!(note.detail, format!("Moving to ({},{})", target.x, target.y));
    let agent = state.registry.get(&id).unwrap();
    assert_eq!(agent.state, AgentState::Walking);
    assert_eq!(agent.goal, Some(AgentGoal::Wander(target)));
    assert_eq!(agent.path.last(), Some(&target));
}

#[test]
fn test_move_to_wall() {
    let mut state = test_state();
    let id = connect(&mut state, "mover");
    let err = state.move_agent(&short(id), 0, 0, NOW).unwrap_err();
    assert_eq!(bad_request_message(&err), "target position is not walkable");
}

#[test]
fn test_move_out_of_bounds() {
    let mut state = test_state();
    let id = connect(&mut state, "mover");
    let err = state.move_agent(&short(id), 100, 100, NOW).unwrap_err();
    assert_eq!(bad_request_message(&err), "position out of bounds");
}

#[test]
fn test_move_unknown_agent() {
    let mut state = test_state();
    let err = state.move_agent("nobody", 2, 2, NOW).unwrap_err();
    assert_eq!(not_found_message(&err), "agent 'nobody' not found");
}

#[test]
fn test_set_goal_wander() {
    let mut state = test_state();
    let id = connect(&mut state, "wanderer");
    let (dest, note) = state.set_agent_goal(&short(id), "wander", NOW).unwrap();
    assert!(dest.is_none());
    assert_eq!(note.detail, "Goal: wander");
}

#[test]
fn test_set_goal_invalid() {
    let mut state = test_state();
    let id = connect(&mut state, "confused");
    let err = state.set_agent_goal(&short(id), "moon", NOW).unwrap_err();
    assert_eq!(
        bad_request_message(&err),
        "unknown goal 'moon'. Valid: desk, vending, coffee, pinball, gym, treadmill, weights, yoga, pingpong, meeting, server, couch, wander"
    );
}

#[test]
fn test_set_goal_no_such_furniture() {
    let mut state = test_state();
    let id = connect(&mut state, "worker");
    let err = state.set_agent_goal(&short(id), "desk", NOW).unwrap_err();
    assert_eq!(not_found_message(&err), "no desk found in world");
}

#[test]
fn test_set_goal_desk_in_office() {
    let mut state = ApiState::new(build_office_world(28, 20), 500, 200);
    let id = connect(&mut state, "worker");
    let (dest, note) = state.set_agent_goal(&short(id), "desk", NOW).unwrap();
    let desk = dest.unwrap();
    assert_eq!(state.grid.get(desk).unwrap().tile, Tile::Desk);
    assert_eq!(note.detail, "Goal: desk");
    let agent = state.registry.get(&id).unwrap();
    assert_eq!(agent.goal, Some(AgentGoal::GoToDesk(desk)));
    assert_eq!(agent.state, AgentState::Walking);
}

#[test]
fn test_set_goal_gym_names_share_goal() {
    let mut state = ApiState::new(build_office_world(28, 20), 500, 200);
    let id = connect(&mut state, "athlete");
    let (dest, _) = state.set_agent_goal(&short(id), "yoga", NOW).unwrap();
    let mat = dest.unwrap();
    assert_eq!(state.grid.get(mat).unwrap().tile, Tile::YogaMat);
    assert_eq!(state.registry.get(&id).unwrap().goal, Some(AgentGoal::GoToGym(mat)));
}

// ─── State and name ─────────────────────────────────────────

#[test]
fn test_set_agent_state() {
    let mut state = test_state();
    let id = connect(&mut state, "stateful");
    let (st, note) = state.set_agent_state(&short(id), "working", NOW).unwrap();
    assert_eq!(st, AgentState::Working);
    assert_eq!(agent_state_of(&state, id), AgentState::Working);
    assert_eq!(note.detail, "State → working");
}

#[test]
fn test_set_agent_state_idle_clears_path() {
    let mut state = test_state();
    let (id, pos, _) = state.connect_agent("walker", None, NOW).unwrap();
    let target = state.grid.find_adjacent_floor(pos).unwrap();
    state.move_agent(&short(id), target.x, target.y, NOW).unwrap();
    assert!(!state.registry.get(&id).unwrap().path.is_empty());
    state.set_agent_state(&short(id), "idle", NOW).unwrap();
    let agent = state.registry.get(&id).unwrap();
    assert!(agent.path.is_empty());
    assert!(agent.goal.is_none());
}

#[test]
fn test_set_agent_state_invalid() {
    let mut state = test_state();
    let id = connect(&mut state, "stateful");
    let err = state.set_agent_state(&short(id), "dancing", NOW).unwrap_err();
    assert_eq!(
        bad_request_message(&err),
        "unknown state 'dancing'. Valid: idle, walking, thinking, working, messaging, eating, exercising, playing, error, offline"
    );
}

#[test]
fn test_set_all_valid_states() {
    let mut state = test_state();
    let id = connect(&mut state, "stateful");
    for name in ["idle", "walking", "thinking", "working", "messaging", "eating", "exercising", "playing", "error", "offline"] {
        let (st, _) = state.set_agent_state(&short(id), name, NOW).unwrap();
        assert_eq!(st.label(), name);
        assert_eq!(parse_agent_state(name).unwrap(), st);
    }
}

#[test]
fn test_rename_agent() {
    let mut state = test_state();
    let id = connect(&mut state, "old-name");
    let (name, note) = state.rename_agent(&short(id), "  new-name  ", NOW).unwrap();
    assert_eq!(name, "new-name");
    assert_eq!(state.registry.get(&id).unwrap().name, "new-name");
    assert_eq!(note.detail, "Renamed to 'new-name'");
}

#[test]
fn test_rename_agent_empty() {
    let mut state = test_state();
    let id = connect(&mut state, "keep");
    let err = state.rename_agent(&short(id), "   ", NOW).unwrap_err();
    assert_eq!(bad_request_message(&err), "name cannot be empty");
    assert_eq!(state.registry.get(&id).unwrap().name, "keep");
}

// ─── World views ────────────────────────────────────────────

#[test]
fn test_world_snapshot() {
    let state = test_state();
    let snap = state.world_snapshot(7);
    assert_eq!(snap.width, 16);
    assert_eq!(snap.height, 12);
    assert!(snap.agents.is_empty());
    assert_eq!(snap.tick, 7);
}

#[test]
fn test_world_snapshot_with_agents() {
    let mut state = test_state();
    connect(&mut state, "one");
    connect(&mut state, "two");
    assert_eq!(state.world_snapshot(0).agents.len(), 2);
}

#[test]
fn test_world_tiles() {
    let mut state = test_state();
    let (id, pos, _) = state.connect_agent("tiled", None, NOW).unwrap();
    let map = state.world_tiles();
    assert_eq!(map.width, 16);
    assert_eq!(map.height, 12);
    assert_eq!(map.tiles.len(), 12);
    assert_eq!(map.tiles[0].len(), 16);
    assert_eq!(map.tiles[0][0].tile, "Wall(Solid)");
    assert_eq!(map.tiles[1][1].tile, "Floor(Wood)");
    assert_eq!(map.tiles[pos.y as usize][pos.x as usize].occupant, Some(short(id)));
}

// ─── Auth and errors ────────────────────────────────────────

#[test]
fn test_api_key_auth_required() {
    let err = check_api_key(None, Some("test-key")).unwrap_err();
    assert!(matches!(err, ApiError::Unauthorized));
    assert_eq!(err.status_code(), 401);
    assert_eq!(err.code(), "unauthorized");
}

#[test]
fn test_api_key_auth_wrong_key() {
    assert!(check_api_key(Some("wrong-key"), Some("test-key")).is_err());
}

#[test]
fn test_api_key_auth_correct_key() {
    assert!(check_api_key(Some("test-key"), Some("test-key")).is_ok());
}

#[test]
fn test_no_api_key_configured_lets_everyone_in() {
    assert!(check_api_key(None, None).is_ok());
    assert!(check_api_key(Some("anything"), None).is_ok());
}

#[test]
fn test_error_response_json_format() {
    let err = ApiError::NotFound("agent 'x' not found".to_string());
    assert_eq!(err.code(), "not_found");
    assert_eq!(err.message(), "agent 'x' not found");
    assert_eq!(ApiError::Unauthorized.message(), "Invalid or missing API key");
    assert_eq!(ApiError::ServiceUnavailable("busy".to_string()).status_code(), 503);
    assert_eq!(ApiError::BadRequest("bad".to_string()).code(), "bad_request");
}

#[test]
fn test_agent_id_prefix_match() {
    let mut state = test_state();
    let id = connect(&mut state, "prefixed");
    let full = id.full_string();
    assert!(state.get_agent(&full[..4], NOW).is_ok());
    assert!(state.get_agent(&full, NOW).is_ok());
    assert!(state.get_agent("zzzz", NOW).is_err());
}

// ─── Tasks ──────────────────────────────────────────────────

#[test]
fn test_report_task_submitted() {
    let mut state = test_state();
    let id = connect(&mut state, "task-agent");
    let (tid, note, rec) =
        state.report_task(&short(id), "task-001", "submitted", Some("Parse CSV data".to_string()), None, NOW).unwrap();
    assert_eq!(tid, "task-001");
    assert_eq!(note.kind, ActivityKind::TaskSubmitted);
    assert_eq!(note.detail, "Task task-001: submitted — Parse CSV data");
    assert_eq!(rec.task_id, "task-001");
    assert_eq!(rec.state, "submitted");
    assert_eq!(rec.response_summary.as_deref(), Some("Parse CSV data"));
    let agent = state.registry.get(&id).unwrap();
    assert_eq!(agent.state, AgentState::Thinking);
    assert_eq!(agent.task_count, 1);
    assert!(agent.api_locked);
}

#[test]
fn test_report_task_completed() {
    let mut state = test_state();
    let id = connect(&mut state, "task-agent");
    state.report_task(&short(id), "t1", "submitted", None, None, NOW).unwrap();
    let (_, note, rec) = state.report_task(&short(id), "t1", "completed", Some("Done".to_string()), None, NOW + 5).unwrap();
    assert_eq!(note.kind, ActivityKind::TaskCompleted);
    assert_eq!(rec.state, "completed");
    assert_eq!(rec.submitted_at, NOW);
    assert_eq!(rec.last_updated, NOW + 5);
    let tasks = state.get_agent_tasks(&short(id), None).unwrap();
    assert_eq!(tasks.count, 1);
    assert_eq!(tasks.tasks[0].state, "completed");
    let agent = state.registry.get(&id).unwrap();
    assert_eq!(agent.state, AgentState::Idle);
    assert!(!agent.api_locked);
    assert_eq!(agent.task_count, 2);
}

#[test]
fn test_report_task_completed_keeps_state_while_others_run() {
    let mut state = test_state();
    let id = connect(&mut state, "busy");
    state.report_task(&short(id), "a", "running", None, None, NOW).unwrap();
    state.report_task(&short(id), "b", "running", None, None, NOW).unwrap();
    state.report_task(&short(id), "a", "completed", None, None, NOW).unwrap();
    let agent = state.registry.get(&id).unwrap();
    assert_eq!(agent.state, AgentState::Working);
    assert!(agent.api_locked);
}

#[test]
fn test_report_task_with_scope() {
    let mut state = test_state();
    let id = connect(&mut state, "scope-agent");
    let (_, _, rec) = state
        .report_task(
            &short(id),
            "scoped-t1",
            "submitted",
            Some("Short summary".to_string()),
            Some("Import every CSV file and check each row".to_string()),
            NOW,
        )
        .unwrap();
    assert_eq!(rec.task_id, "scoped-t1");
    assert_eq!(rec.response_summary.as_deref(), Some("Short summary"));
    assert_eq!(rec.scope.as_deref(), Some("Import every CSV file and check each row"));
}

#[test]
fn test_report_task_scope_preserved_on_update() {
    let mut state = test_state();
    let id = connect(&mut state, "scope-keep");
    state
        .report_task(
            &short(id),
            "scope-keep-t1",
            "submitted",
            Some("Initial".to_string()),
            Some("Original scope text".to_string()),
            NOW,
        )
        .unwrap();
    let (_, _, rec) =
        state.report_task(&short(id), "scope-keep-t1", "completed", Some("Done".to_string()), None, NOW).unwrap();
    assert_eq!(rec.state, "completed");
    assert_eq!(rec.scope.as_deref(), Some("Original scope text"));
    let tasks = state.get_agent_tasks(&short(id), None).unwrap();
    assert_eq!(tasks.count, 1);
    assert_eq!(tasks.tasks[0].scope.as_deref(), Some("Original scope text"));
}

#[test]
fn test_report_task_invalid_state() {
    let mut state = test_state();
    let id = connect(&mut state, "task-agent");
    let err = state.report_task(&short(id), "t1", "bogus", None, None, NOW).unwrap_err();
    assert_eq!(bad_request_message(&err), "invalid task state 'bogus'. Valid: submitted, running, completed, failed");
}

#[test]
fn test_report_task_empty_id() {
    let mut state = test_state();
    let id = connect(&mut state, "task-agent");
    let err = state.report_task(&short(id), "  ", "submitted", None, None, NOW).unwrap_err();
    assert_eq!(bad_request_message(&err), "task_id cannot be empty");
}

#[test]
fn test_delete_task() {
    let mut state = test_state();
    let id = connect(&mut state, "task-agent");
    state.report_task(&short(id), "t1", "submitted", None, None, NOW).unwrap();
    let (tid, note) = state.delete_task(&short(id), " t1 ", NOW).unwrap();
    assert_eq!(tid, "t1");
    assert_eq!(note.kind, ActivityKind::TaskFailed);
    assert_eq!(note.detail, "Task t1 deleted");
    assert_eq!(state.get_agent_tasks(&short(id), None).unwrap().count, 0);
    let err = state.delete_task(&short(id), "t1", NOW).unwrap_err();
    assert_eq!(not_found_message(&err), "task 't1' not found");
}

// ─── Observability views ────────────────────────────────────

#[test]
fn test_agent_detail() {
    let mut state = test_state();
    let (id, pos, _) = state.connect_agent("detailed", None, NOW).unwrap();
    let detail = state.get_agent(&short(id), NOW + 3_500).unwrap();
    assert_eq!(detail.id, short(id));
    assert_eq!(detail.name, "detailed");
    assert_eq!(detail.kind, "Local");
    assert_eq!(detail.state, "idle");
    assert_eq!(detail.position, (pos.x, pos.y));
    assert!(detail.goal.is_none());
    assert_eq!(detail.last_activity_secs_ago, 3);
    assert_eq!(detail.connection_health, "unknown");
}

#[test]
fn test_agent_detail_not_found() {
    let state = test_state();
    let err = state.get_agent("ghost", NOW).unwrap_err();
    assert_eq!(not_found_message(&err), "agent 'ghost' not found");
}

#[test]
fn test_agent_detail_external_kind_and_goal() {
    let mut state = test_state();
    let (id, pos, _) = state.connect_agent("ext", Some("http://x".to_string()), NOW).unwrap();
    let target = state.grid.find_adjacent_floor(pos).unwrap();
    state.move_agent(&short(id), target.x, target.y, NOW).unwrap();
    let detail = state.get_agent(&short(id), NOW).unwrap();
    assert_eq!(detail.kind, "External");
    assert_eq!(detail.goal, Some(format!("Wander(({},{}))", target.x, target.y)));
}

#[test]
fn test_activity_from_connect() {
    let mut state = test_state();
    let id = connect(&mut state, "logged");
    let act = state.get_agent_activity(&short(id), None).unwrap();
    assert_eq!(act.count, 1);
    assert_eq!(act.entries[0].kind, ActivityKind::Spawned);
    assert_eq!(act.entries[0].timestamp, NOW);
}

#[test]
fn test_state_change_recorded() {
    let mut state = test_state();
    let id = connect(&mut state, "changer");
    state.set_agent_state(&short(id), "thinking", NOW).unwrap();
    let act = state.get_agent_activity(&short(id), Some(1)).unwrap();
    assert_eq!(act.count, 1);
    assert_eq!(act.entries[0].kind, ActivityKind::StateChange);
    assert_eq!(act.entries[0].detail, "State → thinking");
}

#[test]
fn test_heartbeat() {
    let mut state = test_state();
    let id = connect(&mut state, "beating");
    let hb = state.post_agent_heartbeat(&short(id), "healthy", Some("{\"load\":1}".to_string()), NOW).unwrap();
    assert_eq!(hb.last_seen, NOW);
    assert_eq!(hb.status, "healthy");
    let act = state.get_agent_activity(&short(id), Some(1)).unwrap();
    assert_eq!(act.entries[0].kind, ActivityKind::Heartbeat);
    assert_eq!(act.entries[0].detail, "Heartbeat: healthy");
}

#[test]
fn test_status_with_heartbeat() {
    let mut state = test_state();
    let id = connect(&mut state, "beating");
    state.post_agent_heartbeat(&short(id), "ok", None, NOW).unwrap();
    let st = state.get_agent_status(&short(id), NOW + 1_000).unwrap();
    assert_eq!(st.connection_health, "online");
    assert_eq!(st.heartbeat.unwrap().status, "ok");
    let later = state.get_agent_status(&short(id), NOW + 120_000).unwrap();
    assert_eq!(later.connection_health, "stale");
    let much_later = state.get_agent_status(&short(id), NOW + 600_000).unwrap();
    assert_eq!(much_later.connection_health, "offline");
}

#[test]
fn test_status_unknown_without_heartbeat() {
    let mut state = test_state();
    let id = connect(&mut state, "silent");
    let st = state.get_agent_status(&short(id), NOW).unwrap();
    assert_eq!(st.connection_health, "unknown");
    assert!(st.heartbeat.is_none());
    assert_eq!(st.state, "idle");
}

#[test]
fn test_tasks_empty() {
    let mut state = test_state();
    let id = connect(&mut state, "idle-agent");
    let tasks = state.get_agent_tasks(&short(id), None).unwrap();
    assert_eq!(tasks.count, 0);
}

#[test]
fn test_dashboard() {
    let mut state = test_state();
    let id = connect(&mut state, "dash");
    state.report_task(&short(id), "t1", "running", None, None, NOW).unwrap();
    state.post_agent_heartbeat(&short(id), "ok", None, NOW).unwrap();
    let d = state.get_agent_dashboard(&short(id), NOW + 2_000).unwrap();
    assert_eq!(d.agent.name, "dash");
    assert_eq!(d.agent.state, "working");
    assert_eq!(d.agent.last_activity_secs_ago, 2);
    assert_eq!(d.recent_activity.len(), 3);
    assert_eq!(d.task_history.len(), 1);
    assert_eq!(d.connection_health, "online");
    assert_eq!(d.agent.connection_health, "online");
    assert!(d.heartbeat.is_some());
}

#[test]
fn test_activity_limit_keeps_newest() {
    let mut state = ApiState::new(Grid::with_walls(16, 12), 3, 2);
    let id = connect(&mut state, "chatty");
    for i in 0..5 {
        state.send_agent_message(&short(id), None, &format!("s{}", i), NOW).unwrap();
    }
    let act = state.get_agent_activity(&short(id), None).unwrap();
    assert_eq!(act.count, 3);
    assert_eq!(act.entries[0].detail, "Speech: s2");
    assert_eq!(act.entries[2].detail, "Speech: s4");
}

#[test]
fn observability_test_test_activity_limit() {
    let mut state = test_state();
    let id = connect(&mut state, "limit-test").full_string();
    state.set_agent_state(&id, "working", NOW).unwrap();
    state.set_agent_state(&id, "thinking", NOW).unwrap();
    state.set_agent_state(&id, "idle", NOW).unwrap();
    let a = state.get_agent_activity(&id, Some(2)).unwrap();
    assert_eq!(a.count, 2);
}

#[test]
fn test_message_recorded() {
    let mut state = test_state();
    let id = connect(&mut state, "msg-test").full_string();
    state.send_agent_message(&id, None, "hello world", NOW).unwrap();
    let a = state.get_agent_activity(&id, None).unwrap();
    assert!(a.entries.iter().any(|e| e.detail.contains("hello world")));
}

#[test]
fn test_set_goal_pingpong_in_office() {
    let mut state = ApiState::new(build_office_world(28, 20), 500, 200);
    let id = connect(&mut state, "player");
    let start = state.registry.get(&id).unwrap().position;
    let (dest, note) = state.set_agent_goal(&short(id), "pingpong", NOW).unwrap();
    let table = dest.unwrap();
    assert_eq!(state.grid.get(table).unwrap().tile, Tile::PingPongTableLeft);
    assert_eq!(note.detail, "Goal: pingpong");
    let agent = state.registry.get(&id).unwrap();
    assert_eq!(agent.goal, Some(AgentGoal::GoToPinball(table)));
    assert_eq!(agent.state, AgentState::Walking);
    // The walk ends next to the table and is as short as the route search finds.
    let end = *agent.path.last().unwrap();
    assert_eq!(end.x.abs_diff(table.x) + end.y.abs_diff(table.y), 1);
    let shortest = find_path(&state.grid, start, end).unwrap();
    assert_eq!(agent.path.len(), shortest.len());
}

#[test]
fn test_set_goal_pingpong_without_table() {
    let mut state = test_state();
    let id = connect(&mut state, "player");
    let err = state.set_agent_goal(&short(id), "pingpong", NOW).unwrap_err();
    assert_eq!(not_found_message(&err), "no pingpong found in world");
}

#[test]
fn test_set_goal_wander_walks_shortest_route() {
    let mut state = ApiState::new(build_office_world(28, 20), 500, 200);
    let id = connect(&mut state, "wanderer");
    let start = state.registry.get(&id).unwrap().position;
    state.set_agent_goal(&short(id), "wander", NOW).unwrap();
    let agent = state.registry.get(&id).unwrap();
    if let Some(AgentGoal::Wander(t)) = agent.goal {
        let shortest = find_path(&state.grid, start, t).unwrap();
        assert_eq!(agent.path.len(), shortest.len());
        assert_eq!(agent.state, AgentState::Walking);
    } else {
        // The chosen floor was unreachable: the agent stays as it was.
        assert_eq!(agent.state, AgentState::Idle);
    }
}
