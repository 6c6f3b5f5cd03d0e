use agentverse::agent::{Agent, AgentGoal, AgentId, AgentKind, AgentState};
use agentverse::api::service::ApiState;
use agentverse::world::simulation::Simulation;
use agentverse::world::{build_office_world, Grid, Position, Tile, WorldEvent};

fn setup_sim() -> (Simulation, ApiState) {
    let world = ApiState::new(build_office_world(28, 20), 500, 200);
    (Simulation::new(), world)
}

fn spawn_agent(world: &mut ApiState, name: &str) -> AgentId {
    let pos = world.grid.find_empty_floor().unwrap();
    let agent = Agent::new(name, AgentKind::Local, pos);
    let id = agent.id;
    world.grid.place_agent(pos, id);
    world.registry.register(agent);
    id
}

#[test]
fn test_simulation_tick_emits_event() {
    let (mut sim, mut world) = setup_sim();
    let events = sim.tick(&mut world);
    match events.first() {
        Some(WorldEvent::Tick { count }) => assert_eq!(*count, 1),
        _ => panic!("Expected Tick event"),
    }
}

#[test]
fn test_simulation_tick_count_increments() {
    let (mut sim, mut world) = setup_sim();
    let mut last_count = 0;
    for _ in 0..3 {
        for event in sim.tick(&mut world) {
            if let WorldEvent::Tick { count } = event {
                last_count = count;
            }
        }
    }
    assert_eq!(last_count, 3);
}

#[test]
fn test_simulation_shared_tick_updates() {
    let (mut sim, mut world) = setup_sim();
    assert_eq!(sim.tick_count, 0);
    sim.tick(&mut world);
    assert_eq!(sim.tick_count, 1);
    sim.tick(&mut world);
    assert_eq!(sim.tick_count, 2);
}

#[test]
fn test_simulation_messaging_auto_transition() {
    let (mut sim, mut world) = setup_sim();
    let id = spawn_agent(&mut world, "msg-agent");
    {
        let agent = world.registry.get_mut(&id).unwrap();
        agent.set_state(AgentState::Messaging);
        agent.say("test message");
        agent.anim.activity_ticks = 0;
    }
    for _ in 0..29 {
        sim.tick(&mut world);
    }
    {
        let agent = world.registry.get(&id).unwrap();
        assert_eq!(agent.state, AgentState::Messaging);
        assert!(agent.speech.is_some());
    }
    sim.tick(&mut world);
    let agent = world.registry.get(&id).unwrap();
    assert_eq!(agent.state, AgentState::Idle);
    assert!(agent.speech.is_none());
}

#[test]
fn test_simulation_idle_agent_gets_goal() {
    let (mut sim, mut world) = setup_sim();
    let id = spawn_agent(&mut world, "idle-agent");
    for _ in 0..50 {
        sim.tick(&mut world);
    }
    let agent = world.registry.get(&id).unwrap();
    assert!(
        agent.state == AgentState::Walking || agent.state == AgentState::Idle,
        "Expected Walking or Idle, got {:?}",
        agent.state
    );
}

#[test]
fn test_simulation_walking_agent_moves() {
    let (mut sim, mut world) = setup_sim();
    let id = spawn_agent(&mut world, "walker");
    let start_pos = world.registry.get(&id).unwrap().position;
    let target = Position::new(start_pos.x + 2, start_pos.y);
    {
        let agent = world.registry.get_mut(&id).unwrap();
        agent.path = vec![Position::new(start_pos.x + 1, start_pos.y), target];
        agent.goal = Some(AgentGoal::Wander(target));
        agent.set_state(AgentState::Walking);
    }
    sim.tick(&mut world);
    sim.tick(&mut world);
    let agent = world.registry.get(&id).unwrap();
    assert_ne!(agent.position, start_pos);
}

#[test]
fn test_simulation_activity_finishes_via_tick_count() {
    let (_, mut world) = setup_sim();
    let id = spawn_agent(&mut world, "worker");
    {
        let agent = world.registry.get_mut(&id).unwrap();
        agent.set_state(AgentState::Working);
        agent.goal = Some(AgentGoal::GoToDesk(Position::new(3, 3)));
        agent.anim.activity_ticks = 200;
    }
    let agent = world.registry.get(&id).unwrap();
    assert_eq!(agent.state, AgentState::Working);
    assert!(agent.anim.activity_ticks > 120);
}

#[test]
fn test_simulation_multiple_agents() {
    let (mut sim, mut world) = setup_sim();
    spawn_agent(&mut world, "agent-1");
    spawn_agent(&mut world, "agent-2");
    spawn_agent(&mut world, "agent-3");
    for _ in 0..20 {
        sim.tick(&mut world);
    }
    assert_eq!(world.registry.count(), 3);
}

// ─── Steps with chosen rolls ────────────────────────────────

/// An open 10 x 8 floor with one agent at (2, 2).
fn open_world() -> (ApiState, AgentId) {
    let mut world = ApiState::new(Grid::new(10, 8), 500, 200);
    let pos = Position::new(2, 2);
    let agent = Agent::new("solo", AgentKind::Local, pos);
    let id = agent.id;
    world.grid.place_agent(pos, id);
    world.registry.register(agent);
    (world, id)
}

#[test]
fn test_activity_ends_only_on_a_lucky_roll_after_its_minimum() {
    let (mut world, id) = open_world();
    let mut sim = Simulation::new();
    {
        let agent = world.registry.get_mut(&id).unwrap();
        agent.set_state(AgentState::Working);
        agent.anim.activity_ticks = 118;
    }
    // 119 ticks: too early, whatever the roll.
    sim.tick_with(&mut world, &vec![0]);
    assert_eq!(world.registry.get(&id).unwrap().state, AgentState::Working);
    // 120 ticks but an unlucky roll.
    sim.tick_with(&mut world, &vec![1]);
    assert_eq!(world.registry.get(&id).unwrap().state, AgentState::Working);
    // A roll divisible by five ends it.
    let events = sim.tick_with(&mut world, &vec![5]);
    let agent = world.registry.get(&id).unwrap();
    assert_eq!(agent.state, AgentState::Idle);
    assert!(agent.goal.is_none());
    assert_eq!(agent.anim.activity_ticks, 0);
    assert!(matches!(events[1], WorldEvent::AgentStateChanged { state: AgentState::Idle, .. }));
}

#[test]
fn test_walker_steps_on_even_ticks_and_arrives() {
    let (mut world, id) = open_world();
    let mut sim = Simulation::new();
    {
        let agent = world.registry.get_mut(&id).unwrap();
        agent.path = vec![Position::new(3, 2)];
        agent.goal = Some(AgentGoal::GoToDesk(Position::new(4, 2)));
        agent.set_state(AgentState::Walking);
    }
    sim.tick_with(&mut world, &vec![0]); // tick 1: waits
    assert_eq!(world.registry.get(&id).unwrap().position, Position::new(2, 2));
    let events = sim.tick_with(&mut world, &vec![0]); // tick 2: steps
    assert_eq!(world.registry.get(&id).unwrap().position, Position::new(3, 2));
    assert_eq!(world.grid.get(Position::new(3, 2)).unwrap().occupant, Some(id));
    assert_eq!(world.grid.get(Position::new(2, 2)).unwrap().occupant, None);
    assert!(matches!(events[1], WorldEvent::AgentMoved { .. }));
    sim.tick_with(&mut world, &vec![0]); // tick 3: arrives at the desk
    assert_eq!(world.registry.get(&id).unwrap().state, AgentState::Working);
}

#[test]
fn test_locked_agent_is_left_alone() {
    let (mut world, id) = open_world();
    let mut sim = Simulation::new();
    {
        let agent = world.registry.get_mut(&id).unwrap();
        agent.set_state(AgentState::Working);
        agent.anim.activity_ticks = 500;
        agent.api_locked = true;
    }
    let events = sim.tick_with(&mut world, &vec![5]);
    let agent = world.registry.get(&id).unwrap();
    assert_eq!(agent.state, AgentState::Working);
    assert_eq!(agent.anim.activity_ticks, 500);
    assert_eq!(events.len(), 1);
}

#[test]
fn test_idle_agent_heads_for_a_desk() {
    let mut grid = Grid::new(10, 8);
    grid.set_tile(Position::new(6, 2), Tile::Desk);
    let mut world = ApiState::new(grid, 500, 200);
    let agent = Agent::new("solo", AgentKind::Local, Position::new(2, 2));
    let id = agent.id;
    world.grid.place_agent(Position::new(2, 2), id);
    world.registry.register(agent);
    let mut sim = Simulation::new();
    world.registry.get_mut(&id).unwrap().anim.activity_ticks = 39;
    // Roll 0: sets out, picks a desk (the only one).
    sim.tick_with(&mut world, &vec![0]);
    let agent = world.registry.get(&id).unwrap();
    assert_eq!(agent.state, AgentState::Walking);
    assert_eq!(agent.goal, Some(AgentGoal::GoToDesk(Position::new(6, 2))));
    // The first walkable neighbour of the desk is its left side, three steps away.
    assert_eq!(agent.path, vec![Position::new(3, 2), Position::new(4, 2), Position::new(5, 2)]);
}

#[test]
fn test_walker_blocked_by_agent_waits_then_gives_up() {
    let (mut world, id) = open_world();
    let other = Agent::new("in-the-way", AgentKind::Local, Position::new(3, 2));
    let other_id = other.id;
    world.grid.place_agent(Position::new(3, 2), other_id);
    world.registry.register(other);
    {
        let agent = world.registry.get_mut(&id).unwrap();
        agent.path = vec![Position::new(3, 2), Position::new(4, 2)];
        agent.goal = Some(AgentGoal::Wander(Position::new(4, 2)));
        agent.set_state(AgentState::Walking);
    }
    // The other agent stays idle (its counter is far from the idle limit).
    let mut sim = Simulation::new();
    for _ in 0..18 {
        sim.tick_with(&mut world, &vec![1, 1]);
    }
    // Nine blocked steps (on ticks 2, 4, ..., 18): still waiting.
    let agent = world.registry.get(&id).unwrap();
    assert_eq!(agent.state, AgentState::Walking);
    assert_eq!(agent.anim.blocked_ticks, 9);
    sim.tick_with(&mut world, &vec![1, 1]);
    sim.tick_with(&mut world, &vec![1, 1]);
    let agent = world.registry.get(&id).unwrap();
    assert_eq!(agent.state, AgentState::Idle);
    assert!(agent.path.is_empty());
    assert!(agent.goal.is_none());
    assert_eq!(agent.position, Position::new(2, 2));
}
