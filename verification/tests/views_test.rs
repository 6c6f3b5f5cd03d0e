use agentverse::agent::{Agent, AgentGoal, AgentKind, AgentState};
use agentverse::api::service::parse_agent_state;
use agentverse::api::movement::{goal_toward, parse_goal, GoalPlan};
use agentverse::api::views::{api_agent, goal_string, kind_string, seconds_since, tile_name};
use agentverse::api::service::pos_string;
use agentverse::avatar::palette::{color_to_rgb_u8, Color};
use agentverse::text::format_duration;
use agentverse::world::{build_office_world, FloorKind, Grid, Position, Tile, WallKind};

#[test]
fn test_tile_names_match_debug_text() {
    let tiles = [
        Tile::Floor(FloorKind::Wood),
        Tile::Floor(FloorKind::Carpet),
        Tile::Wall(WallKind::Window),
        Tile::Desk,
        Tile::PingPongTableLeft,
        Tile::KitchenCounter,
    ];
    for t in tiles {
        assert_eq!(tile_name(t), format!("{:?}", t));
    }
}

#[test]
fn test_position_and_goal_text() {
    assert_eq!(pos_string(Position::new(3, 14)), "(3,14)");
    let g = AgentGoal::GoToDesk(Position::new(4, 3));
    assert_eq!(goal_string(&g), "GoToDesk((4,3))");
    assert_eq!(goal_string(&AgentGoal::Wander(Position::new(10, 0))), "Wander((10,0))");
}

#[test]
fn test_kind_names() {
    let k = AgentKind::OpenCrabs { endpoint: "http://a".to_string() };
    assert_eq!(kind_string(&k), "OpenCrabs");
    assert_eq!(kind_string(&AgentKind::External { endpoint: "x".to_string() }), "External");
    assert_eq!(kind_string(&AgentKind::Local), "Local");
}

#[test]
fn test_seconds_since() {
    assert_eq!(seconds_since(10_999, 1_000), 9);
    assert_eq!(seconds_since(1_000, 10_999), 0);
    assert_eq!(seconds_since(5, 5), 0);
    assert_eq!(seconds_since(i64::MAX, i64::MIN), 18_446_744_073_709_551);
}

#[test]
fn test_api_agent_entry() {
    let mut a = Agent::new("viewer", AgentKind::Local, Position::new(4, 2));
    a.say("hi");
    let v = api_agent(&a);
    assert_eq!(v.id, a.id.short_string());
    assert_eq!(v.name, "viewer");
    assert_eq!(v.state, "idle");
    assert_eq!(v.position, (4, 2));
    assert_eq!(v.speech.as_deref(), Some("hi"));
}

#[test]
fn test_state_labels_parse_back() {
    let states = [
        AgentState::Idle,
        AgentState::Walking,
        AgentState::Thinking,
        AgentState::Working,
        AgentState::Messaging,
        AgentState::Eating,
        AgentState::Exercising,
        AgentState::Playing,
        AgentState::Error,
        AgentState::Offline,
    ];
    for s in states {
        assert_eq!(parse_agent_state(s.label()).unwrap(), s);
    }
    assert!(parse_agent_state("Idle").is_err());
}

#[test]
fn test_goal_names() {
    assert_eq!(parse_goal("desk").unwrap(), GoalPlan::Visit(Tile::Desk));
    assert_eq!(parse_goal("treadmill").unwrap(), GoalPlan::Visit(Tile::GymTreadmill));
    assert_eq!(parse_goal("gym").unwrap(), GoalPlan::Visit(Tile::GymTreadmill));
    assert_eq!(parse_goal("archive").unwrap(), GoalPlan::Visit(Tile::ServerRack));
    assert_eq!(parse_goal("wander").unwrap(), GoalPlan::Wander);
    assert!(parse_goal("Desk").is_err());
    let p = Position::new(1, 2);
    assert_eq!(goal_toward(Tile::WeightBench, p), AgentGoal::GoToGym(p));
    assert_eq!(goal_toward(Tile::Couch, p), AgentGoal::GoToCouch(p));
    assert_eq!(goal_toward(Tile::VendingMachine, p), AgentGoal::GoToVending(p));
}

#[test]
fn test_place_then_remove_restores_grid() {
    let mut g = Grid::with_walls(6, 5);
    let before: Vec<_> = g.cells().iter().map(|c| (c.tile, c.occupant)).collect();
    let id = agentverse::agent::AgentId::new();
    assert!(g.place_agent(Position::new(2, 2), id));
    assert_eq!(g.remove_agent(Position::new(2, 2)), Some(id));
    let after: Vec<_> = g.cells().iter().map(|c| (c.tile, c.occupant)).collect();
    assert_eq!(before, after);
}

#[test]
fn test_office_outer_ring_is_wall() {
    let g = build_office_world(28, 20);
    for x in 0..28 {
        assert!(g.get(Position::new(x, 0)).unwrap().tile.is_solid());
        assert!(g.get(Position::new(x, 19)).unwrap().tile.is_solid());
    }
    for y in 0..20 {
        assert!(g.get(Position::new(0, y)).unwrap().tile.is_solid());
        assert!(g.get(Position::new(27, y)).unwrap().tile.is_solid());
    }
}

#[test]
fn test_format_duration() {
    assert_eq!(format_duration(0), "0s");
    assert_eq!(format_duration(59), "59s");
    assert_eq!(format_duration(61), "1m 1s");
    assert_eq!(format_duration(3600), "1h 0m 0s");
    assert_eq!(format_duration(3723), "1h 2m 3s");
    assert_eq!(format_duration(-5), "0s");
}

#[test]
fn test_color_to_rgb_u8() {
    assert_eq!(color_to_rgb_u8(Color::Rgb(1, 2, 3)), (1, 2, 3));
    assert_eq!(color_to_rgb_u8(Color::Green), (0, 180, 0));
    assert_eq!(color_to_rgb_u8(Color::Gray), (150, 150, 150));
    assert_eq!(color_to_rgb_u8(Color::Magenta), (180, 180, 180));
}
