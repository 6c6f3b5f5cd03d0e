use agentverse::agent::{AgentState, Facing};
use agentverse::avatar::agents::{agent_pose, agent_sprite, mirror};
use agentverse::avatar::floors::tile_sprite;
use agentverse::avatar::furniture::furniture_sprite;
use agentverse::avatar::palette::Color;
use agentverse::avatar::sprite::{empty_frame, StyledCell};
use agentverse::world::{FloorKind, Tile, WallKind};

/// Every furniture tile must produce a non-empty sprite (not the fallback).
#[test]
fn all_furniture_tiles_have_sprites() {
    let furniture_tiles = [
        Tile::Desk,
        Tile::VendingMachine,
        Tile::CoffeeMachine,
        Tile::Couch,
        Tile::Plant,
        Tile::PinballMachine,
        Tile::GymTreadmill,
        Tile::Whiteboard,
        Tile::WeightBench,
        Tile::YogaMat,
        Tile::FloorLamp,
        Tile::MeetingTable,
        Tile::SmallArmchair,
        Tile::ServerRack,
        Tile::FileCabinet,
        Tile::KitchenCounter,
    ];

    let empty = empty_frame();

    for tile in &furniture_tiles {
        let sprite = furniture_sprite(tile);
        let has_content = sprite.iter().enumerate().any(|(r, row)| {
            row.iter().enumerate().any(|(c, cell)| cell.ch != empty[r][c].ch || cell.bg != empty[r][c].bg)
        });
        assert!(has_content, "{tile:?} returned an empty sprite — add a sprite for it");
    }
}

/// Sprite dimensions: every furniture sprite is 4 wide x 3 tall.
#[test]
fn furniture_sprites_correct_dimensions() {
    let tiles = [
        Tile::WeightBench,
        Tile::YogaMat,
        Tile::FloorLamp,
        Tile::MeetingTable,
        Tile::SmallArmchair,
        Tile::ServerRack,
        Tile::FileCabinet,
        Tile::KitchenCounter,
    ];

    for tile in &tiles {
        let sprite = furniture_sprite(tile);
        assert_eq!(sprite.len(), 3, "{tile:?} sprite should have 3 rows");
        for (i, row) in sprite.iter().enumerate() {
            assert_eq!(row.len(), 4, "{tile:?} row {i} should have 4 columns");
        }
    }
}

/// Server rack should have green LED indicators.
#[test]
fn server_rack_has_leds() {
    let sprite = furniture_sprite(&Tile::ServerRack);
    let has_green = sprite[1].iter().any(|cell| matches!(cell.fg, Color::Rgb(0, 255, 100)));
    assert!(has_green, "Server rack should have green LED indicators");
}

#[test]
fn test_non_furniture_tiles_have_empty_furniture_sprite() {
    assert_eq!(furniture_sprite(&Tile::Rug), empty_frame());
    assert_eq!(furniture_sprite(&Tile::PingPongTableLeft), empty_frame());
}

#[test]
fn test_tile_floor_chequer() {
    let even = tile_sprite(&Tile::Floor(FloorKind::Tile), 2, 4);
    let odd = tile_sprite(&Tile::Floor(FloorKind::Tile), 2, 5);
    assert_eq!(even[0][0].bg, Some(Color::Rgb(180, 180, 190)));
    assert_eq!(odd[2][3].bg, Some(Color::Rgb(205, 205, 215)));
    let wood = tile_sprite(&Tile::Floor(FloorKind::Wood), 0, 0);
    assert_eq!(wood[1][1], StyledCell::new('─', Color::Rgb(160, 120, 80), Some(Color::Rgb(139, 90, 43))));
    let wall = tile_sprite(&Tile::Wall(WallKind::Solid), 0, 0);
    assert_eq!(wall[2][0].ch, '█');
    assert_eq!(tile_sprite(&Tile::Desk, 3, 3), furniture_sprite(&Tile::Desk));
}

#[test]
fn test_agent_sprite_facing_left_is_mirrored() {
    for state in [AgentState::Idle, AgentState::Walking, AgentState::Working, AgentState::Error] {
        let right = agent_sprite(&state, &Facing::Right, 1, 3);
        let left = agent_sprite(&state, &Facing::Left, 1, 3);
        assert_eq!(left, mirror(&right));
        assert_eq!(mirror(&left), right);
        assert_eq!(right, agent_pose(&state, 1, 3));
    }
}

#[test]
fn test_agent_sprite_states_sharing_poses() {
    assert_eq!(agent_pose(&AgentState::Idle, 0, 2), agent_pose(&AgentState::Offline, 0, 2));
    assert_eq!(agent_pose(&AgentState::Playing, 0, 2), agent_pose(&AgentState::Exercising, 0, 2));
    assert_eq!(agent_pose(&AgentState::Walking, 0, 2), agent_pose(&AgentState::Walking, 2, 2));
    assert_ne!(agent_pose(&AgentState::Walking, 0, 2), agent_pose(&AgentState::Walking, 1, 2));
}

#[test]
fn test_agent_sprite_cells_blank_or_shadowed() {
    let f = agent_sprite(&AgentState::Thinking, &Facing::Left, 0, 5);
    for row in f.iter() {
        for cell in row.iter() {
            assert!(*cell == StyledCell::empty() || cell.bg == Some(Color::Rgb(40, 40, 50)));
        }
    }
}

#[test]
fn test_idle_sprite_head_in_agent_colours() {
    // Colour index 1: hair (180, 120, 50), skin (210, 170, 120).
    let f = agent_sprite(&AgentState::Idle, &Facing::Right, 0, 1);
    let shadow = Some(Color::Rgb(40, 40, 50));
    assert_eq!(f[0][2], StyledCell { ch: '▄', fg: Color::Rgb(180, 120, 50), bg: shadow });
    assert_eq!(f[1][3], StyledCell { ch: '█', fg: Color::Rgb(210, 170, 120), bg: shadow });
    assert_eq!(f[0][0].ch, ' ');
    assert_eq!(f[0][0].bg, None);
}

#[test]
fn test_window_sprite_cells() {
    let f = tile_sprite(&Tile::Wall(WallKind::Window), 0, 0);
    assert_eq!(f[0][0], StyledCell { ch: '▛', fg: Color::Rgb(90, 100, 115), bg: Some(Color::Rgb(170, 200, 230)) });
    assert_eq!(f[1][1], StyledCell { ch: ' ', fg: Color::Rgb(90, 100, 115), bg: Some(Color::Rgb(140, 180, 220)) });
}
