use vstd::prelude::*;
use crate::agent::types::AgentState;
use crate::world::tile::{FloorKind, WallKind};

verus! {

/// A terminal colour: a named one or 24-bit RGB.
#[derive(Debug, Clone, Copy, PartialEq, Eq, Structural)]
pub enum Color {
    Reset,
    Black,
    Gray,
    DarkGray,
    White,
    Yellow,
    Green,
    Cyan,
    Magenta,
    Red,
    Rgb(u8, u8, u8),
}

/// The eight shirt colours, chosen by `index % 8`.
pub open spec fn shirt_color_spec(index: u8) -> Color {
    let i = index % 8;
    if i == 0 {
        Color::Rgb(66, 133, 244)
    } else if i == 1 {
        Color::Rgb(234, 67, 53)
    } else if i == 2 {
        Color::Rgb(251, 188, 4)
    } else if i == 3 {
        Color::Rgb(52, 168, 83)
    } else if i == 4 {
        Color::Rgb(155, 89, 182)
    } else if i == 5 {
        Color::Rgb(230, 126, 34)
    } else if i == 6 {
        Color::Rgb(26, 188, 156)
    } else {
        Color::Rgb(241, 196, 15)
    }
}

pub fn shirt_color(index: u8) -> (c: Color)
    ensures
        c == shirt_color_spec(index),
{
    let i = index % 8;
    if i == 0 {
        Color::Rgb(66, 133, 244)
    } else if i == 1 {
        Color::Rgb(234, 67, 53)
    } else if i == 2 {
        Color::Rgb(251, 188, 4)
    } else if i == 3 {
        Color::Rgb(52, 168, 83)
    } else if i == 4 {
        Color::Rgb(155, 89, 182)
    } else if i == 5 {
        Color::Rgb(230, 126, 34)
    } else if i == 6 {
        Color::Rgb(26, 188, 156)
    } else {
        Color::Rgb(241, 196, 15)
    }
}

/// An agent's colour is its shirt colour.
pub fn agent_color(index: u8) -> (c: Color)
    ensures
        c == shirt_color_spec(index),
{
    shirt_color(index)
}

/// The four skin tones, chosen by `index % 4`.
pub open spec fn skin_color_spec(index: u8) -> Color {
    let i = index % 4;
    if i == 0 {
        Color::Rgb(255, 218, 185)
    } else if i == 1 {
        Color::Rgb(210, 170, 120)
    } else if i == 2 {
        Color::Rgb(160, 110, 70)
    } else {
        Color::Rgb(100, 70, 40)
    }
}

/// The four hair colours, chosen by `index % 4`.
pub open spec fn hair_color_spec(index: u8) -> Color {
    let i = index % 4;
    if i == 0 {
        Color::Rgb(40, 30, 20)
    } else if i == 1 {
        Color::Rgb(180, 120, 50)
    } else if i == 2 {
        Color::Rgb(200, 60, 30)
    } else {
        Color::Rgb(60, 60, 60)
    }
}

/// The four skin tones, chosen by `index % 4`.
pub fn skin_color(index: u8) -> (c: Color)
    ensures
        c == skin_color_spec(index),
        index % 4 == 0 ==> c == Color::Rgb(255, 218, 185),
        index % 4 == 1 ==> c == Color::Rgb(210, 170, 120),
        index % 4 == 2 ==> c == Color::Rgb(160, 110, 70),
        index % 4 == 3 ==> c == Color::Rgb(100, 70, 40),
{
    let i = index % 4;
    if i == 0 {
        Color::Rgb(255, 218, 185)
    } else if i == 1 {
        Color::Rgb(210, 170, 120)
    } else if i == 2 {
        Color::Rgb(160, 110, 70)
    } else {
        Color::Rgb(100, 70, 40)
    }
}

/// The four hair colours, chosen by `index % 4`.
pub fn hair_color(index: u8) -> (c: Color)
    ensures
        c == hair_color_spec(index),
        index % 4 == 0 ==> c == Color::Rgb(40, 30, 20),
        index % 4 == 1 ==> c == Color::Rgb(180, 120, 50),
        index % 4 == 2 ==> c == Color::Rgb(200, 60, 30),
        index % 4 == 3 ==> c == Color::Rgb(60, 60, 60),
{
    let i = index % 4;
    if i == 0 {
        Color::Rgb(40, 30, 20)
    } else if i == 1 {
        Color::Rgb(180, 120, 50)
    } else if i == 2 {
        Color::Rgb(200, 60, 30)
    } else {
        Color::Rgb(60, 60, 60)
    }
}

/// The colour in which a state is shown.
pub open spec fn state_color_spec(state: AgentState) -> Color {
    match state {
        AgentState::Idle => Color::Gray,
        AgentState::Walking => Color::White,
        AgentState::Thinking => Color::Yellow,
        AgentState::Working => Color::Green,
        AgentState::Messaging => Color::Cyan,
        AgentState::Eating => Color::Rgb(255, 165, 0),
        AgentState::Exercising => Color::Rgb(255, 100, 100),
        AgentState::Playing => Color::Magenta,
        AgentState::Error => Color::Red,
        AgentState::Offline => Color::DarkGray,
    }
}

pub fn state_color(state: &AgentState) -> (c: Color)
    ensures
        c == state_color_spec(*state),
{
    match state {
        AgentState::Idle => Color::Gray,
        AgentState::Walking => Color::White,
        AgentState::Thinking => Color::Yellow,
        AgentState::Working => Color::Green,
        AgentState::Messaging => Color::Cyan,
        AgentState::Eating => Color::Rgb(255, 165, 0),
        AgentState::Exercising => Color::Rgb(255, 100, 100),
        AgentState::Playing => Color::Magenta,
        AgentState::Error => Color::Red,
        AgentState::Offline => Color::DarkGray,
    }
}

/// The one-character symbol of a state.
pub open spec fn state_symbol_spec(state: AgentState) -> Seq<char> {
    match state {
        AgentState::Idle => "~"@,
        AgentState::Walking => ">"@,
        AgentState::Thinking => "?"@,
        AgentState::Working => "*"@,
        AgentState::Messaging => "@"@,
        AgentState::Eating => "o"@,
        AgentState::Exercising => "!"@,
        AgentState::Playing => "^"@,
        AgentState::Error => "x"@,
        AgentState::Offline => "."@,
    }
}

pub fn state_symbol(state: &AgentState) -> (s: &'static str)
    ensures
        s@ == state_symbol_spec(*state),
{
    match state {
        AgentState::Idle => "~",
        AgentState::Walking => ">",
        AgentState::Thinking => "?",
        AgentState::Working => "*",
        AgentState::Messaging => "@",
        AgentState::Eating => "o",
        AgentState::Exercising => "!",
        AgentState::Playing => "^",
        AgentState::Error => "x",
        AgentState::Offline => ".",
    }
}

/// Foreground and background colour of a floor.
pub fn floor_colors(kind: &FloorKind) -> (c: (Color, Color))
    ensures
        *kind == FloorKind::Wood ==> c == (Color::Rgb(160, 120, 80), Color::Rgb(139, 90, 43)),
        *kind == FloorKind::Tile ==> c == (Color::Rgb(200, 200, 210), Color::Rgb(180, 180, 190)),
        *kind == FloorKind::Carpet ==> c == (Color::Rgb(70, 70, 120), Color::Rgb(60, 60, 100)),
        *kind == FloorKind::Concrete ==> c == (Color::Rgb(140, 140, 140), Color::Rgb(120, 120, 120)),
{
    match kind {
        FloorKind::Wood => (Color::Rgb(160, 120, 80), Color::Rgb(139, 90, 43)),
        FloorKind::Tile => (Color::Rgb(200, 200, 210), Color::Rgb(180, 180, 190)),
        FloorKind::Carpet => (Color::Rgb(70, 70, 120), Color::Rgb(60, 60, 100)),
        FloorKind::Concrete => (Color::Rgb(140, 140, 140), Color::Rgb(120, 120, 120)),
    }
}

/// Colour of a wall.
pub fn wall_color(kind: &WallKind) -> (c: Color)
    ensures
        *kind == WallKind::Solid ==> c == Color::Rgb(90, 90, 100),
        *kind == WallKind::Window ==> c == Color::Rgb(180, 220, 255),
{
    match kind {
        WallKind::Solid => Color::Rgb(90, 90, 100),
        WallKind::Window => Color::Rgb(180, 220, 255),
    }
}

/// The red, green and blue of a colour as the sidebar paints it; named
/// colours without a listed value paint light grey.
pub open spec fn rgb_of(c: Color) -> (u8, u8, u8) {
    match c {
        Color::Rgb(r, g, b) => (r, g, b),
        Color::Green => (0, 180, 0),
        Color::Yellow => (220, 220, 0),
        Color::Red => (220, 0, 0),
        Color::Cyan => (0, 200, 200),
        Color::Gray => (150, 150, 150),
        _ => (180, 180, 180),
    }
}

/// The red, green and blue bytes of a colour.
pub fn color_to_rgb_u8(c: Color) -> (v: (u8, u8, u8))
    ensures
        v == rgb_of(c),
{
    match c {
        Color::Rgb(r, g, b) => (r, g, b),
        Color::Green => (0, 180, 0),
        Color::Yellow => (220, 220, 0),
        Color::Red => (220, 0, 0),
        Color::Cyan => (0, 200, 200),
        Color::Gray => (150, 150, 150),
        _ => (180, 180, 180),
    }
}

} // verus!
