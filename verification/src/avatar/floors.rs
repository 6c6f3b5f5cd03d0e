//! Sprites of floors, walls, rugs and doors; furniture is drawn by
//! `furniture_sprite`.

use vstd::prelude::*;
use crate::avatar::furniture::{furniture_frame, furniture_sprite, has_content, is_furniture, on_bg, some_cell_shows};
use crate::avatar::palette::{floor_colors, wall_color, Color};
use crate::avatar::sprite::{blank, fill, filled, SpriteFrame, StyledCell};
use crate::world::tile::{FloorKind, Tile, WallKind};

verus! {

/// The cell a floor of kind `kind` at grid position `(gx, gy)` is drawn with:
/// wood shows its grain, tiles alternate in a chequer pattern.
pub open spec fn floor_cell(kind: FloorKind, gx: u16, gy: u16) -> StyledCell {
    match kind {
        FloorKind::Wood => StyledCell { ch: '─', fg: Color::Rgb(160, 120, 80), bg: Some(Color::Rgb(139, 90, 43)) },
        FloorKind::Tile => StyledCell {
            ch: ' ',
            fg: Color::Rgb(200, 200, 210),
            bg: Some(if (gx + gy) % 2 == 0 { Color::Rgb(180, 180, 190) } else { Color::Rgb(205, 205, 215) }),
        },
        FloorKind::Carpet => StyledCell { ch: ' ', fg: Color::Rgb(70, 70, 120), bg: Some(Color::Rgb(60, 60, 100)) },
        FloorKind::Concrete => StyledCell { ch: ' ', fg: Color::Rgb(140, 140, 140), bg: Some(Color::Rgb(120, 120, 120)) },
    }
}

/// A window: a frame around panes of glass and sky.
pub open spec fn window_frame() -> SpriteFrame {
    let frame_c = Color::Rgb(90, 100, 115);
    let glass = Color::Rgb(170, 200, 230);
    let sky = Color::Rgb(140, 180, 220);
    [
        [on_bg('▛', frame_c, glass), on_bg('▀', frame_c, glass), on_bg('▀', frame_c, glass), on_bg('▜', frame_c, glass)],
        [on_bg('▌', frame_c, sky), on_bg(' ', frame_c, sky), on_bg(' ', frame_c, sky), on_bg('▐', frame_c, sky)],
        [on_bg('▙', frame_c, glass), on_bg('▄', frame_c, glass), on_bg('▄', frame_c, glass), on_bg('▟', frame_c, glass)],
    ]
}

/// The sprite of the tile at grid position `(gx, gy)`. Floors, solid walls,
/// rugs and open doors are drawn with one repeated cell; windows and
/// furniture have sprites of their own, which show something; the ping-pong
/// table halves are blank.
pub fn tile_sprite(tile: &Tile, gx: u16, gy: u16) -> (f: SpriteFrame)
    ensures
        (*tile matches Tile::Floor(kind) ==> filled(f, floor_cell(kind, gx, gy))),
        *tile == Tile::Wall(WallKind::Solid) ==> filled(
            f,
            StyledCell { ch: '█', fg: Color::Rgb(90, 90, 100), bg: Some(Color::Rgb(70, 70, 80)) },
        ),
        *tile == Tile::Wall(WallKind::Window) ==> f == window_frame() && has_content(f),
        *tile == Tile::Rug ==> filled(f, StyledCell { ch: '▓', fg: Color::Rgb(160, 45, 45), bg: Some(Color::Rgb(140, 35, 35)) }),
        *tile == Tile::DoorOpen ==> filled(
            f,
            StyledCell { ch: ' ', fg: Color::Rgb(100, 100, 105), bg: Some(Color::Rgb(100, 100, 105)) },
        ),
        is_furniture(*tile) ==> f == furniture_frame(*tile) && has_content(f),
        *tile == Tile::PingPongTableLeft || *tile == Tile::PingPongTableRight ==> filled(f, blank()),
{
    match tile {
        Tile::Floor(kind) => floor_sprite(kind, gx, gy),
        Tile::Wall(kind) => wall_sprite(kind),
        Tile::Rug => rug_sprite(),
        Tile::DoorOpen => door_sprite(),
        _ => furniture_sprite(tile),
    }
}

fn floor_sprite(kind: &FloorKind, gx: u16, gy: u16) -> (f: SpriteFrame)
    ensures
        filled(f, floor_cell(*kind, gx, gy)),
{
    let (fg, bg) = floor_colors(kind);
    match kind {
        FloorKind::Wood => fill(StyledCell::new('─', fg, Some(bg))),
        FloorKind::Tile => {
            let even = ((gx as u32) + (gy as u32)) % 2 == 0;
            let alt = if even {
                bg
            } else {
                Color::Rgb(205, 205, 215)
            };
            fill(StyledCell::new(' ', fg, Some(alt)))
        },
        FloorKind::Carpet => fill(StyledCell::new(' ', fg, Some(bg))),
        FloorKind::Concrete => fill(StyledCell::new(' ', fg, Some(bg))),
    }
}

fn wall_sprite(kind: &WallKind) -> (f: SpriteFrame)
    ensures
        *kind == WallKind::Solid ==> filled(
            f,
            StyledCell { ch: '█', fg: Color::Rgb(90, 90, 100), bg: Some(Color::Rgb(70, 70, 80)) },
        ),
        *kind == WallKind::Window ==> f == window_frame(),
        has_content(f),
{
    let color = wall_color(kind);
    match kind {
        WallKind::Solid => {
            let bg = Color::Rgb(70, 70, 80);
            let f = fill(StyledCell::new('█', color, Some(bg)));
            assert(some_cell_shows(f));
            f
        },
        WallKind::Window => {
            let frame_c = Color::Rgb(90, 100, 115);
            let glass = Color::Rgb(170, 200, 230);
            let sky = Color::Rgb(140, 180, 220);
            let f = [
                [
                    StyledCell::new('▛', frame_c, Some(glass)),
                    StyledCell::new('▀', frame_c, Some(glass)),
                    StyledCell::new('▀', frame_c, Some(glass)),
                    StyledCell::new('▜', frame_c, Some(glass)),
                ],
                [
                    StyledCell::new('▌', frame_c, Some(sky)),
                    StyledCell::new(' ', frame_c, Some(sky)),
                    StyledCell::new(' ', frame_c, Some(sky)),
                    StyledCell::new('▐', frame_c, Some(sky)),
                ],
                [
                    StyledCell::new('▙', frame_c, Some(glass)),
                    StyledCell::new('▄', frame_c, Some(glass)),
                    StyledCell::new('▄', frame_c, Some(glass)),
                    StyledCell::new('▟', frame_c, Some(glass)),
                ],
            ];
            assert(some_cell_shows(f));
            f
        },
    }
}

fn rug_sprite() -> (f: SpriteFrame)
    ensures
        filled(f, StyledCell { ch: '▓', fg: Color::Rgb(160, 45, 45), bg: Some(Color::Rgb(140, 35, 35)) }),
{
    let rug = Color::Rgb(160, 45, 45);
    let bg = Color::Rgb(140, 35, 35);
    fill(StyledCell::new('▓', rug, Some(bg)))
}

fn door_sprite() -> (f: SpriteFrame)
    ensures
        filled(f, StyledCell { ch: ' ', fg: Color::Rgb(100, 100, 105), bg: Some(Color::Rgb(100, 100, 105)) }),
{
    let door = Color::Rgb(100, 100, 105);
    fill(StyledCell::new(' ', door, Some(door)))
}

} // verus!
