//! Sprites of furniture.

use vstd::prelude::*;
use crate::avatar::palette::Color;
use crate::avatar::sprite::{blank, cell, empty_frame, filled, SpriteFrame, StyledCell};
use crate::world::tile::Tile;

verus! {

/// A cell that shows something: a character or a background.
pub open spec fn shows(x: StyledCell) -> bool {
    x.ch != ' ' || x.bg is Some
}

/// Some cell of `f` differs from the blank cell in its character or background.
pub open spec fn has_content(f: SpriteFrame) -> bool {
    exists|r: int, c: int| 0 <= r < 3 && 0 <= c < 4 && shows(#[trigger] cell(f, r, c))
}

/// One of the twelve cells of `f` shows something.
pub open spec fn some_cell_shows(f: SpriteFrame) -> bool {
    shows(cell(f, 0, 0)) || shows(cell(f, 0, 1)) || shows(cell(f, 0, 2)) || shows(cell(f, 0, 3)) || shows(cell(f, 1, 0)) || shows(cell(f, 1, 1)) || shows(cell(f, 1, 2)) || shows(cell(f, 1, 3)) || shows(cell(f, 2, 0)) || shows(cell(f, 2, 1)) || shows(cell(f, 2, 2)) || shows(cell(f, 2, 3))
}

/// Tiles that are pieces of furniture.
pub open spec fn is_furniture(t: Tile) -> bool {
    match t {
        Tile::Desk | Tile::VendingMachine | Tile::CoffeeMachine | Tile::Couch | Tile::Plant | Tile::PinballMachine
        | Tile::GymTreadmill | Tile::Whiteboard | Tile::WeightBench | Tile::YogaMat | Tile::FloorLamp
        | Tile::MeetingTable | Tile::SmallArmchair | Tile::ServerRack | Tile::FileCabinet | Tile::KitchenCounter => true,
        _ => false,
    }
}

/// The sprite of each piece of furniture.
pub open spec fn furniture_frame(t: Tile) -> SpriteFrame {
    match t {
        Tile::Desk => desk_frame(),
        Tile::VendingMachine => vending_frame(),
        Tile::CoffeeMachine => coffee_frame(),
        Tile::Couch => couch_frame(),
        Tile::Plant => plant_frame(),
        Tile::PinballMachine => pinball_frame(),
        Tile::GymTreadmill => treadmill_frame(),
        Tile::Whiteboard => whiteboard_frame(),
        Tile::WeightBench => weight_bench_frame(),
        Tile::YogaMat => yoga_mat_frame(),
        Tile::FloorLamp => floor_lamp_frame(),
        Tile::MeetingTable => meeting_table_frame(),
        Tile::SmallArmchair => armchair_frame(),
        Tile::ServerRack => server_rack_frame(),
        Tile::FileCabinet => file_cabinet_frame(),
        _ => kitchen_counter_frame(),
    }
}

/// The sprite of a piece of furniture; every other tile gets the empty frame.
/// Every piece of furniture shows something, and the server rack's middle row
/// carries green LEDs.
pub fn furniture_sprite(tile: &Tile) -> (f: SpriteFrame)
    ensures
        is_furniture(*tile) ==> f == furniture_frame(*tile),
        is_furniture(*tile) ==> has_content(f),
        !is_furniture(*tile) ==> filled(f, blank()),
        *tile == Tile::ServerRack ==> exists|c: int| 0 <= c < 4 && (#[trigger] cell(f, 1, c)).fg == Color::Rgb(0, 255, 100),
{
    match tile {
        Tile::Desk => desk(),
        Tile::VendingMachine => vending(),
        Tile::CoffeeMachine => coffee(),
        Tile::Couch => couch(),
        Tile::Plant => plant(),
        Tile::PinballMachine => pinball(),
        Tile::GymTreadmill => treadmill(),
        Tile::Whiteboard => whiteboard(),
        Tile::WeightBench => weight_bench(),
        Tile::YogaMat => yoga_mat(),
        Tile::FloorLamp => floor_lamp(),
        Tile::MeetingTable => meeting_table(),
        Tile::SmallArmchair => armchair(),
        Tile::ServerRack => server_rack(),
        Tile::FileCabinet => file_cabinet(),
        Tile::KitchenCounter => kitchen_counter(),
        _ => empty_frame(),
    }
}

/// A cell drawn in `ch` and `fg` with no background.
pub open spec fn plain(ch: char, fg: Color) -> StyledCell {
    StyledCell { ch, fg, bg: None }
}

/// A cell drawn in `ch` and `fg` on the background `bg`.
pub open spec fn on_bg(ch: char, fg: Color, bg: Color) -> StyledCell {
    StyledCell { ch, fg, bg: Some(bg) }
}

fn c(ch: char, fg: Color) -> (x: StyledCell)
    ensures
        x == plain(ch, fg),
{
    StyledCell::transparent(ch, fg)
}

fn cb(ch: char, fg: Color, bg: Color) -> (x: StyledCell)
    ensures
        x == on_bg(ch, fg, bg),
{
    StyledCell::new(ch, fg, Some(bg))
}

fn e() -> (x: StyledCell)
    ensures
        x == blank(),
{
    StyledCell::empty()
}

/// A desk with a monitor.
pub open spec fn desk_frame() -> SpriteFrame {
    let wood = Color::Rgb(139, 90, 43);
    let screen = Color::Cyan;
    let f = [
        [
            plain('┌', wood),
            on_bg('▄', screen, Color::Rgb(40, 40, 40)),
            on_bg('▄', screen, Color::Rgb(40, 40, 40)),
            plain('┐', wood),
        ],
        [
            plain('│', wood),
            on_bg(' ', screen, Color::Rgb(30, 50, 80)),
            on_bg(' ', screen, Color::Rgb(30, 50, 80)),
            plain('│', wood),
        ],
        [plain('╘', wood), plain('═', wood), plain('═', wood), plain('╛', wood)],
    ];
    f
}

fn desk() -> (f: SpriteFrame)
    ensures
        f == desk_frame(),
        has_content(f),
{
    let wood = Color::Rgb(139, 90, 43);
    let screen = Color::Cyan;
    let f = [
        [
            c('┌', wood),
            cb('▄', screen, Color::Rgb(40, 40, 40)),
            cb('▄', screen, Color::Rgb(40, 40, 40)),
            c('┐', wood),
        ],
        [
            c('│', wood),
            cb(' ', screen, Color::Rgb(30, 50, 80)),
            cb(' ', screen, Color::Rgb(30, 50, 80)),
            c('│', wood),
        ],
        [c('╘', wood), c('═', wood), c('═', wood), c('╛', wood)],
    ];
    assert(some_cell_shows(f));
    f
}

/// A vending machine.
pub open spec fn vending_frame() -> SpriteFrame {
    let body = Color::Rgb(200, 50, 50);
    let display = Color::Rgb(255, 220, 100);
    let f = [
        [plain('┌', body), plain('━', body), plain('━', body), plain('┐', body)],
        [
            plain('│', body),
            on_bg('▓', display, body),
            on_bg('▓', display, body),
            plain('│', body),
        ],
        [
            plain('│', body),
            plain('▔', body),
            plain('□', Color::White),
            plain('│', body),
        ],
    ];
    f
}

fn vending() -> (f: SpriteFrame)
    ensures
        f == vending_frame(),
        has_content(f),
{
    let body = Color::Rgb(200, 50, 50);
    let display = Color::Rgb(255, 220, 100);
    let f = [
        [c('┌', body), c('━', body), c('━', body), c('┐', body)],
        [
            c('│', body),
            cb('▓', display, body),
            cb('▓', display, body),
            c('│', body),
        ],
        [
            c('│', body),
            c('▔', body),
            c('□', Color::White),
            c('│', body),
        ],
    ];
    assert(some_cell_shows(f));
    f
}

/// A steaming coffee machine.
pub open spec fn coffee_frame() -> SpriteFrame {
    let brown = Color::Rgb(101, 67, 33);
    let steam = Color::White;
    let f = [
        [blank(), plain('╔', brown), plain('╗', brown), plain('♨', steam)],
        [blank(), plain('║', brown), plain('║', brown), blank()],
        [blank(), plain('╚', brown), plain('╝', brown), blank()],
    ];
    f
}

fn coffee() -> (f: SpriteFrame)
    ensures
        f == coffee_frame(),
        has_content(f),
{
    let brown = Color::Rgb(101, 67, 33);
    let steam = Color::White;
    let f = [
        [e(), c('╔', brown), c('╗', brown), c('♨', steam)],
        [e(), c('║', brown), c('║', brown), e()],
        [e(), c('╚', brown), c('╝', brown), e()],
    ];
    assert(some_cell_shows(f));
    f
}

/// A couch.
pub open spec fn couch_frame() -> SpriteFrame {
    let fabric = Color::Rgb(178, 34, 34);
    let f = [
        [blank(), blank(), blank(), blank()],
        [
            plain('▐', fabric),
            plain('▓', fabric),
            plain('▓', fabric),
            plain('▌', fabric),
        ],
        [
            plain('▐', fabric),
            plain('█', fabric),
            plain('█', fabric),
            plain('▌', fabric),
        ],
    ];
    f
}

fn couch() -> (f: SpriteFrame)
    ensures
        f == couch_frame(),
        has_content(f),
{
    let fabric = Color::Rgb(178, 34, 34);
    let f = [
        [e(), e(), e(), e()],
        [
            c('▐', fabric),
            c('▓', fabric),
            c('▓', fabric),
            c('▌', fabric),
        ],
        [
            c('▐', fabric),
            c('█', fabric),
            c('█', fabric),
            c('▌', fabric),
        ],
    ];
    assert(some_cell_shows(f));
    f
}

/// A potted plant.
pub open spec fn plant_frame() -> SpriteFrame {
    let leaf = Color::Rgb(34, 139, 34);
    let pot = Color::Rgb(139, 90, 43);
    let f = [
        [blank(), plain('♣', leaf), plain('♣', leaf), blank()],
        [blank(), plain('▓', leaf), plain('▓', leaf), blank()],
        [blank(), plain('▐', pot), plain('▌', pot), blank()],
    ];
    f
}

fn plant() -> (f: SpriteFrame)
    ensures
        f == plant_frame(),
        has_content(f),
{
    let leaf = Color::Rgb(34, 139, 34);
    let pot = Color::Rgb(139, 90, 43);
    let f = [
        [e(), c('♣', leaf), c('♣', leaf), e()],
        [e(), c('▓', leaf), c('▓', leaf), e()],
        [e(), c('▐', pot), c('▌', pot), e()],
    ];
    assert(some_cell_shows(f));
    f
}

/// A pinball machine.
pub open spec fn pinball_frame() -> SpriteFrame {
    let body = Color::Magenta;
    let display = Color::Yellow;
    let f = [
        [plain('╔', body), plain('▀', display), plain('▀', display), plain('╗', body)],
        [
            plain('║', body),
            plain('◆', display),
            plain('◇', Color::Cyan),
            plain('║', body),
        ],
        [plain('╚', body), plain('▄', body), plain('▄', body), plain('╝', body)],
    ];
    f
}

fn pinball() -> (f: SpriteFrame)
    ensures
        f == pinball_frame(),
        has_content(f),
{
    let body = Color::Magenta;
    let display = Color::Yellow;
    let f = [
        [c('╔', body), c('▀', display), c('▀', display), c('╗', body)],
        [
            c('║', body),
            c('◆', display),
            c('◇', Color::Cyan),
            c('║', body),
        ],
        [c('╚', body), c('▄', body), c('▄', body), c('╝', body)],
    ];
    assert(some_cell_shows(f));
    f
}

/// A treadmill.
pub open spec fn treadmill_frame() -> SpriteFrame {
    let frame_c = Color::Gray;
    let belt = Color::DarkGray;
    let f = [
        [blank(), plain('┌', frame_c), plain('┐', frame_c), blank()],
        [blank(), plain('│', frame_c), plain('│', frame_c), blank()],
        [plain('▗', belt), plain('▀', belt), plain('▀', belt), plain('▖', belt)],
    ];
    f
}

fn treadmill() -> (f: SpriteFrame)
    ensures
        f == treadmill_frame(),
        has_content(f),
{
    let frame_c = Color::Gray;
    let belt = Color::DarkGray;
    let f = [
        [e(), c('┌', frame_c), c('┐', frame_c), e()],
        [e(), c('│', frame_c), c('│', frame_c), e()],
        [c('▗', belt), c('▀', belt), c('▀', belt), c('▖', belt)],
    ];
    assert(some_cell_shows(f));
    f
}

/// A whiteboard.
pub open spec fn whiteboard_frame() -> SpriteFrame {
    let frame_c = Color::Gray;
    let f = [
        [
            plain('┌', frame_c),
            plain('─', frame_c),
            plain('─', frame_c),
            plain('┐', frame_c),
        ],
        [
            plain('│', frame_c),
            on_bg(' ', Color::Black, Color::White),
            on_bg(' ', Color::Black, Color::White),
            plain('│', frame_c),
        ],
        [
            plain('└', frame_c),
            plain('─', frame_c),
            plain('─', frame_c),
            plain('┘', frame_c),
        ],
    ];
    f
}

fn whiteboard() -> (f: SpriteFrame)
    ensures
        f == whiteboard_frame(),
        has_content(f),
{
    let frame_c = Color::Gray;
    let f = [
        [
            c('┌', frame_c),
            c('─', frame_c),
            c('─', frame_c),
            c('┐', frame_c),
        ],
        [
            c('│', frame_c),
            cb(' ', Color::Black, Color::White),
            cb(' ', Color::Black, Color::White),
            c('│', frame_c),
        ],
        [
            c('└', frame_c),
            c('─', frame_c),
            c('─', frame_c),
            c('┘', frame_c),
        ],
    ];
    assert(some_cell_shows(f));
    f
}

/// A weight bench with a barbell.
pub open spec fn weight_bench_frame() -> SpriteFrame {
    let metal = Color::Rgb(160, 160, 170);
    let pad = Color::Rgb(40, 40, 40);
    let weight = Color::Rgb(80, 80, 90);
    let f = [
        [plain('◄', weight), plain('━', metal), plain('━', metal), plain('►', weight)],
        [
            blank(),
            on_bg('▓', pad, Color::Rgb(30, 30, 30)),
            on_bg('▓', pad, Color::Rgb(30, 30, 30)),
            blank(),
        ],
        [blank(), plain('╨', metal), plain('╨', metal), blank()],
    ];
    f
}

fn weight_bench() -> (f: SpriteFrame)
    ensures
        f == weight_bench_frame(),
        has_content(f),
{
    let metal = Color::Rgb(160, 160, 170);
    let pad = Color::Rgb(40, 40, 40);
    let weight = Color::Rgb(80, 80, 90);
    let f = [
        [c('◄', weight), c('━', metal), c('━', metal), c('►', weight)],
        [
            e(),
            cb('▓', pad, Color::Rgb(30, 30, 30)),
            cb('▓', pad, Color::Rgb(30, 30, 30)),
            e(),
        ],
        [e(), c('╨', metal), c('╨', metal), e()],
    ];
    assert(some_cell_shows(f));
    f
}

/// A yoga mat.
pub open spec fn yoga_mat_frame() -> SpriteFrame {
    let mat = Color::Rgb(120, 80, 200);
    let bg = Color::Rgb(100, 65, 170);
    let f = [
        [
            on_bg('╭', mat, bg),
            on_bg('─', mat, bg),
            on_bg('─', mat, bg),
            on_bg('╮', mat, bg),
        ],
        [
            on_bg('│', mat, bg),
            on_bg('░', mat, bg),
            on_bg('░', mat, bg),
            on_bg('│', mat, bg),
        ],
        [
            on_bg('╰', mat, bg),
            on_bg('─', mat, bg),
            on_bg('─', mat, bg),
            on_bg('╯', mat, bg),
        ],
    ];
    f
}

fn yoga_mat() -> (f: SpriteFrame)
    ensures
        f == yoga_mat_frame(),
        has_content(f),
{
    let mat = Color::Rgb(120, 80, 200);
    let bg = Color::Rgb(100, 65, 170);
    let f = [
        [
            cb('╭', mat, bg),
            cb('─', mat, bg),
            cb('─', mat, bg),
            cb('╮', mat, bg),
        ],
        [
            cb('│', mat, bg),
            cb('░', mat, bg),
            cb('░', mat, bg),
            cb('│', mat, bg),
        ],
        [
            cb('╰', mat, bg),
            cb('─', mat, bg),
            cb('─', mat, bg),
            cb('╯', mat, bg),
        ],
    ];
    assert(some_cell_shows(f));
    f
}

/// A glowing floor lamp.
pub open spec fn floor_lamp_frame() -> SpriteFrame {
    let pole = Color::Rgb(180, 150, 50);
    let light = Color::Rgb(255, 240, 180);
    let glow = Color::Rgb(255, 255, 200);
    let f = [
        [blank(), plain('╔', pole), plain('╗', pole), plain('*', glow)],
        [blank(), plain('║', pole), plain('║', pole), blank()],
        [blank(), on_bg('▀', light, pole), on_bg('▀', light, pole), blank()],
    ];
    f
}

fn floor_lamp() -> (f: SpriteFrame)
    ensures
        f == floor_lamp_frame(),
        has_content(f),
{
    let pole = Color::Rgb(180, 150, 50);
    let light = Color::Rgb(255, 240, 180);
    let glow = Color::Rgb(255, 255, 200);
    let f = [
        [e(), c('╔', pole), c('╗', pole), c('*', glow)],
        [e(), c('║', pole), c('║', pole), e()],
        [e(), cb('▀', light, pole), cb('▀', light, pole), e()],
    ];
    assert(some_cell_shows(f));
    f
}

/// A meeting table.
pub open spec fn meeting_table_frame() -> SpriteFrame {
    let wood = Color::Rgb(120, 80, 40);
    let top = Color::Rgb(160, 110, 60);
    let f = [
        [
            on_bg('╭', wood, top),
            on_bg('─', wood, top),
            on_bg('─', wood, top),
            on_bg('╮', wood, top),
        ],
        [
            on_bg('│', wood, top),
            on_bg('▒', top, Color::Rgb(140, 95, 50)),
            on_bg('▒', top, Color::Rgb(140, 95, 50)),
            on_bg('│', wood, top),
        ],
        [
            on_bg('╰', wood, top),
            on_bg('─', wood, top),
            on_bg('─', wood, top),
            on_bg('╯', wood, top),
        ],
    ];
    f
}

fn meeting_table() -> (f: SpriteFrame)
    ensures
        f == meeting_table_frame(),
        has_content(f),
{
    let wood = Color::Rgb(120, 80, 40);
    let top = Color::Rgb(160, 110, 60);
    let f = [
        [
            cb('╭', wood, top),
            cb('─', wood, top),
            cb('─', wood, top),
            cb('╮', wood, top),
        ],
        [
            cb('│', wood, top),
            cb('▒', top, Color::Rgb(140, 95, 50)),
            cb('▒', top, Color::Rgb(140, 95, 50)),
            cb('│', wood, top),
        ],
        [
            cb('╰', wood, top),
            cb('─', wood, top),
            cb('─', wood, top),
            cb('╯', wood, top),
        ],
    ];
    assert(some_cell_shows(f));
    f
}

/// A small armchair.
pub open spec fn armchair_frame() -> SpriteFrame {
    let fabric = Color::Rgb(70, 100, 160);
    let dark = Color::Rgb(50, 75, 130);
    let f = [
        [blank(), blank(), blank(), blank()],
        [
            plain('▐', fabric),
            on_bg('▓', fabric, dark),
            on_bg('▓', fabric, dark),
            plain('▌', fabric),
        ],
        [plain('▐', dark), plain('█', fabric), plain('█', fabric), plain('▌', dark)],
    ];
    f
}

fn armchair() -> (f: SpriteFrame)
    ensures
        f == armchair_frame(),
        has_content(f),
{
    let fabric = Color::Rgb(70, 100, 160);
    let dark = Color::Rgb(50, 75, 130);
    let f = [
        [e(), e(), e(), e()],
        [
            c('▐', fabric),
            cb('▓', fabric, dark),
            cb('▓', fabric, dark),
            c('▌', fabric),
        ],
        [c('▐', dark), c('█', fabric), c('█', fabric), c('▌', dark)],
    ];
    assert(some_cell_shows(f));
    f
}

/// A server rack with green LEDs.
pub open spec fn server_rack_frame() -> SpriteFrame {
    let body = Color::Rgb(50, 50, 60);
    let led = Color::Rgb(0, 255, 100);
    let panel = Color::Rgb(70, 70, 80);
    let f = [
        [
            on_bg('┌', panel, body),
            on_bg('━', panel, body),
            on_bg('━', panel, body),
            on_bg('┐', panel, body),
        ],
        [
            on_bg('│', panel, body),
            on_bg('▪', led, body),
            on_bg('▪', led, body),
            on_bg('│', panel, body),
        ],
        [
            on_bg('│', panel, body),
            on_bg('═', panel, body),
            on_bg('═', panel, body),
            on_bg('│', panel, body),
        ],
    ];
    f
}

fn server_rack() -> (f: SpriteFrame)
    ensures
        f == server_rack_frame(),
        has_content(f),
        cell(f, 1, 1).fg == Color::Rgb(0, 255, 100),
        cell(f, 1, 2).fg == Color::Rgb(0, 255, 100),
{
    let body = Color::Rgb(50, 50, 60);
    let led = Color::Rgb(0, 255, 100);
    let panel = Color::Rgb(70, 70, 80);
    let f = [
        [
            cb('┌', panel, body),
            cb('━', panel, body),
            cb('━', panel, body),
            cb('┐', panel, body),
        ],
        [
            cb('│', panel, body),
            cb('▪', led, body),
            cb('▪', led, body),
            cb('│', panel, body),
        ],
        [
            cb('│', panel, body),
            cb('═', panel, body),
            cb('═', panel, body),
            cb('│', panel, body),
        ],
    ];
    assert(some_cell_shows(f));
    f
}

/// A file cabinet.
pub open spec fn file_cabinet_frame() -> SpriteFrame {
    let body = Color::Rgb(140, 140, 150);
    let handle = Color::Rgb(200, 200, 210);
    let f = [
        [plain('┌', body), plain('─', body), plain('─', body), plain('┐', body)],
        [plain('│', body), plain('▬', handle), plain('▬', handle), plain('│', body)],
        [plain('│', body), plain('▬', handle), plain('▬', handle), plain('│', body)],
    ];
    f
}

fn file_cabinet() -> (f: SpriteFrame)
    ensures
        f == file_cabinet_frame(),
        has_content(f),
{
    let body = Color::Rgb(140, 140, 150);
    let handle = Color::Rgb(200, 200, 210);
    let f = [
        [c('┌', body), c('─', body), c('─', body), c('┐', body)],
        [c('│', body), c('▬', handle), c('▬', handle), c('│', body)],
        [c('│', body), c('▬', handle), c('▬', handle), c('│', body)],
    ];
    assert(some_cell_shows(f));
    f
}

/// A kitchen counter.
pub open spec fn kitchen_counter_frame() -> SpriteFrame {
    let counter = Color::Rgb(180, 180, 190);
    let cabinet = Color::Rgb(139, 90, 43);
    let top = Color::Rgb(220, 220, 230);
    let f = [
        [
            on_bg('▄', top, counter),
            on_bg('▄', top, counter),
            on_bg('▄', top, counter),
            on_bg('▄', top, counter),
        ],
        [
            plain('│', cabinet),
            on_bg('▒', counter, cabinet),
            on_bg('▒', counter, cabinet),
            plain('│', cabinet),
        ],
        [
            plain('│', cabinet),
            plain('▬', counter),
            plain('▬', counter),
            plain('│', cabinet),
        ],
    ];
    f
}

fn kitchen_counter() -> (f: SpriteFrame)
    ensures
        f == kitchen_counter_frame(),
        has_content(f),
{
    let counter = Color::Rgb(180, 180, 190);
    let cabinet = Color::Rgb(139, 90, 43);
    let top = Color::Rgb(220, 220, 230);
    let f = [
        [
            cb('▄', top, counter),
            cb('▄', top, counter),
            cb('▄', top, counter),
            cb('▄', top, counter),
        ],
        [
            c('│', cabinet),
            cb('▒', counter, cabinet),
            cb('▒', counter, cabinet),
            c('│', cabinet),
        ],
        [
            c('│', cabinet),
            c('▬', counter),
            c('▬', counter),
            c('│', cabinet),
        ],
    ];
    assert(some_cell_shows(f));
    f
}

} // verus!
