use vstd::prelude::*;
use crate::world::grid::{
    cell_index, lemma_grid_size_fits, lemma_index, lemma_index_inverse, on_border,
    position_of_index, Grid,
};
use crate::world::position::Position;
use crate::world::tile::{Cell, FloorKind, Tile, WallKind};

verus! {

/// Furniture of the office, by coordinates measured from the edges of a
/// `w` x `h` world: desks top left, a whiteboard, the kitchen top right, a
/// meeting table in the middle, the server corner on the right, the lounge
/// bottom left, the gym bottom middle and the arcade bottom right. Earlier
/// entries win where small worlds make two of them meet.
pub open spec fn office_furniture(w: int, h: int, x: int, y: int) -> Option<Tile> {
    if (y == 3 || y == 6) && (x == 3 || x == 6 || x == 9) {
        Some(Tile::Desk)
    } else if y == 1 && x == 12 {
        Some(Tile::Whiteboard)
    } else if y == 2 && (x == w - 3 || x == w - 4) {
        Some(Tile::VendingMachine)
    } else if y == 2 && x == w - 6 {
        Some(Tile::CoffeeMachine)
    } else if y == 2 && x == w - 7 {
        Some(Tile::KitchenCounter)
    } else if y == h / 2 && (x == w / 2 || x == w / 2 + 1) {
        Some(Tile::MeetingTable)
    } else if x == w - 2 && y == h / 2 {
        Some(Tile::ServerRack)
    } else if x == w - 2 && y == h / 2 + 1 {
        Some(Tile::FileCabinet)
    } else if y == h - 4 && (x == 3 || x == 4) {
        Some(Tile::Couch)
    } else if y == h - 4 && x == 6 {
        Some(Tile::SmallArmchair)
    } else if y == h - 2 && x == 2 {
        Some(Tile::Plant)
    } else if y == h - 2 && x == 7 {
        Some(Tile::FloorLamp)
    } else if y == h - 3 && (x == 4 || x == 5) {
        Some(Tile::Rug)
    } else if y == h - 2 && x == 12 {
        Some(Tile::GymTreadmill)
    } else if y == h - 2 && x == 14 {
        Some(Tile::WeightBench)
    } else if y == h - 2 && x == 16 {
        Some(Tile::YogaMat)
    } else if y == h - 2 && x == w - 3 {
        Some(Tile::PinballMachine)
    } else if y == h - 5 && x == w - 8 {
        Some(Tile::PingPongTableLeft)
    } else if y == h - 5 && x == w - 7 {
        Some(Tile::PingPongTableRight)
    } else {
        None
    }
}

/// The floor of each area: tiles in the kitchen, carpet in the lounge,
/// concrete in the gym, wood elsewhere.
pub open spec fn office_floor(w: int, h: int, x: int, y: int) -> FloorKind {
    if x >= w - 9 && y <= 5 {
        FloorKind::Tile
    } else if y >= h - 5 && x <= 9 {
        FloorKind::Carpet
    } else if y >= h - 5 && 11 <= x <= 17 {
        FloorKind::Concrete
    } else {
        FloorKind::Wood
    }
}

/// The tile of the office world at `p`: walls on the outer ring, with a window
/// in every fourth cell of the top wall, and the furniture and floors inside.
pub open spec fn office_tile(w: u16, h: u16, p: Position) -> Tile {
    if on_border(w, h, p) {
        if p.y == 0 && p.x % 4 == 2 && p.x + 1 < w {
            Tile::Wall(WallKind::Window)
        } else {
            Tile::Wall(WallKind::Solid)
        }
    } else {
        match office_furniture(w as int, h as int, p.x as int, p.y as int) {
            Some(t) => t,
            None => Tile::Floor(office_floor(w as int, h as int, p.x as int, p.y as int)),
        }
    }
}

fn office_tile_at(w: u16, h: u16, x: u16, y: u16) -> (t: Tile)
    ensures
        t == office_tile(w, h, Position { x, y }),
{
    if x == 0 || y == 0 || (x as u32) + 1 == (w as u32) || (y as u32) + 1 == (h as u32) {
        if y == 0 && x % 4 == 2 && (x as u32) + 1 < (w as u32) {
            return Tile::Wall(WallKind::Window);
        } else {
            return Tile::Wall(WallKind::Solid);
        }
    }
    let (w, h, x, y) = (w as i32, h as i32, x as i32, y as i32);
    if (y == 3 || y == 6) && (x == 3 || x == 6 || x == 9) {
        Tile::Desk
    } else if y == 1 && x == 12 {
        Tile::Whiteboard
    } else if y == 2 && (x == w - 3 || x == w - 4) {
        Tile::VendingMachine
    } else if y == 2 && x == w - 6 {
        Tile::CoffeeMachine
    } else if y == 2 && x == w - 7 {
        Tile::KitchenCounter
    } else if y == h / 2 && (x == w / 2 || x == w / 2 + 1) {
        Tile::MeetingTable
    } else if x == w - 2 && y == h / 2 {
        Tile::ServerRack
    } else if x == w - 2 && y == h / 2 + 1 {
        Tile::FileCabinet
    } else if y == h - 4 && (x == 3 || x == 4) {
        Tile::Couch
    } else if y == h - 4 && x == 6 {
        Tile::SmallArmchair
    } else if y == h - 2 && x == 2 {
        Tile::Plant
    } else if y == h - 2 && x == 7 {
        Tile::FloorLamp
    } else if y == h - 3 && (x == 4 || x == 5) {
        Tile::Rug
    } else if y == h - 2 && x == 12 {
        Tile::GymTreadmill
    } else if y == h - 2 && x == 14 {
        Tile::WeightBench
    } else if y == h - 2 && x == 16 {
        Tile::YogaMat
    } else if y == h - 2 && x == w - 3 {
        Tile::PinballMachine
    } else if y == h - 5 && x == w - 8 {
        Tile::PingPongTableLeft
    } else if y == h - 5 && x == w - 7 {
        Tile::PingPongTableRight
    } else if x >= w - 9 && y <= 5 {
        Tile::Floor(FloorKind::Tile)
    } else if y >= h - 5 && x <= 9 {
        Tile::Floor(FloorKind::Carpet)
    } else if y >= h - 5 && 11 <= x && x <= 17 {
        Tile::Floor(FloorKind::Concrete)
    } else {
        Tile::Floor(FloorKind::Wood)
    }
}

/// The office world of the given size, with nobody in it.
pub fn build_office_world(width: u16, height: u16) -> (g: Grid)
    ensures
        g.wf(),
        g.width == width,
        g.height == height,
        forall|p: Position| #[trigger] g.in_bounds(p) ==> g.cell_at(p) == (Cell {
            tile: office_tile(width, height, p),
            occupant: None,
        }),
{
    proof {
        lemma_grid_size_fits(width, height);
    }
    let n: usize = (width as usize) * (height as usize);
    let mut cells: Vec<Cell> = Vec::new();
    let mut i: usize = 0;
    while i < n
        invariant
            i <= n,
            n == width as int * height as int,
            cells@.len() == i,
            forall|j: int| 0 <= j < i ==> #[trigger] cells@[j] == (Cell {
                tile: office_tile(width, height, position_of_index(width, j)),
                occupant: None,
            }),
        decreases n - i,
    {
        proof {
            lemma_index_inverse(width, height, i as int);
        }
        let x: u16 = (i % (width as usize)) as u16;
        let y: u16 = (i / (width as usize)) as u16;
        let tile = office_tile_at(width, height, x, y);
        cells.push(Cell { tile, occupant: None });
        i = i + 1;
    }
    let g = Grid { width, height, cells };
    proof {
        assert forall|p: Position| #[trigger] g.in_bounds(p) implies g.cell_at(p) == (Cell {
            tile: office_tile(width, height, p),
            occupant: None,
        }) by {
            lemma_index(width, height, p);
        }
    }
    g
}

} // verus!
