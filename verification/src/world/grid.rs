use vstd::prelude::*;
use crate::agent::AgentId;
use crate::world::position::{random_below, Position};
use crate::world::tile::{cell_walkable, tile_solid, Cell, FloorKind, Tile, WallKind};

verus! {

/// The rectangular tile map of the world, stored row by row.
pub struct Grid {
    pub width: u16,
    pub height: u16,
    pub cells: Vec<Cell>,
}

/// Index of `p` in row-major storage of a grid `w` cells wide.
pub open spec fn cell_index(w: u16, p: Position) -> int {
    p.y as int * w as int + p.x as int
}

/// Whether `p` lies on the outer ring of a `w` x `h` area.
pub open spec fn on_border(w: u16, h: u16, p: Position) -> bool {
    p.x == 0 || p.y == 0 || p.x + 1 == w || p.y + 1 == h
}

/// The cell that `Grid::with_walls` puts at `p`.
pub open spec fn walled_cell(w: u16, h: u16, p: Position) -> Cell {
    if on_border(w, h, p) {
        Cell { tile: Tile::Wall(WallKind::Solid), occupant: None }
    } else {
        Cell { tile: Tile::Floor(FloorKind::Wood), occupant: None }
    }
}

/// An empty cell of wooden floor.
pub open spec fn wood_cell() -> Cell {
    Cell { tile: Tile::Floor(FloorKind::Wood), occupant: None }
}

/// The position stored at row-major index `i` of a grid `w` cells wide.
pub open spec fn position_of_index(w: u16, i: int) -> Position {
    Position { x: (i % w as int) as u16, y: (i / w as int) as u16 }
}

/// A position "is an empty floor" when it shows a floor tile and nobody stands there.
pub open spec fn empty_floor_cell(c: Cell) -> bool {
    c.tile is Floor && c.occupant is None
}

pub proof fn lemma_grid_size_fits(w: u16, h: u16)
    ensures
        0 <= w as int * h as int <= u32::MAX,
{
    assert(0 <= w as int * h as int <= 65535 * 65535) by (nonlinear_arith)
        requires
            w <= 65535,
            h <= 65535,
    ;
}

/// Row-major indexing is a bijection between in-bounds positions and `0..w*h`.
pub proof fn lemma_index(w: u16, h: u16, p: Position)
    requires
        p.x < w,
        p.y < h,
    ensures
        0 <= cell_index(w, p) < w as int * h as int,
        cell_index(w, p) % (w as int) == p.x as int,
        cell_index(w, p) / (w as int) == p.y as int,
        position_of_index(w, cell_index(w, p)) == p,
{
    let (wi, hi, xi, yi) = (w as int, h as int, p.x as int, p.y as int);
    assert(0 <= yi * wi + xi < wi * hi) by (nonlinear_arith)
        requires
            0 <= xi < wi,
            0 <= yi < hi,
    ;
    vstd::arithmetic::div_mod::lemma_fundamental_div_mod_converse(yi * wi + xi, wi, yi, xi);
}

/// Every index below `w*h` is the index of an in-bounds position.
pub proof fn lemma_index_inverse(w: u16, h: u16, i: int)
    requires
        0 <= i < w as int * h as int,
    ensures
        w > 0,
        position_of_index(w, i).x < w,
        position_of_index(w, i).y < h,
        cell_index(w, position_of_index(w, i)) == i,
{
    let (wi, hi) = (w as int, h as int);
    assert(wi > 0) by (nonlinear_arith)
        requires
            0 <= i < wi * hi,
            wi >= 0,
            hi >= 0,
    ;
    vstd::arithmetic::div_mod::lemma_fundamental_div_mod(i, wi);
    vstd::arithmetic::div_mod::lemma_mod_pos_bound(i, wi);
    let q = i / wi;
    let r = i % wi;
    assert(q < hi) by (nonlinear_arith)
        requires
            i == wi * q + r,
            0 <= r < wi,
            i < wi * hi,
            wi > 0,
    ;
    assert(q >= 0) by (nonlinear_arith)
        requires
            i == wi * q + r,
            0 <= r < wi,
            i >= 0,
            wi > 0,
    ;
    assert(q * wi + r == i) by (nonlinear_arith)
        requires
            i == wi * q + r,
    ;
}

/// Distinct in-bounds positions have distinct indices.
pub proof fn lemma_index_injective(w: u16, h: u16, p: Position, q: Position)
    requires
        p.x < w,
        p.y < h,
        q.x < w,
        q.y < h,
        cell_index(w, p) == cell_index(w, q),
    ensures
        p == q,
{
    lemma_index(w, h, p);
    lemma_index(w, h, q);
}

/// The four neighbours of `p` that exist as coordinates, in the order in which
/// a free spot beside a piece of furniture is looked for: left, below, right,
/// above.
pub open spec fn neighbor_order(p: Position) -> Seq<Position> {
    let left = if p.x > 0 { seq![Position { x: (p.x - 1) as u16, y: p.y }] } else { Seq::empty() };
    let down = if p.y < 65535 { seq![Position { x: p.x, y: (p.y + 1) as u16 }] } else { Seq::empty() };
    let right = if p.x < 65535 { seq![Position { x: (p.x + 1) as u16, y: p.y }] } else { Seq::empty() };
    let up = if p.y > 0 { seq![Position { x: p.x, y: (p.y - 1) as u16 }] } else { Seq::empty() };
    left + down + right + up
}

/// The first position of `s` that is walkable in `g` and not listed in `avoid`.
pub open spec fn first_walkable(g: Grid, s: Seq<Position>, avoid: Seq<Position>) -> Option<Position>
    decreases s.len(),
{
    if s.len() == 0 {
        None
    } else if g.walkable_at(s[0]) && !avoid.contains(s[0]) {
        Some(s[0])
    } else {
        first_walkable(g, s.drop_first(), avoid)
    }
}

/// `s` lists positions in strictly increasing row-major order.
pub open spec fn row_major_sorted(w: u16, s: Seq<Position>) -> bool {
    forall|i: int, j: int| 0 <= i < j < s.len() ==> cell_index(w, #[trigger] s[i]) < cell_index(w, #[trigger] s[j])
}

impl Grid {
    pub open spec fn spec_cells(&self) -> Seq<Cell> {
        self.cells@
    }

    /// The grid holds exactly one cell per position.
    pub open spec fn wf(&self) -> bool {
        self.spec_cells().len() == self.width as int * self.height as int
    }

    pub open spec fn in_bounds(&self, p: Position) -> bool {
        p.x < self.width && p.y < self.height
    }

    /// The cell at an in-bounds position.
    pub open spec fn cell_at(&self, p: Position) -> Cell {
        self.spec_cells()[cell_index(self.width, p)]
    }

    /// The tile at an in-bounds position.
    pub open spec fn tile_at(&self, p: Position) -> Tile {
        self.cell_at(p).tile
    }

    /// The agent standing at an in-bounds position.
    pub open spec fn occupant_at(&self, p: Position) -> Option<AgentId> {
        self.cell_at(p).occupant
    }

    /// In bounds, and walkable: a floor-like tile with nobody on it.
    pub open spec fn walkable_at(&self, p: Position) -> bool {
        self.in_bounds(p) && cell_walkable(self.cell_at(p))
    }

    /// In bounds, showing a floor tile, and with nobody on it.
    pub open spec fn empty_floor_at(&self, p: Position) -> bool {
        self.in_bounds(p) && empty_floor_cell(self.cell_at(p))
    }

    /// `other` has the dimensions of `self` and the same cells everywhere but at `p`.
    pub open spec fn same_except(&self, other: &Grid, p: Position) -> bool {
        &&& other.width == self.width
        &&& other.height == self.height
        &&& other.wf()
        &&& forall|q: Position| other.in_bounds(q) && q != p ==> #[trigger] other.cell_at(q) == self.cell_at(q)
    }

    fn index_of(&self, p: Position) -> (i: usize)
        requires
            self.wf(),
            self.in_bounds(p),
        ensures
            i as int == cell_index(self.width, p),
            i < self.spec_cells().len(),
    {
        proof {
            lemma_index(self.width, self.height, p);
            lemma_grid_size_fits(self.width, self.height);
        }
        let row: usize = (p.y as usize) * (self.width as usize);
        row + (p.x as usize)
    }

    /// Writes `cell` at index `i`, leaving every other cell in place.
    fn put(&mut self, i: usize, cell: Cell)
        requires
            i < old(self).spec_cells().len(),
        ensures
            final(self).width == old(self).width,
            final(self).height == old(self).height,
            final(self).spec_cells() == old(self).spec_cells().update(i as int, cell),
    {
        self.cells.set(i, cell);
    }

    /// A grid of the given size covered in wooden floor.
    pub fn new(width: u16, height: u16) -> (g: Grid)
        ensures
            g.wf(),
            g.width == width,
            g.height == height,
            forall|p: Position| #[trigger] g.in_bounds(p) ==> g.cell_at(p) == wood_cell(),
    {
        proof {
            lemma_grid_size_fits(width, height);
        }
        let n: usize = (width as usize) * (height as usize);
        let mut cells: Vec<Cell> = Vec::new();
        let mut i: usize = 0;
        while i < n
            invariant
                i <= n,
                n == width as int * height as int,
                cells@.len() == i,
                forall|j: int| 0 <= j < i ==> #[trigger] cells@[j] == wood_cell(),
            decreases n - i,
        {
            cells.push(Cell::floor(FloorKind::Wood));
            i = i + 1;
        }
        let g = Grid { width, height, cells };
        proof {
            assert forall|p: Position| #[trigger] g.in_bounds(p) implies g.cell_at(p) == wood_cell() by {
                lemma_index(width, height, p);
            }
        }
        g
    }

    /// A grid of the given size: solid walls on the outer ring, wooden floor inside.
    pub fn with_walls(width: u16, height: u16) -> (g: Grid)
        ensures
            g.wf(),
            g.width == width,
            g.height == height,
            forall|p: Position| #[trigger] g.in_bounds(p) ==> g.cell_at(p) == walled_cell(width, height, p),
    {
        proof {
            lemma_grid_size_fits(width, height);
        }
        let n: usize = (width as usize) * (height as usize);
        let mut cells: Vec<Cell> = Vec::new();
        let mut i: usize = 0;
        while i < n
            invariant
                i <= n,
                n == width as int * height as int,
                cells@.len() == i,
                forall|j: int| 0 <= j < i ==> #[trigger] cells@[j] == walled_cell(
                    width,
                    height,
                    position_of_index(width, j),
                ),
            decreases n - i,
        {
            proof {
                lemma_index_inverse(width, height, i as int);
            }
            let x: u16 = (i % (width as usize)) as u16;
            let y: u16 = (i / (width as usize)) as u16;
            let border = x == 0 || y == 0 || (x as u32) + 1 == (width as u32) || (y as u32) + 1
                == (height as u32);
            if border {
                cells.push(Cell::wall());
            } else {
                cells.push(Cell::floor(FloorKind::Wood));
            }
            i = i + 1;
        }
        let g = Grid { width, height, cells };
        proof {
            assert forall|p: Position| #[trigger] g.in_bounds(p) implies g.cell_at(p) == walled_cell(
                width,
                height,
                p,
            ) by {
                lemma_index(width, height, p);
            }
        }
        g
    }

    /// The cell at `pos`, or `None` outside the grid.
    pub fn get(&self, pos: Position) -> (r: Option<&Cell>)
        requires
            self.wf(),
        ensures
            r is None <==> !self.in_bounds(pos),
            r matches Some(c) ==> *c == self.cell_at(pos),
    {
        if pos.x < self.width && pos.y < self.height {
            let i = self.index_of(pos);
            Some(&self.cells[i])
        } else {
            None
        }
    }

    /// The size of the grid as (width, height).
    pub fn bounds(&self) -> (b: (u16, u16))
        ensures
            b == (self.width, self.height),
    {
        (self.width, self.height)
    }

    /// All cells, row by row.
    pub fn cells(&self) -> (c: &[Cell])
        ensures
            c@ == self.spec_cells(),
    {
        self.cells.as_slice()
    }

    /// Replaces the tile at `pos`, keeping whoever stands there; nothing happens
    /// outside the grid.
    pub fn set_tile(&mut self, pos: Position, tile: Tile)
        requires
            old(self).wf(),
        ensures
            old(self).same_except(&*final(self), pos),
            old(self).in_bounds(pos) ==> final(self).spec_cells() == old(self).spec_cells().update(
                cell_index(old(self).width, pos),
                Cell { tile, occupant: old(self).occupant_at(pos) },
            ),
            old(self).in_bounds(pos) ==> final(self).cell_at(pos) == (Cell { tile, occupant: old(self).occupant_at(pos) }),
            !old(self).in_bounds(pos) ==> final(self).spec_cells() == old(self).spec_cells(),
    {
        if pos.x < self.width && pos.y < self.height {
            let i = self.index_of(pos);
            let occupant = self.cells[i].occupant;
            self.put(i, Cell { tile, occupant });
            proof {
                assert forall|q: Position| self.in_bounds(q) && q != pos implies #[trigger] self.cell_at(
                    q,
                ) == old(self).cell_at(q) by {
                    lemma_index(self.width, self.height, q);
                    if cell_index(self.width, q) == i as int {
                        lemma_index_injective(self.width, self.height, q, pos);
                    }
                }
            }
        }
    }

    /// Puts agent `id` on `pos`. It succeeds, and changes the grid, exactly when
    /// `pos` is inside the grid, not solid and not occupied.
    pub fn place_agent(&mut self, pos: Position, id: AgentId) -> (ok: bool)
        requires
            old(self).wf(),
        ensures
            ok == old(self).walkable_at(pos),
            old(self).same_except(&*final(self), pos),
            ok ==> final(self).spec_cells() == old(self).spec_cells().update(
                cell_index(old(self).width, pos),
                Cell { tile: old(self).tile_at(pos), occupant: Some(id) },
            ),
            ok ==> final(self).cell_at(pos) == (Cell { tile: old(self).tile_at(pos), occupant: Some(id) }),
            !ok ==> final(self).spec_cells() == old(self).spec_cells(),
    {
        if pos.x < self.width && pos.y < self.height {
            let i = self.index_of(pos);
            if self.cells[i].is_walkable() {
                let tile = self.cells[i].tile;
                self.put(i, Cell { tile, occupant: Some(id) });
                proof {
                    assert forall|q: Position| self.in_bounds(q) && q != pos implies #[trigger] self.cell_at(
                        q,
                    ) == old(self).cell_at(q) by {
                        lemma_index(self.width, self.height, q);
                        if cell_index(self.width, q) == i as int {
                            lemma_index_injective(self.width, self.height, q, pos);
                        }
                    }
                }
                return true;
            }
        }
        false
    }

    /// Takes the agent off `pos` and returns it; `None` when nobody stood there
    /// or `pos` is outside the grid.
    pub fn remove_agent(&mut self, pos: Position) -> (r: Option<AgentId>)
        requires
            old(self).wf(),
        ensures
            r == (if old(self).in_bounds(pos) { old(self).occupant_at(pos) } else { None }),
            old(self).same_except(&*final(self), pos),
            old(self).in_bounds(pos) ==> final(self).spec_cells() == old(self).spec_cells().update(
                cell_index(old(self).width, pos),
                Cell { tile: old(self).tile_at(pos), occupant: None },
            ),
            old(self).in_bounds(pos) ==> final(self).cell_at(pos) == (Cell { tile: old(self).tile_at(pos), occupant: None }),
            !old(self).in_bounds(pos) ==> final(self).spec_cells() == old(self).spec_cells(),
    {
        if pos.x < self.width && pos.y < self.height {
            let i = self.index_of(pos);
            let tile = self.cells[i].tile;
            let occupant = self.cells[i].occupant;
            self.put(i, Cell { tile, occupant: None });
            proof {
                assert forall|q: Position| self.in_bounds(q) && q != pos implies #[trigger] self.cell_at(
                    q,
                ) == old(self).cell_at(q) by {
                    lemma_index(self.width, self.height, q);
                    if cell_index(self.width, q) == i as int {
                        lemma_index_injective(self.width, self.height, q, pos);
                    }
                }
            }
            occupant
        } else {
            None
        }
    }
    /// Moves the agent standing on `from` to `to`. Both positions must lie in
    /// the grid; staying put always succeeds; otherwise `from` must hold an
    /// agent and `to` must be walkable.
    pub fn move_agent(&mut self, from: Position, to: Position) -> (ok: bool)
        requires
            old(self).wf(),
        ensures
            ok == (old(self).in_bounds(from) && old(self).in_bounds(to) && (from == to || (old(
                self,
            ).occupant_at(from) is Some && old(self).walkable_at(to)))),
            final(self).width == old(self).width,
            final(self).height == old(self).height,
            final(self).wf(),
            ok && from != to ==> final(self).spec_cells() == old(self).spec_cells().update(
                cell_index(old(self).width, from),
                Cell { tile: old(self).tile_at(from), occupant: None },
            ).update(
                cell_index(old(self).width, to),
                Cell { tile: old(self).tile_at(to), occupant: old(self).occupant_at(from) },
            ),
            !ok || from == to ==> final(self).spec_cells() == old(self).spec_cells(),
    {
        if !(from.x < self.width && from.y < self.height && to.x < self.width && to.y
            < self.height) {
            return false;
        }
        if from == to {
            return true;
        }
        let fi = self.index_of(from);
        let ti = self.index_of(to);
        proof {
            if fi == ti {
                lemma_index_injective(self.width, self.height, from, to);
            }
        }
        match self.cells[fi].occupant {
            None => false,
            Some(id) => {
                if self.cells[ti].is_walkable() {
                    let from_tile = self.cells[fi].tile;
                    let to_tile = self.cells[ti].tile;
                    self.put(fi, Cell { tile: from_tile, occupant: None });
                    self.put(ti, Cell { tile: to_tile, occupant: Some(id) });
                    true
                } else {
                    false
                }
            },
        }
    }

    /// Moves the agent standing on `from` to `to` whatever the tile there:
    /// the step of a walker following its path. Both positions must lie in the
    /// grid; staying put always succeeds; otherwise `from` must hold an agent
    /// and nobody may stand on `to`.
    pub(crate) fn step_agent(&mut self, from: Position, to: Position) -> (ok: bool)
        requires
            old(self).wf(),
        ensures
            ok == (old(self).in_bounds(from) && old(self).in_bounds(to) && (from == to || (old(
                self,
            ).occupant_at(from) is Some && old(self).occupant_at(to) is None))),
            final(self).width == old(self).width,
            final(self).height == old(self).height,
            final(self).wf(),
            ok && from != to ==> final(self).spec_cells() == old(self).spec_cells().update(
                cell_index(old(self).width, from),
                Cell { tile: old(self).tile_at(from), occupant: None },
            ).update(
                cell_index(old(self).width, to),
                Cell { tile: old(self).tile_at(to), occupant: old(self).occupant_at(from) },
            ),
            !ok || from == to ==> final(self).spec_cells() == old(self).spec_cells(),
    {
        if !(from.x < self.width && from.y < self.height && to.x < self.width && to.y
            < self.height) {
            return false;
        }
        if from == to {
            return true;
        }
        let fi = self.index_of(from);
        let ti = self.index_of(to);
        proof {
            if fi == ti {
                lemma_index_injective(self.width, self.height, from, to);
            }
        }
        match self.cells[fi].occupant {
            None => false,
            Some(id) => {
                if self.cells[ti].occupant.is_none() {
                    let from_tile = self.cells[fi].tile;
                    let to_tile = self.cells[ti].tile;
                    self.put(fi, Cell { tile: from_tile, occupant: None });
                    self.put(ti, Cell { tile: to_tile, occupant: Some(id) });
                    true
                } else {
                    false
                }
            },
        }
    }

    /// All positions holding `tile`, row by row.
    pub fn find_tiles(&self, tile: &Tile) -> (r: Vec<Position>)
        requires
            self.wf(),
        ensures
            forall|p: Position| r@.contains(p) <==> self.in_bounds(p) && self.tile_at(p) == *tile,
            row_major_sorted(self.width, r@),
    {
        let n = self.cells.len();
        let mut r: Vec<Position> = Vec::new();
        let mut i: usize = 0;
        while i < n
            invariant
                n == self.spec_cells().len(),
                self.wf(),
                i <= n,
                row_major_sorted(self.width, r@),
                forall|k: int| 0 <= k < r@.len() ==> self.in_bounds(#[trigger] r@[k]) && self.tile_at(
                    r@[k],
                ) == *tile && cell_index(self.width, r@[k]) < i,
                forall|j: int| 0 <= j < i && (#[trigger] self.spec_cells()[j]).tile == *tile ==> r@.contains(
                    position_of_index(self.width, j),
                ),
            decreases n - i,
        {
            proof {
                lemma_index_inverse(self.width, self.height, i as int);
            }
            if self.cells[i].tile == *tile {
                let x: u16 = (i % (self.width as usize)) as u16;
                let y: u16 = (i / (self.width as usize)) as u16;
                let ghost before = r@;
                r.push(Position { x, y });
                proof {
                    assert forall|j: int| 0 <= j < i + 1 && (#[trigger] self.spec_cells()[j]).tile
                        == *tile implies r@.contains(position_of_index(self.width, j)) by {
                        if j < i {
                            let k = choose|k: int| 0 <= k < before.len() && before[k] == position_of_index(self.width, j);
                            assert(r@[k] == before[k]);
                        } else {
                            assert(r@[r@.len() - 1] == position_of_index(self.width, j));
                        }
                    }
                }
            }
            i = i + 1;
        }
        proof {
            assert forall|p: Position| self.in_bounds(p) && self.tile_at(p) == *tile implies r@.contains(p) by {
                lemma_index(self.width, self.height, p);
                assert(self.spec_cells()[cell_index(self.width, p)].tile == *tile);
            }
        }
        r
    }

    /// All positions that show a floor tile and hold nobody, row by row.
    pub fn empty_floors(&self) -> (r: Vec<Position>)
        requires
            self.wf(),
        ensures
            forall|p: Position| r@.contains(p) <==> self.empty_floor_at(p),
            row_major_sorted(self.width, r@),
    {
        let n = self.cells.len();
        let mut r: Vec<Position> = Vec::new();
        let mut i: usize = 0;
        while i < n
            invariant
                n == self.spec_cells().len(),
                self.wf(),
                i <= n,
                row_major_sorted(self.width, r@),
                forall|k: int| 0 <= k < r@.len() ==> self.empty_floor_at(#[trigger] r@[k]) && cell_index(
                    self.width,
                    r@[k],
                ) < i,
                forall|j: int| 0 <= j < i && empty_floor_cell(#[trigger] self.spec_cells()[j]) ==> r@.contains(
                    position_of_index(self.width, j),
                ),
            decreases n - i,
        {
            proof {
                lemma_index_inverse(self.width, self.height, i as int);
            }
            let is_floor = match self.cells[i].tile {
                Tile::Floor(_) => true,
                _ => false,
            };
            if is_floor && self.cells[i].occupant.is_none() {
                let x: u16 = (i % (self.width as usize)) as u16;
                let y: u16 = (i / (self.width as usize)) as u16;
                let ghost before = r@;
                r.push(Position { x, y });
                proof {
                    assert forall|j: int| 0 <= j < i + 1 && empty_floor_cell(
                        #[trigger] self.spec_cells()[j],
                    ) implies r@.contains(position_of_index(self.width, j)) by {
                        if j < i {
                            let k = choose|k: int| 0 <= k < before.len() && before[k] == position_of_index(self.width, j);
                            assert(r@[k] == before[k]);
                        } else {
                            assert(r@[r@.len() - 1] == position_of_index(self.width, j));
                        }
                    }
                }
            }
            i = i + 1;
        }
        proof {
            assert forall|p: Position| self.empty_floor_at(p) implies r@.contains(p) by {
                lemma_index(self.width, self.height, p);
                assert(empty_floor_cell(self.spec_cells()[cell_index(self.width, p)]));
            }
        }
        r
    }

    /// A randomly drawn empty floor position, or `None` when there is none.
    pub fn find_empty_floor(&self) -> (r: Option<Position>)
        requires
            self.wf(),
        ensures
            r is None <==> !(exists|p: Position| self.empty_floor_at(p)),
            r matches Some(p) ==> self.empty_floor_at(p),
    {
        let floors = self.empty_floors();
        if floors.len() == 0 {
            proof {
                assert forall|p: Position| !self.empty_floor_at(p) by {
                    if self.empty_floor_at(p) {
                        assert(floors@.contains(p));
                    }
                }
            }
            None
        } else {
            let k = random_below(floors.len());
            proof {
                assert(floors@.contains(floors@[k as int]));
                assert(self.empty_floor_at(floors@[k as int]));
            }
            Some(floors[k])
        }
    }

    /// The first walkable position of `cands` that `avoid` does not list.
    fn first_walkable_of(&self, cands: &Vec<Position>, avoid: &[Position]) -> (r: Option<Position>)
        requires
            self.wf(),
        ensures
            r == first_walkable(*self, cands@, avoid@),
    {
        let mut i: usize = 0;
        assert(cands@.skip(0) =~= cands@);
        while i < cands.len()
            invariant
                self.wf(),
                i <= cands@.len(),
                first_walkable(*self, cands@, avoid@) == first_walkable(
                    *self,
                    cands@.skip(i as int),
                    avoid@,
                ),
            decreases cands@.len() - i,
        {
            let q = cands[i];
            let mut avoided = false;
            let mut j: usize = 0;
            while j < avoid.len()
                invariant
                    j <= avoid@.len(),
                    avoided == (exists|k: int| 0 <= k < j && avoid@[k] == q),
                decreases avoid@.len() - j,
            {
                if avoid[j] == q {
                    avoided = true;
                }
                j = j + 1;
            }
            let walkable = match self.get(q) {
                Some(c) => c.is_walkable(),
                None => false,
            };
            assert(cands@.skip(i as int)[0] == q);
            assert(cands@.skip(i as int).drop_first() =~= cands@.skip(i + 1));
            if walkable && !avoided {
                return Some(q);
            }
            i = i + 1;
        }
        None
    }

    /// The neighbours of `pos` in search order (see `neighbor_order`).
    pub(crate) fn neighbors_in_order(pos: Position) -> (v: Vec<Position>)
        ensures
            v@ == neighbor_order(pos),
    {
        let mut v: Vec<Position> = Vec::new();
        if pos.x > 0 {
            v.push(Position { x: pos.x - 1, y: pos.y });
        }
        if pos.y < 65535 {
            v.push(Position { x: pos.x, y: pos.y + 1 });
        }
        if pos.x < 65535 {
            v.push(Position { x: pos.x + 1, y: pos.y });
        }
        if pos.y > 0 {
            v.push(Position { x: pos.x, y: pos.y - 1 });
        }
        assert(v@ =~= neighbor_order(pos));
        v
    }

    /// The first walkable neighbour of `pos`, trying left, below, right, above.
    pub fn find_adjacent_floor(&self, pos: Position) -> (r: Option<Position>)
        requires
            self.wf(),
        ensures
            r == first_walkable(*self, neighbor_order(pos), Seq::empty()),
    {
        let cands = Self::neighbors_in_order(pos);
        let none: Vec<Position> = Vec::new();
        self.first_walkable_of(&cands, none.as_slice())
    }

    /// Like `find_adjacent_floor`, but skipping the positions in `avoid`; when
    /// every walkable neighbour is avoided, the first walkable one is returned.
    pub fn find_adjacent_floor_avoiding(&self, pos: Position, avoid: &[Position]) -> (r: Option<Position>)
        requires
            self.wf(),
        ensures
            r == (match first_walkable(*self, neighbor_order(pos), avoid@) {
                Some(q) => Some(q),
                None => first_walkable(*self, neighbor_order(pos), Seq::empty()),
            }),
    {
        let cands = Self::neighbors_in_order(pos);
        match self.first_walkable_of(&cands, avoid) {
            Some(q) => Some(q),
            None => {
                let none: Vec<Position> = Vec::new();
                self.first_walkable_of(&cands, none.as_slice())
            },
        }
    }
}

} // verus!
