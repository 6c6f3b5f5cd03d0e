use vstd::prelude::*;

verus! {

/// A cell coordinate in the world grid; `x` grows to the right, `y` downwards.
#[derive(Debug, Clone, Copy, PartialEq, Eq, Structural, Hash)]
pub struct Position {
    pub x: u16,
    pub y: u16,
}

/// One of the four grid directions.
#[derive(Debug, Clone, Copy, PartialEq, Eq, Structural, Hash)]
pub enum Direction {
    Up,
    Down,
    Left,
    Right,
}

/// The position one step from `p` in direction `dir`, staying at `p` where the
/// step would leave the area `0..w` x `0..h`.
pub open spec fn moved_spec(p: Position, dir: Direction, w: u16, h: u16) -> Position {
    match dir {
        Direction::Up => if p.y > 0 { Position { x: p.x, y: (p.y - 1) as u16 } } else { p },
        Direction::Down => if p.y + 1 < h { Position { x: p.x, y: (p.y + 1) as u16 } } else { p },
        Direction::Left => if p.x > 0 { Position { x: (p.x - 1) as u16, y: p.y } } else { p },
        Direction::Right => if p.x + 1 < w { Position { x: (p.x + 1) as u16, y: p.y } } else { p },
    }
}

/// The direction that undoes a step in `dir`.
pub open spec fn opposite(dir: Direction) -> Direction {
    match dir {
        Direction::Up => Direction::Down,
        Direction::Down => Direction::Up,
        Direction::Left => Direction::Right,
        Direction::Right => Direction::Left,
    }
}

/// Two positions are neighbours when they differ by one step along one axis.
pub open spec fn adjacent(a: Position, b: Position) -> bool {
    ||| (a.x == b.x && (a.y + 1 == b.y || b.y + 1 == a.y))
    ||| (a.y == b.y && (a.x + 1 == b.x || b.x + 1 == a.x))
}

impl Position {
    pub fn new(x: u16, y: u16) -> (p: Position)
        ensures
            p.x == x,
            p.y == y,
    {
        Position { x, y }
    }

    /// One step in `dir`, clamped to the area given by `bounds` (width, height).
    pub fn moved(&self, dir: Direction, bounds: (u16, u16)) -> (p: Position)
        ensures
            p == moved_spec(*self, dir, bounds.0, bounds.1),
    {
        let (w, h) = bounds;
        match dir {
            Direction::Up => if self.y > 0 {
                Position { x: self.x, y: self.y - 1 }
            } else {
                *self
            },
            Direction::Down => if (self.y as u32) + 1 < (h as u32) {
                Position { x: self.x, y: self.y + 1 }
            } else {
                *self
            },
            Direction::Left => if self.x > 0 {
                Position { x: self.x - 1, y: self.y }
            } else {
                *self
            },
            Direction::Right => if (self.x as u32) + 1 < (w as u32) {
                Position { x: self.x + 1, y: self.y }
            } else {
                *self
            },
        }
    }
}

/// A draw of a number below `n` from the thread-local generator of `rand`.
/// `rand::random_range` documents that the value lies in the range it is given.
#[verifier::external_body]
pub(crate) fn random_below(n: usize) -> (r: usize)
    requires
        n > 0,
    ensures
        r < n,
{
    rand::random_range(0..n)
}

impl Direction {
    /// The direction with the given number: 0 up, 1 down, 2 left, anything else right.
    pub fn from_index(i: usize) -> (d: Direction)
        ensures
            i == 0 ==> d == Direction::Up,
            i == 1 ==> d == Direction::Down,
            i == 2 ==> d == Direction::Left,
            i >= 3 ==> d == Direction::Right,
    {
        if i == 0 {
            Direction::Up
        } else if i == 1 {
            Direction::Down
        } else if i == 2 {
            Direction::Left
        } else {
            Direction::Right
        }
    }

    /// A uniformly drawn direction.
    pub fn random() -> (d: Direction) {
        Direction::from_index(random_below(4))
    }
}

/// A step that moved the position is undone by a step in the opposite
/// direction.
pub proof fn lemma_moved_opposite_undoes(p: Position, dir: Direction, w: u16, h: u16)
    requires
        p.x < w,
        p.y < h,
        moved_spec(p, dir, w, h) != p,
    ensures
        moved_spec(moved_spec(p, dir, w, h), opposite(dir), w, h) == p,
{
}

/// A step never leaves the area when it starts inside it, and it always ends
/// on the start or on a neighbour of it.
pub proof fn lemma_moved_stays_inside(p: Position, dir: Direction, w: u16, h: u16)
    requires
        p.x < w,
        p.y < h,
    ensures
        moved_spec(p, dir, w, h).x < w,
        moved_spec(p, dir, w, h).y < h,
        moved_spec(p, dir, w, h) == p || adjacent(p, moved_spec(p, dir, w, h)),
{
}

} // verus!
