//! Terminal sprites: frames of styled character cells.

use vstd::prelude::*;
use crate::avatar::palette::Color;

verus! {

/// Width of a world tile in terminal cells.
pub const TILE_W: u16 = 4;

/// Height of a world tile in terminal cells.
pub const TILE_H: u16 = 3;

/// One terminal cell: a character, its colour and an optional background.
#[derive(Debug, Clone, Copy, PartialEq, Eq, Structural)]
pub struct StyledCell {
    pub ch: char,
    pub fg: Color,
    pub bg: Option<Color>,
}

/// The blank cell.
pub open spec fn blank() -> StyledCell {
    StyledCell { ch: ' ', fg: Color::Reset, bg: None }
}

impl StyledCell {
    pub fn new(ch: char, fg: Color, bg: Option<Color>) -> (c: StyledCell)
        ensures
            c == (StyledCell { ch, fg, bg }),
    {
        StyledCell { ch, fg, bg }
    }

    /// A cell without background.
    pub fn transparent(ch: char, fg: Color) -> (c: StyledCell)
        ensures
            c == (StyledCell { ch, fg, bg: None }),
    {
        StyledCell { ch, fg, bg: None }
    }

    /// The blank cell.
    pub fn empty() -> (c: StyledCell)
        ensures
            c == blank(),
    {
        StyledCell { ch: ' ', fg: Color::Reset, bg: None }
    }
}

/// A 4 x 3 frame, row by row (tiles and furniture).
pub type SpriteFrame = [[StyledCell; 4]; 3];

/// An 8 x 6 frame, row by row (agents, which span 2 x 2 tiles).
pub type BigSpriteFrame = [[StyledCell; 8]; 6];

/// The cell at row `r`, column `c` of a frame.
pub open spec fn cell(f: SpriteFrame, r: int, c: int) -> StyledCell {
    f@[r]@[c]
}

/// The cell at row `r`, column `c` of a big frame.
pub open spec fn big_cell(f: BigSpriteFrame, r: int, c: int) -> StyledCell {
    f@[r]@[c]
}

/// Every cell of `f` is `x`.
pub open spec fn filled(f: SpriteFrame, x: StyledCell) -> bool {
    forall|r: int, c: int| 0 <= r < 3 && 0 <= c < 4 ==> #[trigger] cell(f, r, c) == x
}

/// The frame whose cells are all `x`.
pub fn fill(x: StyledCell) -> (f: SpriteFrame)
    ensures
        filled(f, x),
{
    let f = [[x, x, x, x], [x, x, x, x], [x, x, x, x]];
    assert(filled(f, x));
    f
}

pub fn empty_frame() -> (f: SpriteFrame)
    ensures
        filled(f, blank()),
{
    fill(StyledCell::empty())
}

pub fn empty_big_frame() -> (f: BigSpriteFrame)
    ensures
        forall|r: int, c: int| 0 <= r < 6 && 0 <= c < 8 ==> #[trigger] big_cell(f, r, c) == blank(),
{
    let x = StyledCell::empty();
    let row = [x, x, x, x, x, x, x, x];
    let f = [row, row, row, row, row, row];
    assert forall|r: int, c: int| 0 <= r < 6 && 0 <= c < 8 implies #[trigger] big_cell(f, r, c) == blank() by {
        assert(f@[r] == row);
    }
    f
}

} // verus!
