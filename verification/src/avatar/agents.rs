//! Sprites of agents: an 8 x 6 figure per state, in the agent's colours.

use vstd::prelude::*;
use crate::agent::types::{AgentState, Facing};
use crate::avatar::palette::{
    hair_color, hair_color_spec, shirt_color, shirt_color_spec, skin_color, skin_color_spec, Color,
};
use crate::avatar::sprite::{big_cell, blank, BigSpriteFrame, StyledCell};

verus! {

/// The shadow behind every drawn cell of an agent.
pub open spec fn shadow_spec() -> Color {
    Color::Rgb(40, 40, 50)
}

/// A cell drawn in `ch` and `fg` over the shadow.
pub open spec fn shaded(ch: char, fg: Color) -> StyledCell {
    StyledCell { ch, fg, bg: Some(shadow_spec()) }
}

/// A cell of an agent sprite: blank, or drawn over the shadow.
pub open spec fn drawn_cell(x: StyledCell) -> bool {
    x == blank() || x.bg == Some(shadow_spec())
}

/// Every cell of a row is blank or drawn over the shadow.
pub open spec fn row_drawn(row: [StyledCell; 8]) -> bool {
    drawn_cell(row@[0]) && drawn_cell(row@[1]) && drawn_cell(row@[2]) && drawn_cell(row@[3]) && drawn_cell(row@[4]) && drawn_cell(row@[5]) && drawn_cell(row@[6]) && drawn_cell(row@[7])
}

/// Every cell of a frame is blank or drawn over the shadow, row by row.
pub open spec fn drawn(f: BigSpriteFrame) -> bool {
    row_drawn(f@[0]) && row_drawn(f@[1]) && row_drawn(f@[2]) && row_drawn(f@[3]) && row_drawn(f@[4]) && row_drawn(f@[5])
}

/// `m` is `f` mirrored left to right.
pub open spec fn mirrored(f: BigSpriteFrame, m: BigSpriteFrame) -> bool {
    forall|r: int, c: int| 0 <= r < 6 && 0 <= c < 8 ==> #[trigger] big_cell(m, r, c) == big_cell(f, r, 7 - c)
}

/// A drawn frame has every cell blank or over the shadow.
pub proof fn lemma_drawn_cells(f: BigSpriteFrame)
    requires
        drawn(f),
    ensures
        forall|r: int, c: int| 0 <= r < 6 && 0 <= c < 8 ==> drawn_cell(#[trigger] big_cell(f, r, c)),
{
    assert forall|r: int, c: int| 0 <= r < 6 && 0 <= c < 8 implies drawn_cell(#[trigger] big_cell(f, r, c)) by {
        assert(row_drawn(f@[r]));
    }
}

/// The sprite of an agent in state `state`, facing `facing`, at animation
/// frame `frame`, in the colours of `color_idx`. Idle and offline agents
/// stand, walkers alternate two steps, and every cell is blank or drawn
/// over the shadow; a left-facing agent is drawn mirrored.
pub fn agent_sprite(state: &AgentState, facing: &Facing, frame: u8, color_idx: u8) -> (f: BigSpriteFrame)
    ensures
        *facing == Facing::Right ==> f == pose_frame(*state, frame, color_idx),
        *facing == Facing::Left ==> mirrored(pose_frame(*state, frame, color_idx), f),
        forall|r: int, c: int| 0 <= r < 6 && 0 <= c < 8 ==> drawn_cell(#[trigger] big_cell(f, r, c)),
{
    let base = agent_pose(state, frame, color_idx);
    proof {
        lemma_drawn_cells(base);
    }
    if *facing == Facing::Left {
        mirror(&base)
    } else {
        base
    }
}

/// The right-facing sprite of an agent in state `state` at animation frame
/// `frame`, in the colours of `color_idx`, over trousers of one colour for all.
pub open spec fn pose_frame(state: AgentState, frame: u8, color_idx: u8) -> BigSpriteFrame {
    let skin = skin_color_spec(color_idx);
    let shirt = shirt_color_spec(color_idx);
    let hair = hair_color_spec(color_idx);
    let pants = Color::Rgb(50, 50, 80);
    match state {
        AgentState::Idle | AgentState::Offline => idle_frame(skin, hair, shirt, pants),
        AgentState::Walking => walk_frame(skin, hair, shirt, pants, frame),
        AgentState::Working => working_frame(skin, hair, shirt, pants),
        AgentState::Thinking => thinking_frame(skin, hair, shirt, pants),
        AgentState::Eating => eating_frame(skin, hair, shirt, pants),
        AgentState::Playing | AgentState::Exercising => active_frame(skin, hair, shirt, pants),
        AgentState::Messaging => messaging_frame(skin, hair, shirt, pants),
        AgentState::Error => error_frame(skin, hair),
    }
}

/// The right-facing sprite of an agent in state `state` at animation frame
/// `frame`, in the colours of `color_idx`.
pub fn agent_pose(state: &AgentState, frame: u8, color_idx: u8) -> (f: BigSpriteFrame)
    ensures
        f == pose_frame(*state, frame, color_idx),
        drawn(f),
{
    let skin = skin_color(color_idx);
    let shirt = shirt_color(color_idx);
    let hair = hair_color(color_idx);
    let pants = Color::Rgb(50, 50, 80);
    match state {
        AgentState::Idle | AgentState::Offline => idle_sprite(skin, hair, shirt, pants),
        AgentState::Walking => walk_sprite(skin, hair, shirt, pants, frame),
        AgentState::Working => working_sprite(skin, hair, shirt, pants),
        AgentState::Thinking => thinking_sprite(skin, hair, shirt, pants),
        AgentState::Eating => eating_sprite(skin, hair, shirt, pants),
        AgentState::Playing | AgentState::Exercising => active_sprite(skin, hair, shirt, pants),
        AgentState::Messaging => messaging_sprite(skin, hair, shirt, pants),
        AgentState::Error => error_sprite(skin, hair),
    }
}

/// `row` reversed.
fn reversed(row: [StyledCell; 8]) -> (r: [StyledCell; 8])
    ensures
        forall|c: int| 0 <= c < 8 ==> #[trigger] r@[c] == row@[7 - c],
{
    let r = [row[7], row[6], row[5], row[4], row[3], row[2], row[1], row[0]];
    assert forall|c: int| 0 <= c < 8 implies #[trigger] r@[c] == row@[7 - c] by {
        if c == 0 {
            assert(r@[0] == row@[7]);
        } else if c == 1 {
            assert(r@[1] == row@[6]);
        } else if c == 2 {
            assert(r@[2] == row@[5]);
        } else if c == 3 {
            assert(r@[3] == row@[4]);
        } else if c == 4 {
            assert(r@[4] == row@[3]);
        } else if c == 5 {
            assert(r@[5] == row@[2]);
        } else if c == 6 {
            assert(r@[6] == row@[1]);
        } else {
            assert(r@[7] == row@[0]);
        }
    }
    r
}

/// `f` mirrored left to right.
pub fn mirror(f: &BigSpriteFrame) -> (m: BigSpriteFrame)
    ensures
        mirrored(*f, m),
{
    let m = [reversed(f[0]), reversed(f[1]), reversed(f[2]), reversed(f[3]), reversed(f[4]), reversed(f[5])];
    assert forall|r: int, c: int| 0 <= r < 6 && 0 <= c < 8 implies #[trigger] big_cell(m, r, c) == big_cell(*f, r, 7 - c) by {
        if r == 0 {
            assert(m@[0]@[c] == f@[0]@[7 - c]);
        } else if r == 1 {
            assert(m@[1]@[c] == f@[1]@[7 - c]);
        } else if r == 2 {
            assert(m@[2]@[c] == f@[2]@[7 - c]);
        } else if r == 3 {
            assert(m@[3]@[c] == f@[3]@[7 - c]);
        } else if r == 4 {
            assert(m@[4]@[c] == f@[4]@[7 - c]);
        } else {
            assert(m@[5]@[c] == f@[5]@[7 - c]);
        }
    }
    m
}

fn shadow() -> (c: Color)
    ensures
        c == shadow_spec(),
{
    Color::Rgb(40, 40, 50)
}

fn b(ch: char, fg: Color) -> (x: StyledCell)
    ensures
        x == shaded(ch, fg),
{
    StyledCell::new(ch, fg, Some(shadow()))
}

fn e() -> (x: StyledCell)
    ensures
        x == blank(),
{
    StyledCell::empty()
}

/// The right-facing agent standing still.
pub open spec fn idle_frame(skin: Color, hair: Color, shirt: Color, pants: Color) -> BigSpriteFrame {
    let f = [
        [
            blank(),
            blank(),
            shaded('▄', hair),
            shaded('▄', hair),
            shaded('▄', hair),
            shaded('▄', hair),
            blank(),
            blank(),
        ],
        [
            blank(),
            blank(),
            shaded('█', hair),
            shaded('█', skin),
            shaded('█', skin),
            shaded('█', hair),
            blank(),
            blank(),
        ],
        [
            blank(),
            shaded('▄', shirt),
            shaded('█', shirt),
            shaded('█', shirt),
            shaded('█', shirt),
            shaded('█', shirt),
            shaded('▄', shirt),
            blank(),
        ],
        [
            blank(),
            blank(),
            shaded('█', shirt),
            shaded('█', shirt),
            shaded('█', shirt),
            shaded('█', shirt),
            blank(),
            blank(),
        ],
        [
            blank(),
            blank(),
            shaded('█', pants),
            shaded('█', pants),
            shaded('█', pants),
            shaded('█', pants),
            blank(),
            blank(),
        ],
        [
            blank(),
            blank(),
            shaded('▀', pants),
            shaded('▀', pants),
            shaded('▀', pants),
            shaded('▀', pants),
            blank(),
            blank(),
        ],
    ];
    f
}

fn idle_sprite(skin: Color, hair: Color, shirt: Color, pants: Color) -> (f: BigSpriteFrame)
    ensures
        f == idle_frame(skin, hair, shirt, pants),
        drawn(f),
{
    let f = [
        [
            e(),
            e(),
            b('▄', hair),
            b('▄', hair),
            b('▄', hair),
            b('▄', hair),
            e(),
            e(),
        ],
        [
            e(),
            e(),
            b('█', hair),
            b('█', skin),
            b('█', skin),
            b('█', hair),
            e(),
            e(),
        ],
        [
            e(),
            b('▄', shirt),
            b('█', shirt),
            b('█', shirt),
            b('█', shirt),
            b('█', shirt),
            b('▄', shirt),
            e(),
        ],
        [
            e(),
            e(),
            b('█', shirt),
            b('█', shirt),
            b('█', shirt),
            b('█', shirt),
            e(),
            e(),
        ],
        [
            e(),
            e(),
            b('█', pants),
            b('█', pants),
            b('█', pants),
            b('█', pants),
            e(),
            e(),
        ],
        [
            e(),
            e(),
            b('▀', pants),
            b('▀', pants),
            b('▀', pants),
            b('▀', pants),
            e(),
            e(),
        ],
    ];
    assert(drawn(f));
    f
}

/// The right-facing agent a step of walking; even frames and odd frames alternate.
pub open spec fn walk_frame(skin: Color, hair: Color, shirt: Color, pants: Color, frame: u8) -> BigSpriteFrame {
    if frame % 2 == 0 {
        let f = [
            [
                blank(),
                blank(),
                shaded('▄', hair),
                shaded('▄', hair),
                shaded('▄', hair),
                shaded('▄', hair),
                blank(),
                blank(),
            ],
            [
                blank(),
                blank(),
                shaded('█', hair),
                shaded('█', skin),
                shaded('█', skin),
                shaded('█', hair),
                blank(),
                blank(),
            ],
            [
                blank(),
                shaded('▄', shirt),
                shaded('█', shirt),
                shaded('█', shirt),
                shaded('█', shirt),
                shaded('▌', shirt),
                blank(),
                blank(),
            ],
            [
                blank(),
                blank(),
                shaded('█', shirt),
                shaded('█', shirt),
                shaded('█', shirt),
                shaded('█', shirt),
                blank(),
                blank(),
            ],
            [
                blank(),
                blank(),
                shaded('▗', pants),
                shaded('█', pants),
                shaded('█', pants),
                shaded('▖', pants),
                blank(),
                blank(),
            ],
            [blank(), blank(), blank(), shaded('▀', pants), shaded('▀', pants), blank(), blank(), blank()],
        ];
        f
    } else {
        let f = [
            [
                blank(),
                blank(),
                shaded('▄', hair),
                shaded('▄', hair),
                shaded('▄', hair),
                shaded('▄', hair),
                blank(),
                blank(),
            ],
            [
                blank(),
                blank(),
                shaded('█', hair),
                shaded('█', skin),
                shaded('█', skin),
                shaded('█', hair),
                blank(),
                blank(),
            ],
            [
                blank(),
                blank(),
                shaded('▐', shirt),
                shaded('█', shirt),
                shaded('█', shirt),
                shaded('█', shirt),
                shaded('▄', shirt),
                blank(),
            ],
            [
                blank(),
                blank(),
                shaded('█', shirt),
                shaded('█', shirt),
                shaded('█', shirt),
                shaded('█', shirt),
                blank(),
                blank(),
            ],
            [
                blank(),
                blank(),
                shaded('▖', pants),
                shaded('█', pants),
                shaded('█', pants),
                shaded('▗', pants),
                blank(),
                blank(),
            ],
            [blank(), blank(), shaded('▀', pants), blank(), blank(), shaded('▀', pants), blank(), blank()],
        ];
        f
    }
}

fn walk_sprite(skin: Color, hair: Color, shirt: Color, pants: Color, frame: u8) -> (f: BigSpriteFrame)
    ensures
        f == walk_frame(skin, hair, shirt, pants, frame),
        drawn(f),
{
    if frame % 2 == 0 {
        let f = [
            [
                e(),
                e(),
                b('▄', hair),
                b('▄', hair),
                b('▄', hair),
                b('▄', hair),
                e(),
                e(),
            ],
            [
                e(),
                e(),
                b('█', hair),
                b('█', skin),
                b('█', skin),
                b('█', hair),
                e(),
                e(),
            ],
            [
                e(),
                b('▄', shirt),
                b('█', shirt),
                b('█', shirt),
                b('█', shirt),
                b('▌', shirt),
                e(),
                e(),
            ],
            [
                e(),
                e(),
                b('█', shirt),
                b('█', shirt),
                b('█', shirt),
                b('█', shirt),
                e(),
                e(),
            ],
            [
                e(),
                e(),
                b('▗', pants),
                b('█', pants),
                b('█', pants),
                b('▖', pants),
                e(),
                e(),
            ],
            [e(), e(), e(), b('▀', pants), b('▀', pants), e(), e(), e()],
        ];
        assert(drawn(f));
        f
    } else {
        let f = [
            [
                e(),
                e(),
                b('▄', hair),
                b('▄', hair),
                b('▄', hair),
                b('▄', hair),
                e(),
                e(),
            ],
            [
                e(),
                e(),
                b('█', hair),
                b('█', skin),
                b('█', skin),
                b('█', hair),
                e(),
                e(),
            ],
            [
                e(),
                e(),
                b('▐', shirt),
                b('█', shirt),
                b('█', shirt),
                b('█', shirt),
                b('▄', shirt),
                e(),
            ],
            [
                e(),
                e(),
                b('█', shirt),
                b('█', shirt),
                b('█', shirt),
                b('█', shirt),
                e(),
                e(),
            ],
            [
                e(),
                e(),
                b('▖', pants),
                b('█', pants),
                b('█', pants),
                b('▗', pants),
                e(),
                e(),
            ],
            [e(), e(), b('▀', pants), e(), e(), b('▀', pants), e(), e()],
        ];
        assert(drawn(f));
        f
    }
}

/// The right-facing agent at work.
pub open spec fn working_frame(skin: Color, hair: Color, shirt: Color, pants: Color) -> BigSpriteFrame {
    let f = [
        [
            blank(),
            blank(),
            shaded('▄', hair),
            shaded('▄', hair),
            shaded('▄', hair),
            shaded('▄', hair),
            blank(),
            blank(),
        ],
        [
            blank(),
            blank(),
            shaded('█', hair),
            shaded('█', skin),
            shaded('█', skin),
            shaded('█', hair),
            blank(),
            blank(),
        ],
        [
            shaded('▖', shirt),
            shaded('▄', shirt),
            shaded('█', shirt),
            shaded('█', shirt),
            shaded('█', shirt),
            shaded('█', shirt),
            shaded('▄', shirt),
            shaded('▗', shirt),
        ],
        [
            blank(),
            blank(),
            shaded('█', shirt),
            shaded('█', shirt),
            shaded('█', shirt),
            shaded('█', shirt),
            blank(),
            blank(),
        ],
        [
            blank(),
            blank(),
            shaded('█', pants),
            shaded('▀', pants),
            shaded('▀', pants),
            shaded('█', pants),
            blank(),
            blank(),
        ],
        [blank(), blank(), shaded('▀', pants), blank(), blank(), shaded('▀', pants), blank(), blank()],
    ];
    f
}

fn working_sprite(skin: Color, hair: Color, shirt: Color, pants: Color) -> (f: BigSpriteFrame)
    ensures
        f == working_frame(skin, hair, shirt, pants),
        drawn(f),
{
    let f = [
        [
            e(),
            e(),
            b('▄', hair),
            b('▄', hair),
            b('▄', hair),
            b('▄', hair),
            e(),
            e(),
        ],
        [
            e(),
            e(),
            b('█', hair),
            b('█', skin),
            b('█', skin),
            b('█', hair),
            e(),
            e(),
        ],
        [
            b('▖', shirt),
            b('▄', shirt),
            b('█', shirt),
            b('█', shirt),
            b('█', shirt),
            b('█', shirt),
            b('▄', shirt),
            b('▗', shirt),
        ],
        [
            e(),
            e(),
            b('█', shirt),
            b('█', shirt),
            b('█', shirt),
            b('█', shirt),
            e(),
            e(),
        ],
        [
            e(),
            e(),
            b('█', pants),
            b('▀', pants),
            b('▀', pants),
            b('█', pants),
            e(),
            e(),
        ],
        [e(), e(), b('▀', pants), e(), e(), b('▀', pants), e(), e()],
    ];
    assert(drawn(f));
    f
}

/// The right-facing agent thinking.
pub open spec fn thinking_frame(skin: Color, hair: Color, shirt: Color, pants: Color) -> BigSpriteFrame {
    let y = Color::Yellow;
    let f = [
        [
            blank(),
            shaded('?', y),
            shaded('▄', hair),
            shaded('▄', hair),
            shaded('▄', hair),
            shaded('▄', hair),
            blank(),
            blank(),
        ],
        [
            blank(),
            blank(),
            shaded('█', hair),
            shaded('█', skin),
            shaded('█', skin),
            shaded('█', hair),
            blank(),
            blank(),
        ],
        [
            blank(),
            shaded('▄', shirt),
            shaded('█', shirt),
            shaded('█', shirt),
            shaded('█', shirt),
            shaded('█', shirt),
            shaded('▄', shirt),
            blank(),
        ],
        [
            blank(),
            blank(),
            shaded('█', shirt),
            shaded('█', shirt),
            shaded('█', shirt),
            shaded('█', shirt),
            blank(),
            shaded('▌', skin),
        ],
        [
            blank(),
            blank(),
            shaded('█', pants),
            shaded('█', pants),
            shaded('█', pants),
            shaded('█', pants),
            blank(),
            blank(),
        ],
        [
            blank(),
            blank(),
            shaded('▀', pants),
            shaded('▀', pants),
            shaded('▀', pants),
            shaded('▀', pants),
            blank(),
            blank(),
        ],
    ];
    f
}

fn thinking_sprite(skin: Color, hair: Color, shirt: Color, pants: Color) -> (f: BigSpriteFrame)
    ensures
        f == thinking_frame(skin, hair, shirt, pants),
        drawn(f),
{
    let y = Color::Yellow;
    let f = [
        [
            e(),
            b('?', y),
            b('▄', hair),
            b('▄', hair),
            b('▄', hair),
            b('▄', hair),
            e(),
            e(),
        ],
        [
            e(),
            e(),
            b('█', hair),
            b('█', skin),
            b('█', skin),
            b('█', hair),
            e(),
            e(),
        ],
        [
            e(),
            b('▄', shirt),
            b('█', shirt),
            b('█', shirt),
            b('█', shirt),
            b('█', shirt),
            b('▄', shirt),
            e(),
        ],
        [
            e(),
            e(),
            b('█', shirt),
            b('█', shirt),
            b('█', shirt),
            b('█', shirt),
            e(),
            b('▌', skin),
        ],
        [
            e(),
            e(),
            b('█', pants),
            b('█', pants),
            b('█', pants),
            b('█', pants),
            e(),
            e(),
        ],
        [
            e(),
            e(),
            b('▀', pants),
            b('▀', pants),
            b('▀', pants),
            b('▀', pants),
            e(),
            e(),
        ],
    ];
    assert(drawn(f));
    f
}

/// The right-facing agent eating.
pub open spec fn eating_frame(skin: Color, hair: Color, shirt: Color, pants: Color) -> BigSpriteFrame {
    let food = Color::Rgb(255, 165, 0);
    let f = [
        [
            blank(),
            blank(),
            shaded('▄', hair),
            shaded('▄', hair),
            shaded('▄', hair),
            shaded('▄', hair),
            blank(),
            blank(),
        ],
        [
            blank(),
            blank(),
            shaded('█', hair),
            shaded('█', skin),
            shaded('█', skin),
            shaded('█', hair),
            blank(),
            blank(),
        ],
        [
            blank(),
            shaded('▄', shirt),
            shaded('█', shirt),
            shaded('█', shirt),
            shaded('█', shirt),
            shaded('█', shirt),
            shaded('▄', shirt),
            blank(),
        ],
        [
            blank(),
            blank(),
            shaded('█', shirt),
            shaded('█', shirt),
            shaded('█', shirt),
            shaded('█', shirt),
            shaded('◘', food),
            blank(),
        ],
        [
            blank(),
            blank(),
            shaded('█', pants),
            shaded('█', pants),
            shaded('█', pants),
            shaded('█', pants),
            blank(),
            blank(),
        ],
        [
            blank(),
            blank(),
            shaded('▀', pants),
            shaded('▀', pants),
            shaded('▀', pants),
            shaded('▀', pants),
            blank(),
            blank(),
        ],
    ];
    f
}

fn eating_sprite(skin: Color, hair: Color, shirt: Color, pants: Color) -> (f: BigSpriteFrame)
    ensures
        f == eating_frame(skin, hair, shirt, pants),
        drawn(f),
{
    let food = Color::Rgb(255, 165, 0);
    let f = [
        [
            e(),
            e(),
            b('▄', hair),
            b('▄', hair),
            b('▄', hair),
            b('▄', hair),
            e(),
            e(),
        ],
        [
            e(),
            e(),
            b('█', hair),
            b('█', skin),
            b('█', skin),
            b('█', hair),
            e(),
            e(),
        ],
        [
            e(),
            b('▄', shirt),
            b('█', shirt),
            b('█', shirt),
            b('█', shirt),
            b('█', shirt),
            b('▄', shirt),
            e(),
        ],
        [
            e(),
            e(),
            b('█', shirt),
            b('█', shirt),
            b('█', shirt),
            b('█', shirt),
            b('◘', food),
            e(),
        ],
        [
            e(),
            e(),
            b('█', pants),
            b('█', pants),
            b('█', pants),
            b('█', pants),
            e(),
            e(),
        ],
        [
            e(),
            e(),
            b('▀', pants),
            b('▀', pants),
            b('▀', pants),
            b('▀', pants),
            e(),
            e(),
        ],
    ];
    assert(drawn(f));
    f
}

/// The right-facing agent playing or exercising.
pub open spec fn active_frame(skin: Color, hair: Color, shirt: Color, pants: Color) -> BigSpriteFrame {
    let f = [
        [
            blank(),
            blank(),
            shaded('▄', hair),
            shaded('▄', hair),
            shaded('▄', hair),
            shaded('▄', hair),
            blank(),
            blank(),
        ],
        [
            blank(),
            blank(),
            shaded('█', hair),
            shaded('█', skin),
            shaded('█', skin),
            shaded('█', hair),
            blank(),
            blank(),
        ],
        [
            shaded('╱', shirt),
            shaded('▄', shirt),
            shaded('█', shirt),
            shaded('█', shirt),
            shaded('█', shirt),
            shaded('█', shirt),
            shaded('▄', shirt),
            shaded('╲', shirt),
        ],
        [
            blank(),
            blank(),
            shaded('█', shirt),
            shaded('█', shirt),
            shaded('█', shirt),
            shaded('█', shirt),
            blank(),
            blank(),
        ],
        [
            blank(),
            shaded('╱', pants),
            shaded('█', pants),
            blank(),
            blank(),
            shaded('█', pants),
            shaded('╲', pants),
            blank(),
        ],
        [blank(), shaded('▀', pants), blank(), blank(), blank(), blank(), shaded('▀', pants), blank()],
    ];
    f
}

fn active_sprite(skin: Color, hair: Color, shirt: Color, pants: Color) -> (f: BigSpriteFrame)
    ensures
        f == active_frame(skin, hair, shirt, pants),
        drawn(f),
{
    let f = [
        [
            e(),
            e(),
            b('▄', hair),
            b('▄', hair),
            b('▄', hair),
            b('▄', hair),
            e(),
            e(),
        ],
        [
            e(),
            e(),
            b('█', hair),
            b('█', skin),
            b('█', skin),
            b('█', hair),
            e(),
            e(),
        ],
        [
            b('╱', shirt),
            b('▄', shirt),
            b('█', shirt),
            b('█', shirt),
            b('█', shirt),
            b('█', shirt),
            b('▄', shirt),
            b('╲', shirt),
        ],
        [
            e(),
            e(),
            b('█', shirt),
            b('█', shirt),
            b('█', shirt),
            b('█', shirt),
            e(),
            e(),
        ],
        [
            e(),
            b('╱', pants),
            b('█', pants),
            e(),
            e(),
            b('█', pants),
            b('╲', pants),
            e(),
        ],
        [e(), b('▀', pants), e(), e(), e(), e(), b('▀', pants), e()],
    ];
    assert(drawn(f));
    f
}

/// The right-facing agent sending a message.
pub open spec fn messaging_frame(skin: Color, hair: Color, shirt: Color, pants: Color) -> BigSpriteFrame {
    let cyan = Color::Cyan;
    let f = [
        [
            blank(),
            blank(),
            shaded('▄', hair),
            shaded('▄', hair),
            shaded('▄', hair),
            shaded('▄', hair),
            shaded('◆', cyan),
            blank(),
        ],
        [
            blank(),
            blank(),
            shaded('█', hair),
            shaded('█', skin),
            shaded('█', skin),
            shaded('█', hair),
            blank(),
            blank(),
        ],
        [
            blank(),
            shaded('▄', shirt),
            shaded('█', shirt),
            shaded('█', shirt),
            shaded('█', shirt),
            shaded('█', shirt),
            shaded('▄', shirt),
            blank(),
        ],
        [
            blank(),
            blank(),
            shaded('█', shirt),
            shaded('█', shirt),
            shaded('█', shirt),
            shaded('█', shirt),
            blank(),
            blank(),
        ],
        [
            blank(),
            blank(),
            shaded('█', pants),
            shaded('█', pants),
            shaded('█', pants),
            shaded('█', pants),
            blank(),
            blank(),
        ],
        [
            blank(),
            blank(),
            shaded('▀', pants),
            shaded('▀', pants),
            shaded('▀', pants),
            shaded('▀', pants),
            blank(),
            blank(),
        ],
    ];
    f
}

fn messaging_sprite(skin: Color, hair: Color, shirt: Color, pants: Color) -> (f: BigSpriteFrame)
    ensures
        f == messaging_frame(skin, hair, shirt, pants),
        drawn(f),
{
    let cyan = Color::Cyan;
    let f = [
        [
            e(),
            e(),
            b('▄', hair),
            b('▄', hair),
            b('▄', hair),
            b('▄', hair),
            b('◆', cyan),
            e(),
        ],
        [
            e(),
            e(),
            b('█', hair),
            b('█', skin),
            b('█', skin),
            b('█', hair),
            e(),
            e(),
        ],
        [
            e(),
            b('▄', shirt),
            b('█', shirt),
            b('█', shirt),
            b('█', shirt),
            b('█', shirt),
            b('▄', shirt),
            e(),
        ],
        [
            e(),
            e(),
            b('█', shirt),
            b('█', shirt),
            b('█', shirt),
            b('█', shirt),
            e(),
            e(),
        ],
        [
            e(),
            e(),
            b('█', pants),
            b('█', pants),
            b('█', pants),
            b('█', pants),
            e(),
            e(),
        ],
        [
            e(),
            e(),
            b('▀', pants),
            b('▀', pants),
            b('▀', pants),
            b('▀', pants),
            e(),
            e(),
        ],
    ];
    assert(drawn(f));
    f
}

/// The right-facing agent in error.
pub open spec fn error_frame(skin: Color, hair: Color) -> BigSpriteFrame {
    let red = Color::Red;
    let f = [
        [
            shaded('!', red),
            blank(),
            shaded('▄', hair),
            shaded('▄', hair),
            shaded('▄', hair),
            shaded('▄', hair),
            blank(),
            shaded('!', red),
        ],
        [
            blank(),
            blank(),
            shaded('█', hair),
            shaded('█', skin),
            shaded('█', skin),
            shaded('█', hair),
            blank(),
            blank(),
        ],
        [
            blank(),
            blank(),
            shaded('█', red),
            shaded('█', red),
            shaded('█', red),
            shaded('█', red),
            blank(),
            blank(),
        ],
        [
            blank(),
            blank(),
            shaded('█', red),
            shaded('█', red),
            shaded('█', red),
            shaded('█', red),
            blank(),
            blank(),
        ],
        [
            blank(),
            blank(),
            shaded('█', red),
            shaded('█', red),
            shaded('█', red),
            shaded('█', red),
            blank(),
            blank(),
        ],
        [
            blank(),
            blank(),
            shaded('▀', red),
            shaded('▀', red),
            shaded('▀', red),
            shaded('▀', red),
            blank(),
            blank(),
        ],
    ];
    f
}

fn error_sprite(skin: Color, hair: Color) -> (f: BigSpriteFrame)
    ensures
        f == error_frame(skin, hair),
        drawn(f),
{
    let red = Color::Red;
    let f = [
        [
            b('!', red),
            e(),
            b('▄', hair),
            b('▄', hair),
            b('▄', hair),
            b('▄', hair),
            e(),
            b('!', red),
        ],
        [
            e(),
            e(),
            b('█', hair),
            b('█', skin),
            b('█', skin),
            b('█', hair),
            e(),
            e(),
        ],
        [
            e(),
            e(),
            b('█', red),
            b('█', red),
            b('█', red),
            b('█', red),
            e(),
            e(),
        ],
        [
            e(),
            e(),
            b('█', red),
            b('█', red),
            b('█', red),
            b('█', red),
            e(),
            e(),
        ],
        [
            e(),
            e(),
            b('█', red),
            b('█', red),
            b('█', red),
            b('█', red),
            e(),
            e(),
        ],
        [
            e(),
            e(),
            b('▀', red),
            b('▀', red),
            b('▀', red),
            b('▀', red),
            e(),
            e(),
        ],
    ];
    assert(drawn(f));
    f
}

} // verus!
