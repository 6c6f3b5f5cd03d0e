//! The simulation: on every tick each agent takes one step of its own life.
//! Walkers move along their paths, speakers fall silent, idle agents pick
//! something to do and busy agents finish what they do. The random draws of a
//! tick come in as rolls, one per agent.

use vstd::prelude::*;
use crate::agent::types::{Agent, AgentGoal, AgentState, AnimState, Facing};
use crate::api::movement::{goal_for_tile, goal_toward, reachable, walking_to};
use crate::api::service::ApiState;
use crate::world::events::WorldEvent;
use crate::world::grid::{cell_index, first_walkable, neighbor_order, row_major_sorted, Grid};
use crate::world::pathfind::{find_path, shortest_walk};
use crate::world::position::{random_below, Position};
use crate::world::tile::{Cell, Tile};

verus! {

/// Ticks an agent keeps speaking before it falls silent.
pub const MESSAGING_TICKS: u32 = 30;

/// Ticks an agent stays idle before it picks something to do.
pub const IDLE_TICKS: u32 = 40;

/// Ticks an activity lasts at least before it may end.
pub const ACTIVITY_MIN_TICKS: u32 = 120;

/// Ticks a walker waits in front of an obstacle before it gives up.
pub const BLOCKED_LIMIT: u32 = 10;

/// `n` plus one, held at the maximum.
pub open spec fn count_up(n: u32) -> u32 {
    if n < u32::MAX {
        (n + 1) as u32
    } else {
        n
    }
}

/// The tick after `t`, wrapping at the maximum.
pub open spec fn next_tick(t: u64) -> u64 {
    if t < u64::MAX {
        (t + 1) as u64
    } else {
        0
    }
}

/// States in which an agent is busy with something until it ends.
pub open spec fn is_activity(s: AgentState) -> bool {
    s == AgentState::Working || s == AgentState::Eating || s == AgentState::Playing || s == AgentState::Exercising
        || s == AgentState::Thinking
}

/// The state an agent takes when it arrives where its goal led: work at a desk
/// or a server, eat at the vending or coffee machine, play in the arcade,
/// exercise in the gym, think in a meeting; otherwise it is idle.
pub open spec fn arrival_state(goal: Option<AgentGoal>) -> AgentState {
    match goal {
        Some(AgentGoal::GoToDesk(_)) | Some(AgentGoal::GoToServer(_)) => AgentState::Working,
        Some(AgentGoal::GoToVending(_)) | Some(AgentGoal::GoToCoffee(_)) => AgentState::Eating,
        Some(AgentGoal::GoToPinball(_)) => AgentState::Playing,
        Some(AgentGoal::GoToGym(_)) => AgentState::Exercising,
        Some(AgentGoal::GoToMeeting(_)) => AgentState::Thinking,
        _ => AgentState::Idle,
    }
}

/// What an idle agent picks with roll `roll`: a kind of furniture to visit,
/// or a wander (`None`).
pub open spec fn idle_choice(roll: u32) -> Option<Tile> {
    let k = roll % 10;
    if k == 0 {
        Some(Tile::Desk)
    } else if k == 1 {
        Some(Tile::VendingMachine)
    } else if k == 2 {
        Some(Tile::CoffeeMachine)
    } else if k == 3 {
        Some(Tile::PinballMachine)
    } else if k == 4 {
        Some(Tile::GymTreadmill)
    } else if k == 5 {
        Some(Tile::WeightBench)
    } else if k == 6 {
        Some(Tile::YogaMat)
    } else if k == 7 {
        Some(Tile::Couch)
    } else if k == 8 {
        Some(Tile::PingPongTableLeft)
    } else {
        None
    }
}

/// The spot a wander with roll `roll` aims at, on a grid of positive size.
pub open spec fn wander_spot(g: Grid, roll: u32) -> Position {
    let r = (roll / 10) as int;
    Position { x: (r % (g.width as int)) as u16, y: ((r / (g.width as int)) % (g.height as int)) as u16 }
}

/// `fl` lists the tiles of kind `tile` in row-major order.
pub open spec fn tile_listing(g: Grid, tile: Tile, fl: Seq<Position>) -> bool {
    &&& forall|p: Position| fl.contains(p) <==> g.in_bounds(p) && g.tile_at(p) == tile
    &&& row_major_sorted(g.width, fl)
}

/// The listing an idle pick with roll `roll` chooses from: the tiles of the
/// chosen kind, or nothing for a wander.
pub open spec fn idle_listing(g: Grid, roll: u32, fl: Seq<Position>) -> bool {
    match idle_choice(roll) {
        Some(tile) => tile_listing(g, tile, fl),
        None => fl.len() == 0,
    }
}

/// The goal and the destination an idle pick with roll `roll` comes to, given
/// the listing it chooses from: the first walkable neighbour of the chosen
/// piece of furniture, or the wander spot when it is an empty floor.
pub open spec fn idle_target(g: Grid, roll: u32, fl: Seq<Position>) -> Option<(AgentGoal, Position)> {
    match idle_choice(roll) {
        None => if g.width > 0 && g.height > 0 && g.empty_floor_at(wander_spot(g, roll)) {
            Some((AgentGoal::Wander(wander_spot(g, roll)), wander_spot(g, roll)))
        } else {
            None
        },
        Some(tile) => if fl.len() == 0 {
            None
        } else {
            let t = fl[(roll / 10) as int % fl.len() as int];
            match first_walkable(g, neighbor_order(t), Seq::empty()) {
                Some(adj) => Some((goal_for_tile(tile, t), adj)),
                None => None,
            }
        },
    }
}

/// `a` with its activity counter at `n`.
pub open spec fn with_ticks(a: Agent, n: u32) -> Agent {
    Agent { anim: AnimState { activity_ticks: n, ..a.anim }, ..a }
}

/// The side a walker faces after a step from `from` to `to`.
pub open spec fn facing_toward(f: Facing, from: Position, to: Position) -> Facing {
    if to.x < from.x {
        Facing::Left
    } else if to.x > from.x {
        Facing::Right
    } else {
        f
    }
}

/// The walking animation frame after `f`.
pub open spec fn next_frame(f: u8) -> u8 {
    if f < 255 {
        (f + 1) as u8
    } else {
        0
    }
}

/// A step from `from` to `to` can be made on `g`: both lie on the grid, and
/// either they are the same or someone stands on `from` and nobody on `to`.
/// A walker follows its path whatever the tiles on it (the paths the library
/// sets come from `find_path` and cross no solid tile); only another agent
/// blocks it.
pub open spec fn step_allowed(g: Grid, from: Position, to: Position) -> bool {
    g.in_bounds(from) && g.in_bounds(to) && (from == to || (g.occupant_at(from) is Some && g.occupant_at(to) is None))
}

/// `g2` is `g` after whoever stands on `from` stepped to `to`.
pub open spec fn stepped(g: Grid, from: Position, to: Position, g2: Grid) -> bool {
    &&& g2.width == g.width
    &&& g2.height == g.height
    &&& g2.wf()
    &&& from == to ==> g2.spec_cells() == g.spec_cells()
    &&& from != to ==> g2.spec_cells() == g.spec_cells().update(
        cell_index(g.width, from),
        Cell { tile: g.tile_at(from), occupant: None },
    ).update(cell_index(g.width, to), Cell { tile: g.tile_at(to), occupant: g.occupant_at(from) })
}

/// A speaker falls silent and goes idle once it has spoken for
/// `MESSAGING_TICKS` ticks.
pub open spec fn messaging_outcome(a: Agent, a2: Agent) -> bool {
    let n = count_up(a.anim.activity_ticks);
    if n >= MESSAGING_TICKS {
        a2 == Agent {
            state: AgentState::Idle,
            speech: None,
            last_activity: a2.last_activity,
            anim: AnimState { activity_ticks: 0, ..a.anim },
            ..a
        }
    } else {
        a2 == with_ticks(a, n)
    }
}

/// A busy agent ends its activity, going idle without a goal, once it has
/// lasted `ACTIVITY_MIN_TICKS` ticks and the roll comes up (one in five).
pub open spec fn activity_outcome(a: Agent, roll: u32, a2: Agent) -> bool {
    let n = count_up(a.anim.activity_ticks);
    if n >= ACTIVITY_MIN_TICKS && roll % 5 == 0 {
        a2 == Agent {
            state: AgentState::Idle,
            goal: None,
            last_activity: a2.last_activity,
            anim: AnimState { activity_ticks: 0, ..a.anim },
            ..a
        }
    } else {
        a2 == with_ticks(a, n)
    }
}

/// Whether an idle agent sets out this tick: one chance in four, read from
/// the millions of the roll.
pub open spec fn sets_out(roll: u32) -> bool {
    (roll / 1_000_000) % 4 == 0
}

/// An idle agent, once idle for `IDLE_TICKS` ticks, may set out (see
/// `sets_out`): it walks a shortest walk to what the roll picks; when the pick
/// leads nowhere it starts waiting again.
pub open spec fn idle_outcome(g: Grid, a: Agent, roll: u32, a2: Agent) -> bool {
    let n = count_up(a.anim.activity_ticks);
    if n < IDLE_TICKS || !sets_out(roll) {
        a2 == with_ticks(a, n)
    } else {
        exists|fl: Seq<Position>|
            #[trigger] idle_listing(g, roll, fl) && match idle_target(g, roll, fl) {
                Some((goal, dest)) => if reachable(g, a.position, dest) {
                    walking_to(g, a, a2, goal, dest)
                } else {
                    a2 == with_ticks(a, 0)
                },
                None => a2 == with_ticks(a, 0),
            }
    }
}

/// A walker that has arrived takes the state its goal leads to (dropping the
/// goal when that state is idle); on even ticks it steps to the next position
/// of its path when the step can be made (see `step_allowed`), and otherwise
/// waits, giving up and going idle after `BLOCKED_LIMIT` blocked steps.
pub open spec fn walk_outcome(g: Grid, a: Agent, t: u64, g2: Grid, a2: Agent) -> bool {
    if a.path@.len() == 0 {
        let s = arrival_state(a.goal);
        &&& g2 == g
        &&& a2 == Agent {
            state: s,
            goal: if s == AgentState::Idle { None } else { a.goal },
            last_activity: a2.last_activity,
            anim: AnimState { activity_ticks: 0, ..a.anim },
            ..a
        }
    } else if t % 2 == 1 {
        g2 == g && a2 == a
    } else {
        let next = a.path@[0];
        if step_allowed(g, a.position, next) {
            &&& stepped(g, a.position, next, g2)
            &&& a2 == Agent {
                position: next,
                path: a2.path,
                anim: AnimState {
                    facing: facing_toward(a.anim.facing, a.position, next),
                    frame: next_frame(a.anim.frame),
                    blocked_ticks: 0,
                    ..a.anim
                },
                ..a
            }
            &&& a2.path@ == a.path@.drop_first()
        } else {
            let b = count_up(a.anim.blocked_ticks);
            &&& g2 == g
            &&& if b >= BLOCKED_LIMIT {
                &&& a2 == Agent {
                    state: AgentState::Idle,
                    goal: None,
                    path: a2.path,
                    last_activity: a2.last_activity,
                    anim: AnimState { activity_ticks: 0, blocked_ticks: 0, ..a.anim },
                    ..a
                }
                &&& a2.path@.len() == 0
            } else {
                a2 == Agent { anim: AnimState { blocked_ticks: b, ..a.anim }, ..a }
            }
        }
    }
}

/// One agent's step at tick `t` with roll `roll`, on grid `g`: it ends as
/// `a2`, the grid as `g2`. An agent locked by the API, in error or offline is
/// left as it is.
pub open spec fn agent_tick(g: Grid, a: Agent, roll: u32, t: u64, g2: Grid, a2: Agent) -> bool {
    if a.api_locked {
        g2 == g && a2 == a
    } else {
        match a.state {
            AgentState::Walking => walk_outcome(g, a, t, g2, a2),
            AgentState::Messaging => g2 == g && messaging_outcome(a, a2),
            AgentState::Idle => g2 == g && idle_outcome(g, a, roll, a2),
            AgentState::Error | AgentState::Offline => g2 == g && a2 == a,
            _ => g2 == g && activity_outcome(a, roll, a2),
        }
    }
}

/// The events of one agent's step: a move, then a change of state.
pub open spec fn agent_events(a: Agent, a2: Agent) -> Seq<WorldEvent> {
    (if a2.position != a.position {
        seq![WorldEvent::AgentMoved { agent_id: a.id, from: a.position, to: a2.position }]
    } else {
        Seq::empty()
    }) + (if a2.state != a.state {
        seq![WorldEvent::AgentStateChanged { agent_id: a.id, state: a2.state }]
    } else {
        Seq::empty()
    })
}

/// The events of the steps of the first `k` agents.
pub open spec fn agents_events(old: Seq<Agent>, new: Seq<Agent>, k: int) -> Seq<WorldEvent>
    decreases k,
{
    if k <= 0 {
        Seq::empty()
    } else {
        agents_events(old, new, k - 1) + agent_events(old[k - 1], new[k - 1])
    }
}

/// `new` is `old` after each agent, in registry order, took its step at tick
/// `t` with its roll, the grid going from `g` through each step to `g2`.
pub open spec fn all_stepped(g: Grid, old: Seq<Agent>, rolls: Seq<u32>, t: u64, g2: Grid, new: Seq<Agent>) -> bool {
    exists|gs: Seq<Grid>|
        #![trigger gs.len()]
        gs.len() == old.len() + 1 && gs[0] == g && gs[old.len() as int] == g2 && forall|i: int|
            0 <= i < old.len() ==> #[trigger] agent_tick(gs[i], old[i], rolls[i], t, gs[i + 1], new[i])
}

/// The clock of the simulation.
pub struct Simulation {
    pub tick_count: u64,
}


fn count_up_exec(n: u32) -> (r: u32)
    ensures
        r == count_up(n),
{
    if n < u32::MAX {
        n + 1
    } else {
        n
    }
}

fn idle_choice_exec(roll: u32) -> (r: Option<Tile>)
    ensures
        r == idle_choice(roll),
{
    let k = roll % 10;
    if k == 0 {
        Some(Tile::Desk)
    } else if k == 1 {
        Some(Tile::VendingMachine)
    } else if k == 2 {
        Some(Tile::CoffeeMachine)
    } else if k == 3 {
        Some(Tile::PinballMachine)
    } else if k == 4 {
        Some(Tile::GymTreadmill)
    } else if k == 5 {
        Some(Tile::WeightBench)
    } else if k == 6 {
        Some(Tile::YogaMat)
    } else if k == 7 {
        Some(Tile::Couch)
    } else if k == 8 {
        Some(Tile::PingPongTableLeft)
    } else {
        None
    }
}

fn arrival_state_exec(goal: Option<AgentGoal>) -> (s: AgentState)
    ensures
        s == arrival_state(goal),
{
    match goal {
        Some(AgentGoal::GoToDesk(_)) | Some(AgentGoal::GoToServer(_)) => AgentState::Working,
        Some(AgentGoal::GoToVending(_)) | Some(AgentGoal::GoToCoffee(_)) => AgentState::Eating,
        Some(AgentGoal::GoToPinball(_)) => AgentState::Playing,
        Some(AgentGoal::GoToGym(_)) => AgentState::Exercising,
        Some(AgentGoal::GoToMeeting(_)) => AgentState::Thinking,
        _ => AgentState::Idle,
    }
}

fn facing_exec(f: Facing, from: Position, to: Position) -> (r: Facing)
    ensures
        r == facing_toward(f, from, to),
{
    if to.x < from.x {
        Facing::Left
    } else if to.x > from.x {
        Facing::Right
    } else {
        f
    }
}

fn next_frame_exec(f: u8) -> (r: u8)
    ensures
        r == next_frame(f),
{
    if f < 255 {
        f + 1
    } else {
        0
    }
}

/// A shortest walk from `from` to `dest`, when `dest` can be reached.
fn walk_to(g: &Grid, from: Position, dest: Position) -> (r: Option<Vec<Position>>)
    requires
        g.wf(),
    ensures
        r is Some <==> reachable(*g, from, dest),
        r matches Some(p) ==> shortest_walk(*g, from, p@, dest),
{
    let r = find_path(g, from, dest);
    proof {
        if r is None && from != dest && g.in_bounds(from) {
            assert(!(exists|p: Seq<Position>| crate::world::pathfind::is_walk(*g, from, p, dest)));
        }
        if r is Some {
            assert(crate::world::pathfind::is_walk(*g, from, r->0@, dest));
            if from != dest {
                assert(g.in_bounds(from));
            }
        }
    }
    r
}

/// What an idle agent at `from` sets out to do with roll `roll`: a goal and
/// the walk to it, or nothing when the pick leads nowhere.
fn idle_plan(g: &Grid, from: Position, roll: u32) -> (r: Option<(AgentGoal, Vec<Position>)>)
    requires
        g.wf(),
    ensures
        exists|fl: Seq<Position>|
            #[trigger] idle_listing(*g, roll, fl) && match idle_target(*g, roll, fl) {
                Some((goal, dest)) => if reachable(*g, from, dest) {
                    r matches Some((gl, p)) && gl == goal && shortest_walk(*g, from, p@, dest)
                } else {
                    r is None
                },
                None => r is None,
            },
{
    let choice = idle_choice_exec(roll);
    match choice {
        None => {
            let ghost fl = Seq::<Position>::empty();
            assert(idle_listing(*g, roll, fl));
            if g.width == 0 || g.height == 0 {
                return None;
            }
            let r10 = roll / 10;
            let w = g.width as u32;
            let h = g.height as u32;
            let spot = Position { x: (r10 % w) as u16, y: ((r10 / w) % h) as u16 };
            assert(spot == wander_spot(*g, roll));
            let empty = match g.get(spot) {
                Some(c) => matches!(c.tile, Tile::Floor(_)) && c.occupant.is_none(),
                None => false,
            };
            if !empty {
                return None;
            }
            match walk_to(g, from, spot) {
                Some(p) => Some((AgentGoal::Wander(spot), p)),
                None => None,
            }
        },
        Some(tile) => {
            let targets = g.find_tiles(&tile);
            assert(idle_listing(*g, roll, targets@));
            if targets.len() == 0 {
                return None;
            }
            let k = ((roll / 10) as usize) % targets.len();
            let t = targets[k];
            assert(t == targets@[(roll / 10) as int % targets@.len() as int]);
            match g.find_adjacent_floor(t) {
                None => None,
                Some(adj) => {
                    let goal = goal_toward(tile, t);
                    match walk_to(g, from, adj) {
                        Some(p) => Some((goal, p)),
                        None => None,
                    }
                },
            }
        },
    }
}


/// `w2` is `w` with only agent `i` changed (and possibly the grid).
pub open spec fn only_agent_changed(w: ApiState, w2: ApiState, i: int) -> bool {
    &&& w2.wf()
    &&& w2.observer == w.observer
    &&& w2.registry.view() == w.registry.view().update(i, w2.registry.view()[i])
}

fn messaging_step(world: &mut ApiState, i: usize)
    requires
        old(world).wf(),
        i < old(world).registry.view().len(),
    ensures
        only_agent_changed(*old(world), *final(world), i as int),
        final(world).grid == old(world).grid,
        messaging_outcome(old(world).registry.view()[i as int], final(world).registry.view()[i as int]),
{
    let id = world.registry.at(i).id;
    proof {
        world.registry.lemma_index_of_own_id(i as int);
    }
    match world.registry.get_mut(&id) {
        Some(agent) => {
            let n = count_up_exec(agent.anim.activity_ticks);
            if n >= MESSAGING_TICKS {
                agent.set_state(AgentState::Idle);
                agent.speech = None;
                agent.anim.activity_ticks = 0;
            } else {
                agent.anim.activity_ticks = n;
            }
        },
        None => {},
    }
}

fn activity_step(world: &mut ApiState, i: usize, roll: u32)
    requires
        old(world).wf(),
        i < old(world).registry.view().len(),
    ensures
        only_agent_changed(*old(world), *final(world), i as int),
        final(world).grid == old(world).grid,
        activity_outcome(old(world).registry.view()[i as int], roll, final(world).registry.view()[i as int]),
{
    let id = world.registry.at(i).id;
    proof {
        world.registry.lemma_index_of_own_id(i as int);
    }
    match world.registry.get_mut(&id) {
        Some(agent) => {
            let n = count_up_exec(agent.anim.activity_ticks);
            if n >= ACTIVITY_MIN_TICKS && roll % 5 == 0 {
                agent.set_state(AgentState::Idle);
                agent.goal = None;
                agent.anim.activity_ticks = 0;
            } else {
                agent.anim.activity_ticks = n;
            }
        },
        None => {},
    }
}

fn idle_step(world: &mut ApiState, i: usize, roll: u32)
    requires
        old(world).wf(),
        i < old(world).registry.view().len(),
    ensures
        only_agent_changed(*old(world), *final(world), i as int),
        final(world).grid == old(world).grid,
        idle_outcome(old(world).grid, old(world).registry.view()[i as int], roll, final(world).registry.view()[i as int]),
{
    let id = world.registry.at(i).id;
    let from = world.registry.at(i).position;
    let n = count_up_exec(world.registry.at(i).anim.activity_ticks);
    let waits = n < IDLE_TICKS || (roll / 1_000_000) % 4 != 0;
    let plan = if waits {
        None
    } else {
        idle_plan(&world.grid, from, roll)
    };
    proof {
        world.registry.lemma_index_of_own_id(i as int);
    }
    match world.registry.get_mut(&id) {
        Some(agent) => {
            if waits {
                agent.anim.activity_ticks = n;
            } else {
                match plan {
                    Some((goal, path)) => {
                        agent.path = path;
                        agent.goal = Some(goal);
                        agent.set_state(AgentState::Walking);
                        agent.anim.activity_ticks = 0;
                    },
                    None => {
                        agent.anim.activity_ticks = 0;
                    },
                }
            }
        },
        None => {},
    }
}

/// Whether a step from `from` to `to` can be made on `g`.
fn step_allowed_exec(g: &Grid, from: Position, to: Position) -> (r: bool)
    requires
        g.wf(),
    ensures
        r == step_allowed(*g, from, to),
{
    match g.get(from) {
        None => false,
        Some(fc) => match g.get(to) {
            None => false,
            Some(tc) => from == to || (fc.occupant.is_some() && tc.occupant.is_none()),
        },
    }
}

fn walk_step(world: &mut ApiState, i: usize, t: u64)
    requires
        old(world).wf(),
        i < old(world).registry.view().len(),
    ensures
        only_agent_changed(*old(world), *final(world), i as int),
        walk_outcome(old(world).grid, old(world).registry.view()[i as int], t, final(world).grid, final(world).registry.view()[i as int]),
{
    let id = world.registry.at(i).id;
    let from = world.registry.at(i).position;
    let len = world.registry.at(i).path.len();
    let goal = world.registry.at(i).goal;
    let blocked = world.registry.at(i).anim.blocked_ticks;
    let facing = world.registry.at(i).anim.facing;
    let frame = world.registry.at(i).anim.frame;
    proof {
        world.registry.lemma_index_of_own_id(i as int);
    }
    if len == 0 {
        let s = arrival_state_exec(goal);
        match world.registry.get_mut(&id) {
            Some(agent) => {
                agent.set_state(s);
                if s == AgentState::Idle {
                    agent.goal = None;
                }
                agent.anim.activity_ticks = 0;
            },
            None => {},
        }
    } else if t % 2 == 1 {
        proof {
            assert(world.registry.view() =~= old(world).registry.view().update(i as int, world.registry.view()[i as int]));
        }
    } else {
        let next = world.registry.at(i).path[0];
        let allowed = step_allowed_exec(&world.grid, from, next);
        if allowed {
            let _moved = world.grid.step_agent(from, next);
            match world.registry.get_mut(&id) {
                Some(agent) => {
                    agent.position = next;
                    let _first = agent.path.remove(0);
                    agent.anim.facing = facing_exec(facing, from, next);
                    agent.anim.frame = next_frame_exec(frame);
                    agent.anim.blocked_ticks = 0;
                },
                None => {},
            }
        } else {
            let b = count_up_exec(blocked);
            match world.registry.get_mut(&id) {
                Some(agent) => {
                    if b >= BLOCKED_LIMIT {
                        agent.set_state(AgentState::Idle);
                        agent.goal = None;
                        agent.path = Vec::new();
                        agent.anim.activity_ticks = 0;
                        agent.anim.blocked_ticks = 0;
                    } else {
                        agent.anim.blocked_ticks = b;
                    }
                },
                None => {},
            }
        }
    }
}

/// Agent `i` takes its step at tick `t` with roll `roll`; its events are
/// appended to `events`.
fn step_agent(world: &mut ApiState, i: usize, roll: u32, t: u64, events: &mut Vec<WorldEvent>)
    requires
        old(world).wf(),
        i < old(world).registry.view().len(),
    ensures
        only_agent_changed(*old(world), *final(world), i as int),
        agent_tick(old(world).grid, old(world).registry.view()[i as int], roll, t, final(world).grid, final(world).registry.view()[i as int]),
        final(events)@ == old(events)@ + agent_events(old(world).registry.view()[i as int], final(world).registry.view()[i as int]),
{
    let id = world.registry.at(i).id;
    let locked = world.registry.at(i).api_locked;
    let state = world.registry.at(i).state;
    let from = world.registry.at(i).position;
    if locked {
        proof {
            assert(world.registry.view() =~= old(world).registry.view().update(i as int, world.registry.view()[i as int]));
        }
    } else {
        match state {
            AgentState::Walking => walk_step(world, i, t),
            AgentState::Messaging => messaging_step(world, i),
            AgentState::Idle => idle_step(world, i, roll),
            AgentState::Error | AgentState::Offline => {
                proof {
                    assert(world.registry.view() =~= old(world).registry.view().update(i as int, world.registry.view()[i as int]));
                }
            },
            _ => activity_step(world, i, roll),
        }
    }
    let to = world.registry.at(i).position;
    let now_state = world.registry.at(i).state;
    let ghost before = events@;
    if to != from {
        events.push(WorldEvent::AgentMoved { agent_id: id, from, to });
    }
    let ghost mid = events@;
    if now_state != state {
        events.push(WorldEvent::AgentStateChanged { agent_id: id, state: now_state });
    }
    proof {
        let a = old(world).registry.view()[i as int];
        let a2 = world.registry.view()[i as int];
        assert(a2.id == a.id);
        assert(events@ =~= before + agent_events(a, a2));
    }
}

/// The events of the first `k` agents depend only on those agents.
proof fn lemma_events_prefix(old: Seq<Agent>, n1: Seq<Agent>, n2: Seq<Agent>, k: int)
    requires
        0 <= k <= n1.len(),
        k <= n2.len(),
        forall|j: int| 0 <= j < k ==> n1[j] == n2[j],
    ensures
        agents_events(old, n1, k) == agents_events(old, n2, k),
    decreases k,
{
    if k > 0 {
        lemma_events_prefix(old, n1, n2, k - 1);
    }
}

/// What a tick with rolls `rolls` does: the clock moves on by one, every agent
/// takes its step in registry order, nothing else of the world changes, and
/// the events are the tick followed by the agents' events in that order.
pub open spec fn ticked(
    s: Simulation,
    s2: Simulation,
    w: ApiState,
    w2: ApiState,
    rolls: Seq<u32>,
    events: Seq<WorldEvent>,
) -> bool {
    let t = next_tick(s.tick_count);
    &&& s2.tick_count == t
    &&& w2.wf()
    &&& w2.observer == w.observer
    &&& w2.registry.view().len() == w.registry.view().len()
    &&& all_stepped(w.grid, w.registry.view(), rolls, t, w2.grid, w2.registry.view())
    &&& events == seq![WorldEvent::Tick { count: t }] + agents_events(w.registry.view(), w2.registry.view(), w.registry.view().len() as int)
}

impl Simulation {
    /// A simulation at tick 0.
    pub fn new() -> (s: Simulation)
        ensures
            s.tick_count == 0,
    {
        Simulation { tick_count: 0 }
    }

    /// Advances the world by one tick, each agent using the roll of its
    /// position in the registry.
    pub fn tick_with(&mut self, world: &mut ApiState, rolls: &Vec<u32>) -> (events: Vec<WorldEvent>)
        requires
            old(world).wf(),
            rolls@.len() == old(world).registry.view().len(),
        ensures
            ticked(*old(self), *final(self), *old(world), *final(world), rolls@, events@),
    {
        let t: u64 = if self.tick_count < u64::MAX {
            self.tick_count + 1
        } else {
            0
        };
        self.tick_count = t;
        let mut events: Vec<WorldEvent> = Vec::new();
        events.push(WorldEvent::Tick { count: t });
        let n = world.registry.count();
        let ghost reg0 = world.registry.view();
        let ghost g0 = world.grid;
        let ghost obs0 = world.observer;
        let ghost mut gs: Seq<Grid> = seq![world.grid];
        let mut i: usize = 0;
        while i < n
            invariant
                world.wf(),
                n == reg0.len(),
                rolls@.len() == n,
                i <= n,
                world.observer == obs0,
                world.registry.view().len() == n,
                forall|j: int| i <= j < n ==> world.registry.view()[j] == reg0[j],
                gs.len() == i + 1,
                gs[0] == g0,
                gs[i as int] == world.grid,
                forall|j: int|
                    0 <= j < i ==> #[trigger] agent_tick(gs[j], reg0[j], rolls@[j], t, gs[j + 1], world.registry.view()[j]),
                events@ == seq![WorldEvent::Tick { count: t }] + agents_events(reg0, world.registry.view(), i as int),
            decreases n - i,
        {
            let ghost before = world.registry.view();
            let ghost gs_before = gs;
            let ghost ev_before = events@;
            let roll = rolls[i];
            step_agent(world, i, roll, t, &mut events);
            proof {
                gs = gs.push(world.grid);
                let after = world.registry.view();
                assert forall|j: int| 0 <= j < i + 1 implies #[trigger] agent_tick(gs[j], reg0[j], rolls@[j], t, gs[j + 1], after[j]) by {
                    assert(gs[j] == gs_before[j]);
                    if j < i {
                        assert(gs[j + 1] == gs_before[j + 1]);
                        assert(after[j] == before[j]);
                    }
                }
                lemma_events_prefix(reg0, before, after, i as int);
                assert(agents_events(reg0, after, i + 1) == agents_events(reg0, after, i as int) + agent_events(reg0[i as int], after[i as int]));
                assert(events@ =~= seq![WorldEvent::Tick { count: t }] + agents_events(reg0, after, i + 1));
            }
            i = i + 1;
        }
        proof {
            assert(gs.len() == reg0.len() + 1);
        }
        events
    }

    /// Advances the world by one tick, drawing each agent's roll at random.
    pub fn tick(&mut self, world: &mut ApiState) -> (events: Vec<WorldEvent>)
        requires
            old(world).wf(),
        ensures
            exists|rolls: Seq<u32>|
                rolls.len() == old(world).registry.view().len() && #[trigger] ticked(
                    *old(self),
                    *final(self),
                    *old(world),
                    *final(world),
                    rolls,
                    events@,
                ),
    {
        let n = world.registry.count();
        let mut rolls: Vec<u32> = Vec::new();
        while rolls.len() < n
            invariant
                rolls@.len() <= n,
            decreases n - rolls@.len(),
        {
            let r = random_below(1_000_000_000);
            rolls.push(r as u32);
        }
        self.tick_with(world, &rolls)
    }
}

} // verus!
