//! Sending agents somewhere: to a position, to a piece of furniture, or on a
//! wander.

use vstd::prelude::*;
use crate::agent::registry::first_id_match;
use crate::agent::types::{Agent, AgentGoal, AgentState, AnimState};
use crate::api::observability::ActivityKind;
use crate::api::service::{logged, not_found_text, pos_string, pos_text, ActivityNote, ApiState};
use crate::error::ApiError;
use crate::text::{append, str_eq};
use crate::world::grid::{first_walkable, neighbor_order, Grid};
use crate::world::pathfind::{find_path, is_walk, shortest_walk};
use crate::world::position::Position;
use crate::world::position::random_below;
use crate::world::tile::{tile_solid, Tile};

verus! {

/// A path leads from `from` to `to`: they are the same, or `from` is on the
/// grid and a walk of `g` leads from it to `to`.
pub open spec fn reachable(g: Grid, from: Position, to: Position) -> bool {
    from == to || (g.in_bounds(from) && exists|p: Seq<Position>| is_walk(g, from, p, to))
}

/// Agent `a2` is `a` walking along a shortest walk of `g` to `dest`, pursuing
/// `goal`; its animation counter restarts.
pub open spec fn walking_to(g: Grid, a: Agent, a2: Agent, goal: AgentGoal, dest: Position) -> bool {
    &&& a2 == Agent {
        path: a2.path,
        goal: Some(goal),
        state: AgentState::Walking,
        last_activity: a2.last_activity,
        anim: AnimState { activity_ticks: 0, ..a.anim },
        ..a
    }
    &&& shortest_walk(g, a.position, a2.path@, dest)
}

/// What a goal request asks for.
#[derive(Debug, Clone, Copy, PartialEq, Eq, Structural)]
pub enum GoalPlan {
    /// Walk to a random empty floor.
    Wander,
    /// Walk next to a piece of furniture of this kind.
    Visit(Tile),
}

/// The plan that a goal name asks for, if the name is known.
pub open spec fn goal_named(name: Seq<char>) -> Option<GoalPlan> {
    if name == "desk"@ {
        Some(GoalPlan::Visit(Tile::Desk))
    } else if name == "vending"@ {
        Some(GoalPlan::Visit(Tile::VendingMachine))
    } else if name == "coffee"@ {
        Some(GoalPlan::Visit(Tile::CoffeeMachine))
    } else if name == "pinball"@ {
        Some(GoalPlan::Visit(Tile::PinballMachine))
    } else if name == "gym"@ || name == "treadmill"@ {
        Some(GoalPlan::Visit(Tile::GymTreadmill))
    } else if name == "weights"@ {
        Some(GoalPlan::Visit(Tile::WeightBench))
    } else if name == "yoga"@ {
        Some(GoalPlan::Visit(Tile::YogaMat))
    } else if name == "pingpong"@ {
        Some(GoalPlan::Visit(Tile::PingPongTableLeft))
    } else if name == "meeting"@ {
        Some(GoalPlan::Visit(Tile::MeetingTable))
    } else if name == "server"@ || name == "archive"@ {
        Some(GoalPlan::Visit(Tile::ServerRack))
    } else if name == "couch"@ {
        Some(GoalPlan::Visit(Tile::Couch))
    } else if name == "wander"@ {
        Some(GoalPlan::Wander)
    } else {
        None
    }
}

/// The goal an agent pursues when it heads for furniture of kind `tile` at `p`;
/// the ping-pong table, like the pinball machine, is a game of the arcade.
pub open spec fn goal_for_tile(tile: Tile, p: Position) -> AgentGoal {
    match tile {
        Tile::Desk => AgentGoal::GoToDesk(p),
        Tile::VendingMachine => AgentGoal::GoToVending(p),
        Tile::CoffeeMachine => AgentGoal::GoToCoffee(p),
        Tile::PinballMachine | Tile::PingPongTableLeft | Tile::PingPongTableRight => AgentGoal::GoToPinball(p),
        Tile::MeetingTable => AgentGoal::GoToMeeting(p),
        Tile::ServerRack => AgentGoal::GoToServer(p),
        Tile::GymTreadmill | Tile::WeightBench | Tile::YogaMat => AgentGoal::GoToGym(p),
        Tile::Couch => AgentGoal::GoToCouch(p),
        _ => AgentGoal::Wander(p),
    }
}

pub open spec fn unknown_goal_text(name: Seq<char>) -> Seq<char> {
    "unknown goal '"@ + name
        + "'. Valid: desk, vending, coffee, pinball, gym, treadmill, weights, yoga, pingpong, meeting, server, couch, wander"@
}

pub open spec fn no_tile_text(name: Seq<char>) -> Seq<char> {
    "no "@ + name + " found in world"@
}

pub open spec fn goal_text(name: Seq<char>) -> Seq<char> {
    "Goal: "@ + name
}

pub open spec fn moving_text(p: Position) -> Seq<char> {
    "Moving to "@ + pos_text(p)
}

/// The plan that a goal name asks for; an unknown name is a bad request.
pub fn parse_goal(name: &str) -> (r: Result<GoalPlan, ApiError>)
    ensures
        r matches Ok(p) ==> goal_named(name@) == Some(p),
        r matches Err(e) ==> goal_named(name@) is None && e.is_bad_request(unknown_goal_text(name@)),
{
    if str_eq(name, "desk") {
        Ok(GoalPlan::Visit(Tile::Desk))
    } else if str_eq(name, "vending") {
        Ok(GoalPlan::Visit(Tile::VendingMachine))
    } else if str_eq(name, "coffee") {
        Ok(GoalPlan::Visit(Tile::CoffeeMachine))
    } else if str_eq(name, "pinball") {
        Ok(GoalPlan::Visit(Tile::PinballMachine))
    } else if str_eq(name, "gym") || str_eq(name, "treadmill") {
        Ok(GoalPlan::Visit(Tile::GymTreadmill))
    } else if str_eq(name, "weights") {
        Ok(GoalPlan::Visit(Tile::WeightBench))
    } else if str_eq(name, "yoga") {
        Ok(GoalPlan::Visit(Tile::YogaMat))
    } else if str_eq(name, "pingpong") {
        Ok(GoalPlan::Visit(Tile::PingPongTableLeft))
    } else if str_eq(name, "meeting") {
        Ok(GoalPlan::Visit(Tile::MeetingTable))
    } else if str_eq(name, "server") || str_eq(name, "archive") {
        Ok(GoalPlan::Visit(Tile::ServerRack))
    } else if str_eq(name, "couch") {
        Ok(GoalPlan::Visit(Tile::Couch))
    } else if str_eq(name, "wander") {
        Ok(GoalPlan::Wander)
    } else {
        let mut m = String::from_str("unknown goal '");
        append(&mut m, name);
        append(
            &mut m,
            "'. Valid: desk, vending, coffee, pinball, gym, treadmill, weights, yoga, pingpong, meeting, server, couch, wander",
        );
        Err(ApiError::BadRequest(m))
    }
}

/// The goal an agent pursues when it heads for furniture of kind `tile` at `p`.
pub fn goal_toward(tile: Tile, p: Position) -> (g: AgentGoal)
    ensures
        g == goal_for_tile(tile, p),
{
    match tile {
        Tile::Desk => AgentGoal::GoToDesk(p),
        Tile::VendingMachine => AgentGoal::GoToVending(p),
        Tile::CoffeeMachine => AgentGoal::GoToCoffee(p),
        Tile::PinballMachine | Tile::PingPongTableLeft | Tile::PingPongTableRight => AgentGoal::GoToPinball(p),
        Tile::MeetingTable => AgentGoal::GoToMeeting(p),
        Tile::ServerRack => AgentGoal::GoToServer(p),
        Tile::GymTreadmill | Tile::WeightBench | Tile::YogaMat => AgentGoal::GoToGym(p),
        Tile::Couch => AgentGoal::GoToCouch(p),
        _ => AgentGoal::Wander(p),
    }
}

/// What `head_to` does from state `s` to state `s2`, given the furniture
/// position `t` it heads for.
pub open spec fn head_to_post(
    s: ApiState,
    s2: ApiState,
    id_text: Seq<char>,
    name: Seq<char>,
    tile: Tile,
    t: Position,
    now: i64,
    r: Result<ActivityNote, ApiError>,
) -> bool {
    let adj = first_walkable(s.grid, neighbor_order(t), Seq::empty());
    let reg = s.registry.view();
    let i = first_id_match(reg, id_text);
    &&& s2.wf()
    &&& r is Err <==> adj is None || i == -1 || !reachable(s.grid, reg[i].position, adj->0)
    &&& r matches Err(e) ==> s2 == s && (if adj is None {
        e.is_unavailable("no adjacent floor available"@)
    } else if i == -1 {
        e.is_not_found(not_found_text(id_text))
    } else {
        e.is_bad_request("no path to target"@)
    })
    &&& r matches Ok(note) ==> {
        let a = reg[i];
        let a2 = s2.registry.view()[i];
        &&& s2.registry.view() == reg.update(i, a2)
        &&& walking_to(s.grid, a, a2, goal_for_tile(tile, t), adj->0)
        &&& s2.grid == s.grid
        &&& logged(s.observer, s2.observer, a.id, ActivityKind::GoalAssigned, goal_text(name), now)
        &&& note.agent == a.id && note.kind == ActivityKind::GoalAssigned && note.detail@ == goal_text(name)
    }
}

/// What `wander_to` does from state `s` to state `s2`, given the floor `t` it
/// wanders to.
pub open spec fn wander_post(s: ApiState, s2: ApiState, id_text: Seq<char>, t: Position, now: i64, r: Result<ActivityNote, ApiError>) -> bool {
    let reg = s.registry.view();
    let i = first_id_match(reg, id_text);
    &&& s2.wf()
    &&& r is Err <==> i == -1
    &&& r matches Err(e) ==> s2 == s && e.is_not_found(not_found_text(id_text))
    &&& r matches Ok(note) ==> {
        let a = reg[i];
        let a2 = s2.registry.view()[i];
        &&& s2.registry.view() == reg.update(i, a2)
        &&& reachable(s.grid, a.position, t) ==> walking_to(s.grid, a, a2, AgentGoal::Wander(t), t)
        &&& !reachable(s.grid, a.position, t) ==> a2 == a
        &&& s2.grid == s.grid
        &&& logged(s.observer, s2.observer, a.id, ActivityKind::GoalAssigned, goal_text("wander"@), now)
        &&& note.agent == a.id && note.kind == ActivityKind::GoalAssigned && note.detail@ == goal_text("wander"@)
    }
}

/// The note part of a goal result.
pub open spec fn note_of(r: Result<(Option<Position>, ActivityNote), ApiError>) -> Result<ActivityNote, ApiError> {
    match r {
        Ok((_, n)) => Ok(n),
        Err(e) => Err(e),
    }
}

impl ApiState {
    /// A shortest walk from agent `i` to `dest`, if there is one.
    fn route(&self, i: usize, dest: Position) -> (r: Option<Vec<Position>>)
        requires
            self.wf(),
            i < self.registry.view().len(),
        ensures
            r is None <==> !reachable(self.grid, self.registry.view()[i as int].position, dest),
            r matches Some(p) ==> shortest_walk(self.grid, self.registry.view()[i as int].position, p@, dest),
    {
        let from = self.registry.at(i).position;
        let r = find_path(&self.grid, from, dest);
        proof {
            if r is None && from != dest && self.grid.in_bounds(from) {
                assert(!(exists|p: Seq<Position>| is_walk(self.grid, from, p, dest)));
            }
            if r is Some {
                if from != dest {
                    assert(self.grid.in_bounds(from));
                }
            }
        }
        r
    }

    /// Sets agent `i` walking along `path` in pursuit of `goal`.
    fn start_walking(&mut self, i: usize, goal: AgentGoal, path: Vec<Position>)
        requires
            old(self).wf(),
            i < old(self).registry.view().len(),
        ensures
            final(self).wf(),
            final(self).grid == old(self).grid,
            final(self).observer == old(self).observer,
            ({
                let a = old(self).registry.view()[i as int];
                let a2 = final(self).registry.view()[i as int];
                &&& final(self).registry.view() == old(self).registry.view().update(i as int, a2)
                &&& a2 == Agent {
                    path: a2.path,
                    goal: Some(goal),
                    state: AgentState::Walking,
                    last_activity: a2.last_activity,
                    anim: AnimState { activity_ticks: 0, ..a.anim },
                    ..a
                }
                &&& a2.path@ == path@
            }),
    {
        let id = self.registry.at(i).id;
        proof {
            self.registry.lemma_index_of_own_id(i as int);
        }
        match self.registry.get_mut(&id) {
            Some(agent) => {
                agent.path = path;
                agent.goal = Some(goal);
                agent.set_state(AgentState::Walking);
                agent.anim.activity_ticks = 0;
            },
            None => {},
        }
    }

    /// Sends the agent that `id_text` names walking to `(x, y)`.
    pub fn move_agent(&mut self, id_text: &str, x: u16, y: u16, now: i64) -> (r: Result<ActivityNote, ApiError>)
        requires
            old(self).wf(),
        ensures
            final(self).wf(),
            ({
                let g = old(self).grid;
                let t = Position { x, y };
                let reg = old(self).registry.view();
                let i = first_id_match(reg, id_text@);
                &&& r is Err <==> !g.in_bounds(t) || tile_solid(g.tile_at(t)) || i == -1 || !reachable(g, reg[i].position, t)
                &&& r matches Err(e) ==> *final(self) == *old(self) && (if !g.in_bounds(t) {
                    e.is_bad_request("position out of bounds"@)
                } else if tile_solid(g.tile_at(t)) {
                    e.is_bad_request("target position is not walkable"@)
                } else if i == -1 {
                    e.is_not_found(not_found_text(id_text@))
                } else {
                    e.is_bad_request("no path to target position"@)
                })
                &&& r matches Ok(note) ==> {
                    let a = reg[i];
                    let a2 = final(self).registry.view()[i];
                    &&& final(self).registry.view() == reg.update(i, a2)
                    &&& walking_to(g, a, a2, AgentGoal::Wander(t), t)
                    &&& final(self).grid == g
                    &&& logged(old(self).observer, final(self).observer, a.id, ActivityKind::Movement, moving_text(t), now)
                    &&& note.agent == a.id && note.kind == ActivityKind::Movement && note.detail@ == moving_text(t)
                }
            }),
    {
        let target = Position::new(x, y);
        match self.grid.get(target) {
            None => {
                return Err(ApiError::BadRequest(String::from_str("position out of bounds")));
            },
            Some(cell) => {
                if cell.tile.is_solid() {
                    return Err(ApiError::BadRequest(String::from_str("target position is not walkable")));
                }
            },
        }
        let i = match self.lookup(id_text) {
            Ok(i) => i,
            Err(e) => return Err(e),
        };
        let path = match self.route(i, target) {
            Some(p) => p,
            None => {
                return Err(ApiError::BadRequest(String::from_str("no path to target position")));
            },
        };
        let id = self.registry.at(i).id;
        self.start_walking(i, AgentGoal::Wander(target), path);
        let mut detail = String::from_str("Moving to ");
        let ps = pos_string(target);
        append(&mut detail, ps.as_str());
        Ok(self.note(id, ActivityKind::Movement, detail, now))
    }

    /// Sends the agent that `id_text` names next to the furniture at `t`, of
    /// kind `tile`, which the goal `name` asked for: to the first walkable
    /// neighbour of `t`, trying left, below, right and above.
    pub fn head_to(&mut self, id_text: &str, name: &str, tile: Tile, t: Position, now: i64) -> (r: Result<ActivityNote, ApiError>)
        requires
            old(self).wf(),
        ensures
            head_to_post(*old(self), *final(self), id_text@, name@, tile, t, now, r),
    {
        let adj = match self.grid.find_adjacent_floor(t) {
            Some(p) => p,
            None => {
                return Err(ApiError::ServiceUnavailable(String::from_str("no adjacent floor available")));
            },
        };
        let i = match self.lookup(id_text) {
            Ok(i) => i,
            Err(e) => return Err(e),
        };
        let path = match self.route(i, adj) {
            Some(p) => p,
            None => {
                return Err(ApiError::BadRequest(String::from_str("no path to target")));
            },
        };
        let id = self.registry.at(i).id;
        let goal = goal_toward(tile, t);
        self.start_walking(i, goal, path);
        let mut detail = String::from_str("Goal: ");
        append(&mut detail, name);
        Ok(self.note(id, ActivityKind::GoalAssigned, detail, now))
    }

    /// Sends the agent that `id_text` names wandering to the floor `t`; when
    /// no path leads there the agent stays as it is.
    pub fn wander_to(&mut self, id_text: &str, t: Position, now: i64) -> (r: Result<ActivityNote, ApiError>)
        requires
            old(self).wf(),
        ensures
            wander_post(*old(self), *final(self), id_text@, t, now, r),
    {
        let i = match self.lookup(id_text) {
            Ok(i) => i,
            Err(e) => return Err(e),
        };
        let id = self.registry.at(i).id;
        match self.route(i, t) {
            Some(path) => {
                self.start_walking(i, AgentGoal::Wander(t), path);
            },
            None => {
                proof {
                    assert(self.registry.view() =~= old(self).registry.view().update(i as int, self.registry.view()[i as int]));
                }
            },
        }
        let mut detail = String::from_str("Goal: ");
        append(&mut detail, "wander");
        Ok(self.note(id, ActivityKind::GoalAssigned, detail, now))
    }

    /// Gives the agent that `id_text` names the goal `goal`: a wander to a
    /// random empty floor, or a walk to a random piece of the named furniture.
    /// The result names the furniture position when there is one.
    pub fn set_agent_goal(&mut self, id_text: &str, goal: &str, now: i64) -> (r: Result<(Option<Position>, ActivityNote), ApiError>)
        requires
            old(self).wf(),
        ensures
            final(self).wf(),
            match goal_named(goal@) {
                None => r matches Err(e) && e.is_bad_request(unknown_goal_text(goal@)) && *final(self) == *old(self),
                Some(GoalPlan::Wander) => if !(exists|p: Position| old(self).grid.empty_floor_at(p)) {
                    r matches Err(e) && e.is_unavailable("no empty floor"@) && *final(self) == *old(self)
                } else {
                    &&& r matches Ok((dest, _)) ==> dest is None
                    &&& exists|t: Position|
                        old(self).grid.empty_floor_at(t) && #[trigger] wander_post(
                            *old(self),
                            *final(self),
                            id_text@,
                            t,
                            now,
                            note_of(r),
                        )
                },
                Some(GoalPlan::Visit(tile)) => if !(exists|p: Position| old(self).grid.in_bounds(p) && old(self).grid.tile_at(p) == tile) {
                    r matches Err(e) && e.is_not_found(no_tile_text(goal@)) && *final(self) == *old(self)
                } else {
                    exists|t: Position| {
                        &&& old(self).grid.in_bounds(t)
                        &&& old(self).grid.tile_at(t) == tile
                        &&& r matches Ok((dest, _)) ==> dest == Some(t)
                        &&& #[trigger] head_to_post(*old(self), *final(self), id_text@, goal@, tile, t, now, note_of(r))
                    }
                },
            },
    {
        let plan = match parse_goal(goal) {
            Ok(p) => p,
            Err(e) => return Err(e),
        };
        match plan {
            GoalPlan::Wander => {
                let t = match self.grid.find_empty_floor() {
                    Some(p) => p,
                    None => {
                        return Err(ApiError::ServiceUnavailable(String::from_str("no empty floor")));
                    },
                };
                let r = self.wander_to(id_text, t, now);
                match r {
                    Ok(n) => Ok((None, n)),
                    Err(e) => Err(e),
                }
            },
            GoalPlan::Visit(tile) => {
                let targets = self.grid.find_tiles(&tile);
                if targets.len() == 0 {
                    proof {
                        assert forall|p: Position| !(old(self).grid.in_bounds(p) && old(self).grid.tile_at(p) == tile) by {
                            if old(self).grid.in_bounds(p) && old(self).grid.tile_at(p) == tile {
                                assert(targets@.contains(p));
                            }
                        }
                    }
                    let mut m = String::from_str("no ");
                    append(&mut m, goal);
                    append(&mut m, " found in world");
                    return Err(ApiError::NotFound(m));
                }
                let k = random_below(targets.len());
                let t = targets[k];
                proof {
                    assert(targets@.contains(t));
                    assert(self.grid.in_bounds(t) && self.grid.tile_at(t) == tile);
                }
                let r = self.head_to(id_text, goal, tile, t, now);
                match r {
                    Ok(n) => Ok((Some(t), n)),
                    Err(e) => Err(e),
                }
            },
        }
    }
}

} // verus!
