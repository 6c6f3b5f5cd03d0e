use vstd::prelude::*;
use std::collections::VecDeque;
use crate::agent::message::{last_n, AgentMessage};
use crate::agent::registry::{first_id_match, has_id, index_of_id, AgentRegistry};
use crate::agent::types::{fresh_agent, short_id_text, state_label, Agent, AgentId, AgentKind, AgentState, AnimState};
use crate::api::observability::{ActivityKind, AgentObserver};
use crate::error::ApiError;
use crate::text::{append, decimal, decimal_text, str_eq, trim, trimmed};
use vstd::string::StrSliceExecFns;
use crate::world::grid::{cell_index, Grid};
use crate::world::position::Position;
use crate::world::tile::Cell;

verus! {

/// An activity entry that an operation recorded, handed back so that it can
/// also be written to the database.
#[derive(Debug)]
pub struct ActivityNote {
    pub agent: AgentId,
    pub kind: ActivityKind,
    pub detail: String,
}

/// The world as the API sees it: the agents, the grid and the observability
/// store.
pub struct ApiState {
    pub registry: AgentRegistry,
    pub grid: Grid,
    pub observer: AgentObserver,
}

/// `o2` is `o` with one entry (`now`, `kind`, `detail`) appended to the log of
/// `id`, and nothing else changed.
pub open spec fn logged(o: AgentObserver, o2: AgentObserver, id: AgentId, kind: ActivityKind, detail: Seq<char>, now: i64) -> bool {
    &&& o2.wf()
    &&& o2.max_activity() == o.max_activity()
    &&& o2.max_tasks() == o.max_tasks()
    &&& o2.activity_view(id) == last_n(o.activity_view(id).push((now, kind, detail)), o.max_activity() as int)
    &&& forall|k: AgentId| k != id ==> #[trigger] o2.activity_of(k) == o.activity_of(k)
    &&& forall|k: AgentId| #[trigger] o2.heartbeat_of(k) == o.heartbeat_of(k)
    &&& forall|k: AgentId| #[trigger] o2.tasks_of(k) == o.tasks_of(k)
}

/// `(x,y)` in decimal.
pub open spec fn pos_text(p: Position) -> Seq<char> {
    "("@ + decimal_text(p.x as nat) + ","@ + decimal_text(p.y as nat) + ")"@
}

pub open spec fn not_found_text(id_text: Seq<char>) -> Seq<char> {
    "agent '"@ + id_text + "' not found"@
}

pub open spec fn connected_text(name: Seq<char>, p: Position) -> Seq<char> {
    "Agent '"@ + name + "' connected at "@ + pos_text(p)
}

pub open spec fn unknown_state_text(s: Seq<char>) -> Seq<char> {
    "unknown state '"@ + s
        + "'. Valid: idle, walking, thinking, working, messaging, eating, exercising, playing, error, offline"@
}

pub open spec fn state_change_text(s: Seq<char>) -> Seq<char> {
    "State → "@ + s
}

pub open spec fn renamed_text(name: Seq<char>) -> Seq<char> {
    "Renamed to '"@ + name + "'"@
}

/// The kind of an agent connecting over the API: external when it gives an
/// endpoint for push delivery, local otherwise.
pub open spec fn kind_for_endpoint(endpoint: Option<String>) -> AgentKind {
    match endpoint {
        Some(ep) => AgentKind::External { endpoint: ep },
        None => AgentKind::Local,
    }
}

/// The state named by `s`, if any.
pub open spec fn state_named(s: Seq<char>) -> Option<AgentState> {
    if s == state_label(AgentState::Idle) {
        Some(AgentState::Idle)
    } else if s == state_label(AgentState::Walking) {
        Some(AgentState::Walking)
    } else if s == state_label(AgentState::Thinking) {
        Some(AgentState::Thinking)
    } else if s == state_label(AgentState::Working) {
        Some(AgentState::Working)
    } else if s == state_label(AgentState::Messaging) {
        Some(AgentState::Messaging)
    } else if s == state_label(AgentState::Eating) {
        Some(AgentState::Eating)
    } else if s == state_label(AgentState::Exercising) {
        Some(AgentState::Exercising)
    } else if s == state_label(AgentState::Playing) {
        Some(AgentState::Playing)
    } else if s == state_label(AgentState::Error) {
        Some(AgentState::Error)
    } else if s == state_label(AgentState::Offline) {
        Some(AgentState::Offline)
    } else {
        None
    }
}

/// The state named by `s`; an unknown name is a bad request.
pub fn parse_agent_state(s: &str) -> (r: Result<AgentState, ApiError>)
    ensures
        r matches Ok(st) ==> state_named(s@) == Some(st),
        r matches Err(e) ==> state_named(s@) is None && e.is_bad_request(unknown_state_text(s@)),
{
    if str_eq(s, "idle") {
        Ok(AgentState::Idle)
    } else if str_eq(s, "walking") {
        Ok(AgentState::Walking)
    } else if str_eq(s, "thinking") {
        Ok(AgentState::Thinking)
    } else if str_eq(s, "working") {
        Ok(AgentState::Working)
    } else if str_eq(s, "messaging") {
        Ok(AgentState::Messaging)
    } else if str_eq(s, "eating") {
        Ok(AgentState::Eating)
    } else if str_eq(s, "exercising") {
        Ok(AgentState::Exercising)
    } else if str_eq(s, "playing") {
        Ok(AgentState::Playing)
    } else if str_eq(s, "error") {
        Ok(AgentState::Error)
    } else if str_eq(s, "offline") {
        Ok(AgentState::Offline)
    } else {
        let mut m = String::from_str("unknown state '");
        append(&mut m, s);
        append(
            &mut m,
            "'. Valid: idle, walking, thinking, working, messaging, eating, exercising, playing, error, offline",
        );
        Err(ApiError::BadRequest(m))
    }
}

/// `(x,y)` in decimal.
pub fn pos_string(p: Position) -> (s: String)
    ensures
        s@ == pos_text(p),
{
    let mut s = String::from_str("(");
    let x = decimal(p.x as u64);
    append(&mut s, x.as_str());
    append(&mut s, ",");
    let y = decimal(p.y as u64);
    append(&mut s, y.as_str());
    append(&mut s, ")");
    s
}

/// The not-found error for an identity text.
pub fn agent_not_found(id_text: &str) -> (e: ApiError)
    ensures
        e.is_not_found(not_found_text(id_text@)),
{
    let mut m = String::from_str("agent '");
    append(&mut m, id_text);
    append(&mut m, "' not found");
    ApiError::NotFound(m)
}

/// Agent `a2` is `a` after the API set its state to `st`: the animation
/// counter restarts, and going idle clears the route and the goal.
pub open spec fn after_state_set(a: Agent, a2: Agent, st: AgentState) -> bool {
    &&& a2 == Agent {
        state: st,
        last_activity: a2.last_activity,
        anim: AnimState { activity_ticks: 0, ..a.anim },
        path: a2.path,
        goal: if st == AgentState::Idle { None } else { a.goal },
        ..a
    }
    &&& a2.path@ == (if st == AgentState::Idle { Seq::empty() } else { a.path@ })
}

/// Most messages kept in an agent's inbox; the oldest are dropped first.
pub const INBOX_CAP: usize = 500;

/// Where messages for an agent of this kind are pushed: its endpoint, if any.
pub open spec fn endpoint_of(k: AgentKind) -> Option<Seq<char>> {
    match k {
        AgentKind::External { endpoint } => Some(endpoint@),
        AgentKind::OpenCrabs { endpoint } => Some(endpoint@),
        AgentKind::Local => None,
    }
}

/// The text of an optional string.
pub open spec fn opt_text(o: Option<String>) -> Option<Seq<char>> {
    match o {
        Some(s) => Some(s@),
        None => None,
    }
}

/// Agent `a2` is `a` after it said `text`: the bubble shows the text, the
/// agent is messaging and its animation counter restarts; the inbox is left
/// to the caller to describe.
pub open spec fn spoke(a: Agent, a2: Agent, text: Seq<char>) -> bool {
    &&& a2 == Agent {
        speech: a2.speech,
        state: AgentState::Messaging,
        last_activity: a2.last_activity,
        anim: AnimState { activity_ticks: 0, ..a.anim },
        inbox: a2.inbox,
        ..a
    }
    &&& a2.speech matches Some(sp) && sp@ == text
}

/// `m` is the inbox entry of a message `text` from `from` to `to` written at `now`.
pub open spec fn is_message(m: AgentMessage, from: AgentId, to: AgentId, text: Seq<char>, now: i64) -> bool {
    &&& m.from == from
    &&& m.to == to
    &&& m.text@ == text
    &&& m.timestamp == now
}

/// The inbox `after` is `before` with the message appended and the oldest
/// messages beyond the cap dropped.
pub open spec fn inbox_received(before: Seq<AgentMessage>, after: Seq<AgentMessage>, from: AgentId, to: AgentId, text: Seq<char>, now: i64) -> bool {
    exists|m: AgentMessage| is_message(m, from, to, text, now) && after == last_n(#[trigger] before.push(m), INBOX_CAP as int)
}

/// At most the first eight characters of `s`.
pub open spec fn prefix8(s: Seq<char>) -> Seq<char> {
    if s.len() < 8 { s } else { s.take(8) }
}

pub open spec fn sent_text(to: Seq<char>, text: Seq<char>) -> Seq<char> {
    "Sent to "@ + prefix8(to) + ": "@ + text
}

pub open spec fn received_text(from: AgentId, text: Seq<char>) -> Seq<char> {
    "From "@ + short_id_text(from.0) + ": "@ + text
}

pub open spec fn speech_text(text: Seq<char>) -> Seq<char> {
    "Speech: "@ + text
}

/// `o2` is `o` with an entry logged for `id1` and then one for `id2`.
pub open spec fn logged_twice(
    o: AgentObserver,
    o2: AgentObserver,
    id1: AgentId,
    kind1: ActivityKind,
    detail1: Seq<char>,
    id2: AgentId,
    kind2: ActivityKind,
    detail2: Seq<char>,
    now: i64,
) -> bool {
    exists|mid: AgentObserver| #[trigger] logged(o, mid, id1, kind1, detail1, now) && logged(mid, o2, id2, kind2, detail2, now)
}

/// What a message request did.
#[derive(Debug)]
pub struct MessageOutcome {
    pub sender: AgentId,
    /// The agent that got the message and the text that named it; `None` for
    /// a speech bubble.
    pub recipient: Option<(AgentId, String)>,
    /// Where the message is to be pushed, for a recipient with an endpoint.
    pub webhook: Option<String>,
    /// The activity entries recorded, in order.
    pub notes: Vec<ActivityNote>,
}

/// Appends `msg` to an inbox, dropping the oldest messages beyond the cap.
fn push_capped(inbox: &mut VecDeque<AgentMessage>, msg: AgentMessage)
    ensures
        final(inbox)@ == last_n(old(inbox)@.push(msg), INBOX_CAP as int),
{
    inbox.push_back(msg);
    let ghost s = inbox@;
    while inbox.len() > INBOX_CAP
        invariant
            inbox@.len() <= s.len(),
            inbox@ == s.subrange(s.len() - inbox@.len(), s.len() as int),
            s.len() > INBOX_CAP ==> inbox@.len() >= INBOX_CAP,
            s.len() <= INBOX_CAP ==> inbox@.len() == s.len(),
        decreases inbox@.len(),
    {
        inbox.pop_front();
    }
    proof {
        if s.len() <= INBOX_CAP {
            assert(inbox@ =~= s);
        }
    }
}

/// Shows `text` in the agent's bubble and sets it messaging.
fn speak(agent: &mut Agent, text: &str)
    ensures
        spoke(*old(agent), *final(agent), text@),
        final(agent).inbox == old(agent).inbox,
{
    agent.say(text);
    agent.set_state(AgentState::Messaging);
    agent.anim.activity_ticks = 0;
}

/// The endpoint that messages for an agent of kind `k` are pushed to.
fn endpoint_for(k: &AgentKind) -> (r: Option<String>)
    ensures
        opt_text(r) == endpoint_of(*k),
{
    match k {
        AgentKind::External { endpoint } => Some(endpoint.clone()),
        AgentKind::OpenCrabs { endpoint } => Some(endpoint.clone()),
        AgentKind::Local => None,
    }
}

impl ApiState {
    pub open spec fn wf(&self) -> bool {
        &&& self.registry.wf()
        &&& self.grid.wf()
        &&& self.observer.wf()
    }

    /// An empty world on `grid`, keeping at most `max_activity` log entries and
    /// `max_tasks` task records per agent.
    pub fn new(grid: Grid, max_activity: usize, max_tasks: usize) -> (s: ApiState)
        requires
            grid.wf(),
        ensures
            s.wf(),
            s.grid == grid,
            s.registry.view() == Seq::<Agent>::empty(),
            s.observer.max_activity() == max_activity,
            s.observer.max_tasks() == max_tasks,
    {
        ApiState { registry: AgentRegistry::new(), grid, observer: AgentObserver::new(max_activity, max_tasks) }
    }

    /// Records an entry in the activity log of `agent` and hands back a copy.
    pub(crate) fn note(&mut self, agent: AgentId, kind: ActivityKind, detail: String, now: i64) -> (n: ActivityNote)
        requires
            old(self).wf(),
        ensures
            final(self).wf(),
            final(self).registry == old(self).registry,
            final(self).grid == old(self).grid,
            logged(old(self).observer, final(self).observer, agent, kind, detail@, now),
            n.agent == agent,
            n.kind == kind,
            n.detail@ == detail@,
    {
        let copy = detail.clone();
        self.observer.record_activity_at(agent, kind, detail, now);
        ActivityNote { agent, kind, detail: copy }
    }

    /// The registration index of the agent that an identity text names.
    pub(crate) fn lookup(&self, id_text: &str) -> (r: Result<usize, ApiError>)
        requires
            self.wf(),
        ensures
            r matches Ok(i) ==> i as int == first_id_match(self.registry.view(), id_text@) && i < self.registry.view().len(),
            r matches Err(e) ==> first_id_match(self.registry.view(), id_text@) == -1
                && e.is_not_found(not_found_text(id_text@)),
    {
        match self.registry.index_by_id_text(id_text) {
            Some(i) => Ok(i),
            None => Err(agent_not_found(id_text)),
        }
    }

    /// Connects a new agent called `name` on a random empty floor; with an
    /// endpoint it is an external agent that gets messages pushed there.
    pub fn connect_agent(&mut self, name: &str, endpoint: Option<String>, now: i64) -> (r: Result<(AgentId, Position, ActivityNote), ApiError>)
        requires
            old(self).wf(),
        ensures
            final(self).wf(),
            r is Err <==> !(exists|p: Position| old(self).grid.empty_floor_at(p)),
            r matches Err(e) ==> *final(self) == *old(self) && e.is_unavailable("no empty floor available"@),
            r matches Ok((id, pos, note)) ==> {
                let reg = final(self).registry.view();
                let a = reg[index_of_id(reg, id)];
                &&& old(self).grid.empty_floor_at(pos)
                &&& final(self).grid.width == old(self).grid.width
                &&& final(self).grid.height == old(self).grid.height
                &&& final(self).grid.spec_cells() == old(self).grid.spec_cells().update(
                    cell_index(old(self).grid.width, pos),
                    Cell { tile: old(self).grid.tile_at(pos), occupant: Some(id) },
                )
                &&& has_id(reg, id)
                &&& a.id == id && a.name@ == name@ && a.position == pos && a.color_index < 8
                &&& a.kind == kind_for_endpoint(endpoint)
                &&& fresh_agent(a)
                &&& reg == (if has_id(old(self).registry.view(), id) {
                    old(self).registry.view().update(index_of_id(old(self).registry.view(), id), a)
                } else {
                    old(self).registry.view().push(a)
                })
                &&& logged(old(self).observer, final(self).observer, id, ActivityKind::Spawned, connected_text(name@, pos), now)
                &&& note.agent == id && note.kind == ActivityKind::Spawned && note.detail@ == connected_text(name@, pos)
            },
    {
        let position = match self.grid.find_empty_floor() {
            Some(p) => p,
            None => {
                return Err(ApiError::ServiceUnavailable(String::from_str("no empty floor available")));
            },
        };
        let kind = match endpoint {
            Some(ep) => AgentKind::External { endpoint: ep },
            None => AgentKind::Local,
        };
        let agent = Agent::new(name, kind, position);
        let agent_id = agent.id;
        let ghost a = agent;
        let placed = self.grid.place_agent(position, agent_id);
        assert(placed);
        let ghost before = self.registry.view();
        self.registry.register(agent);
        proof {
            let reg = self.registry.view();
            if has_id(before, agent_id) {
                let j = index_of_id(before, agent_id);
                self.registry.lemma_index_of_own_id(j);
            } else {
                self.registry.lemma_index_of_own_id(reg.len() - 1);
            }
        }
        let mut detail = String::from_str("Agent '");
        append(&mut detail, name);
        append(&mut detail, "' connected at ");
        let ps = pos_string(position);
        append(&mut detail, ps.as_str());
        let note = self.note(agent_id, ActivityKind::Spawned, detail, now);
        Ok((agent_id, position, note))
    }

    /// Places a new local agent called `name` on a random empty floor, as the
    /// world's starting population is placed: nothing is logged. `None` when no
    /// empty floor is left.
    pub fn spawn_agent(&mut self, name: &str) -> (r: Option<(AgentId, Position)>)
        requires
            old(self).wf(),
        ensures
            final(self).wf(),
            r is None <==> !(exists|p: Position| old(self).grid.empty_floor_at(p)),
            r is None ==> *final(self) == *old(self),
            r matches Some((id, pos)) ==> {
                let reg = final(self).registry.view();
                let a = reg[index_of_id(reg, id)];
                &&& old(self).grid.empty_floor_at(pos)
                &&& final(self).grid.width == old(self).grid.width
                &&& final(self).grid.height == old(self).grid.height
                &&& final(self).grid.spec_cells() == old(self).grid.spec_cells().update(
                    cell_index(old(self).grid.width, pos),
                    Cell { tile: old(self).grid.tile_at(pos), occupant: Some(id) },
                )
                &&& has_id(reg, id)
                &&& a.id == id && a.name@ == name@ && a.position == pos && a.color_index < 8
                &&& a.kind == AgentKind::Local
                &&& fresh_agent(a)
                &&& reg == (if has_id(old(self).registry.view(), id) {
                    old(self).registry.view().update(index_of_id(old(self).registry.view(), id), a)
                } else {
                    old(self).registry.view().push(a)
                })
                &&& final(self).observer == old(self).observer
            },
    {
        let position = match self.grid.find_empty_floor() {
            Some(p) => p,
            None => {
                return None;
            },
        };
        let agent = Agent::new(name, AgentKind::Local, position);
        let agent_id = agent.id;
        let placed = self.grid.place_agent(position, agent_id);
        assert(placed);
        let ghost before = self.registry.view();
        self.registry.register(agent);
        proof {
            let reg = self.registry.view();
            if has_id(before, agent_id) {
                self.registry.lemma_index_of_own_id(index_of_id(before, agent_id));
            } else {
                self.registry.lemma_index_of_own_id(reg.len() - 1);
            }
        }
        Some((agent_id, position))
    }

    /// Disconnects the agent that `id_text` names: it leaves the grid cell at
    /// its position, the registry and the observability store.
    pub fn delete_agent(&mut self, id_text: &str, now: i64) -> (r: Result<(AgentId, ActivityNote), ApiError>)
        requires
            old(self).wf(),
        ensures
            final(self).wf(),
            r is Err <==> first_id_match(old(self).registry.view(), id_text@) == -1,
            r matches Err(e) ==> *final(self) == *old(self) && e.is_not_found(not_found_text(id_text@)),
            r matches Ok((id, note)) ==> {
                let i = first_id_match(old(self).registry.view(), id_text@);
                let a = old(self).registry.view()[i];
                let g = old(self).grid;
                &&& id == a.id
                &&& final(self).registry.view() == old(self).registry.view().remove(i)
                &&& final(self).grid.width == g.width
                &&& final(self).grid.height == g.height
                &&& g.in_bounds(a.position) ==> final(self).grid.spec_cells() == g.spec_cells().update(
                    cell_index(g.width, a.position),
                    Cell { tile: g.tile_at(a.position), occupant: None },
                )
                &&& !g.in_bounds(a.position) ==> final(self).grid.spec_cells() == g.spec_cells()
                &&& final(self).observer.activity_of(id).len() == 0
                &&& final(self).observer.heartbeat_of(id) is None
                &&& final(self).observer.tasks_of(id).len() == 0
                &&& forall|k: AgentId| k != id ==> #[trigger] final(self).observer.activity_of(k) == old(self).observer.activity_of(k)
                &&& forall|k: AgentId| k != id ==> #[trigger] final(self).observer.heartbeat_of(k) == old(self).observer.heartbeat_of(k)
                &&& forall|k: AgentId| k != id ==> #[trigger] final(self).observer.tasks_of(k) == old(self).observer.tasks_of(k)
                &&& note.agent == id && note.kind == ActivityKind::Removed && note.detail@ == "Agent disconnected"@
            },
    {
        let i = match self.lookup(id_text) {
            Ok(i) => i,
            Err(e) => return Err(e),
        };
        let target = self.registry.at(i).id;
        let position = self.registry.at(i).position;
        proof {
            self.registry.lemma_index_of_own_id(i as int);
        }
        self.grid.remove_agent(position);
        self.registry.remove(&target);
        let note = self.note(target, ActivityKind::Removed, String::from_str("Agent disconnected"), now);
        let ghost mid = self.observer;
        self.observer.remove_agent(&target);
        proof {
            assert forall|k: AgentId| k != target implies #[trigger] self.observer.activity_of(k) == old(self).observer.activity_of(k) by {
                assert(mid.activity_of(k) == old(self).observer.activity_of(k));
            }
        }
        Ok((target, note))
    }

    /// Sets the state of the agent that `id_text` names.
    pub fn set_agent_state(&mut self, id_text: &str, state: &str, now: i64) -> (r: Result<(AgentState, ActivityNote), ApiError>)
        requires
            old(self).wf(),
        ensures
            final(self).wf(),
            r is Err <==> state_named(state@) is None || first_id_match(old(self).registry.view(), id_text@) == -1,
            r matches Err(e) ==> *final(self) == *old(self) && (if state_named(state@) is None {
                e.is_bad_request(unknown_state_text(state@))
            } else {
                e.is_not_found(not_found_text(id_text@))
            }),
            r matches Ok((st, note)) ==> {
                let i = first_id_match(old(self).registry.view(), id_text@);
                let a = old(self).registry.view()[i];
                let a2 = final(self).registry.view()[i];
                &&& state_named(state@) == Some(st)
                &&& final(self).registry.view() == old(self).registry.view().update(i, a2)
                &&& after_state_set(a, a2, st)
                &&& final(self).grid == old(self).grid
                &&& logged(old(self).observer, final(self).observer, a.id, ActivityKind::StateChange, state_change_text(state@), now)
                &&& note.agent == a.id && note.kind == ActivityKind::StateChange && note.detail@ == state_change_text(state@)
            },
    {
        let new_state = match parse_agent_state(state) {
            Ok(s) => s,
            Err(e) => return Err(e),
        };
        let i = match self.lookup(id_text) {
            Ok(i) => i,
            Err(e) => return Err(e),
        };
        let id = self.registry.at(i).id;
        proof {
            self.registry.lemma_index_of_own_id(i as int);
        }
        let ghost a = self.registry.view()[i as int];
        match self.registry.get_mut(&id) {
            Some(agent) => {
                agent.set_state(new_state);
                agent.anim.activity_ticks = 0;
                if new_state == AgentState::Idle {
                    agent.path.clear();
                    agent.goal = None;
                }
            },
            None => {},
        }
        let mut detail = String::from_str("State → ");
        append(&mut detail, state);
        let note = self.note(id, ActivityKind::StateChange, detail, now);
        Ok((new_state, note))
    }

    /// Renames the agent that `id_text` names; the new name is `name` without
    /// surrounding white space and must not be empty.
    pub fn rename_agent(&mut self, id_text: &str, name: &str, now: i64) -> (r: Result<(String, ActivityNote), ApiError>)
        requires
            old(self).wf(),
        ensures
            final(self).wf(),
            r is Err <==> trimmed(name@).len() == 0 || first_id_match(old(self).registry.view(), id_text@) == -1,
            r matches Err(e) ==> *final(self) == *old(self) && (if trimmed(name@).len() == 0 {
                e.is_bad_request("name cannot be empty"@)
            } else {
                e.is_not_found(not_found_text(id_text@))
            }),
            r matches Ok((new_name, note)) ==> {
                let i = first_id_match(old(self).registry.view(), id_text@);
                let a = old(self).registry.view()[i];
                let a2 = final(self).registry.view()[i];
                &&& new_name@ == trimmed(name@)
                &&& a2 == Agent { name: a2.name, ..a }
                &&& a2.name@ == trimmed(name@)
                &&& final(self).registry.view() == old(self).registry.view().update(i, a2)
                &&& final(self).grid == old(self).grid
                &&& logged(old(self).observer, final(self).observer, a.id, ActivityKind::StateChange, renamed_text(trimmed(name@)), now)
                &&& note.agent == a.id && note.kind == ActivityKind::StateChange && note.detail@ == renamed_text(trimmed(name@))
            },
    {
        let new_name = trim(name);
        if new_name.as_str().unicode_len() == 0 {
            return Err(ApiError::BadRequest(String::from_str("name cannot be empty")));
        }
        let i = match self.lookup(id_text) {
            Ok(i) => i,
            Err(e) => return Err(e),
        };
        let id = self.registry.at(i).id;
        proof {
            self.registry.lemma_index_of_own_id(i as int);
        }
        let stored = new_name.clone();
        match self.registry.get_mut(&id) {
            Some(agent) => {
                agent.name = stored;
            },
            None => {},
        }
        let mut detail = String::from_str("Renamed to '");
        append(&mut detail, new_name.as_str());
        append(&mut detail, "'");
        let note = self.note(id, ActivityKind::StateChange, detail, now);
        Ok((new_name, note))
    }
    /// Sends `text` from the agent that `id_text` names: to the agent that
    /// `to` names, into its inbox and bubble, or, without `to`, as a speech
    /// bubble of the sender.
    pub fn send_agent_message(&mut self, id_text: &str, to: Option<&str>, text: &str, now: i64) -> (r: Result<MessageOutcome, ApiError>)
        requires
            old(self).wf(),
        ensures
            final(self).wf(),
            ({
                let reg = old(self).registry.view();
                let i = first_id_match(reg, id_text@);
                r is Err <==> i == -1 || (to matches Some(t) && first_id_match(reg, t@) == -1)
            }),
            r matches Err(e) ==> *final(self) == *old(self) && (if first_id_match(old(self).registry.view(), id_text@) == -1 {
                e.is_not_found(not_found_text(id_text@))
            } else {
                to matches Some(t) && e.is_not_found(not_found_text(t@))
            }),
            r matches Ok(out) ==> {
                let reg = old(self).registry.view();
                let reg2 = final(self).registry.view();
                let i = first_id_match(reg, id_text@);
                let sender = reg[i].id;
                &&& out.sender == sender
                &&& final(self).grid == old(self).grid
                &&& match to {
                    Some(t) => {
                        let j = first_id_match(reg, t@);
                        let b = reg[j];
                        let b2 = reg2[j];
                        &&& out.recipient matches Some((rid, rt)) && rid == b.id && rt@ == t@
                        &&& reg2 == reg.update(j, b2)
                        &&& spoke(b, b2, text@)
                        &&& inbox_received(b.inbox@, b2.inbox@, sender, b.id, text@, now)
                        &&& opt_text(out.webhook) == endpoint_of(b.kind)
                        &&& logged_twice(
                            old(self).observer,
                            final(self).observer,
                            sender,
                            ActivityKind::MessageSent,
                            sent_text(t@, text@),
                            b.id,
                            ActivityKind::MessageReceived,
                            received_text(sender, text@),
                            now,
                        )
                        &&& out.notes@.len() == 2
                        &&& out.notes@[0].agent == sender && out.notes@[0].kind == ActivityKind::MessageSent
                        &&& out.notes@[0].detail@ == sent_text(t@, text@)
                        &&& out.notes@[1].agent == b.id && out.notes@[1].kind == ActivityKind::MessageReceived
                        &&& out.notes@[1].detail@ == received_text(sender, text@)
                    },
                    None => {
                        let a2 = reg2[i];
                        &&& out.recipient is None
                        &&& out.webhook is None
                        &&& reg2 == reg.update(i, a2)
                        &&& spoke(reg[i], a2, text@)
                        &&& a2.inbox == reg[i].inbox
                        &&& logged(old(self).observer, final(self).observer, sender, ActivityKind::MessageSent, speech_text(text@), now)
                        &&& out.notes@.len() == 1
                        &&& out.notes@[0].agent == sender && out.notes@[0].kind == ActivityKind::MessageSent
                        &&& out.notes@[0].detail@ == speech_text(text@)
                    },
                }
            },
    {
        let i = match self.lookup(id_text) {
            Ok(i) => i,
            Err(e) => return Err(e),
        };
        match to {
            Some(t) => {
                let j = match self.lookup(t) {
                    Ok(j) => j,
                    Err(e) => return Err(e),
                };
                Ok(self.deliver(i, j, t, text, now))
            },
            None => Ok(self.speak_aloud(i, text, now)),
        }
    }

    /// Delivers `text` from agent `i` to agent `j`, which `t` named.
    fn deliver(&mut self, i: usize, j: usize, t: &str, text: &str, now: i64) -> (out: MessageOutcome)
        requires
            old(self).wf(),
            i < old(self).registry.view().len(),
            j < old(self).registry.view().len(),
        ensures
            final(self).wf(),
            ({
                let reg = old(self).registry.view();
                let reg2 = final(self).registry.view();
                let sender = reg[i as int].id;
                let b = reg[j as int];
                let b2 = reg2[j as int];
                &&& out.sender == sender
                &&& final(self).grid == old(self).grid
                &&& out.recipient matches Some((rid, rt)) && rid == b.id && rt@ == t@
                &&& reg2 == reg.update(j as int, b2)
                &&& spoke(b, b2, text@)
                &&& inbox_received(b.inbox@, b2.inbox@, sender, b.id, text@, now)
                &&& opt_text(out.webhook) == endpoint_of(b.kind)
                &&& logged_twice(
                    old(self).observer,
                    final(self).observer,
                    sender,
                    ActivityKind::MessageSent,
                    sent_text(t@, text@),
                    b.id,
                    ActivityKind::MessageReceived,
                    received_text(sender, text@),
                    now,
                )
                &&& out.notes@.len() == 2
                &&& out.notes@[0].agent == sender && out.notes@[0].kind == ActivityKind::MessageSent
                &&& out.notes@[0].detail@ == sent_text(t@, text@)
                &&& out.notes@[1].agent == b.id && out.notes@[1].kind == ActivityKind::MessageReceived
                &&& out.notes@[1].detail@ == received_text(sender, text@)
            }),
    {
        let sender = self.registry.at(i).id;
        let target = self.registry.at(j).id;
        proof {
            self.registry.lemma_index_of_own_id(j as int);
        }
        let ghost b = self.registry.view()[j as int];
        let msg = AgentMessage { from: sender, to: target, text: String::from_str(text), timestamp: now };
        let ghost m = msg;
        let mut webhook: Option<String> = None;
        match self.registry.get_mut(&target) {
            Some(agent) => {
                speak(agent, text);
                push_capped(&mut agent.inbox, msg);
                webhook = endpoint_for(&agent.kind);
            },
            None => {},
        }
        proof {
            let b2 = self.registry.view()[j as int];
            assert(is_message(m, sender, b.id, text@, now));
            assert(b2.inbox@ == last_n(b.inbox@.push(m), INBOX_CAP as int));
        }
        let mut sent = String::from_str("Sent to ");
        let len = t.unicode_len();
        let shown = if len < 8 { len } else { 8 };
        let prefix = t.substring_char(0, shown);
        proof {
            assert(prefix@ =~= prefix8(t@));
        }
        append(&mut sent, prefix);
        append(&mut sent, ": ");
        append(&mut sent, text);
        let ghost o0 = self.observer;
        let n1 = self.note(sender, ActivityKind::MessageSent, sent, now);
        let ghost o1 = self.observer;
        let mut received = String::from_str("From ");
        let short = sender.short_string();
        append(&mut received, short.as_str());
        append(&mut received, ": ");
        append(&mut received, text);
        let n2 = self.note(target, ActivityKind::MessageReceived, received, now);
        proof {
            assert(logged(o0, o1, sender, ActivityKind::MessageSent, sent_text(t@, text@), now));
        }
        let mut notes = Vec::new();
        notes.push(n1);
        notes.push(n2);
        MessageOutcome { sender, recipient: Some((target, String::from_str(t))), webhook, notes }
    }

    /// Shows `text` in the bubble of agent `i`.
    fn speak_aloud(&mut self, i: usize, text: &str, now: i64) -> (out: MessageOutcome)
        requires
            old(self).wf(),
            i < old(self).registry.view().len(),
        ensures
            final(self).wf(),
            ({
                let reg = old(self).registry.view();
                let reg2 = final(self).registry.view();
                let sender = reg[i as int].id;
                let a2 = reg2[i as int];
                &&& out.sender == sender
                &&& final(self).grid == old(self).grid
                &&& out.recipient is None
                &&& out.webhook is None
                &&& reg2 == reg.update(i as int, a2)
                &&& spoke(reg[i as int], a2, text@)
                &&& a2.inbox == reg[i as int].inbox
                &&& logged(old(self).observer, final(self).observer, sender, ActivityKind::MessageSent, speech_text(text@), now)
                &&& out.notes@.len() == 1
                &&& out.notes@[0].agent == sender && out.notes@[0].kind == ActivityKind::MessageSent
                &&& out.notes@[0].detail@ == speech_text(text@)
            }),
    {
        let sender = self.registry.at(i).id;
        proof {
            self.registry.lemma_index_of_own_id(i as int);
        }
        match self.registry.get_mut(&sender) {
            Some(agent) => {
                speak(agent, text);
            },
            None => {},
        }
        let mut detail = String::from_str("Speech: ");
        append(&mut detail, text);
        let n = self.note(sender, ActivityKind::MessageSent, detail, now);
        let mut notes = Vec::new();
        notes.push(n);
        MessageOutcome { sender, recipient: None, webhook: None, notes }
    }
}

} // verus!