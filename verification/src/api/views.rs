//! What the API shows of the world: agent lists, the tile map, an agent's
//! inbox, details, status and dashboard, and the health of the service.

use vstd::prelude::*;
use crate::agent::message::{last_n, AgentMessage};
use crate::agent::registry::{first_id_match, has_id, index_of_id};
use crate::agent::types::{goal_target, short_id_text, state_label, uuid_text, Agent, AgentGoal, AgentId, AgentKind};
use crate::api::observability::{entry_view, health_text, ActivityEntry, AgentObserver, HeartbeatInfo, TaskRecord};
use crate::api::service::{not_found_text, opt_text, pos_string, pos_text, ApiState};
use crate::api::types::{
    ActivityResponse, AgentStatusResponse, ApiAgent, ApiAgentDetail, ApiCell, DashboardResponse, HealthResponse, InboxMessage,
    InboxResponse, TaskHistoryResponse, TileMapResponse, WorldSnapshot,
};
use crate::error::ApiError;
use crate::text::{append, str_eq};
use crate::world::position::Position;
use crate::world::tile::{Cell, FloorKind, Tile, WallKind};

verus! {

/// How many entries a list request returns when it names no limit.
pub const DEFAULT_LIMIT: usize = 50;

/// How many entries of each kind a dashboard shows.
pub const DASHBOARD_LIMIT: usize = 20;

/// The debug text of a tile, as `derive(Debug)` writes it.
pub open spec fn tile_text(t: Tile) -> Seq<char> {
    match t {
        Tile::Floor(FloorKind::Wood) => "Floor(Wood)"@,
        Tile::Floor(FloorKind::Tile) => "Floor(Tile)"@,
        Tile::Floor(FloorKind::Carpet) => "Floor(Carpet)"@,
        Tile::Floor(FloorKind::Concrete) => "Floor(Concrete)"@,
        Tile::Wall(WallKind::Solid) => "Wall(Solid)"@,
        Tile::Wall(WallKind::Window) => "Wall(Window)"@,
        Tile::Rug => "Rug"@,
        Tile::DoorOpen => "DoorOpen"@,
        Tile::Desk => "Desk"@,
        Tile::VendingMachine => "VendingMachine"@,
        Tile::CoffeeMachine => "CoffeeMachine"@,
        Tile::Couch => "Couch"@,
        Tile::Plant => "Plant"@,
        Tile::PinballMachine => "PinballMachine"@,
        Tile::GymTreadmill => "GymTreadmill"@,
        Tile::Whiteboard => "Whiteboard"@,
        Tile::WeightBench => "WeightBench"@,
        Tile::YogaMat => "YogaMat"@,
        Tile::FloorLamp => "FloorLamp"@,
        Tile::MeetingTable => "MeetingTable"@,
        Tile::SmallArmchair => "SmallArmchair"@,
        Tile::ServerRack => "ServerRack"@,
        Tile::FileCabinet => "FileCabinet"@,
        Tile::KitchenCounter => "KitchenCounter"@,
        Tile::PingPongTableLeft => "PingPongTableLeft"@,
        Tile::PingPongTableRight => "PingPongTableRight"@,
    }
}

/// The name of a goal's variant.
pub open spec fn goal_name(g: AgentGoal) -> Seq<char> {
    match g {
        AgentGoal::GoToDesk(_) => "GoToDesk"@,
        AgentGoal::GoToVending(_) => "GoToVending"@,
        AgentGoal::GoToCoffee(_) => "GoToCoffee"@,
        AgentGoal::GoToPinball(_) => "GoToPinball"@,
        AgentGoal::GoToMeeting(_) => "GoToMeeting"@,
        AgentGoal::GoToGym(_) => "GoToGym"@,
        AgentGoal::GoToCouch(_) => "GoToCouch"@,
        AgentGoal::GoToServer(_) => "GoToServer"@,
        AgentGoal::Wander(_) => "Wander"@,
    }
}

/// The text of a goal: its name and target, such as `GoToDesk((4,3))`.
pub open spec fn goal_text_of(g: AgentGoal) -> Seq<char> {
    goal_name(g) + "("@ + pos_text(goal_target(g)) + ")"@
}

/// The name of an agent's kind: `OpenCrabs`, `External` or `Local`.
pub open spec fn kind_text(k: AgentKind) -> Seq<char> {
    match k {
        AgentKind::OpenCrabs { .. } => "OpenCrabs"@,
        AgentKind::External { .. } => "External"@,
        AgentKind::Local => "Local"@,
    }
}

/// `v` is the tile-map entry the API shows for cell `c`.
pub open spec fn shows_cell(c: Cell, v: ApiCell) -> bool {
    &&& v.tile@ == tile_text(c.tile)
    &&& v.occupant.is_some() == c.occupant.is_some()
    &&& (c.occupant matches Some(id) ==> v.occupant matches Some(o) && o@ == short_id_text(id.0))
}

/// `v` is the list entry the API shows for agent `a`.
pub open spec fn shows_agent(a: Agent, v: ApiAgent) -> bool {
    &&& v.id@ == short_id_text(a.id.0)
    &&& v.name@ == a.name@
    &&& v.state@ == state_label(a.state)
    &&& v.position == (a.position.x, a.position.y)
    &&& v.task_count == a.task_count
    &&& opt_text(v.speech) == opt_text(a.speech)
}

/// `v` lists the agents of `reg`, in registration order.
pub open spec fn shows_agents(reg: Seq<Agent>, v: Seq<ApiAgent>) -> bool {
    &&& v.len() == reg.len()
    &&& forall|k: int| 0 <= k < reg.len() ==> shows_agent(reg[k], #[trigger] v[k])
}

/// The name shown for the sender of a message: its name while it is
/// registered, otherwise its short identity.
pub open spec fn sender_name(reg: Seq<Agent>, from: AgentId) -> Seq<char> {
    if has_id(reg, from) {
        reg[index_of_id(reg, from)].name@
    } else {
        short_id_text(from.0)
    }
}

/// `v` is the inbox entry the API shows for message `m`.
pub open spec fn shows_message(reg: Seq<Agent>, m: AgentMessage, v: InboxMessage) -> bool {
    &&& v.from@ == uuid_text(m.from.0)
    &&& v.from_name@ == sender_name(reg, m.from)
    &&& v.text@ == m.text@
    &&& v.timestamp == m.timestamp
}

/// Whole seconds from `ts` to `now` (milliseconds), and 0 when `now` is not later.
pub open spec fn secs_since(now: int, ts: int) -> int {
    if now > ts {
        (now - ts) / 1000
    } else {
        0
    }
}

/// Seconds since the newest entry of an activity log, or 0 for an empty log.
pub open spec fn idle_secs(log: Seq<ActivityEntry>, now: int) -> int {
    if log.len() == 0 {
        0
    } else {
        secs_since(now, log.last().timestamp as int)
    }
}

/// `d` is the detail the API shows for agent `a`, observed by `o` at `now`.
pub open spec fn shows_detail(a: Agent, o: AgentObserver, now: i64, d: ApiAgentDetail) -> bool {
    &&& d.id@ == short_id_text(a.id.0)
    &&& d.name@ == a.name@
    &&& d.kind@ == kind_text(a.kind)
    &&& d.state@ == state_label(a.state)
    &&& d.position == (a.position.x, a.position.y)
    &&& d.task_count == a.task_count
    &&& opt_text(d.speech) == opt_text(a.speech)
    &&& d.goal.is_some() == a.goal.is_some()
    &&& (a.goal matches Some(g) ==> d.goal matches Some(t) && t@ == goal_text_of(g))
    &&& d.last_activity_secs_ago == idle_secs(o.activity_of(a.id), now as int)
    &&& d.connection_health@ == health_text(o.heartbeat_of(a.id), now as int)
}

/// The plain values of a task record.
pub open spec fn task_view(t: TaskRecord) -> (Seq<char>, i64, Seq<char>, i64, Option<Seq<char>>, Option<Seq<char>>) {
    (t.task_id@, t.submitted_at, t.state@, t.last_updated, opt_text(t.response_summary), opt_text(t.scope))
}

/// The plain values of a heartbeat.
pub open spec fn heartbeat_view(h: Option<HeartbeatInfo>) -> Option<(i64, Seq<char>, Option<Seq<char>>)> {
    match h {
        Some(b) => Some((b.last_seen, b.status@, opt_text(b.metadata))),
        None => None,
    }
}

/// `v` holds copies of the entries of `s`.
pub open spec fn copies_entries(s: Seq<ActivityEntry>, v: Seq<ActivityEntry>) -> bool {
    &&& v.len() == s.len()
    &&& forall|k: int| 0 <= k < s.len() ==> entry_view(#[trigger] v[k]) == entry_view(s[k])
}

/// `v` holds copies of the records of `s`.
pub open spec fn copies_tasks(s: Seq<TaskRecord>, v: Seq<TaskRecord>) -> bool {
    &&& v.len() == s.len()
    &&& forall|k: int| 0 <= k < s.len() ==> task_view(#[trigger] v[k]) == task_view(s[k])
}

pub(crate) fn copy_text(o: &Option<String>) -> (r: Option<String>)
    ensures
        opt_text(r) == opt_text(*o),
{
    match o {
        Some(s) => Some(s.clone()),
        None => None,
    }
}

fn copy_entry(e: &ActivityEntry) -> (c: ActivityEntry)
    ensures
        entry_view(c) == entry_view(*e),
{
    ActivityEntry { timestamp: e.timestamp, kind: e.kind, detail: e.detail.clone() }
}

pub(crate) fn copy_task(t: &TaskRecord) -> (c: TaskRecord)
    ensures
        task_view(c) == task_view(*t),
{
    TaskRecord {
        task_id: t.task_id.clone(),
        submitted_at: t.submitted_at,
        state: t.state.clone(),
        last_updated: t.last_updated,
        response_summary: copy_text(&t.response_summary),
        scope: copy_text(&t.scope),
    }
}

fn copy_heartbeat(h: Option<&HeartbeatInfo>) -> (c: Option<HeartbeatInfo>)
    ensures
        heartbeat_view(c) == heartbeat_view(match h {
            Some(b) => Some(*b),
            None => None,
        }),
{
    match h {
        Some(b) => Some(HeartbeatInfo { last_seen: b.last_seen, status: b.status.clone(), metadata: copy_text(&b.metadata) }),
        None => None,
    }
}

fn copy_entries(v: &Vec<&ActivityEntry>) -> (r: Vec<ActivityEntry>)
    ensures
        r@.len() == v@.len(),
        forall|k: int| 0 <= k < v@.len() ==> entry_view(#[trigger] r@[k]) == entry_view(*v@[k]),
{
    let mut r: Vec<ActivityEntry> = Vec::new();
    let mut i: usize = 0;
    while i < v.len()
        invariant
            i <= v@.len(),
            r@.len() == i,
            forall|k: int| 0 <= k < i ==> entry_view(#[trigger] r@[k]) == entry_view(*v@[k]),
        decreases v@.len() - i,
    {
        r.push(copy_entry(v[i]));
        i = i + 1;
    }
    r
}

fn copy_tasks(v: &Vec<&TaskRecord>) -> (r: Vec<TaskRecord>)
    ensures
        r@.len() == v@.len(),
        forall|k: int| 0 <= k < v@.len() ==> task_view(#[trigger] r@[k]) == task_view(*v@[k]),
{
    let mut r: Vec<TaskRecord> = Vec::new();
    let mut i: usize = 0;
    while i < v.len()
        invariant
            i <= v@.len(),
            r@.len() == i,
            forall|k: int| 0 <= k < i ==> task_view(#[trigger] r@[k]) == task_view(*v@[k]),
        decreases v@.len() - i,
    {
        r.push(copy_task(v[i]));
        i = i + 1;
    }
    r
}

/// The debug text of a tile.
pub fn tile_name(t: Tile) -> (s: &'static str)
    ensures
        s@ == tile_text(t),
{
    match t {
        Tile::Floor(FloorKind::Wood) => "Floor(Wood)",
        Tile::Floor(FloorKind::Tile) => "Floor(Tile)",
        Tile::Floor(FloorKind::Carpet) => "Floor(Carpet)",
        Tile::Floor(FloorKind::Concrete) => "Floor(Concrete)",
        Tile::Wall(WallKind::Solid) => "Wall(Solid)",
        Tile::Wall(WallKind::Window) => "Wall(Window)",
        Tile::Rug => "Rug",
        Tile::DoorOpen => "DoorOpen",
        Tile::Desk => "Desk",
        Tile::VendingMachine => "VendingMachine",
        Tile::CoffeeMachine => "CoffeeMachine",
        Tile::Couch => "Couch",
        Tile::Plant => "Plant",
        Tile::PinballMachine => "PinballMachine",
        Tile::GymTreadmill => "GymTreadmill",
        Tile::Whiteboard => "Whiteboard",
        Tile::WeightBench => "WeightBench",
        Tile::YogaMat => "YogaMat",
        Tile::FloorLamp => "FloorLamp",
        Tile::MeetingTable => "MeetingTable",
        Tile::SmallArmchair => "SmallArmchair",
        Tile::ServerRack => "ServerRack",
        Tile::FileCabinet => "FileCabinet",
        Tile::KitchenCounter => "KitchenCounter",
        Tile::PingPongTableLeft => "PingPongTableLeft",
        Tile::PingPongTableRight => "PingPongTableRight",
    }
}

/// The text of a goal: its name and target.
pub fn goal_string(g: &AgentGoal) -> (s: String)
    ensures
        s@ == goal_text_of(*g),
{
    let name = match g {
        AgentGoal::GoToDesk(_) => "GoToDesk",
        AgentGoal::GoToVending(_) => "GoToVending",
        AgentGoal::GoToCoffee(_) => "GoToCoffee",
        AgentGoal::GoToPinball(_) => "GoToPinball",
        AgentGoal::GoToMeeting(_) => "GoToMeeting",
        AgentGoal::GoToGym(_) => "GoToGym",
        AgentGoal::GoToCouch(_) => "GoToCouch",
        AgentGoal::GoToServer(_) => "GoToServer",
        AgentGoal::Wander(_) => "Wander",
    };
    let mut s = String::from_str(name);
    append(&mut s, "(");
    let p = pos_string(g.target());
    append(&mut s, p.as_str());
    append(&mut s, ")");
    s
}

/// The name of an agent's kind.
pub fn kind_string(k: &AgentKind) -> (s: String)
    ensures
        s@ == kind_text(*k),
{
    match k {
        AgentKind::OpenCrabs { .. } => String::from_str("OpenCrabs"),
        AgentKind::External { .. } => String::from_str("External"),
        AgentKind::Local => String::from_str("Local"),
    }
}

/// The list entry the API shows for an agent.
pub fn api_agent(a: &Agent) -> (v: ApiAgent)
    ensures
        shows_agent(*a, v),
{
    ApiAgent {
        id: a.id.short_string(),
        name: a.name.clone(),
        state: String::from_str(a.state.label()),
        position: (a.position.x, a.position.y),
        task_count: a.task_count,
        speech: copy_text(&a.speech),
    }
}

/// Whole seconds from `ts` to `now`, both in milliseconds; 0 when `now` is
/// not later.
pub fn seconds_since(now: i64, ts: i64) -> (s: u64)
    ensures
        s == secs_since(now as int, ts as int),
{
    if now > ts {
        let d: i128 = (now as i128) - (ts as i128);
        (d / 1000) as u64
    } else {
        0
    }
}

/// Whether a request may pass: without a configured key every request may;
/// with one, the request must carry exactly that key.
pub fn check_api_key(provided: Option<&str>, api_key: Option<&str>) -> (r: Result<(), ApiError>)
    ensures
        r is Ok <==> (match api_key {
            None => true,
            Some(k) => provided matches Some(p) && p@ == k@,
        }),
        r matches Err(e) ==> e == ApiError::Unauthorized,
{
    match api_key {
        None => Ok(()),
        Some(k) => match provided {
            Some(p) => {
                if str_eq(p, k) {
                    Ok(())
                } else {
                    Err(ApiError::Unauthorized)
                }
            },
            None => Err(ApiError::Unauthorized),
        },
    }
}

impl ApiState {
    /// The service's health: "ok", the version and the number of agents.
    pub fn health(&self, version: &str) -> (h: HealthResponse)
        requires
            self.wf(),
        ensures
            h.status@ == "ok"@,
            h.version@ == version@,
            h.agents == self.registry.view().len(),
    {
        HealthResponse { status: String::from_str("ok"), version: String::from_str(version), agents: self.registry.count() }
    }

    /// Every agent, in registration order.
    pub fn list_agents(&self) -> (v: Vec<ApiAgent>)
        requires
            self.wf(),
        ensures
            shows_agents(self.registry.view(), v@),
    {
        let agents = self.registry.agents();
        let mut v: Vec<ApiAgent> = Vec::new();
        let mut i: usize = 0;
        while i < agents.len()
            invariant
                agents@ == self.registry.view(),
                i <= agents@.len(),
                v@.len() == i,
                forall|k: int| 0 <= k < i ==> shows_agent(agents@[k], #[trigger] v@[k]),
            decreases agents@.len() - i,
        {
            v.push(api_agent(&agents[i]));
            i = i + 1;
        }
        v
    }

    /// The size of the world, every agent, and the simulation tick `tick`.
    pub fn world_snapshot(&self, tick: u64) -> (s: WorldSnapshot)
        requires
            self.wf(),
        ensures
            s.width == self.grid.width,
            s.height == self.grid.height,
            shows_agents(self.registry.view(), s.agents@),
            s.tick == tick,
    {
        WorldSnapshot { width: self.grid.width, height: self.grid.height, agents: self.list_agents(), tick }
    }

    /// The tile map, row by row: each cell's tile and the short identity of
    /// the agent on it.
    pub fn world_tiles(&self) -> (m: TileMapResponse)
        requires
            self.wf(),
        ensures
            m.width == self.grid.width,
            m.height == self.grid.height,
            m.tiles@.len() == self.grid.height,
            forall|y: int| 0 <= y < self.grid.height ==> (#[trigger] m.tiles@[y])@.len() == self.grid.width,
            forall|y: int, x: int|
                0 <= y < self.grid.height && 0 <= x < self.grid.width ==> shows_cell(
                    self.grid.cell_at(Position { x: x as u16, y: y as u16 }),
                    #[trigger] m.tiles@[y]@[x],
                ),
    {
        let g = &self.grid;
        let mut tiles: Vec<Vec<ApiCell>> = Vec::new();
        let mut y: u16 = 0;
        while y < g.height
            invariant
                g.wf(),
                y <= g.height,
                tiles@.len() == y,
                forall|yy: int| 0 <= yy < y ==> (#[trigger] tiles@[yy])@.len() == g.width,
                forall|yy: int, x: int|
                    0 <= yy < y && 0 <= x < g.width ==> shows_cell(
                        g.cell_at(Position { x: x as u16, y: yy as u16 }),
                        #[trigger] tiles@[yy]@[x],
                    ),
            decreases g.height - y,
        {
            let mut row: Vec<ApiCell> = Vec::new();
            let mut x: u16 = 0;
            while x < g.width
                invariant
                    g.wf(),
                    y < g.height,
                    x <= g.width,
                    row@.len() == x,
                    forall|xx: int| 0 <= xx < x ==> shows_cell(g.cell_at(Position { x: xx as u16, y }), #[trigger] row@[xx]),
                decreases g.width - x,
            {
                let pos = Position::new(x, y);
                match g.get(pos) {
                    Some(cell) => {
                        let occupant = match cell.occupant {
                            Some(id) => Some(id.short_string()),
                            None => None,
                        };
                        row.push(ApiCell { tile: String::from_str(tile_name(cell.tile)), occupant });
                    },
                    None => {},
                }
                x = x + 1;
            }
            tiles.push(row);
            y = y + 1;
        }
        TileMapResponse { width: g.width, height: g.height, tiles }
    }

    /// The `limit` (by default 50) newest messages in the inbox of the agent
    /// that `id_text` names, newest first.
    pub fn get_agent_messages(&self, id_text: &str, limit: Option<usize>) -> (r: Result<InboxResponse, ApiError>)
        requires
            self.wf(),
        ensures
            ({
                let reg = self.registry.view();
                let i = first_id_match(reg, id_text@);
                &&& r is Err <==> i == -1
                &&& r matches Err(e) ==> e.is_not_found(not_found_text(id_text@))
                &&& r matches Ok(resp) ==> {
                    let a = reg[i];
                    let inbox = a.inbox@;
                    let n = match limit {
                        Some(l) => l as int,
                        None => DEFAULT_LIMIT as int,
                    };
                    let shown = if n < inbox.len() { n } else { inbox.len() as int };
                    &&& resp.agent_id@ == uuid_text(a.id.0)
                    &&& resp.count == shown
                    &&& resp.messages@.len() == shown
                    &&& forall|k: int| 0 <= k < shown ==> shows_message(reg, inbox[inbox.len() - 1 - k], #[trigger] resp.messages@[k])
                }
            }),
    {
        let i = match self.lookup(id_text) {
            Ok(i) => i,
            Err(e) => return Err(e),
        };
        let a = self.registry.at(i);
        let n = match limit {
            Some(l) => l,
            None => DEFAULT_LIMIT,
        };
        let len = a.inbox.len();
        let shown = if n < len { n } else { len };
        let mut messages: Vec<InboxMessage> = Vec::new();
        let mut k: usize = 0;
        while k < shown
            invariant
                self.wf(),
                *a == self.registry.view()[i as int],
                len == a.inbox@.len(),
                shown <= len,
                k <= shown,
                messages@.len() == k,
                forall|j: int| 0 <= j < k ==> shows_message(self.registry.view(), a.inbox@[len - 1 - j], #[trigger] messages@[j]),
            decreases shown - k,
        {
            let m = &a.inbox[len - 1 - k];
            let from_name = match self.registry.get(&m.from) {
                Some(sender) => sender.name.clone(),
                None => m.from.short_string(),
            };
            messages.push(
                InboxMessage { from: m.from.full_string(), from_name, text: m.text.clone(), timestamp: m.timestamp },
            );
            k = k + 1;
        }
        Ok(InboxResponse { agent_id: a.id.full_string(), count: shown, messages })
    }

    /// Empties the inbox of the agent that `id_text` names; returns how many
    /// messages it held.
    pub fn ack_agent_messages(&mut self, id_text: &str) -> (r: Result<usize, ApiError>)
        requires
            old(self).wf(),
        ensures
            final(self).wf(),
            ({
                let reg = old(self).registry.view();
                let i = first_id_match(reg, id_text@);
                &&& r is Err <==> i == -1
                &&& r matches Err(e) ==> *final(self) == *old(self) && e.is_not_found(not_found_text(id_text@))
                &&& r matches Ok(n) ==> {
                    let a = reg[i];
                    let a2 = final(self).registry.view()[i];
                    &&& n == a.inbox@.len()
                    &&& final(self).registry.view() == reg.update(i, a2)
                    &&& a2 == Agent { inbox: a2.inbox, ..a }
                    &&& a2.inbox@.len() == 0
                    &&& final(self).grid == old(self).grid
                    &&& final(self).observer == old(self).observer
                }
            }),
    {
        let i = match self.lookup(id_text) {
            Ok(i) => i,
            Err(e) => return Err(e),
        };
        let id = self.registry.at(i).id;
        proof {
            self.registry.lemma_index_of_own_id(i as int);
        }
        let mut count: usize = 0;
        match self.registry.get_mut(&id) {
            Some(agent) => {
                count = agent.inbox.len();
                agent.inbox.clear();
            },
            None => {},
        }
        Ok(count)
    }

    /// The detail the API shows for the agent at index `i`, at time `now`.
    fn detail_at(&self, i: usize, now: i64) -> (d: ApiAgentDetail)
        requires
            self.wf(),
            i < self.registry.view().len(),
        ensures
            shows_detail(self.registry.view()[i as int], self.observer, now, d),
    {
        let a = self.registry.at(i);
        let latest = self.observer.get_activity(&a.id, 1);
        let ghost log = self.observer.activity_of(a.id);
        proof {
            if log.len() > 0 {
                assert(last_n(log, 1) =~= seq![log.last()]);
                assert(*latest@[0] == last_n(log, 1)[0]);
            }
        }
        let idle = if latest.len() == 0 {
            0
        } else {
            seconds_since(now, latest[0].timestamp)
        };
        let goal = match &a.goal {
            Some(g) => Some(goal_string(g)),
            None => None,
        };
        ApiAgentDetail {
            id: a.id.short_string(),
            name: a.name.clone(),
            kind: kind_string(&a.kind),
            state: String::from_str(a.state.label()),
            position: (a.position.x, a.position.y),
            task_count: a.task_count,
            speech: copy_text(&a.speech),
            goal,
            last_activity_secs_ago: idle,
            connection_health: String::from_str(self.observer.connection_health_at(&a.id, now)),
        }
    }

    /// The detail of the agent that `id_text` names, at time `now`.
    pub fn get_agent(&self, id_text: &str, now: i64) -> (r: Result<ApiAgentDetail, ApiError>)
        requires
            self.wf(),
        ensures
            ({
                let reg = self.registry.view();
                let i = first_id_match(reg, id_text@);
                &&& r is Err <==> i == -1
                &&& r matches Err(e) ==> e.is_not_found(not_found_text(id_text@))
                &&& r matches Ok(d) ==> shows_detail(reg[i], self.observer, now, d)
            }),
    {
        let i = match self.lookup(id_text) {
            Ok(i) => i,
            Err(e) => return Err(e),
        };
        Ok(self.detail_at(i, now))
    }

    /// The `limit` (by default 50) newest log entries of the agent that
    /// `id_text` names, oldest first.
    pub fn get_agent_activity(&self, id_text: &str, limit: Option<usize>) -> (r: Result<ActivityResponse, ApiError>)
        requires
            self.wf(),
        ensures
            ({
                let reg = self.registry.view();
                let i = first_id_match(reg, id_text@);
                &&& r is Err <==> i == -1
                &&& r matches Err(e) ==> e.is_not_found(not_found_text(id_text@))
                &&& r matches Ok(resp) ==> {
                    let id = reg[i].id;
                    let n = match limit {
                        Some(l) => l as int,
                        None => DEFAULT_LIMIT as int,
                    };
                    let s = last_n(self.observer.activity_of(id), n);
                    &&& resp.agent_id@ == short_id_text(id.0)
                    &&& resp.count == s.len()
                    &&& copies_entries(s, resp.entries@)
                }
            }),
    {
        let i = match self.lookup(id_text) {
            Ok(i) => i,
            Err(e) => return Err(e),
        };
        let id = self.registry.at(i).id;
        let n = match limit {
            Some(l) => l,
            None => DEFAULT_LIMIT,
        };
        let refs = self.observer.get_activity(&id, n);
        let entries = copy_entries(&refs);
        Ok(ActivityResponse { agent_id: id.short_string(), count: entries.len(), entries })
    }

    /// The `limit` (by default 50) newest task records of the agent that
    /// `id_text` names, oldest first.
    pub fn get_agent_tasks(&self, id_text: &str, limit: Option<usize>) -> (r: Result<TaskHistoryResponse, ApiError>)
        requires
            self.wf(),
        ensures
            ({
                let reg = self.registry.view();
                let i = first_id_match(reg, id_text@);
                &&& r is Err <==> i == -1
                &&& r matches Err(e) ==> e.is_not_found(not_found_text(id_text@))
                &&& r matches Ok(resp) ==> {
                    let id = reg[i].id;
                    let n = match limit {
                        Some(l) => l as int,
                        None => DEFAULT_LIMIT as int,
                    };
                    let s = last_n(self.observer.tasks_of(id), n);
                    &&& resp.agent_id@ == short_id_text(id.0)
                    &&& resp.count == s.len()
                    &&& copies_tasks(s, resp.tasks@)
                }
            }),
    {
        let i = match self.lookup(id_text) {
            Ok(i) => i,
            Err(e) => return Err(e),
        };
        let id = self.registry.at(i).id;
        let n = match limit {
            Some(l) => l,
            None => DEFAULT_LIMIT,
        };
        let refs = self.observer.get_tasks(&id, n);
        let tasks = copy_tasks(&refs);
        Ok(TaskHistoryResponse { agent_id: id.short_string(), count: tasks.len(), tasks })
    }

    /// The state, connection health and last heartbeat of the agent that
    /// `id_text` names, at time `now`.
    pub fn get_agent_status(&self, id_text: &str, now: i64) -> (r: Result<AgentStatusResponse, ApiError>)
        requires
            self.wf(),
        ensures
            ({
                let reg = self.registry.view();
                let i = first_id_match(reg, id_text@);
                &&& r is Err <==> i == -1
                &&& r matches Err(e) ==> e.is_not_found(not_found_text(id_text@))
                &&& r matches Ok(st) ==> {
                    let a = reg[i];
                    &&& st.agent_id@ == short_id_text(a.id.0)
                    &&& st.name@ == a.name@
                    &&& st.state@ == state_label(a.state)
                    &&& st.connection_health@ == health_text(self.observer.heartbeat_of(a.id), now as int)
                    &&& heartbeat_view(st.heartbeat) == heartbeat_view(self.observer.heartbeat_of(a.id))
                }
            }),
    {
        let i = match self.lookup(id_text) {
            Ok(i) => i,
            Err(e) => return Err(e),
        };
        let a = self.registry.at(i);
        Ok(AgentStatusResponse {
            agent_id: a.id.short_string(),
            name: a.name.clone(),
            state: String::from_str(a.state.label()),
            connection_health: String::from_str(self.observer.connection_health_at(&a.id, now)),
            heartbeat: copy_heartbeat(self.observer.get_heartbeat(&a.id)),
        })
    }

    /// Everything the API shows of the agent that `id_text` names, at time
    /// `now`: its detail, its 20 newest log entries and task records, its last
    /// heartbeat and its connection health.
    pub fn get_agent_dashboard(&self, id_text: &str, now: i64) -> (r: Result<DashboardResponse, ApiError>)
        requires
            self.wf(),
        ensures
            ({
                let reg = self.registry.view();
                let i = first_id_match(reg, id_text@);
                &&& r is Err <==> i == -1
                &&& r matches Err(e) ==> e.is_not_found(not_found_text(id_text@))
                &&& r matches Ok(d) ==> {
                    let a = reg[i];
                    let o = self.observer;
                    &&& shows_detail(a, o, now, d.agent)
                    &&& copies_entries(last_n(o.activity_of(a.id), DASHBOARD_LIMIT as int), d.recent_activity@)
                    &&& copies_tasks(last_n(o.tasks_of(a.id), DASHBOARD_LIMIT as int), d.task_history@)
                    &&& heartbeat_view(d.heartbeat) == heartbeat_view(o.heartbeat_of(a.id))
                    &&& d.connection_health@ == health_text(o.heartbeat_of(a.id), now as int)
                }
            }),
    {
        let i = match self.lookup(id_text) {
            Ok(i) => i,
            Err(e) => return Err(e),
        };
        let id = self.registry.at(i).id;
        let agent = self.detail_at(i, now);
        let recent = self.observer.get_activity(&id, DASHBOARD_LIMIT);
        let history = self.observer.get_tasks(&id, DASHBOARD_LIMIT);
        Ok(DashboardResponse {
            agent,
            recent_activity: copy_entries(&recent),
            task_history: copy_tasks(&history),
            heartbeat: copy_heartbeat(self.observer.get_heartbeat(&id)),
            connection_health: String::from_str(self.observer.connection_health_at(&id, now)),
        })
    }
}

} // verus!
