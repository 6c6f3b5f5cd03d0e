//! The decisions of the bridge between A2A agents and the world: where a
//! discovered agent is reached and placed, how a remote task shows on its
//! agent, and what a JSON-RPC reply means.

use vstd::prelude::*;
use crate::a2a::types::{
    agent_state_for_task, task_state_to_agent_state, AgentCard, JsonRpcResponse, Message, Part, Role, SendMessageParams,
    SupportedInterface, Task,
};
use crate::agent::registry::{has_id, index_of_id, AgentRegistry};
use crate::agent::types::{fresh_agent, Agent, AgentId, AgentKind, AgentState};
use crate::api::service::opt_text;
use crate::text::{append, decimal, decimal_text, signed_text, str_eq, trim_trailing_slashes, without_trailing_slashes};
use crate::world::grid::{cell_index, Grid};
use crate::world::position::Position;
use crate::world::tile::Cell;

verus! {

/// The JSON-RPC endpoint a card offers: the URL of its first interface bound
/// to "JSONRPC", otherwise `/a2a/v1` under the base URL.
pub open spec fn jsonrpc_url(ifaces: Seq<SupportedInterface>, base: Seq<char>) -> Seq<char>
    decreases ifaces.len(),
{
    if ifaces.len() == 0 {
        without_trailing_slashes(base) + "/a2a/v1"@
    } else if ifaces[0].protocol_binding@ == "JSONRPC"@ {
        ifaces[0].url@
    } else {
        jsonrpc_url(ifaces.drop_first(), base)
    }
}

/// Where an agent's card is published under its base URL.
pub open spec fn card_url(base: Seq<char>) -> Seq<char> {
    without_trailing_slashes(base) + "/.well-known/agent.json"@
}

/// The text of the first part of a task's status message, if it has one.
pub open spec fn task_reply(task: Task) -> Option<Seq<char>> {
    match task.status.message {
        Some(m) => if m.parts@.len() > 0 {
            opt_text(m.parts@[0].text)
        } else {
            None
        },
        None => None,
    }
}

pub open spec fn rpc_error_text(code: i32, message: Seq<char>) -> Seq<char> {
    "A2A error "@ + signed_text(code as int) + ": "@ + message
}

/// The JSON-RPC endpoint of an agent whose card is `card`, found under `base_url`.
pub fn jsonrpc_endpoint(card: &AgentCard, base_url: &str) -> (e: String)
    ensures
        e@ == jsonrpc_url(card.supported_interfaces@, base_url@),
{
    let ifaces = &card.supported_interfaces;
    let mut i: usize = 0;
    assert(ifaces@.skip(0) =~= ifaces@);
    while i < ifaces.len()
        invariant
            ifaces@ == card.supported_interfaces@,
            i <= ifaces@.len(),
            jsonrpc_url(ifaces@, base_url@) == jsonrpc_url(ifaces@.skip(i as int), base_url@),
        decreases ifaces@.len() - i,
    {
        assert(ifaces@.skip(i as int)[0] == ifaces@[i as int]);
        assert(ifaces@.skip(i as int).drop_first() =~= ifaces@.skip(i + 1));
        if str_eq(ifaces[i].protocol_binding.as_str(), "JSONRPC") {
            assert(ifaces@.skip(i as int).len() > 0);
            assert(jsonrpc_url(ifaces@.skip(i as int), base_url@) == ifaces@[i as int].url@);
            return ifaces[i].url.clone();
        }
        i = i + 1;
    }
    let mut e = trim_trailing_slashes(base_url);
    append(&mut e, "/a2a/v1");
    e
}

/// Where the card of the agent at `base_url` is published.
pub fn discovery_url(base_url: &str) -> (u: String)
    ensures
        u@ == card_url(base_url@),
{
    let mut u = trim_trailing_slashes(base_url);
    append(&mut u, "/.well-known/agent.json");
    u
}

/// The decimal text of a signed number.
pub fn signed_decimal(n: i32) -> (s: String)
    ensures
        s@ == signed_text(n as int),
{
    if n < 0 {
        let m: i64 = -(n as i64);
        let mut s = String::from_str("-");
        let d = decimal(m as u64);
        append(&mut s, d.as_str());
        s
    } else {
        decimal(n as u64)
    }
}

/// What a JSON-RPC reply carries: its result (JSON text), or the error it
/// reports, or that it carries neither.
pub fn rpc_result(resp: &JsonRpcResponse) -> (r: Result<String, String>)
    ensures
        match resp.error {
            Some(err) => r matches Err(m) && m@ == rpc_error_text(err.code, err.message@),
            None => match resp.result {
                Some(v) => r matches Ok(t) && t@ == v@,
                None => r matches Err(m) && m@ == "empty result"@,
            },
        },
{
    match &resp.error {
        Some(err) => {
            let mut m = String::from_str("A2A error ");
            let c = signed_decimal(err.code);
            append(&mut m, c.as_str());
            append(&mut m, ": ");
            append(&mut m, err.message.as_str());
            Err(m)
        },
        None => match &resp.result {
            Some(v) => Ok(v.clone()),
            None => Err(String::from_str("empty result")),
        },
    }
}

/// The parameters of `message/send` for a user message holding `text`.
pub fn user_message(text: &str, message_id: String) -> (p: SendMessageParams)
    ensures
        p.message.message_id == Some(message_id),
        p.message.context_id is None,
        p.message.task_id is None,
        p.message.role == Role::User,
        p.message.parts@.len() == 1,
        p.message.parts@[0].text matches Some(t) && t@ == text@,
        p.message.parts@[0].data is None,
        p.message.parts@[0].url is None,
        p.message.metadata is None,
        p.configuration is None,
        p.metadata is None,
{
    let mut parts: Vec<Part> = Vec::new();
    parts.push(Part::text(text));
    SendMessageParams {
        message: Message { message_id: Some(message_id), context_id: None, task_id: None, role: Role::User, parts, metadata: None },
        configuration: None,
        metadata: None,
    }
}

/// Places a discovered agent called `name`, reached at `endpoint`, on a random
/// empty floor, or on (1,1) when there is none, and registers it. Returns its
/// identity and position.
pub fn admit_remote_agent(registry: &mut AgentRegistry, grid: &mut Grid, name: &str, endpoint: String) -> (r: (AgentId, Position))
    requires
        old(registry).wf(),
        old(grid).wf(),
    ensures
        final(registry).wf(),
        final(grid).wf(),
        ({
            let (id, p) = r;
            let g = *old(grid);
            let reg = final(registry).view();
            let a = reg[index_of_id(reg, id)];
            &&& (exists|q: Position| g.empty_floor_at(q)) ==> g.empty_floor_at(p)
            &&& !(exists|q: Position| g.empty_floor_at(q)) ==> p == Position { x: 1, y: 1 }
            &&& final(grid).width == g.width
            &&& final(grid).height == g.height
            &&& g.walkable_at(p) ==> final(grid).spec_cells() == g.spec_cells().update(
                cell_index(g.width, p),
                Cell { tile: g.tile_at(p), occupant: Some(id) },
            )
            &&& !g.walkable_at(p) ==> final(grid).spec_cells() == g.spec_cells()
            &&& has_id(reg, id)
            &&& a.id == id && a.name@ == name@ && a.position == p && a.color_index < 8
            &&& a.kind == (AgentKind::OpenCrabs { endpoint })
            &&& fresh_agent(a)
            &&& reg == (if has_id(old(registry).view(), id) {
                old(registry).view().update(index_of_id(old(registry).view(), id), a)
            } else {
                old(registry).view().push(a)
            })
        }),
{
    let position = match grid.find_empty_floor() {
        Some(p) => p,
        None => Position::new(1, 1),
    };
    let ghost ep = endpoint;
    let agent = Agent::new(name, AgentKind::OpenCrabs { endpoint }, position);
    let id = agent.id;
    grid.place_agent(position, id);
    let ghost before = registry.view();
    registry.register(agent);
    proof {
        let reg = registry.view();
        if has_id(before, id) {
            registry.lemma_index_of_own_id(index_of_id(before, id));
        } else {
            registry.lemma_index_of_own_id(reg.len() - 1);
        }
    }
    (id, position)
}

/// Shows the agent `id`, if registered, as thinking about a message sent to it.
pub fn mark_thinking(registry: &mut AgentRegistry, id: &AgentId)
    requires
        old(registry).wf(),
    ensures
        final(registry).wf(),
        !has_id(old(registry).view(), *id) ==> final(registry).view() == old(registry).view(),
        has_id(old(registry).view(), *id) ==> {
            let j = index_of_id(old(registry).view(), *id);
            let a = old(registry).view()[j];
            let a2 = final(registry).view()[j];
            &&& final(registry).view() == old(registry).view().update(j, a2)
            &&& a2 == Agent { state: AgentState::Thinking, last_activity: a2.last_activity, ..a }
        },
{
    match registry.get_mut(id) {
        Some(agent) => {
            agent.set_state(AgentState::Thinking);
        },
        None => {},
    }
}

/// Shows the reply `task` on the agent `id`, if registered: the state its
/// task is in, one more task, and the text of the reply's first part, if
/// any, in its bubble. The task count wraps at its maximum.
pub fn apply_task(registry: &mut AgentRegistry, id: &AgentId, task: &Task)
    requires
        old(registry).wf(),
    ensures
        final(registry).wf(),
        !has_id(old(registry).view(), *id) ==> final(registry).view() == old(registry).view(),
        has_id(old(registry).view(), *id) ==> {
            let j = index_of_id(old(registry).view(), *id);
            let a = old(registry).view()[j];
            let a2 = final(registry).view()[j];
            &&& final(registry).view() == old(registry).view().update(j, a2)
            &&& a2 == Agent {
                state: agent_state_for_task(task.status.state),
                task_count: a.task_count.wrapping_add(1),
                last_activity: a2.last_activity,
                speech: a2.speech,
                ..a
            }
            &&& opt_text(a2.speech) == (match task_reply(*task) {
                Some(t) => Some(t),
                None => opt_text(a.speech),
            })
        },
{
    let state = task_state_to_agent_state(&task.status.state);
    match registry.get_mut(id) {
        Some(agent) => {
            agent.set_state(state);
            agent.task_count = agent.task_count.wrapping_add(1);
            match &task.status.message {
                Some(m) => {
                    if m.parts.len() > 0 {
                        match &m.parts[0].text {
                            Some(t) => {
                                agent.say(t.as_str());
                            },
                            None => {},
                        }
                    }
                },
                None => {},
            }
        },
        None => {},
    }
}

/// Takes the agent `id`, if registered, out of the registry and off its cell.
pub fn remove_remote_agent(registry: &mut AgentRegistry, grid: &mut Grid, id: &AgentId)
    requires
        old(registry).wf(),
        old(grid).wf(),
    ensures
        final(registry).wf(),
        final(grid).wf(),
        !has_id(old(registry).view(), *id) ==> final(registry).view() == old(registry).view() && *final(grid) == *old(grid),
        has_id(old(registry).view(), *id) ==> {
            let j = index_of_id(old(registry).view(), *id);
            let p = old(registry).view()[j].position;
            let g = *old(grid);
            &&& final(registry).view() == old(registry).view().remove(j)
            &&& final(grid).width == g.width
            &&& final(grid).height == g.height
            &&& g.in_bounds(p) ==> final(grid).spec_cells() == g.spec_cells().update(
                cell_index(g.width, p),
                Cell { tile: g.tile_at(p), occupant: None },
            )
            &&& !g.in_bounds(p) ==> final(grid).spec_cells() == g.spec_cells()
        },
{
    match registry.remove(id) {
        Some(agent) => {
            grid.remove_agent(agent.position);
        },
        None => {},
    }
}

} // verus!
