//! Properties of the library as a whole: what one operation gives back of
//! another, and what every state keeps.

use vstd::prelude::*;
use crate::agent::message::{last_n, AgentMessage};
use crate::avatar::agents::mirrored;
use crate::avatar::sprite::{big_cell, BigSpriteFrame};
use crate::agent::registry::{first_id_match, has_id, id_text_matches, ids_unique, index_of_id};
use crate::agent::types::{goal_target, AgentGoal, hex_digit, state_label, uuid_digit_at, uuid_nibble, uuid_text, Agent, AgentId, AgentState};
use crate::api::observability::{task_active, health_text, task_history_after, without_task, AgentObserver, HeartbeatInfo, TaskRecord};
use crate::api::service::{inbox_received, is_message, state_named, INBOX_CAP};
use crate::api::tasks::{after_report, has_active, shown_state};
use crate::api::movement::{goal_for_tile, goal_named, GoalPlan};
use crate::api::views::{goal_name, tile_text};
use crate::avatar::agents::pose_frame;
use crate::world::tile::Tile;
use crate::tui::app::{AppMode, AppView};
use crate::tui::input::{after_key, is_char, KeyCode, KeyEvent};
use crate::api::movement::{reachable, walking_to};
use crate::world::simulation::{agent_tick, count_up, idle_listing, idle_target, sets_out, with_ticks, IDLE_TICKS};
use crate::world::grid::{cell_index, lemma_index, lemma_index_injective, on_border, Grid};
use crate::world::office::office_tile;
use crate::world::position::Position;
use crate::world::tile::{tile_solid, Cell};

verus! {

/// Every state name the API accepts reads back as the state it names: the
/// label of a state parses to that state.
pub proof fn law_state_label_round_trip(s: AgentState)
    ensures
        state_named(state_label(s)) == Some(s),
{
    reveal_strlit("idle");
    reveal_strlit("walking");
    reveal_strlit("thinking");
    reveal_strlit("working");
    reveal_strlit("messaging");
    reveal_strlit("eating");
    reveal_strlit("exercising");
    reveal_strlit("playing");
    reveal_strlit("error");
    reveal_strlit("offline");
    match s {
        AgentState::Idle => {},
        AgentState::Walking => {
            assert(state_label(s)[0] != state_label(AgentState::Idle)[0]);
        },
        AgentState::Thinking => {
            assert(state_label(s)[0] != state_label(AgentState::Idle)[0]);
            assert(state_label(s)[0] != state_label(AgentState::Walking)[0]);
        },
        AgentState::Working => {
            assert(state_label(s)[0] != state_label(AgentState::Idle)[0]);
            assert(state_label(s)[1] != state_label(AgentState::Walking)[1]);
            assert(state_label(s)[0] != state_label(AgentState::Thinking)[0]);
        },
        AgentState::Messaging => {
            assert(state_label(s)[0] != state_label(AgentState::Idle)[0]);
            assert(state_label(s)[0] != state_label(AgentState::Walking)[0]);
            assert(state_label(s)[0] != state_label(AgentState::Thinking)[0]);
            assert(state_label(s)[0] != state_label(AgentState::Working)[0]);
        },
        AgentState::Eating => {
            assert(state_label(s)[0] != state_label(AgentState::Idle)[0]);
            assert(state_label(s)[0] != state_label(AgentState::Walking)[0]);
            assert(state_label(s)[0] != state_label(AgentState::Thinking)[0]);
            assert(state_label(s)[0] != state_label(AgentState::Working)[0]);
            assert(state_label(s)[0] != state_label(AgentState::Messaging)[0]);
        },
        AgentState::Exercising => {
            assert(state_label(s)[0] != state_label(AgentState::Idle)[0]);
            assert(state_label(s)[0] != state_label(AgentState::Walking)[0]);
            assert(state_label(s)[0] != state_label(AgentState::Thinking)[0]);
            assert(state_label(s)[0] != state_label(AgentState::Working)[0]);
            assert(state_label(s)[0] != state_label(AgentState::Messaging)[0]);
            assert(state_label(s)[1] != state_label(AgentState::Eating)[1]);
        },
        AgentState::Playing => {
            assert(state_label(s)[0] != state_label(AgentState::Idle)[0]);
            assert(state_label(s)[0] != state_label(AgentState::Walking)[0]);
            assert(state_label(s)[0] != state_label(AgentState::Thinking)[0]);
            assert(state_label(s)[0] != state_label(AgentState::Working)[0]);
            assert(state_label(s)[0] != state_label(AgentState::Messaging)[0]);
            assert(state_label(s)[0] != state_label(AgentState::Eating)[0]);
            assert(state_label(s)[0] != state_label(AgentState::Exercising)[0]);
        },
        AgentState::Error => {
            assert(state_label(s)[0] != state_label(AgentState::Idle)[0]);
            assert(state_label(s)[0] != state_label(AgentState::Walking)[0]);
            assert(state_label(s)[0] != state_label(AgentState::Thinking)[0]);
            assert(state_label(s)[0] != state_label(AgentState::Working)[0]);
            assert(state_label(s)[0] != state_label(AgentState::Messaging)[0]);
            assert(state_label(s)[1] != state_label(AgentState::Eating)[1]);
            assert(state_label(s)[1] != state_label(AgentState::Exercising)[1]);
            assert(state_label(s)[0] != state_label(AgentState::Playing)[0]);
        },
        AgentState::Offline => {
            assert(state_label(s)[0] != state_label(AgentState::Idle)[0]);
            assert(state_label(s)[0] != state_label(AgentState::Walking)[0]);
            assert(state_label(s)[0] != state_label(AgentState::Thinking)[0]);
            assert(state_label(s)[0] != state_label(AgentState::Working)[0]);
            assert(state_label(s)[0] != state_label(AgentState::Messaging)[0]);
            assert(state_label(s)[0] != state_label(AgentState::Eating)[0]);
            assert(state_label(s)[0] != state_label(AgentState::Exercising)[0]);
            assert(state_label(s)[0] != state_label(AgentState::Playing)[0]);
            assert(state_label(s)[0] != state_label(AgentState::Error)[0]);
        },
    }
}

/// A message delivered to an agent is the newest in its inbox, which the
/// inbox listing shows first; the inbox never holds more than the cap, and
/// what it held before stays in order ahead of the new message.
pub proof fn law_delivered_message_is_newest(
    before: Seq<AgentMessage>,
    after: Seq<AgentMessage>,
    from: AgentId,
    to: AgentId,
    text: Seq<char>,
    now: i64,
)
    requires
        inbox_received(before, after, from, to, text, now),
    ensures
        after.len() > 0,
        after.len() <= INBOX_CAP,
        is_message(after[after.len() - 1], from, to, text, now),
        after.drop_last() == last_n(before, after.len() - 1),
{
    let m = choose|m: AgentMessage| is_message(m, from, to, text, now) && after == last_n(#[trigger] before.push(m), INBOX_CAP as int);
    let s = before.push(m);
    assert(after.last() == s.last());
    assert(after.drop_last() =~= last_n(before, after.len() - 1));
}

/// Right after a heartbeat, the agent's connection is "online".
pub proof fn law_fresh_heartbeat_online(hb: HeartbeatInfo, now: i64)
    requires
        hb.last_seen == now,
    ensures
        health_text(Some(hb), now as int) == "online"@,
{
}

/// The rank of a connection health text: "online" 0, "stale" 1, otherwise 2.
pub open spec fn health_rank(h: Seq<char>) -> int {
    if h == "online"@ {
        0
    } else if h == "stale"@ {
        1
    } else {
        2
    }
}

/// A heartbeat only ages: as time passes, the connection it shows never gets
/// healthier.
pub proof fn law_health_only_ages(hb: HeartbeatInfo, t1: i64, t2: i64)
    requires
        t1 <= t2,
    ensures
        health_rank(health_text(Some(hb), t1 as int)) <= health_rank(health_text(Some(hb), t2 as int)),
{
    reveal_strlit("online");
    reveal_strlit("stale");
    reveal_strlit("offline");
    assert("online"@ != "stale"@) by {
        assert("online"@[0] != "stale"@[0]);
    }
    assert("offline"@ != "stale"@) by {
        assert("offline"@[0] != "stale"@[0]);
    }
    assert("offline"@ != "online"@) by {
        assert("offline"@[1] != "online"@[1]);
    }
}

/// Every state of the observability store keeps each activity log and each
/// task history within its cap.
pub proof fn law_logs_stay_capped(o: AgentObserver, id: AgentId)
    requires
        o.wf(),
    ensures
        o.activity_of(id).len() <= o.max_activity(),
        o.tasks_of(id).len() <= o.max_tasks(),
{
    o.lemma_caps(id);
}

/// A report on a known task updates its record in place; a report on a new
/// task adds a record, dropping the oldest beyond the cap. Either way the
/// reported task is in the history afterwards, in the reported state.
pub proof fn law_reported_task_recorded(
    s: Seq<TaskRecord>,
    task_id: String,
    state: String,
    summary: Option<String>,
    scope: Option<String>,
    now: i64,
    max: int,
)
    requires
        max > 0,
    ensures
        ({
            let s2 = task_history_after(s, task_id, state, summary, scope, now, max);
            exists|k: int| 0 <= k < s2.len() && (#[trigger] s2[k]).task_id@ == task_id@ && s2[k].state == state
        }),
{
    let s2 = task_history_after(s, task_id, state, summary, scope, now, max);
    let j = crate::api::observability::first_task_index(s, task_id@);
    if j >= 0 {
        crate::api::observability::lemma_first_task_index_found(s, task_id@);
        assert(s2[j].task_id@ == task_id@);
    } else {
        let t = s.push(TaskRecord { task_id, submitted_at: now, state, last_updated: now, response_summary: summary, scope });
        assert(s2.len() > 0);
        assert(s2[s2.len() - 1] == t[t.len() - 1]);
    }
}

/// After a task is deleted, no record of it is left.
pub proof fn law_deleted_task_gone(s: Seq<TaskRecord>, tid: Seq<char>)
    ensures
        forall|k: int| 0 <= k < without_task(s, tid).len() ==> (#[trigger] without_task(s, tid)[k]).task_id@ != tid,
    decreases s.len(),
{
    if s.len() > 0 {
        law_deleted_task_gone(s.drop_last(), tid);
    }
}

/// An agent placed on a walkable cell and taken off again leaves the grid as
/// it was.
pub proof fn law_place_then_remove(g: Grid, g1: Grid, g2: Grid, p: Position, id: AgentId)
    requires
        g.wf(),
        g.walkable_at(p),
        g1.width == g.width,
        g1.height == g.height,
        g1.spec_cells() == g.spec_cells().update(cell_index(g.width, p), Cell { tile: g.tile_at(p), occupant: Some(id) }),
        g2.spec_cells() == g1.spec_cells().update(cell_index(g1.width, p), Cell { tile: g1.tile_at(p), occupant: None }),
    ensures
        g2.spec_cells() == g.spec_cells(),
{
    lemma_index(g.width, g.height, p);
    assert(g2.spec_cells() =~= g.spec_cells());
}

/// The hexadecimal digits are distinct characters.
proof fn lemma_hex_digit_injective(a: int, b: int)
    requires
        0 <= a < 16,
        0 <= b < 16,
        hex_digit(a) == hex_digit(b),
    ensures
        a == b,
{
    assert(hex_digit(a) as int == if a < 10 { 48 + a } else { 87 + a });
    assert(hex_digit(b) as int == if b < 10 { 48 + b } else { 87 + b });
}

/// A hex digit lies in `0..16`.
proof fn lemma_nibble_small(x: u128, sh: u128)
    ensures
        (x >> sh) & 15u128 <= 15u128,
{
    assert((x >> sh) & 15u128 <= 15u128) by (bit_vector);
}

/// Two identities whose 32 hex digits agree are the same.
proof fn lemma_nibbles_determine(a: u128, b: u128)
    requires
        forall|d: int| 0 <= d < 32 ==> #[trigger] uuid_nibble(a, d) == uuid_nibble(b, d),
    ensures
        a == b,
{
    assert(uuid_nibble(a, 0) == uuid_nibble(b, 0));
    assert(uuid_nibble(a, 1) == uuid_nibble(b, 1));
    assert(uuid_nibble(a, 2) == uuid_nibble(b, 2));
    assert(uuid_nibble(a, 3) == uuid_nibble(b, 3));
    assert(uuid_nibble(a, 4) == uuid_nibble(b, 4));
    assert(uuid_nibble(a, 5) == uuid_nibble(b, 5));
    assert(uuid_nibble(a, 6) == uuid_nibble(b, 6));
    assert(uuid_nibble(a, 7) == uuid_nibble(b, 7));
    assert(uuid_nibble(a, 8) == uuid_nibble(b, 8));
    assert(uuid_nibble(a, 9) == uuid_nibble(b, 9));
    assert(uuid_nibble(a, 10) == uuid_nibble(b, 10));
    assert(uuid_nibble(a, 11) == uuid_nibble(b, 11));
    assert(uuid_nibble(a, 12) == uuid_nibble(b, 12));
    assert(uuid_nibble(a, 13) == uuid_nibble(b, 13));
    assert(uuid_nibble(a, 14) == uuid_nibble(b, 14));
    assert(uuid_nibble(a, 15) == uuid_nibble(b, 15));
    assert(uuid_nibble(a, 16) == uuid_nibble(b, 16));
    assert(uuid_nibble(a, 17) == uuid_nibble(b, 17));
    assert(uuid_nibble(a, 18) == uuid_nibble(b, 18));
    assert(uuid_nibble(a, 19) == uuid_nibble(b, 19));
    assert(uuid_nibble(a, 20) == uuid_nibble(b, 20));
    assert(uuid_nibble(a, 21) == uuid_nibble(b, 21));
    assert(uuid_nibble(a, 22) == uuid_nibble(b, 22));
    assert(uuid_nibble(a, 23) == uuid_nibble(b, 23));
    assert(uuid_nibble(a, 24) == uuid_nibble(b, 24));
    assert(uuid_nibble(a, 25) == uuid_nibble(b, 25));
    assert(uuid_nibble(a, 26) == uuid_nibble(b, 26));
    assert(uuid_nibble(a, 27) == uuid_nibble(b, 27));
    assert(uuid_nibble(a, 28) == uuid_nibble(b, 28));
    assert(uuid_nibble(a, 29) == uuid_nibble(b, 29));
    assert(uuid_nibble(a, 30) == uuid_nibble(b, 30));
    assert(uuid_nibble(a, 31) == uuid_nibble(b, 31));
    assert(a == b) by (bit_vector)
        requires
            (a >> 124u128) & 15u128 == (b >> 124u128) & 15u128,
            (a >> 120u128) & 15u128 == (b >> 120u128) & 15u128,
            (a >> 116u128) & 15u128 == (b >> 116u128) & 15u128,
            (a >> 112u128) & 15u128 == (b >> 112u128) & 15u128,
            (a >> 108u128) & 15u128 == (b >> 108u128) & 15u128,
            (a >> 104u128) & 15u128 == (b >> 104u128) & 15u128,
            (a >> 100u128) & 15u128 == (b >> 100u128) & 15u128,
            (a >> 96u128) & 15u128 == (b >> 96u128) & 15u128,
            (a >> 92u128) & 15u128 == (b >> 92u128) & 15u128,
            (a >> 88u128) & 15u128 == (b >> 88u128) & 15u128,
            (a >> 84u128) & 15u128 == (b >> 84u128) & 15u128,
            (a >> 80u128) & 15u128 == (b >> 80u128) & 15u128,
            (a >> 76u128) & 15u128 == (b >> 76u128) & 15u128,
            (a >> 72u128) & 15u128 == (b >> 72u128) & 15u128,
            (a >> 68u128) & 15u128 == (b >> 68u128) & 15u128,
            (a >> 64u128) & 15u128 == (b >> 64u128) & 15u128,
            (a >> 60u128) & 15u128 == (b >> 60u128) & 15u128,
            (a >> 56u128) & 15u128 == (b >> 56u128) & 15u128,
            (a >> 52u128) & 15u128 == (b >> 52u128) & 15u128,
            (a >> 48u128) & 15u128 == (b >> 48u128) & 15u128,
            (a >> 44u128) & 15u128 == (b >> 44u128) & 15u128,
            (a >> 40u128) & 15u128 == (b >> 40u128) & 15u128,
            (a >> 36u128) & 15u128 == (b >> 36u128) & 15u128,
            (a >> 32u128) & 15u128 == (b >> 32u128) & 15u128,
            (a >> 28u128) & 15u128 == (b >> 28u128) & 15u128,
            (a >> 24u128) & 15u128 == (b >> 24u128) & 15u128,
            (a >> 20u128) & 15u128 == (b >> 20u128) & 15u128,
            (a >> 16u128) & 15u128 == (b >> 16u128) & 15u128,
            (a >> 12u128) & 15u128 == (b >> 12u128) & 15u128,
            (a >> 8u128) & 15u128 == (b >> 8u128) & 15u128,
            (a >> 4u128) & 15u128 == (b >> 4u128) & 15u128,
            (a >> 0u128) & 15u128 == (b >> 0u128) & 15u128,
    ;
}

/// Distinct identities have distinct texts.
pub proof fn law_id_text_unique(a: AgentId, b: AgentId)
    requires
        uuid_text(a.0) == uuid_text(b.0),
    ensures
        a == b,
{
    assert forall|d: int| 0 <= d < 32 implies #[trigger] uuid_nibble(a.0, d) == uuid_nibble(b.0, d) by {
        let k = if d < 8 {
            d
        } else if d < 12 {
            d + 1
        } else if d < 16 {
            d + 2
        } else if d < 20 {
            d + 3
        } else {
            d + 4
        };
        assert(uuid_digit_at(k) == d);
        assert(0 <= k < 36 && k != 8 && k != 13 && k != 18 && k != 23);
        assert(uuid_text(a.0)[k] == hex_digit(uuid_nibble(a.0, d)));
        assert(uuid_text(b.0)[k] == hex_digit(uuid_nibble(b.0, d)));
        assert(uuid_text(a.0)[k] == uuid_text(b.0)[k]);
        lemma_nibble_small(a.0, (124 - 4 * d) as u128);
        lemma_nibble_small(b.0, (124 - 4 * d) as u128);
        lemma_hex_digit_injective(uuid_nibble(a.0, d), uuid_nibble(b.0, d));
    }
    lemma_nibbles_determine(a.0, b.0);
}

/// The full identity text of a registered agent names that agent and no other.
pub proof fn law_full_id_finds_agent(reg: Seq<Agent>, i: int)
    requires
        ids_unique(reg),
        0 <= i < reg.len(),
    ensures
        first_id_match(reg, uuid_text(reg[i].id.0)) == i,
{
    let text = uuid_text(reg[i].id.0);
    assert(text.is_prefix_of(uuid_text(reg[i].id.0)));
    assert(id_text_matches(reg[i], text));
    assert forall|k: int| 0 <= k < reg.len() && id_text_matches(#[trigger] reg[k], text) implies k == i by {
        assert(uuid_text(reg[k].id.0).len() == 36);
        assert(text =~= uuid_text(reg[k].id.0));
        law_id_text_unique(reg[k].id, reg[i].id);
    }
    let c = first_id_match(reg, text);
    assert(0 <= c < reg.len() && id_text_matches(reg[c], text));
}

/// A registered agent is found again under its identity; after its removal it
/// is not found any more.
pub proof fn law_register_then_find(reg: Seq<Agent>, a: Agent)
    requires
        ids_unique(reg),
        !has_id(reg, a.id),
    ensures
        has_id(reg.push(a), a.id),
        reg.push(a)[index_of_id(reg.push(a), a.id)] == a,
        !has_id(reg.push(a).remove(index_of_id(reg.push(a), a.id)), a.id),
{
    let s = reg.push(a);
    assert(s[reg.len() as int].id == a.id);
    let j = index_of_id(s, a.id);
    if j != reg.len() {
        assert(reg[j].id == a.id);
    }
    assert(s.remove(j) =~= reg);
}

/// Every cell on the outer ring of the office is a wall.
pub proof fn law_office_walled(w: u16, h: u16, p: Position)
    requires
        p.x < w,
        p.y < h,
        on_border(w, h, p),
    ensures
        tile_solid(office_tile(w, h, p)),
{
}

/// Any registered agent is the one its full identity text names.
pub proof fn law_registered_agent_found(reg: Seq<Agent>, id: AgentId)
    requires
        ids_unique(reg),
        has_id(reg, id),
    ensures
        first_id_match(reg, uuid_text(id.0)) == index_of_id(reg, id),
{
    law_full_id_finds_agent(reg, index_of_id(reg, id));
}

/// A finished task (completed or failed) with no other task still active
/// returns its agent to idle and hands it back to the simulation; a reported
/// state other than idle locks the agent against the simulation.
pub proof fn law_finished_task_idles(a: Agent, a2: Agent, s: Seq<char>, busy: bool)
    requires
        after_report(a, a2, s, busy),
    ensures
        (s == "completed"@ || s == "failed"@) && !busy ==> a2.state == AgentState::Idle && !a2.api_locked,
        shown_state(s, busy) is Some ==> (a2.api_locked <==> a2.state != AgentState::Idle),
        shown_state(s, busy) is None ==> a2.state == a.state && a2.api_locked == a.api_locked,
{
    reveal_strlit("completed");
    reveal_strlit("failed");
    reveal_strlit("submitted");
    reveal_strlit("running");
    assert("completed"@ != "submitted"@) by {
        assert("completed"@[0] != "submitted"@[0]);
    }
    assert("completed"@ != "running"@) by {
        assert("completed"@[0] != "running"@[0]);
    }
    assert("failed"@ != "submitted"@) by {
        assert("failed"@[0] != "submitted"@[0]);
    }
    assert("failed"@ != "running"@) by {
        assert("failed"@[0] != "running"@[0]);
    }
}

/// Mirroring an agent sprite twice gives back the sprite.
pub proof fn law_mirror_twice(f: BigSpriteFrame, m: BigSpriteFrame, m2: BigSpriteFrame)
    requires
        mirrored(f, m),
        mirrored(m, m2),
    ensures
        forall|r: int, c: int| 0 <= r < 6 && 0 <= c < 8 ==> #[trigger] big_cell(m2, r, c) == big_cell(f, r, c),
{
    assert forall|r: int, c: int| 0 <= r < 6 && 0 <= c < 8 implies #[trigger] big_cell(m2, r, c) == big_cell(f, r, c) by {
        assert(big_cell(m2, r, c) == big_cell(m, r, 7 - c));
        assert(big_cell(m, r, 7 - c) == big_cell(f, r, 7 - (7 - c)));
    }
}

/// Pressing `h` twice on the world screen leaves the interface as it was.
pub proof fn law_sidebar_toggle_twice(a: AppView, k: KeyEvent)
    requires
        a.mode == AppMode::WorldView,
        is_char(k, 'h') || is_char(k, 'H'),
        !k.modifiers.control,
    ensures
        after_key(after_key(a, k), k) == a,
{
}

/// Opening Mission Control with `m` from the world, an agent's detail or the
/// message log, and leaving it with Esc, brings back the screen it was opened
/// from; only the remembered screen and the scroll are reset.
pub proof fn law_mission_control_round_trip(a: AppView, open: KeyEvent, esc: KeyEvent)
    requires
        a.mode == AppMode::WorldView || a.mode == AppMode::AgentDetail || a.mode == AppMode::MessageLog,
        !a.mc_detail_open,
        is_char(open, 'm') || is_char(open, 'M'),
        !open.modifiers.control,
        esc.code == KeyCode::Esc,
        !esc.modifiers.control,
    ensures
        after_key(after_key(a, open), esc) == (AppView { previous_mode: None, mc_scroll: 0, ..a }),
{
}

/// In Mission Control, three presses of Tab give the focus back to the panel
/// that had it, on its top row.
pub proof fn law_panels_cycle(a: AppView, tab: KeyEvent)
    requires
        a.mode == AppMode::MissionControl,
        !a.mc_detail_open,
        tab.code == KeyCode::Tab,
        !tab.modifiers.control,
    ensures
        after_key(after_key(after_key(a, tab), tab), tab) == (AppView { mc_selected: 0, ..a }),
{
}

/// Once the interface is set to quit, no key press takes that back.
pub proof fn law_quit_is_final(a: AppView, k: KeyEvent)
    requires
        a.should_quit,
    ensures
        after_key(a, k).should_quit,
{
}

/// On the command line, typing a character and then Backspace leaves the
/// interface as it was.
pub proof fn law_type_then_backspace(a: AppView, typed: KeyEvent, back: KeyEvent)
    requires
        a.mode == AppMode::CommandInput,
        typed.code is Char,
        !typed.modifiers.control,
        back.code == KeyCode::Backspace,
        !back.modifiers.control,
    ensures
        after_key(after_key(a, typed), back) == a,
{
    let c = typed.code->Char_0;
    assert(a.command_input.push(c).drop_last() =~= a.command_input);
}

/// A step of the simulation never changes who an agent is: its identity, name,
/// kind, colour, task count and inbox stay as they were.
pub proof fn law_step_keeps_identity(g: Grid, a: Agent, roll: u32, t: u64, g2: Grid, a2: Agent)
    requires
        agent_tick(g, a, roll, t, g2, a2),
    ensures
        a2.id == a.id,
        a2.name == a.name,
        a2.kind == a.kind,
        a2.color_index == a.color_index,
        a2.task_count == a.task_count,
        a2.inbox == a.inbox,
{
    if !a.api_locked && a.state == AgentState::Idle {
        let n = count_up(a.anim.activity_ticks);
        if !(n < IDLE_TICKS || !sets_out(roll)) {
            let fl = choose|fl: Seq<Position>| #[trigger] idle_listing(g, roll, fl) && match idle_target(g, roll, fl) {
                Some((goal, dest)) => if reachable(g, a.position, dest) {
                    walking_to(g, a, a2, goal, dest)
                } else {
                    a2 == with_ticks(a, 0)
                },
                None => a2 == with_ticks(a, 0),
            };
        }
    }
}

/// A task that was submitted and not yet reported finished keeps its agent
/// busy: when another task is reported completed or failed while one of the
/// agent's tasks is still submitted or running, the agent keeps its state and
/// its lock.
pub proof fn law_open_task_keeps_agent_busy(a: Agent, a2: Agent, tasks: Seq<TaskRecord>, k: int, s: Seq<char>)
    requires
        0 <= k < tasks.len(),
        tasks[k].state@ == "submitted"@ || tasks[k].state@ == "running"@,
        s == "completed"@ || s == "failed"@,
        after_report(a, a2, s, has_active(tasks)),
    ensures
        a2.state == a.state,
        a2.api_locked == a.api_locked,
{
    reveal_strlit("submitted");
    reveal_strlit("running");
    reveal_strlit("completed");
    reveal_strlit("failed");
    assert(task_active(tasks[k]));
    assert(has_active(tasks));
    assert(s[0] != "submitted"@[0] && s[0] != "running"@[0]);
}

/// An office of at least the default size holds every kind of furniture that
/// a goal name sends agents to: desks, the vending and coffee machines, the
/// pinball machine, the gym, the ping-pong table, the meeting table, the
/// servers and the couch.
pub proof fn law_office_has_goal_furniture(w: u16, h: u16, name: Seq<char>, tile: Tile)
    requires
        28 <= w,
        20 <= h,
        goal_named(name) == Some(GoalPlan::Visit(tile)),
    ensures
        exists|p: Position| p.x < w && p.y < h && #[trigger] office_tile(w, h, p) == tile,
{
    let wi = w as int;
    let hi = h as int;
    let p = match tile {
        Tile::Desk => Position { x: 3, y: 3 },
        Tile::VendingMachine => Position { x: (wi - 3) as u16, y: 2 },
        Tile::CoffeeMachine => Position { x: (wi - 6) as u16, y: 2 },
        Tile::PinballMachine => Position { x: (wi - 3) as u16, y: (hi - 2) as u16 },
        Tile::GymTreadmill => Position { x: 12, y: (hi - 2) as u16 },
        Tile::WeightBench => Position { x: 14, y: (hi - 2) as u16 },
        Tile::YogaMat => Position { x: 16, y: (hi - 2) as u16 },
        Tile::PingPongTableLeft => Position { x: (wi - 8) as u16, y: (hi - 5) as u16 },
        Tile::MeetingTable => Position { x: (wi / 2) as u16, y: (hi / 2) as u16 },
        Tile::ServerRack => Position { x: (wi - 2) as u16, y: (hi / 2) as u16 },
        _ => Position { x: 3, y: (hi - 4) as u16 },
    };
    assert(office_tile(w, h, p) == tile);
}

/// The characters of an agent sprite, row by row.
pub open spec fn frame_chars(f: BigSpriteFrame) -> Seq<char> {
    Seq::new(48, |k: int| f@[k / 8]@[k % 8].ch)
}

/// The kind of figure a sprite's characters show, read from a few tell-tale
/// cells: a question mark over the head (thinking), exclamation marks
/// (error), a message over the shoulder (messaging), food in the hand
/// (eating), arms out at typing height (working) or raised (playing or
/// exercising), a leg forward (walking); otherwise standing.
pub open spec fn figure_of(cs: Seq<char>) -> int {
    if cs[1] == '?' {
        3
    } else if cs[0] == '!' {
        7
    } else if cs[6] == '◆' {
        6
    } else if cs[30] == '◘' {
        4
    } else if cs[16] == '▖' {
        2
    } else if cs[16] == '╱' {
        5
    } else if cs[21] == '▌' || cs[18] == '▐' {
        1
    } else {
        0
    }
}

/// The figure each state is drawn as.
pub open spec fn figure_for(s: AgentState) -> int {
    match s {
        AgentState::Idle | AgentState::Offline => 0,
        AgentState::Walking => 1,
        AgentState::Working => 2,
        AgentState::Thinking => 3,
        AgentState::Eating => 4,
        AgentState::Playing | AgentState::Exercising => 5,
        AgentState::Messaging => 6,
        AgentState::Error => 7,
    }
}

/// Every pose shows the figure of its state, whatever the frame and colours.
pub proof fn lemma_pose_figure(s: AgentState, frame: u8, color_idx: u8)
    ensures
        figure_of(frame_chars(pose_frame(s, frame, color_idx))) == figure_for(s),
{
    let cs = frame_chars(pose_frame(s, frame, color_idx));
    let f = pose_frame(s, frame, color_idx);
    assert(cs[0] == f@[0]@[0].ch);
    assert(cs[1] == f@[0]@[1].ch);
    assert(cs[6] == f@[0]@[6].ch);
    assert(cs[16] == f@[2]@[0].ch);
    assert(cs[18] == f@[2]@[2].ch);
    assert(cs[21] == f@[2]@[5].ch);
    assert(cs[30] == f@[3]@[6].ch);
}

/// Agents in states with different figures are drawn differently, whatever
/// their frames and colours: only idle and offline agents share a figure, and
/// so do playing and exercising ones. A thinking agent, for one, never looks
/// like a working one.
pub proof fn law_poses_tell_states_apart(s1: AgentState, f1: u8, c1: u8, s2: AgentState, f2: u8, c2: u8)
    requires
        s1 != s2,
        !(s1 == AgentState::Idle && s2 == AgentState::Offline),
        !(s1 == AgentState::Offline && s2 == AgentState::Idle),
        !(s1 == AgentState::Playing && s2 == AgentState::Exercising),
        !(s1 == AgentState::Exercising && s2 == AgentState::Playing),
    ensures
        frame_chars(pose_frame(s1, f1, c1)) != frame_chars(pose_frame(s2, f2, c2)),
{
    lemma_pose_figure(s1, f1, c1);
    lemma_pose_figure(s2, f2, c2);
}

/// `c` is the letter `d`, possibly capitalised (for lowercase `d`).
pub open spec fn same_letter(c: char, d: char) -> bool {
    c == d || c as int + 32 == d as int
}

/// `word` occurs in `text`, letters compared without regard to capitals.
pub open spec fn mentions(text: Seq<char>, word: Seq<char>) -> bool {
    exists|i: int|
        0 <= i && i + word.len() <= text.len() && #[trigger] same_from(text, word, i)
}

/// `word` occurs in `text` from position `i` on, capitals aside.
pub open spec fn same_from(text: Seq<char>, word: Seq<char>, i: int) -> bool {
    forall|k: int| 0 <= k < word.len() ==> same_letter(#[trigger] text[i + k], word[k])
}

/// A goal name sends agents to the furniture it names: the name (or, for a
/// plural, its singular) is part of the furniture's tile name. The one name
/// that is not, "archive", sends them to the server racks.
pub proof fn law_goal_names_its_furniture(name: Seq<char>, tile: Tile)
    requires
        goal_named(name) == Some(GoalPlan::Visit(tile)),
    ensures
        name == "archive"@ ==> tile == Tile::ServerRack,
        name != "archive"@ ==> mentions(tile_text(tile), name) || (name.last() == 's' && mentions(
            tile_text(tile),
            name.drop_last(),
        )),
{
    reveal_strlit("desk");
    reveal_strlit("vending");
    reveal_strlit("coffee");
    reveal_strlit("pinball");
    reveal_strlit("gym");
    reveal_strlit("treadmill");
    reveal_strlit("weights");
    reveal_strlit("yoga");
    reveal_strlit("pingpong");
    reveal_strlit("meeting");
    reveal_strlit("server");
    reveal_strlit("archive");
    reveal_strlit("couch");
    reveal_strlit("wander");
    reveal_strlit("Desk");
    reveal_strlit("VendingMachine");
    reveal_strlit("CoffeeMachine");
    reveal_strlit("PinballMachine");
    reveal_strlit("GymTreadmill");
    reveal_strlit("WeightBench");
    reveal_strlit("YogaMat");
    reveal_strlit("PingPongTableLeft");
    reveal_strlit("MeetingTable");
    reveal_strlit("ServerRack");
    reveal_strlit("Couch");
    let text = tile_text(tile);
    if name == "archive"@ {
        assert(name[0] != "vending"@[0]);
        assert(name[0] != "pinball"@[0]);
        assert(name[0] != "weights"@[0]);
        assert(name[0] != "meeting"@[0]);
    } else if name == "treadmill"@ {
        assert(same_from(text, name, 3));
    } else if name == "weights"@ {
        assert(name.drop_last() =~= seq!['w', 'e', 'i', 'g', 'h', 't']);
        assert(same_from(text, name.drop_last(), 0));
    } else {
        assert(same_from(text, name, 0));
    }
}

/// The goal names the API documents.
pub open spec fn documented_goal(name: Seq<char>) -> bool {
    ||| name == "desk"@
    ||| name == "vending"@
    ||| name == "coffee"@
    ||| name == "pinball"@
    ||| name == "gym"@
    ||| name == "treadmill"@
    ||| name == "weights"@
    ||| name == "yoga"@
    ||| name == "pingpong"@
    ||| name == "meeting"@
    ||| name == "server"@
    ||| name == "archive"@
    ||| name == "couch"@
    ||| name == "wander"@
}

/// Exactly the documented goal names are accepted, and only "wander" asks
/// for a wander; every other accepted name asks for a visit.
pub proof fn law_documented_goals_accepted(name: Seq<char>)
    ensures
        goal_named(name) is Some <==> documented_goal(name),
        goal_named(name) == Some(GoalPlan::Wander) <==> name == "wander"@,
{
    reveal_strlit("desk");
    reveal_strlit("vending");
    reveal_strlit("coffee");
    reveal_strlit("pinball");
    reveal_strlit("gym");
    reveal_strlit("treadmill");
    reveal_strlit("weights");
    reveal_strlit("yoga");
    reveal_strlit("pingpong");
    reveal_strlit("meeting");
    reveal_strlit("server");
    reveal_strlit("archive");
    reveal_strlit("couch");
    reveal_strlit("wander");
    if name == "wander"@ {
        assert(name[0] != "server"@[0]);
        assert(name[0] != "coffee"@[0]);
        assert(name.len() == 6);
        assert(name != "desk"@ && name != "vending"@ && name != "pinball"@ && name != "gym"@);
        assert(name != "treadmill"@ && name != "weights"@ && name != "yoga"@ && name != "pingpong"@);
        assert(name != "meeting"@ && name != "archive"@ && name != "couch"@);
        assert(goal_named(name) == Some(GoalPlan::Wander));
    } else if name == "vending"@ {
    } else if name == "pinball"@ {
        assert(name[0] != "vending"@[0]);
    } else if name == "weights"@ {
        assert(name[0] != "vending"@[0]);
        assert(name[0] != "pinball"@[0]);
    } else if name == "meeting"@ {
        assert(name[0] != "vending"@[0]);
        assert(name[0] != "pinball"@[0]);
        assert(name[0] != "weights"@[0]);
    } else if name == "archive"@ {
        assert(name[0] != "vending"@[0]);
        assert(name[0] != "pinball"@[0]);
        assert(name[0] != "weights"@[0]);
        assert(name[0] != "meeting"@[0]);
    } else if name == "server"@ {
        assert(name[0] != "coffee"@[0]);
    }
}

/// The goal an agent pursues on a visit targets the furniture it was sent to,
/// and is named after it: the goal's name without its "GoTo" is part of the
/// furniture's tile name; gym equipment is visited as the gym, and the
/// ping-pong table as a game of the arcade, like the pinball machine.
pub proof fn law_visit_goal_names_furniture(name: Seq<char>, tile: Tile, p: Position)
    requires
        goal_named(name) == Some(GoalPlan::Visit(tile)),
    ensures
        goal_target(goal_for_tile(tile, p)) == p,
        tile == Tile::WeightBench || tile == Tile::YogaMat ==> goal_name(goal_for_tile(tile, p)) == "GoToGym"@,
        tile == Tile::PingPongTableLeft ==> goal_name(goal_for_tile(tile, p)) == "GoToPinball"@,
        tile != Tile::WeightBench && tile != Tile::YogaMat && tile != Tile::PingPongTableLeft ==> mentions(
            tile_text(tile),
            goal_name(goal_for_tile(tile, p)).skip(4),
        ),
{
    reveal_strlit("GoToDesk");
    reveal_strlit("GoToVending");
    reveal_strlit("GoToCoffee");
    reveal_strlit("GoToPinball");
    reveal_strlit("GoToMeeting");
    reveal_strlit("GoToGym");
    reveal_strlit("GoToCouch");
    reveal_strlit("GoToServer");
    reveal_strlit("Desk");
    reveal_strlit("VendingMachine");
    reveal_strlit("CoffeeMachine");
    reveal_strlit("PinballMachine");
    reveal_strlit("GymTreadmill");
    reveal_strlit("MeetingTable");
    reveal_strlit("ServerRack");
    reveal_strlit("Couch");
    let g = goal_for_tile(tile, p);
    let word = goal_name(g).skip(4);
    if tile != Tile::WeightBench && tile != Tile::YogaMat && tile != Tile::PingPongTableLeft {
        assert(same_from(tile_text(tile), word, 0));
    }
}

} // verus!
