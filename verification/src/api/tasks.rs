//! Task reports: what an agent says about the work it was given, and how the
//! world shows it.

use vstd::prelude::*;
use crate::agent::registry::first_id_match;
use crate::agent::types::{Agent, AgentId, AgentState, AnimState};
use crate::api::observability::{
    first_task_index, lemma_without_absent_task, task_active, task_history_after, without_task, ActivityKind, AgentObserver, HeartbeatInfo,
    TaskRecord,
};
use crate::agent::message::last_n;
use crate::api::views::{copy_text, heartbeat_view, task_view};
use crate::api::service::{logged, not_found_text, opt_text, ActivityNote, ApiState};
use crate::error::ApiError;
use crate::text::{append, str_eq, trim, trimmed};
use vstd::string::StrSliceExecFns;

verus! {

/// The states a task report may give.
pub open spec fn task_state_valid(s: Seq<char>) -> bool {
    s == "submitted"@ || s == "running"@ || s == "completed"@ || s == "failed"@
}

/// Reports in these states add one to the agent's task count.
pub open spec fn counts_task(s: Seq<char>) -> bool {
    s == "completed"@ || s == "submitted"@
}

/// The task count after a report in state `s`; the count wraps at its maximum.
pub open spec fn bumped(n: u32, s: Seq<char>) -> u32 {
    if counts_task(s) {
        n.wrapping_add(1)
    } else {
        n
    }
}

/// The kind of activity a report in state `s` is logged as.
pub open spec fn task_kind(s: Seq<char>) -> ActivityKind {
    if s == "completed"@ {
        ActivityKind::TaskCompleted
    } else if s == "failed"@ {
        ActivityKind::TaskFailed
    } else {
        ActivityKind::TaskSubmitted
    }
}

/// The log text of a report.
pub open spec fn task_detail(tid: Seq<char>, s: Seq<char>, summary: Option<String>) -> Seq<char> {
    match summary {
        Some(m) => "Task "@ + tid + ": "@ + s + " — "@ + m@,
        None => "Task "@ + tid + ": "@ + s,
    }
}

pub open spec fn invalid_task_state_text(s: Seq<char>) -> Seq<char> {
    "invalid task state '"@ + s + "'. Valid: submitted, running, completed, failed"@
}

pub open spec fn task_not_found_text(tid: Seq<char>) -> Seq<char> {
    "task '"@ + tid + "' not found"@
}

pub open spec fn heartbeat_text(status: Seq<char>) -> Seq<char> {
    "Heartbeat: "@ + status
}

pub open spec fn task_deleted_text(tid: Seq<char>) -> Seq<char> {
    "Task "@ + tid + " deleted"@
}

/// The state an agent is shown in after a report in state `s`, when `busy`
/// tells whether it still has a submitted or running task; `None` keeps the
/// state it had.
pub open spec fn shown_state(s: Seq<char>, busy: bool) -> Option<AgentState> {
    if s == "submitted"@ {
        Some(AgentState::Thinking)
    } else if s == "running"@ {
        Some(AgentState::Working)
    } else if busy {
        None
    } else {
        Some(AgentState::Idle)
    }
}

/// Agent `a2` is `a` after a report in state `s`: the count moves on, and a
/// shown state, if any, is set and locks the agent against the simulation
/// unless it is idle.
pub open spec fn after_report(a: Agent, a2: Agent, s: Seq<char>, busy: bool) -> bool {
    match shown_state(s, busy) {
        Some(st) => a2 == Agent {
            state: st,
            last_activity: a2.last_activity,
            anim: AnimState { activity_ticks: 0, ..a.anim },
            api_locked: st != AgentState::Idle,
            task_count: bumped(a.task_count, s),
            ..a
        },
        None => a2 == Agent { task_count: bumped(a.task_count, s), ..a },
    }
}

/// `o2` is `o` after the report of `st` (with an optional summary and scope)
/// for task `tid` of `id` was recorded at `now`; nothing else changed.
pub open spec fn task_recorded(
    o: AgentObserver,
    o2: AgentObserver,
    id: AgentId,
    tid: String,
    st: String,
    summary: Option<String>,
    scope: Option<String>,
    now: i64,
) -> bool {
    &&& o2.wf()
    &&& o2.max_activity() == o.max_activity()
    &&& o2.max_tasks() == o.max_tasks()
    &&& o2.tasks_of(id) == task_history_after(o.tasks_of(id), tid, st, summary, scope, now, o.max_tasks() as int)
    &&& forall|k: AgentId| k != id ==> #[trigger] o2.tasks_of(k) == o.tasks_of(k)
    &&& forall|k: AgentId| #[trigger] o2.activity_of(k) == o.activity_of(k)
    &&& forall|k: AgentId| #[trigger] o2.heartbeat_of(k) == o.heartbeat_of(k)
}

/// The record (as plain values) that a report of `state` for task `tid`
/// makes from the history `s`: the first record of the task updated, or a
/// new record.
pub open spec fn reported_record(
    s: Seq<TaskRecord>,
    tid: Seq<char>,
    state: Seq<char>,
    summary: Option<String>,
    scope: Option<String>,
    now: i64,
) -> (Seq<char>, i64, Seq<char>, i64, Option<Seq<char>>, Option<Seq<char>>) {
    let j = first_task_index(s, tid);
    if j >= 0 {
        let t = s[j];
        (
            t.task_id@,
            t.submitted_at,
            state,
            now,
            if summary is Some { opt_text(summary) } else { opt_text(t.response_summary) },
            if scope is Some { opt_text(scope) } else { opt_text(t.scope) },
        )
    } else {
        (tid, now, state, now, opt_text(summary), opt_text(scope))
    }
}

/// Whether an agent with task history `s` still has a submitted or running task.
pub open spec fn has_active(s: Seq<crate::api::observability::TaskRecord>) -> bool {
    exists|k: int| 0 <= k < s.len() && task_active(#[trigger] s[k])
}

impl ApiState {
    /// Records a report of `state` (with an optional summary and scope) for
    /// the task `task_id`, without surrounding white space, of the agent that
    /// `id_text` names, and shows the agent accordingly. Returns the task id,
    /// the activity entry and a copy of the task's record as it now stands.
    pub fn report_task(
        &mut self,
        id_text: &str,
        task_id: &str,
        state: &str,
        summary: Option<String>,
        scope: Option<String>,
        now: i64,
    ) -> (r: Result<(String, ActivityNote, TaskRecord), ApiError>)
        requires
            old(self).wf(),
        ensures
            final(self).wf(),
            ({
                let reg = old(self).registry.view();
                let i = first_id_match(reg, id_text@);
                let tid = trimmed(task_id@);
                &&& r is Err <==> tid.len() == 0 || !task_state_valid(state@) || i == -1
                &&& r matches Err(e) ==> *final(self) == *old(self) && (if tid.len() == 0 {
                    e.is_bad_request("task_id cannot be empty"@)
                } else if !task_state_valid(state@) {
                    e.is_bad_request(invalid_task_state_text(state@))
                } else {
                    e.is_not_found(not_found_text(id_text@))
                })
                &&& r matches Ok((t, note, rec)) ==> {
                    let a = reg[i];
                    let a2 = final(self).registry.view()[i];
                    let tasks = final(self).observer.tasks_of(a.id);
                    let busy = has_active(tasks);
                    &&& t@ == tid
                    &&& final(self).registry.view() == reg.update(i, a2)
                    &&& after_report(a, a2, state@, busy)
                    &&& final(self).grid == old(self).grid
                    &&& exists|mid: AgentObserver, ts: String, ss: String| {
                        &&& ts@ == tid
                        &&& ss@ == state@
                        &&& #[trigger] task_recorded(old(self).observer, mid, a.id, ts, ss, summary, scope, now)
                        &&& logged(mid, final(self).observer, a.id, task_kind(state@), task_detail(tid, state@, summary), now)
                    }
                    &&& note.agent == a.id && note.kind == task_kind(state@)
                    &&& note.detail@ == task_detail(tid, state@, summary)
                    &&& task_view(rec) == reported_record(old(self).observer.tasks_of(a.id), tid, state@, summary, scope, now)
                }
            }),
    {
        let tid = trim(task_id);
        if tid.as_str().unicode_len() == 0 {
            return Err(ApiError::BadRequest(String::from_str("task_id cannot be empty")));
        }
        if !(str_eq(state, "submitted") || str_eq(state, "running") || str_eq(state, "completed") || str_eq(state, "failed")) {
            let mut m = String::from_str("invalid task state '");
            append(&mut m, state);
            append(&mut m, "'. Valid: submitted, running, completed, failed");
            return Err(ApiError::BadRequest(m));
        }
        let i = match self.lookup(id_text) {
            Ok(i) => i,
            Err(e) => return Err(e),
        };
        let id = self.registry.at(i).id;
        proof {
            self.registry.lemma_index_of_own_id(i as int);
        }
        let ghost a = self.registry.view()[i as int];
        let mut detail = String::from_str("Task ");
        append(&mut detail, tid.as_str());
        append(&mut detail, ": ");
        append(&mut detail, state);
        match &summary {
            Some(m) => {
                append(&mut detail, " — ");
                append(&mut detail, m.as_str());
            },
            None => {},
        }
        let kind = if str_eq(state, "completed") {
            ActivityKind::TaskCompleted
        } else if str_eq(state, "failed") {
            ActivityKind::TaskFailed
        } else {
            ActivityKind::TaskSubmitted
        };
        if str_eq(state, "completed") || str_eq(state, "submitted") {
            match self.registry.get_mut(&id) {
                Some(agent) => {
                    agent.task_count = agent.task_count.wrapping_add(1);
                },
                None => {},
            }
        }
        let ghost a1 = self.registry.view()[i as int];
        proof {
            assert(a1 == Agent { task_count: bumped(a.task_count, state@), ..a });
            assert(self.registry.view() == old(self).registry.view().update(i as int, a1));
            self.registry.lemma_index_of_own_id(i as int);
        }
        let rec = match self.observer.find_task(&id, tid.as_str()) {
            Some(t) => TaskRecord {
                task_id: t.task_id.clone(),
                submitted_at: t.submitted_at,
                state: String::from_str(state),
                last_updated: now,
                response_summary: if summary.is_some() {
                    copy_text(&summary)
                } else {
                    copy_text(&t.response_summary)
                },
                scope: if scope.is_some() {
                    copy_text(&scope)
                } else {
                    copy_text(&t.scope)
                },
            },
            None => TaskRecord {
                task_id: tid.clone(),
                submitted_at: now,
                state: String::from_str(state),
                last_updated: now,
                response_summary: copy_text(&summary),
                scope: copy_text(&scope),
            },
        };
        let ts = tid.clone();
        let ss = String::from_str(state);
        let ghost o0 = self.observer;
        let ghost (gts, gss) = (ts, ss);
        self.observer.record_task_at(id, ts, ss, summary, scope, now);
        let ghost mid = self.observer;
        let terminal = str_eq(state, "completed") || str_eq(state, "failed");
        let busy = terminal && self.observer.has_active_tasks(&id);
        let shown = if str_eq(state, "submitted") {
            Some(AgentState::Thinking)
        } else if str_eq(state, "running") {
            Some(AgentState::Working)
        } else if busy {
            None
        } else {
            Some(AgentState::Idle)
        };
        proof {
            assert(shown == shown_state(state@, has_active(mid.tasks_of(id))));
        }
        match shown {
            Some(st) => {
                match self.registry.get_mut(&id) {
                    Some(agent) => {
                        agent.set_state(st);
                        agent.anim.activity_ticks = 0;
                        agent.api_locked = st != AgentState::Idle;
                    },
                    None => {},
                }
            },
            None => {},
        }
        proof {
            let a2 = self.registry.view()[i as int];
            assert(self.registry.view() == old(self).registry.view().update(i as int, a2));
            assert(after_report(a, a2, state@, has_active(mid.tasks_of(id))));
        }
        let note = self.note(id, kind, detail, now);
        proof {
            assert(task_recorded(o0, mid, id, gts, gss, summary, scope, now));
            assert(self.observer.tasks_of(id) == mid.tasks_of(id));
        }
        Ok((tid, note, rec))
    }

    /// Deletes the task `task_id`, without surrounding white space, of the
    /// agent that `id_text` names. Returns the task id.
    pub fn delete_task(&mut self, id_text: &str, task_id: &str, now: i64) -> (r: Result<(String, ActivityNote), ApiError>)
        requires
            old(self).wf(),
        ensures
            final(self).wf(),
            ({
                let reg = old(self).registry.view();
                let i = first_id_match(reg, id_text@);
                let tid = trimmed(task_id@);
                let o = old(self).observer;
                let o2 = final(self).observer;
                let held = i != -1 && exists|k: int|
                    0 <= k < o.tasks_of(reg[i].id).len() && (#[trigger] o.tasks_of(reg[i].id)[k]).task_id@ == tid;
                &&& r is Err <==> tid.len() == 0 || i == -1 || !held
                &&& r matches Err(e) ==> {
                    &&& final(self).registry == old(self).registry
                    &&& final(self).grid == old(self).grid
                    &&& o2.wf()
                    &&& o2.max_activity() == o.max_activity()
                    &&& o2.max_tasks() == o.max_tasks()
                    &&& forall|k: AgentId| #[trigger] o2.tasks_of(k) == o.tasks_of(k)
                    &&& forall|k: AgentId| #[trigger] o2.activity_of(k) == o.activity_of(k)
                    &&& forall|k: AgentId| #[trigger] o2.heartbeat_of(k) == o.heartbeat_of(k)
                    &&& if tid.len() == 0 {
                        e.is_bad_request("task_id cannot be empty"@)
                    } else if i == -1 {
                        e.is_not_found(not_found_text(id_text@))
                    } else {
                        e.is_not_found(task_not_found_text(tid))
                    }
                }
                &&& r matches Ok((t, note)) ==> {
                    let id = reg[i].id;
                    &&& t@ == tid
                    &&& final(self).registry == old(self).registry
                    &&& final(self).grid == old(self).grid
                    &&& exists|mid: AgentObserver| {
                        &&& mid.wf()
                        &&& mid.max_activity() == o.max_activity()
                        &&& mid.max_tasks() == o.max_tasks()
                        &&& #[trigger] mid.tasks_of(id) == without_task(o.tasks_of(id), tid)
                        &&& forall|k: AgentId| k != id ==> #[trigger] mid.tasks_of(k) == o.tasks_of(k)
                        &&& forall|k: AgentId| #[trigger] mid.activity_of(k) == o.activity_of(k)
                        &&& forall|k: AgentId| #[trigger] mid.heartbeat_of(k) == o.heartbeat_of(k)
                        &&& logged(mid, o2, id, ActivityKind::TaskFailed, task_deleted_text(tid), now)
                    }
                    &&& note.agent == id && note.kind == ActivityKind::TaskFailed
                    &&& note.detail@ == task_deleted_text(tid)
                }
            }),
    {
        let tid = trim(task_id);
        if tid.as_str().unicode_len() == 0 {
            return Err(ApiError::BadRequest(String::from_str("task_id cannot be empty")));
        }
        let i = match self.lookup(id_text) {
            Ok(i) => i,
            Err(e) => return Err(e),
        };
        let id = self.registry.at(i).id;
        let ghost before = self.observer.tasks_of(id);
        let found = self.observer.delete_task(&id, tid.as_str());
        if !found {
            proof {
                lemma_without_absent_task(before, tid@);
                assert forall|k: AgentId| #[trigger] self.observer.tasks_of(k) == old(self).observer.tasks_of(k) by {
                    if k != id {
                        assert(self.observer.tasks_of(k) == old(self).observer.tasks_of(k));
                    }
                }
            }
            let mut m = String::from_str("task '");
            append(&mut m, tid.as_str());
            append(&mut m, "' not found");
            return Err(ApiError::NotFound(m));
        }
        let ghost mid = self.observer;
        let mut detail = String::from_str("Task ");
        append(&mut detail, tid.as_str());
        append(&mut detail, " deleted");
        let note = self.note(id, ActivityKind::TaskFailed, detail, now);
        proof {
            assert(mid.tasks_of(id) == without_task(old(self).observer.tasks_of(id), tid@));
        }
        Ok((tid, note))
    }
    /// Records a heartbeat with `status` (and optional JSON metadata) from the
    /// agent that `id_text` names, seen at `now`, and logs it. Returns a copy
    /// of the recorded heartbeat.
    pub fn post_agent_heartbeat(&mut self, id_text: &str, status: &str, metadata: Option<String>, now: i64) -> (r: Result<HeartbeatInfo, ApiError>)
        requires
            old(self).wf(),
        ensures
            final(self).wf(),
            ({
                let reg = old(self).registry.view();
                let i = first_id_match(reg, id_text@);
                let o = old(self).observer;
                let o2 = final(self).observer;
                &&& r is Err <==> i == -1
                &&& r matches Err(e) ==> *final(self) == *old(self) && e.is_not_found(not_found_text(id_text@))
                &&& r matches Ok(hb) ==> {
                    let id = reg[i].id;
                    &&& final(self).registry == old(self).registry
                    &&& final(self).grid == old(self).grid
                    &&& heartbeat_view(Some(hb)) == Some((now, status@, opt_text(metadata)))
                    &&& heartbeat_view(o2.heartbeat_of(id)) == Some((now, status@, opt_text(metadata)))
                    &&& forall|k: AgentId| k != id ==> #[trigger] o2.heartbeat_of(k) == o.heartbeat_of(k)
                    &&& o2.max_activity() == o.max_activity()
                    &&& o2.max_tasks() == o.max_tasks()
                    &&& o2.activity_view(id) == last_n(
                        o.activity_view(id).push((now, ActivityKind::Heartbeat, heartbeat_text(status@))),
                        o.max_activity() as int,
                    )
                    &&& forall|k: AgentId| k != id ==> #[trigger] o2.activity_of(k) == o.activity_of(k)
                    &&& forall|k: AgentId| #[trigger] o2.tasks_of(k) == o.tasks_of(k)
                }
            }),
    {
        let i = match self.lookup(id_text) {
            Ok(i) => i,
            Err(e) => return Err(e),
        };
        let id = self.registry.at(i).id;
        let copy = HeartbeatInfo { last_seen: now, status: String::from_str(status), metadata: copy_text(&metadata) };
        self.observer.update_heartbeat_at(id, String::from_str(status), metadata, now);
        let mut detail = String::from_str("Heartbeat: ");
        append(&mut detail, status);
        let ghost mid = self.observer;
        self.observer.record_activity_at(id, ActivityKind::Heartbeat, detail, now);
        proof {
            assert(self.observer.heartbeat_of(id) == mid.heartbeat_of(id));
            assert(mid.activity_of(id) == old(self).observer.activity_of(id));
        }
        Ok(copy)
    }
}

} // verus!