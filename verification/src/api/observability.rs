use vstd::prelude::*;
use std::collections::VecDeque;
use crate::agent::message::{last_n, now_millis};
use crate::agent::table::AgentTable;
use crate::agent::types::AgentId;
use crate::text::str_eq;

verus! {

/// Kinds of events recorded in an agent's activity log.
#[derive(Debug, Clone, Copy, PartialEq, Eq, Structural)]
pub enum ActivityKind {
    StateChange,
    Movement,
    MessageSent,
    MessageReceived,
    GoalAssigned,
    TaskSubmitted,
    TaskCompleted,
    TaskFailed,
    Spawned,
    Removed,
    Heartbeat,
}

/// One entry of an activity log; times are milliseconds since the Unix epoch.
#[derive(Debug)]
pub struct ActivityEntry {
    pub timestamp: i64,
    pub kind: ActivityKind,
    pub detail: String,
}

/// The last heartbeat of an agent; `metadata` is JSON text.
#[derive(Debug)]
pub struct HeartbeatInfo {
    pub last_seen: i64,
    pub status: String,
    pub metadata: Option<String>,
}

/// A task that an agent reported.
#[derive(Debug)]
pub struct TaskRecord {
    pub task_id: String,
    pub submitted_at: i64,
    pub state: String,
    pub last_updated: i64,
    pub response_summary: Option<String>,
    /// The full scope of the task, when one was reported.
    pub scope: Option<String>,
}

/// The plain values of a log entry: time, kind and detail text.
pub open spec fn entry_view(e: ActivityEntry) -> (i64, ActivityKind, Seq<char>) {
    (e.timestamp, e.kind, e.detail@)
}

/// The record of `t` after a report of `state` (and maybe a summary and a
/// scope) at `now`; an absent summary or scope keeps the one recorded before.
pub open spec fn updated_task(t: TaskRecord, state: String, summary: Option<String>, scope: Option<String>, now: i64) -> TaskRecord {
    TaskRecord {
        task_id: t.task_id,
        submitted_at: t.submitted_at,
        state,
        last_updated: now,
        response_summary: if summary is Some { summary } else { t.response_summary },
        scope: if scope is Some { scope } else { t.scope },
    }
}

/// The index of the first record of `s` with task id `tid`, or -1.
pub open spec fn first_task_index(s: Seq<TaskRecord>, tid: Seq<char>) -> int {
    if exists|i: int| 0 <= i < s.len() && (#[trigger] s[i]).task_id@ == tid {
        choose|i: int|
            0 <= i < s.len() && (#[trigger] s[i]).task_id@ == tid && forall|k: int| 0 <= k < i ==> (#[trigger] s[k]).task_id@ != tid
    } else {
        -1
    }
}

/// `s` without the records whose task id is `tid`.
pub open spec fn without_task(s: Seq<TaskRecord>, tid: Seq<char>) -> Seq<TaskRecord>
    decreases s.len(),
{
    if s.len() == 0 {
        s
    } else if s.last().task_id@ == tid {
        without_task(s.drop_last(), tid)
    } else {
        without_task(s.drop_last(), tid).push(s.last())
    }
}

/// Whether a task in this state still keeps its agent busy.
pub open spec fn task_active(t: TaskRecord) -> bool {
    t.state@ == "submitted"@ || t.state@ == "running"@
}

/// How fresh a heartbeat that is `elapsed_ms` old is: under a minute is
/// "online", under five minutes "stale", older "offline".
pub open spec fn health_for_elapsed(elapsed_ms: int) -> Seq<char> {
    if elapsed_ms < 60_000 {
        "online"@
    } else if elapsed_ms < 300_000 {
        "stale"@
    } else {
        "offline"@
    }
}

/// `ms` in whole seconds, cut toward zero.
pub open spec fn whole_seconds(ms: int) -> int {
    if ms >= 0 {
        ms / 1000
    } else {
        -((-ms) / 1000)
    }
}

/// The health of a heartbeat is read the same from its age in whole seconds,
/// cut toward zero: under 60 is "online", under 300 "stale".
pub proof fn lemma_health_by_whole_seconds(elapsed_ms: int)
    ensures
        health_for_elapsed(elapsed_ms) == (if whole_seconds(elapsed_ms) < 60 {
            "online"@
        } else if whole_seconds(elapsed_ms) < 300 {
            "stale"@
        } else {
            "offline"@
        }),
{
}

/// The connection health shown for an agent whose last heartbeat is `hb`, at
/// time `now`.
pub open spec fn health_text(hb: Option<HeartbeatInfo>, now: int) -> Seq<char> {
    match hb {
        Some(h) => health_for_elapsed(now - h.last_seen),
        None => "unknown"@,
    }
}

/// When a record of `tid` exists, the first one is at `first_task_index`.
pub proof fn lemma_first_task_index_found(s: Seq<TaskRecord>, tid: Seq<char>)
    requires
        first_task_index(s, tid) >= 0,
    ensures
        first_task_index(s, tid) < s.len(),
        s[first_task_index(s, tid)].task_id@ == tid,
{
    let j = choose|i: int| 0 <= i < s.len() && (#[trigger] s[i]).task_id@ == tid;
    lemma_first_task_below(s, tid, j);
}

/// If `s[j]` records `tid`, the first record of `tid` is at or before `j`.
pub proof fn lemma_first_task_below(s: Seq<TaskRecord>, tid: Seq<char>, j: int)
    requires
        0 <= j < s.len(),
        s[j].task_id@ == tid,
    ensures
        0 <= first_task_index(s, tid) <= j,
        s[first_task_index(s, tid)].task_id@ == tid,
    decreases j,
{
    if exists|k: int| 0 <= k < j && (#[trigger] s[k]).task_id@ == tid {
        let k = choose|k: int| 0 <= k < j && (#[trigger] s[k]).task_id@ == tid;
        lemma_first_task_below(s, tid, k);
    } else {
        lemma_first_task_index(s, tid, j);
    }
}

proof fn lemma_first_task_index(s: Seq<TaskRecord>, tid: Seq<char>, j: int)
    requires
        0 <= j < s.len(),
        s[j].task_id@ == tid,
        forall|k: int| 0 <= k < j ==> (#[trigger] s[k]).task_id@ != tid,
    ensures
        first_task_index(s, tid) == j,
{
    assert(exists|i: int| 0 <= i < s.len() && (#[trigger] s[i]).task_id@ == tid);
    assert(exists|i: int|
        0 <= i < s.len() && (#[trigger] s[i]).task_id@ == tid && forall|k: int| 0 <= k < i ==> (#[trigger] s[k]).task_id@ != tid);
    let c = first_task_index(s, tid);
    if c < j {
        assert(s[c].task_id@ != tid);
    } else if c > j {
        assert(s[j].task_id@ != tid);
    }
}

proof fn lemma_without_task_len(s: Seq<TaskRecord>, tid: Seq<char>)
    ensures
        without_task(s, tid).len() <= s.len(),
        without_task(s, tid).len() < s.len() <==> exists|i: int| 0 <= i < s.len() && (#[trigger] s[i]).task_id@ == tid,
    decreases s.len(),
{
    if s.len() > 0 {
        let t = s.drop_last();
        lemma_without_task_len(t, tid);
        if exists|i: int| 0 <= i < t.len() && (#[trigger] t[i]).task_id@ == tid {
            let i = choose|i: int| 0 <= i < t.len() && (#[trigger] t[i]).task_id@ == tid;
            assert(s[i] == t[i]);
        }
        if exists|i: int| 0 <= i < s.len() && (#[trigger] s[i]).task_id@ == tid {
            let i = choose|i: int| 0 <= i < s.len() && (#[trigger] s[i]).task_id@ == tid;
            if i < s.len() - 1 {
                assert(t[i] == s[i]);
            }
        }
    }
}

/// Deleting a task that `s` does not hold leaves `s` as it is.
pub proof fn lemma_without_absent_task(s: Seq<TaskRecord>, tid: Seq<char>)
    requires
        !(exists|i: int| 0 <= i < s.len() && (#[trigger] s[i]).task_id@ == tid),
    ensures
        without_task(s, tid) == s,
    decreases s.len(),
{
    if s.len() > 0 {
        let t = s.drop_last();
        assert(s[s.len() - 1].task_id@ != tid);
        assert forall|i: int| 0 <= i < t.len() implies (#[trigger] t[i]).task_id@ != tid by {
            assert(t[i] == s[i]);
        }
        lemma_without_absent_task(t, tid);
        assert(t.push(s.last()) =~= s);
    }
}

/// The task history `s` after a report of `state` for task `task_id` at `now`:
/// the first record of that task is updated in place; an unknown task is
/// appended, dropping the oldest records beyond `max`.
pub open spec fn task_history_after(
    s: Seq<TaskRecord>,
    task_id: String,
    state: String,
    summary: Option<String>,
    scope: Option<String>,
    now: i64,
    max: int,
) -> Seq<TaskRecord> {
    let j = first_task_index(s, task_id@);
    if j >= 0 {
        s.update(j, updated_task(s[j], state, summary, scope, now))
    } else {
        last_n(
            s.push(TaskRecord { task_id, submitted_at: now, state, last_updated: now, response_summary: summary, scope }),
            max,
        )
    }
}

/// Central observability store: per agent, a bounded activity log, the last
/// heartbeat and a bounded task history.
pub struct AgentObserver {
    activity: AgentTable<VecDeque<ActivityEntry>>,
    heartbeats: AgentTable<HeartbeatInfo>,
    tasks: AgentTable<VecDeque<TaskRecord>>,
    max_activity: usize,
    max_tasks: usize,
}

impl AgentObserver {
    /// The activity log of `id`, oldest first.
    pub closed spec fn activity_of(&self, id: AgentId) -> Seq<ActivityEntry> {
        if self.activity.view().contains_key(id) { self.activity.view()[id]@ } else { Seq::empty() }
    }

    /// The activity log of `id` as plain values, oldest first.
    pub open spec fn activity_view(&self, id: AgentId) -> Seq<(i64, ActivityKind, Seq<char>)> {
        self.activity_of(id).map_values(|e: ActivityEntry| entry_view(e))
    }

    /// The last heartbeat of `id`.
    pub closed spec fn heartbeat_of(&self, id: AgentId) -> Option<HeartbeatInfo> {
        if self.heartbeats.view().contains_key(id) { Some(self.heartbeats.view()[id]) } else { None }
    }

    /// The task history of `id`, oldest first.
    pub closed spec fn tasks_of(&self, id: AgentId) -> Seq<TaskRecord> {
        if self.tasks.view().contains_key(id) { self.tasks.view()[id]@ } else { Seq::empty() }
    }

    pub closed spec fn max_activity(&self) -> nat {
        self.max_activity as nat
    }

    pub closed spec fn max_tasks(&self) -> nat {
        self.max_tasks as nat
    }

    /// The tables are well formed and every log is within its cap.
    pub closed spec fn wf(&self) -> bool {
        &&& self.activity.wf()
        &&& self.heartbeats.wf()
        &&& self.tasks.wf()
        &&& forall|id: AgentId| (#[trigger] self.activity_of(id)).len() <= self.max_activity
        &&& forall|id: AgentId| (#[trigger] self.tasks_of(id)).len() <= self.max_tasks
    }

    /// Each log of a well-formed store is within its cap.
    pub proof fn lemma_caps(&self, id: AgentId)
        requires
            self.wf(),
        ensures
            self.activity_of(id).len() <= self.max_activity(),
            self.tasks_of(id).len() <= self.max_tasks(),
    {
    }

    /// An empty store keeping at most `max_activity` log entries and
    /// `max_tasks` task records per agent.
    pub fn new(max_activity: usize, max_tasks: usize) -> (o: AgentObserver)
        ensures
            o.wf(),
            o.max_activity() == max_activity,
            o.max_tasks() == max_tasks,
            forall|id: AgentId| #[trigger] o.activity_of(id) == Seq::<ActivityEntry>::empty(),
            forall|id: AgentId| #[trigger] o.heartbeat_of(id) is None,
            forall|id: AgentId| #[trigger] o.tasks_of(id) == Seq::<TaskRecord>::empty(),
    {
        AgentObserver {
            activity: AgentTable::new(),
            heartbeats: AgentTable::new(),
            tasks: AgentTable::new(),
            max_activity,
            max_tasks,
        }
    }

    /// Appends an entry stamped `now` to the log of `agent_id`, dropping the
    /// oldest entries beyond the cap.
    pub fn record_activity_at(&mut self, agent_id: AgentId, kind: ActivityKind, detail: String, now: i64)
        requires
            old(self).wf(),
        ensures
            final(self).wf(),
            final(self).max_activity() == old(self).max_activity(),
            final(self).max_tasks() == old(self).max_tasks(),
            final(self).activity_of(agent_id) == last_n(
                old(self).activity_of(agent_id).push(ActivityEntry { timestamp: now, kind, detail }),
                old(self).max_activity() as int,
            ),
            final(self).activity_view(agent_id) == last_n(
                old(self).activity_view(agent_id).push((now, kind, detail@)),
                old(self).max_activity() as int,
            ),
            forall|id: AgentId| id != agent_id ==> #[trigger] final(self).activity_of(id) == old(self).activity_of(id),
            forall|id: AgentId| #[trigger] final(self).heartbeat_of(id) == old(self).heartbeat_of(id),
            forall|id: AgentId| #[trigger] final(self).tasks_of(id) == old(self).tasks_of(id),
    {
        let ghost before = self.activity_of(agent_id);
        let ghost dv = detail@;
        let mut entries = match self.activity.remove(&agent_id) {
            Some(e) => e,
            None => VecDeque::new(),
        };
        entries.push_back(ActivityEntry { timestamp: now, kind, detail });
        let ghost full = entries@;
        while entries.len() > self.max_activity
            invariant
                entries@.len() <= full.len(),
                entries@.len() >= self.max_activity || entries@.len() == full.len(),
                entries@ == full.subrange(full.len() - entries@.len(), full.len() as int),
            decreases entries@.len(),
        {
            entries.pop_front();
        }
        assert(entries@ =~= last_n(full, self.max_activity as int));
        let ghost kept = entries@;
        self.activity.insert(agent_id, entries);
        proof {
            assert(self.activity.view().contains_key(agent_id));
            assert(self.activity_of(agent_id) == kept);
            assert forall|id: AgentId| id != agent_id implies #[trigger] self.activity_of(id) == old(self).activity_of(id) by {
                assert(self.activity.view().contains_key(id) == old(self).activity.view().contains_key(id));
                if self.activity.view().contains_key(id) {
                    assert(self.activity.view()[id] == old(self).activity.view()[id]);
                }
            }
            assert forall|id: AgentId| #[trigger] self.activity_of(id).len() <= self.max_activity by {
                if id != agent_id {
                    assert(self.activity_of(id) == old(self).activity_of(id));
                }
            }
            assert forall|id: AgentId| #[trigger] self.tasks_of(id).len() <= self.max_tasks by {
                assert(self.tasks_of(id) == old(self).tasks_of(id));
            }
            let e = ActivityEntry { timestamp: now, kind, detail: full.last().detail };
            assert(full == before.push(full.last()));
            assert(self.activity_view(agent_id) =~= last_n(
                old(self).activity_view(agent_id).push((now, kind, dv)),
                self.max_activity as int,
            ));
        }
    }

    /// Appends an entry stamped with the current time to the log of `agent_id`.
    pub fn record_activity(&mut self, agent_id: AgentId, kind: ActivityKind, detail: String)
        requires
            old(self).wf(),
        ensures
            final(self).wf(),
            final(self).max_activity() == old(self).max_activity(),
            final(self).max_tasks() == old(self).max_tasks(),
            exists|now: i64| final(self).activity_of(agent_id) == last_n(
                old(self).activity_of(agent_id).push(ActivityEntry { timestamp: now, kind, detail }),
                old(self).max_activity() as int,
            ),
            forall|id: AgentId| id != agent_id ==> #[trigger] final(self).activity_of(id) == old(self).activity_of(id),
            forall|id: AgentId| #[trigger] final(self).heartbeat_of(id) == old(self).heartbeat_of(id),
            forall|id: AgentId| #[trigger] final(self).tasks_of(id) == old(self).tasks_of(id),
    {
        let now = now_millis();
        self.record_activity_at(agent_id, kind, detail, now);
    }

    /// Records a heartbeat of `agent_id` seen at `now`.
    pub fn update_heartbeat_at(&mut self, agent_id: AgentId, status: String, metadata: Option<String>, now: i64)
        requires
            old(self).wf(),
        ensures
            final(self).wf(),
            final(self).max_activity() == old(self).max_activity(),
            final(self).max_tasks() == old(self).max_tasks(),
            final(self).heartbeat_of(agent_id) == Some(HeartbeatInfo { last_seen: now, status, metadata }),
            forall|id: AgentId| id != agent_id ==> #[trigger] final(self).heartbeat_of(id) == old(self).heartbeat_of(id),
            forall|id: AgentId| #[trigger] final(self).activity_of(id) == old(self).activity_of(id),
            forall|id: AgentId| #[trigger] final(self).tasks_of(id) == old(self).tasks_of(id),
    {
        self.heartbeats.insert(agent_id, HeartbeatInfo { last_seen: now, status, metadata });
        proof {
            assert forall|id: AgentId| #[trigger] self.activity_of(id).len() <= self.max_activity by {
                assert(self.activity_of(id) == old(self).activity_of(id));
            }
            assert forall|id: AgentId| #[trigger] self.tasks_of(id).len() <= self.max_tasks by {
                assert(self.tasks_of(id) == old(self).tasks_of(id));
            }
        }
    }

    /// Records a heartbeat of `agent_id` seen now.
    pub fn update_heartbeat(&mut self, agent_id: AgentId, status: String, metadata: Option<String>)
        requires
            old(self).wf(),
        ensures
            final(self).wf(),
            final(self).max_activity() == old(self).max_activity(),
            final(self).max_tasks() == old(self).max_tasks(),
            exists|now: i64| final(self).heartbeat_of(agent_id) == Some(HeartbeatInfo { last_seen: now, status, metadata }),
            forall|id: AgentId| id != agent_id ==> #[trigger] final(self).heartbeat_of(id) == old(self).heartbeat_of(id),
            forall|id: AgentId| #[trigger] final(self).activity_of(id) == old(self).activity_of(id),
            forall|id: AgentId| #[trigger] final(self).tasks_of(id) == old(self).tasks_of(id),
    {
        let now = now_millis();
        self.update_heartbeat_at(agent_id, status, metadata, now);
    }
    /// Records a report of `state` for task `task_id` of `agent_id` at `now`.
    pub fn record_task_at(
        &mut self,
        agent_id: AgentId,
        task_id: String,
        state: String,
        response_summary: Option<String>,
        scope: Option<String>,
        now: i64,
    )
        requires
            old(self).wf(),
        ensures
            final(self).wf(),
            final(self).max_activity() == old(self).max_activity(),
            final(self).max_tasks() == old(self).max_tasks(),
            final(self).tasks_of(agent_id) == task_history_after(
                old(self).tasks_of(agent_id),
                task_id,
                state,
                response_summary,
                scope,
                now,
                old(self).max_tasks() as int,
            ),
            forall|id: AgentId| id != agent_id ==> #[trigger] final(self).tasks_of(id) == old(self).tasks_of(id),
            forall|id: AgentId| #[trigger] final(self).activity_of(id) == old(self).activity_of(id),
            forall|id: AgentId| #[trigger] final(self).heartbeat_of(id) == old(self).heartbeat_of(id),
    {
        let ghost before = self.tasks_of(agent_id);
        let mut records = match self.tasks.remove(&agent_id) {
            Some(r) => r,
            None => VecDeque::new(),
        };
        assert(records@ == before);
        let mut j: usize = 0;
        let mut found = false;
        while j < records.len() && !found
            invariant
                records@ == before,
                j <= records@.len(),
                forall|k: int| 0 <= k < j ==> (#[trigger] records@[k]).task_id@ != task_id@,
                found ==> j < records@.len() && records@[j as int].task_id@ == task_id@,
            decreases records@.len() - j + (if found { 0int } else { 1int }),
        {
            if str_eq(records[j].task_id.as_str(), task_id.as_str()) {
                found = true;
            } else {
                j = j + 1;
            }
        }
        if found {
            proof {
                lemma_first_task_index(before, task_id@, j as int);
            }
            let old_rec = records.remove(j).unwrap();
            let summary = if response_summary.is_some() {
                response_summary
            } else {
                old_rec.response_summary
            };
            let kept_scope = if scope.is_some() {
                scope
            } else {
                old_rec.scope
            };
            let rec = TaskRecord {
                task_id: old_rec.task_id,
                submitted_at: old_rec.submitted_at,
                state,
                last_updated: now,
                response_summary: summary,
                scope: kept_scope,
            };
            records.insert(j, rec);
            assert(records@ =~= before.update(j as int, updated_task(before[j as int], state, response_summary, scope, now)));
        } else {
            proof {
                assert(!(exists|i: int| 0 <= i < before.len() && (#[trigger] before[i]).task_id@ == task_id@));
            }
            records.push_back(TaskRecord {
                task_id,
                submitted_at: now,
                state,
                last_updated: now,
                response_summary,
                scope,
            });
            let ghost full = records@;
            while records.len() > self.max_tasks
                invariant
                    records@.len() <= full.len(),
                    records@.len() >= self.max_tasks || records@.len() == full.len(),
                    records@ == full.subrange(full.len() - records@.len(), full.len() as int),
                decreases records@.len(),
            {
                records.pop_front();
            }
            assert(records@ =~= last_n(full, self.max_tasks as int));
        }
        let ghost kept = records@;
        self.tasks.insert(agent_id, records);
        proof {
            assert(self.tasks_of(agent_id) == kept);
            assert forall|id: AgentId| id != agent_id implies #[trigger] self.tasks_of(id) == old(self).tasks_of(id) by {
                assert(self.tasks.view().contains_key(id) == old(self).tasks.view().contains_key(id));
                if self.tasks.view().contains_key(id) {
                    assert(self.tasks.view()[id] == old(self).tasks.view()[id]);
                }
            }
            assert forall|id: AgentId| #[trigger] self.tasks_of(id).len() <= self.max_tasks by {
                if id != agent_id {
                    assert(self.tasks_of(id) == old(self).tasks_of(id));
                } else {
                    assert(old(self).tasks_of(id).len() <= self.max_tasks);
                }
            }
            assert forall|id: AgentId| #[trigger] self.activity_of(id).len() <= self.max_activity by {
                assert(self.activity_of(id) == old(self).activity_of(id));
            }
        }
    }

    /// Records a report of `state` for task `task_id` of `agent_id` now.
    pub fn record_task(
        &mut self,
        agent_id: AgentId,
        task_id: String,
        state: String,
        response_summary: Option<String>,
        scope: Option<String>,
    )
        requires
            old(self).wf(),
        ensures
            final(self).wf(),
            final(self).max_activity() == old(self).max_activity(),
            final(self).max_tasks() == old(self).max_tasks(),
            exists|now: i64| final(self).tasks_of(agent_id) == task_history_after(
                old(self).tasks_of(agent_id),
                task_id,
                state,
                response_summary,
                scope,
                now,
                old(self).max_tasks() as int,
            ),
            forall|id: AgentId| id != agent_id ==> #[trigger] final(self).tasks_of(id) == old(self).tasks_of(id),
            forall|id: AgentId| #[trigger] final(self).activity_of(id) == old(self).activity_of(id),
            forall|id: AgentId| #[trigger] final(self).heartbeat_of(id) == old(self).heartbeat_of(id),
    {
        let now = now_millis();
        self.record_task_at(agent_id, task_id, state, response_summary, scope, now);
    }

    /// The `limit` most recent log entries of `agent_id`, oldest first.
    pub fn get_activity(&self, agent_id: &AgentId, limit: usize) -> (r: Vec<&ActivityEntry>)
        requires
            self.wf(),
        ensures
            r@.len() == last_n(self.activity_of(*agent_id), limit as int).len(),
            forall|k: int| 0 <= k < r@.len() ==> *r@[k] == #[trigger] last_n(self.activity_of(*agent_id), limit as int)[k],
    {
        let mut r: Vec<&ActivityEntry> = Vec::new();
        match self.activity.get(agent_id) {
            None => {
                proof {
                    assert(self.activity_of(*agent_id) =~= Seq::<ActivityEntry>::empty());
                }
                r
            },
            Some(entries) => {
                let ghost s = entries@;
                assert(s == self.activity_of(*agent_id));
                let n = entries.len();
                let skip = if limit >= n { 0 } else { n - limit };
                let mut i = skip;
                while i < n
                    invariant
                        s == entries@,
                        n == s.len(),
                        skip <= i <= n,
                        skip == (if limit >= n { 0 } else { n - limit }),
                        r@.len() == i - skip,
                        forall|k: int| 0 <= k < r@.len() ==> *r@[k] == #[trigger] s[skip + k],
                    decreases n - i,
                {
                    r.push(&entries[i]);
                    i = i + 1;
                }
                assert(last_n(s, limit as int) =~= s.subrange(skip as int, n as int));
                assert forall|k: int| 0 <= k < r@.len() implies *r@[k] == #[trigger] last_n(s, limit as int)[k] by {
                    assert(*r@[k] == s[skip + k]);
                }
                r
            },
        }
    }

    /// The last heartbeat of `agent_id`.
    pub fn get_heartbeat(&self, agent_id: &AgentId) -> (r: Option<&HeartbeatInfo>)
        requires
            self.wf(),
        ensures
            r is Some <==> self.heartbeat_of(*agent_id) is Some,
            r matches Some(h) ==> self.heartbeat_of(*agent_id) == Some(*h),
    {
        self.heartbeats.get(agent_id)
    }

    /// The `limit` most recent task records of `agent_id`, oldest first.
    pub fn get_tasks(&self, agent_id: &AgentId, limit: usize) -> (r: Vec<&TaskRecord>)
        requires
            self.wf(),
        ensures
            r@.len() == last_n(self.tasks_of(*agent_id), limit as int).len(),
            forall|k: int| 0 <= k < r@.len() ==> *r@[k] == #[trigger] last_n(self.tasks_of(*agent_id), limit as int)[k],
    {
        let mut r: Vec<&TaskRecord> = Vec::new();
        match self.tasks.get(agent_id) {
            None => {
                proof {
                    assert(self.tasks_of(*agent_id) =~= Seq::<TaskRecord>::empty());
                }
                r
            },
            Some(records) => {
                let ghost s = records@;
                assert(s == self.tasks_of(*agent_id));
                let n = records.len();
                let skip = if limit >= n { 0 } else { n - limit };
                let mut i = skip;
                while i < n
                    invariant
                        s == records@,
                        n == s.len(),
                        skip <= i <= n,
                        skip == (if limit >= n { 0 } else { n - limit }),
                        r@.len() == i - skip,
                        forall|k: int| 0 <= k < r@.len() ==> *r@[k] == #[trigger] s[skip + k],
                    decreases n - i,
                {
                    r.push(&records[i]);
                    i = i + 1;
                }
                assert(last_n(s, limit as int) =~= s.subrange(skip as int, n as int));
                assert forall|k: int| 0 <= k < r@.len() implies *r@[k] == #[trigger] last_n(s, limit as int)[k] by {
                    assert(*r@[k] == s[skip + k]);
                }
                r
            },
        }
    }

    /// The first record of task `task_id` of `agent_id`, if there is one.
    pub fn find_task(&self, agent_id: &AgentId, task_id: &str) -> (r: Option<&TaskRecord>)
        requires
            self.wf(),
        ensures
            r is None <==> first_task_index(self.tasks_of(*agent_id), task_id@) == -1,
            r matches Some(t) ==> first_task_index(self.tasks_of(*agent_id), task_id@) >= 0 && *t == self.tasks_of(
                *agent_id,
            )[first_task_index(self.tasks_of(*agent_id), task_id@)],
    {
        match self.tasks.get(agent_id) {
            None => {
                proof {
                    assert(self.tasks_of(*agent_id) =~= Seq::<TaskRecord>::empty());
                }
                None
            },
            Some(records) => {
                let mut j: usize = 0;
                while j < records.len()
                    invariant
                        records@ == self.tasks_of(*agent_id),
                        j <= records@.len(),
                        forall|k: int| 0 <= k < j ==> (#[trigger] records@[k]).task_id@ != task_id@,
                    decreases records@.len() - j,
                {
                    if str_eq(records[j].task_id.as_str(), task_id) {
                        proof {
                            lemma_first_task_index(records@, task_id@, j as int);
                        }
                        return Some(&records[j]);
                    }
                    j = j + 1;
                }
                None
            },
        }
    }

    /// Connection health of `agent_id` at time `now`: "unknown" without a
    /// heartbeat, otherwise by the age of the last heartbeat.
    pub fn connection_health_at(&self, agent_id: &AgentId, now: i64) -> (h: &'static str)
        requires
            self.wf(),
        ensures
            h@ == health_text(self.heartbeat_of(*agent_id), now as int),
    {
        match self.heartbeats.get(agent_id) {
            Some(hb) => {
                let elapsed: i128 = (now as i128) - (hb.last_seen as i128);
                if elapsed < 60_000 {
                    "online"
                } else if elapsed < 300_000 {
                    "stale"
                } else {
                    "offline"
                }
            },
            None => "unknown",
        }
    }

    /// Connection health of `agent_id` now.
    pub fn connection_health(&self, agent_id: &AgentId) -> (h: &'static str)
        requires
            self.wf(),
        ensures
            exists|now: i64| h@ == #[trigger] health_text(self.heartbeat_of(*agent_id), now as int),
    {
        let now = now_millis();
        self.connection_health_at(agent_id, now)
    }

    /// Whether `agent_id` has a task that is submitted or running.
    pub fn has_active_tasks(&self, agent_id: &AgentId) -> (b: bool)
        requires
            self.wf(),
        ensures
            b == exists|i: int| 0 <= i < self.tasks_of(*agent_id).len() && task_active(#[trigger] self.tasks_of(*agent_id)[i]),
    {
        match self.tasks.get(agent_id) {
            None => false,
            Some(records) => {
                let mut i: usize = 0;
                while i < records.len()
                    invariant
                        records@ == self.tasks_of(*agent_id),
                        i <= records@.len(),
                        forall|k: int| 0 <= k < i ==> !task_active(#[trigger] records@[k]),
                    decreases records@.len() - i,
                {
                    let st = records[i].state.as_str();
                    if str_eq(st, "submitted") || str_eq(st, "running") {
                        assert(task_active(records@[i as int]));
                        return true;
                    }
                    i = i + 1;
                }
                false
            },
        }
    }

    /// Deletes every record of task `task_id` of `agent_id`; returns whether
    /// there was one.
    pub fn delete_task(&mut self, agent_id: &AgentId, task_id: &str) -> (found: bool)
        requires
            old(self).wf(),
        ensures
            final(self).wf(),
            final(self).max_activity() == old(self).max_activity(),
            final(self).max_tasks() == old(self).max_tasks(),
            found == exists|i: int| 0 <= i < old(self).tasks_of(*agent_id).len() && (#[trigger] old(self).tasks_of(*agent_id)[i]).task_id@ == task_id@,
            final(self).tasks_of(*agent_id) == without_task(old(self).tasks_of(*agent_id), task_id@),
            forall|id: AgentId| id != *agent_id ==> #[trigger] final(self).tasks_of(id) == old(self).tasks_of(id),
            forall|id: AgentId| #[trigger] final(self).activity_of(id) == old(self).activity_of(id),
            forall|id: AgentId| #[trigger] final(self).heartbeat_of(id) == old(self).heartbeat_of(id),
    {
        let ghost before = self.tasks_of(*agent_id);
        match self.tasks.remove(agent_id) {
            None => {
                proof {
                    assert(before =~= Seq::<TaskRecord>::empty());
                    assert(self.tasks.view() =~= old(self).tasks.view());
                    lemma_without_task_len(before, task_id@);
                    assert forall|id: AgentId| #[trigger] self.tasks_of(id).len() <= self.max_tasks by {
                        assert(self.tasks_of(id) == old(self).tasks_of(id));
                    }
                    assert forall|id: AgentId| #[trigger] self.activity_of(id).len() <= self.max_activity by {
                        assert(self.activity_of(id) == old(self).activity_of(id));
                    }
                }
                false
            },
            Some(mut records) => {
                let mut kept: VecDeque<TaskRecord> = VecDeque::new();
                let n = records.len();
                let mut i: usize = 0;
                while i < n
                    invariant
                        n == before.len(),
                        i <= n,
                        records@ == before.subrange(i as int, n as int),
                        kept@ == without_task(before.take(i as int), task_id@),
                    decreases n - i,
                {
                    let rec = records.pop_front().unwrap();
                    proof {
                        assert(before.take(i + 1).drop_last() =~= before.take(i as int));
                        assert(before.take(i + 1).last() == before[i as int]);
                    }
                    if !str_eq(rec.task_id.as_str(), task_id) {
                        kept.push_back(rec);
                    }
                    i = i + 1;
                }
                proof {
                    assert(before.take(n as int) =~= before);
                    lemma_without_task_len(before, task_id@);
                    lemma_without_task_len(before.take(n as int), task_id@);
                }
                let found = kept.len() < n;
                let ghost kv = kept@;
                self.tasks.insert(*agent_id, kept);
                proof {
                    assert(self.tasks_of(*agent_id) == kv);
                    assert forall|id: AgentId| id != *agent_id implies #[trigger] self.tasks_of(id) == old(self).tasks_of(id) by {
                        assert(self.tasks.view().contains_key(id) == old(self).tasks.view().contains_key(id));
                        if self.tasks.view().contains_key(id) {
                            assert(self.tasks.view()[id] == old(self).tasks.view()[id]);
                        }
                    }
                    assert forall|id: AgentId| #[trigger] self.tasks_of(id).len() <= self.max_tasks by {
                        if id != *agent_id {
                            assert(self.tasks_of(id) == old(self).tasks_of(id));
                        } else {
                            assert(old(self).tasks_of(id).len() <= self.max_tasks);
                        }
                    }
                    assert forall|id: AgentId| #[trigger] self.activity_of(id).len() <= self.max_activity by {
                        assert(self.activity_of(id) == old(self).activity_of(id));
                    }
                }
                found
            },
        }
    }

    /// Forgets everything recorded about `agent_id`.
    pub fn remove_agent(&mut self, agent_id: &AgentId)
        requires
            old(self).wf(),
        ensures
            final(self).wf(),
            final(self).max_activity() == old(self).max_activity(),
            final(self).max_tasks() == old(self).max_tasks(),
            final(self).activity_of(*agent_id) == Seq::<ActivityEntry>::empty(),
            final(self).heartbeat_of(*agent_id) is None,
            final(self).tasks_of(*agent_id) == Seq::<TaskRecord>::empty(),
            forall|id: AgentId| id != *agent_id ==> #[trigger] final(self).activity_of(id) == old(self).activity_of(id),
            forall|id: AgentId| id != *agent_id ==> #[trigger] final(self).heartbeat_of(id) == old(self).heartbeat_of(id),
            forall|id: AgentId| id != *agent_id ==> #[trigger] final(self).tasks_of(id) == old(self).tasks_of(id),
    {
        self.activity.remove(agent_id);
        self.heartbeats.remove(agent_id);
        self.tasks.remove(agent_id);
        proof {
            assert forall|id: AgentId| id != *agent_id implies #[trigger] self.activity_of(id) == old(self).activity_of(id) by {
                assert(self.activity.view().contains_key(id) == old(self).activity.view().contains_key(id));
            }
            assert forall|id: AgentId| id != *agent_id implies #[trigger] self.tasks_of(id) == old(self).tasks_of(id) by {
                assert(self.tasks.view().contains_key(id) == old(self).tasks.view().contains_key(id));
            }
            assert forall|id: AgentId| id != *agent_id implies #[trigger] self.heartbeat_of(id) == old(self).heartbeat_of(id) by {
                assert(self.heartbeats.view().contains_key(id) == old(self).heartbeats.view().contains_key(id));
            }
            assert forall|id: AgentId| #[trigger] self.activity_of(id).len() <= self.max_activity by {
                if id != *agent_id {
                    assert(self.activity_of(id) == old(self).activity_of(id));
                }
            }
            assert forall|id: AgentId| #[trigger] self.tasks_of(id).len() <= self.max_tasks by {
                if id != *agent_id {
                    assert(self.tasks_of(id) == old(self).tasks_of(id));
                }
            }
        }
    }
}

} // verus!
