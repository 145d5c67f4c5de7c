//! Tasks and the agents that attempt them, each agent in its own worktree.
//! The store here is plain data; whoever shares it between threads wraps it
//! in a lock, and whoever persists it writes it out after each change.

use vstd::prelude::*;
use crate::naming::{slug_text, lower_of, slugify, slugify_model_id};
use crate::paths::{join_of, join_str};
use crate::system::path_exists;
use crate::text::{blank, chars_of, decimal, decimal_text, extend_chars, is_blank, message, string_of};

verus! {

/// Status of a task.
#[derive(Debug, Clone, Copy, PartialEq, Eq, Structural)]
pub enum TaskStatus {
    Idle,
    Running,
    Paused,
    Completed,
    Failed,
}

impl Default for TaskStatus {
    fn default() -> (r: Self)
        ensures
            r == TaskStatus::Idle,
    {
        TaskStatus::Idle
    }
}

/// Status of an agent.
#[derive(Debug, Clone, Copy, PartialEq, Eq, Structural)]
pub enum AgentStatus {
    Idle,
    Running,
    Paused,
    Completed,
    Failed,
}

impl Default for AgentStatus {
    fn default() -> (r: Self)
        ensures
            r == AgentStatus::Idle,
    {
        AgentStatus::Idle
    }
}

/// One model's attempt at a task.
#[derive(Debug, Clone, PartialEq, Eq)]
pub struct TaskAgent {
    /// Unique within its task by construction (`agent-N`).
    pub id: String,
    pub model_id: String,
    pub provider_id: String,
    /// Overrides the task's default agent type.
    pub agent_type: Option<String>,
    pub worktree_path: String,
    pub session_id: Option<String>,
    pub status: AgentStatus,
    /// Whether this agent's output was chosen; at most one per task.
    pub accepted: bool,
    /// Milliseconds since the Unix epoch.
    pub created_at: i64,
}

/// A unit of work with one or more agents.
#[derive(Debug, Clone, PartialEq, Eq)]
pub struct Task {
    pub id: String,
    pub name: String,
    /// `"branch"` or `"commit"`.
    pub source_type: String,
    pub source_branch: Option<String>,
    pub source_commit: Option<String>,
    pub source_repo_path: String,
    pub agent_type: String,
    pub status: TaskStatus,
    pub created_at: i64,
    pub updated_at: i64,
    pub agents: Vec<TaskAgent>,
}

/// A model chosen for a new agent.
#[derive(Debug, Clone, PartialEq, Eq)]
pub struct ModelSelection {
    pub provider_id: String,
    pub model_id: String,
}

/// Everything the task store file holds.
#[derive(Debug, Clone, PartialEq, Eq)]
pub struct TaskStoreData {
    pub tasks: Vec<Task>,
}

impl Default for TaskStoreData {
    fn default() -> (r: Self)
        ensures
            r.tasks@.len() == 0,
    {
        TaskStoreData { tasks: Vec::new() }
    }
}

/// The task store held by the application.
pub struct TaskManagerState {
    pub store: TaskStoreData,
}

/// `a` and `b` hold the same values, agents compared by their sequences.
pub open spec fn same_task(a: Task, b: Task) -> bool {
    (Task { agents: a.agents, ..b }) == a && a.agents@ == b.agents@
}

/// `a` with its acceptance flag set to `v`.
pub open spec fn with_accepted(a: TaskAgent, v: bool) -> TaskAgent {
    (TaskAgent { accepted: v, ..a })
}

/// The first position of `id` in `ids`.
pub open spec fn first_index(ids: Seq<Seq<char>>, id: Seq<char>) -> Option<int> {
    if exists|i: int| 0 <= i < ids.len() && ids[i] == id {
        Some(choose|i: int| 0 <= i < ids.len() && ids[i] == id && forall|j: int| 0 <= j < i ==> ids[j] != id)
    } else {
        None
    }
}

pub open spec fn task_ids(ts: Seq<Task>) -> Seq<Seq<char>> {
    ts.map_values(|t: Task| t.id@)
}

pub open spec fn agent_ids(ags: Seq<TaskAgent>) -> Seq<Seq<char>> {
    ags.map_values(|a: TaskAgent| a.id@)
}

/// The first index in `ts` of a task with id `id`.
pub open spec fn first_task(ts: Seq<Task>, id: Seq<char>) -> Option<int> {
    first_index(task_ids(ts), id)
}

/// The first index in `ags` of an agent with id `id`.
pub open spec fn first_agent(ags: Seq<TaskAgent>, id: Seq<char>) -> Option<int> {
    first_index(agent_ids(ags), id)
}

pub open spec fn task_not_found(id: Seq<char>) -> Seq<char> {
    "Task not found: "@ + id
}

pub open spec fn agent_not_found(id: Seq<char>) -> Seq<char> {
    "Agent not found: "@ + id
}

impl TaskAgent {
    /// This agent again, field by field.
    pub fn copy(&self) -> (r: TaskAgent)
        ensures
            r == *self,
    {
        TaskAgent {
            id: self.id.clone(),
            model_id: self.model_id.clone(),
            provider_id: self.provider_id.clone(),
            agent_type: clone_opt(&self.agent_type),
            worktree_path: self.worktree_path.clone(),
            session_id: clone_opt(&self.session_id),
            status: self.status,
            accepted: self.accepted,
            created_at: self.created_at,
        }
    }
}

impl Task {
    /// Duplicates the task, field by field.
    pub fn copy(&self) -> (r: Task)
        ensures
            same_task(r, *self),
    {
        let mut agents: Vec<TaskAgent> = Vec::new();
        let mut i: usize = 0;
        while i < self.agents.len()
            invariant
                i <= self.agents.len(),
                agents@ == self.agents@.subrange(0, i as int),
            decreases self.agents.len() - i,
        {
            agents.push(self.agents[i].copy());
            assert(self.agents@.subrange(0, i + 1) == self.agents@.subrange(0, i as int).push(self.agents@[i as int]));
            i = i + 1;
        }
        assert(self.agents@.subrange(0, self.agents.len() as int) == self.agents@);
        Task {
            id: self.id.clone(),
            name: self.name.clone(),
            source_type: self.source_type.clone(),
            source_branch: clone_opt(&self.source_branch),
            source_commit: clone_opt(&self.source_commit),
            source_repo_path: self.source_repo_path.clone(),
            agent_type: self.agent_type.clone(),
            status: self.status,
            created_at: self.created_at,
            updated_at: self.updated_at,
            agents,
        }
    }
}

fn clone_opt(o: &Option<String>) -> (r: Option<String>)
    ensures
        r == *o,
{
    match o {
        Some(s) => Some(s.clone()),
        None => None,
    }
}

fn same_text(a: &String, b: &str) -> (r: bool)
    ensures
        r == (a@ == b@),
{
    let ac = crate::text::chars_of(a.as_str());
    let bc = crate::text::chars_of(b);
    crate::text::slice_eq(ac.as_slice(), bc.as_slice())
}

/// The index of the first task with id `id`.
pub fn find_task(tasks: &Vec<Task>, id: &str) -> (r: Option<usize>)
    ensures
        r matches Some(i) ==> i < tasks@.len() && tasks@[i as int].id@ == id@,
        match (r, first_task(tasks@, id@)) {
            (Some(i), Some(j)) => i as int == j,
            (None, None) => true,
            _ => false,
        },
{
    let mut i: usize = 0;
    while i < tasks.len()
        invariant
            i <= tasks.len(),
            forall|j: int| 0 <= j < i ==> tasks@[j].id@ != id@,
        decreases tasks.len() - i,
    {
        assert(task_ids(tasks@)[i as int] == tasks@[i as int].id@);
        if same_text(&tasks[i].id, id) {
            proof {
                let ids = task_ids(tasks@);
                assert(ids[i as int] == id@);
                let k = choose|k: int| 0 <= k < ids.len() && ids[k] == id@ && forall|j: int| 0 <= j < k ==> ids[j] != id@;
                if k < i {
                    assert(ids[k] == tasks@[k].id@);
                }
                assert(k == i);
            }
            return Some(i);
        }
        i = i + 1;
    }
    None
}

/// The index of the first agent with id `id`.
pub fn find_agent(agents: &Vec<TaskAgent>, id: &str) -> (r: Option<usize>)
    ensures
        r matches Some(i) ==> i < agents@.len() && agents@[i as int].id@ == id@,
        match (r, first_agent(agents@, id@)) {
            (Some(i), Some(j)) => i as int == j,
            (None, None) => true,
            _ => false,
        },
{
    let mut i: usize = 0;
    while i < agents.len()
        invariant
            i <= agents.len(),
            forall|j: int| 0 <= j < i ==> agents@[j].id@ != id@,
        decreases agents.len() - i,
    {
        assert(agent_ids(agents@)[i as int] == agents@[i as int].id@);
        if same_text(&agents[i].id, id) {
            proof {
                let ids = agent_ids(agents@);
                assert(ids[i as int] == id@);
                let k = choose|k: int| 0 <= k < ids.len() && ids[k] == id@ && forall|j: int| 0 <= j < k ==> ids[j] != id@;
                if k < i {
                    assert(ids[k] == agents@[k].id@);
                }
                assert(k == i);
            }
            return Some(i);
        }
        i = i + 1;
    }
    None
}

impl TaskManagerState {
    /// A state holding `data`.
    pub fn new(data: TaskStoreData) -> (r: Self)
        ensures
            r.store == data,
    {
        TaskManagerState { store: data }
    }
}

/// All tasks, in store order.
pub fn get_tasks_impl(state: &TaskManagerState) -> (r: Result<Vec<Task>, String>)
    ensures
        r matches Ok(ts) && ts@.len() == state.store.tasks@.len() && forall|i: int|
            0 <= i < ts@.len() ==> same_task(#[trigger] ts@[i], state.store.tasks@[i]),
{
    let mut out: Vec<Task> = Vec::new();
    let mut i: usize = 0;
    while i < state.store.tasks.len()
        invariant
            i <= state.store.tasks.len(),
            out@.len() == i,
            forall|j: int| 0 <= j < i ==> same_task(#[trigger] out@[j], state.store.tasks@[j]),
        decreases state.store.tasks.len() - i,
    {
        out.push(state.store.tasks[i].copy());
        i = i + 1;
    }
    Ok(out)
}

/// The first task with id `task_id`, or the not-found error.
pub fn get_task_impl(state: &TaskManagerState, task_id: &str) -> (r: Result<Task, String>)
    ensures
        match first_task(state.store.tasks@, task_id@) {
            Some(i) => r matches Ok(t) && same_task(t, state.store.tasks@[i]),
            None => r matches Err(e) && e@ == task_not_found(task_id@),
        },
{
    match find_task(&state.store.tasks, task_id) {
        Some(i) => Ok(state.store.tasks[i].copy()),
        None => Err(message("Task not found: ", task_id)),
    }
}

/// `after` is `before` once agent `agent_id` has been accepted at `now`:
/// every flag cleared, then the first agent with that id flagged and the
/// update time set; with no such agent, only the flags are cleared.
pub open spec fn accepted_update(before: Task, after: Task, agent_id: Seq<char>, now: i64) -> bool {
    &&& after.agents@.len() == before.agents@.len()
    &&& match first_agent(before.agents@, agent_id) {
        Some(k) => {
            &&& after == (Task { agents: after.agents, updated_at: now, ..before })
            &&& forall|j: int|
                0 <= j < after.agents@.len() ==> #[trigger] after.agents@[j] == with_accepted(
                    before.agents@[j],
                    j == k,
                )
        },
        None => {
            &&& after == (Task { agents: after.agents, ..before })
            &&& forall|j: int|
                0 <= j < after.agents@.len() ==> #[trigger] after.agents@[j] == with_accepted(
                    before.agents@[j],
                    false,
                )
        },
    }
}

fn accept_in_task(task: &mut Task, agent_id: &str, now: i64) -> (found: bool)
    ensures
        accepted_update(*old(task), *final(task), agent_id@, now),
        found == first_agent(old(task).agents@, agent_id@) is Some,
{
    let mut agents: Vec<TaskAgent> = Vec::new();
    std::mem::swap(&mut task.agents, &mut agents);
    clear_accepted(&mut agents);
    assert(agent_ids(agents@) =~= agent_ids(old(task).agents@));
    let found = find_agent(&agents, agent_id);
    match found {
        Some(k) => {
            agents[k].accepted = true;
        },
        None => {},
    }
    let ghost ags = agents@;
    task.agents = agents;
    match found {
        Some(k) => {
            task.updated_at = now;
            assert forall|j: int| 0 <= j < task.agents@.len() implies #[trigger] task.agents@[j]
                == with_accepted(old(task).agents@[j], j == k) by {
                if j == k {
                    assert(ags[j] == with_accepted(old(task).agents@[j], true));
                }
            }
            true
        },
        None => false,
    }
}

/// Marks agent `agent_id` of task `task_id` as the accepted one (see
/// `accepted_update`); the task's update time becomes `now`. Without such
/// an agent the flags stay cleared and the agent error comes back; without
/// such a task nothing changes.
pub fn accept_agent_impl(state: &mut TaskManagerState, task_id: &str, agent_id: &str, now: i64) -> (r: Result<(), String>)
    ensures
        match first_task(old(state).store.tasks@, task_id@) {
            None => r matches Err(e) && e@ == task_not_found(task_id@) && final(state).store.tasks@
                == old(state).store.tasks@,
            Some(i) => {
                &&& final(state).store.tasks@ == old(state).store.tasks@.update(i, final(state).store.tasks@[i])
                &&& accepted_update(old(state).store.tasks@[i], final(state).store.tasks@[i], agent_id@, now)
                &&& if first_agent(old(state).store.tasks@[i].agents@, agent_id@) is Some {
                    r is Ok
                } else {
                    r matches Err(e) && e@ == agent_not_found(agent_id@)
                }
            },
        },
{
    let ti = match find_task(&state.store.tasks, task_id) {
        Some(i) => i,
        None => return Err(message("Task not found: ", task_id)),
    };
    let found = accept_in_task(&mut state.store.tasks[ti], agent_id, now);
    assert(state.store.tasks@ =~= old(state).store.tasks@.update(ti as int, state.store.tasks@[ti as int]));
    if found {
        Ok(())
    } else {
        Err(message("Agent not found: ", agent_id))
    }
}

/// Clears the acceptance flag of every agent.
fn clear_accepted(agents: &mut Vec<TaskAgent>)
    ensures
        final(agents)@.len() == old(agents)@.len(),
        forall|j: int|
            0 <= j < final(agents)@.len() ==> #[trigger] final(agents)@[j] == with_accepted(old(agents)@[j], false),
{
    let n = agents.len();
    let mut j: usize = 0;
    while j < n
        invariant
            j <= n,
            n == old(agents)@.len(),
            agents@.len() == n,
            forall|m: int|
                0 <= m < n ==> #[trigger] agents@[m] == if m < j {
                    with_accepted(old(agents)@[m], false)
                } else {
                    old(agents)@[m]
                },
        decreases n - j,
    {
        agents[j].accepted = false;
        j = j + 1;
    }
}


/// The accepted agents of `ags`, in order.
pub open spec fn accepted_only(ags: Seq<TaskAgent>) -> Seq<TaskAgent>
    decreases ags.len(),
{
    if ags.len() == 0 {
        Seq::empty()
    } else {
        let s = accepted_only(ags.drop_last());
        if ags.last().accepted {
            s.push(ags.last())
        } else {
            s
        }
    }
}

/// The worktree paths of the agents of `ags` that are not accepted, in order.
pub open spec fn unaccepted_paths(ags: Seq<TaskAgent>) -> Seq<Seq<char>>
    decreases ags.len(),
{
    if ags.len() == 0 {
        Seq::empty()
    } else {
        let s = unaccepted_paths(ags.drop_last());
        if ags.last().accepted {
            s
        } else {
            s.push(ags.last().worktree_path@)
        }
    }
}

pub open spec fn path_views(v: Seq<String>) -> Seq<Seq<char>> {
    v.map_values(|x: String| x@)
}

/// Keeps only the accepted agents of task `task_id` and sets its update
/// time to `now`. Returns the worktree paths of the agents it dropped, for
/// their worktrees to be removed (best effort) by the caller.
pub fn cleanup_unaccepted_agents_impl(state: &mut TaskManagerState, task_id: &str, now: i64) -> (r: Result<Vec<String>, String>)
    ensures
        match first_task(old(state).store.tasks@, task_id@) {
            None => r matches Err(e) && e@ == task_not_found(task_id@) && final(state).store.tasks@
                == old(state).store.tasks@,
            Some(i) => {
                let before = old(state).store.tasks@[i];
                let after = final(state).store.tasks@[i];
                &&& final(state).store.tasks@ == old(state).store.tasks@.update(i, after)
                &&& after == (Task { agents: after.agents, updated_at: now, ..before })
                &&& after.agents@ == accepted_only(before.agents@)
                &&& r matches Ok(paths) && path_views(paths@) == unaccepted_paths(before.agents@)
            },
        },
{
    let ti = match find_task(&state.store.tasks, task_id) {
        Some(i) => i,
        None => return Err(message("Task not found: ", task_id)),
    };
    let paths = retain_accepted(&mut state.store.tasks[ti], now);
    assert(state.store.tasks@ =~= old(state).store.tasks@.update(ti as int, state.store.tasks@[ti as int]));
    Ok(paths)
}

fn retain_accepted(task: &mut Task, now: i64) -> (paths: Vec<String>)
    ensures
        *final(task) == (Task { agents: final(task).agents, updated_at: now, ..*old(task) }),
        final(task).agents@ == accepted_only(old(task).agents@),
        path_views(paths@) == unaccepted_paths(old(task).agents@),
{
    let mut agents: Vec<TaskAgent> = Vec::new();
    std::mem::swap(&mut task.agents, &mut agents);
    let ghost all = agents@;
    let mut kept: Vec<TaskAgent> = Vec::new();
    let mut paths: Vec<String> = Vec::new();
    let mut i: usize = 0;
    while i < agents.len()
        invariant
            i <= agents.len(),
            agents@ == all,
            kept@ == accepted_only(all.subrange(0, i as int)),
            path_views(paths@) == unaccepted_paths(all.subrange(0, i as int)),
        decreases agents.len() - i,
    {
        assert(all.subrange(0, i + 1).drop_last() == all.subrange(0, i as int));
        let a = agents[i].copy();
        if a.accepted {
            kept.push(a);
        } else {
            let p = a.worktree_path.clone();
            paths.push(p);
            assert(path_views(paths@) =~= path_views(paths@.drop_last()).push(p@));
        }
        i = i + 1;
    }
    assert(all.subrange(0, all.len() as int) == all);
    task.agents = kept;
    task.updated_at = now;
    paths
}

proof fn lemma_accepted_only_single(ags: Seq<TaskAgent>, k: int, n: int)
    requires
        0 <= k < ags.len(),
        0 <= n <= ags.len(),
        forall|j: int| 0 <= j < ags.len() ==> (#[trigger] ags[j].accepted <==> j == k),
    ensures
        accepted_only(ags.subrange(0, n)) == if n > k {
            seq![ags[k]]
        } else {
            Seq::<TaskAgent>::empty()
        },
    decreases n,
{
    if n > 0 {
        lemma_accepted_only_single(ags, k, n - 1);
        assert(ags.subrange(0, n).drop_last() == ags.subrange(0, n - 1));
        assert(ags.subrange(0, n).last() == ags[n - 1]);
    }
}

/// Agent ids of `ags` are pairwise distinct.
pub open spec fn distinct_ids(ags: Seq<TaskAgent>) -> bool {
    forall|a: int, b: int| 0 <= a < ags.len() && 0 <= b < ags.len() && a != b ==> #[trigger] ags[a].id@ != #[trigger] ags[b].id@
}

/// Accepting an agent of a task whose agent ids are distinct leaves that
/// agent, and no other, accepted. Applied again with another agent, it
/// moves the flag to that one.
pub proof fn lemma_accept_leaves_one(before: Task, after: Task, agent_id: Seq<char>, now: i64)
    requires
        distinct_ids(before.agents@),
        exists|j: int| 0 <= j < before.agents@.len() && before.agents@[j].id@ == agent_id,
        accepted_update(before, after, agent_id, now),
    ensures
        forall|j: int| 0 <= j < after.agents@.len() ==> (#[trigger] after.agents@[j].accepted <==> after.agents@[j].id@ == agent_id),
        exists|j: int| 0 <= j < after.agents@.len() && after.agents@[j].accepted,
        forall|a: int, b: int|
            0 <= a < after.agents@.len() && 0 <= b < after.agents@.len() && #[trigger] after.agents@[a].accepted
                && #[trigger] after.agents@[b].accepted ==> a == b,
        distinct_ids(after.agents@),
{
    let ids = agent_ids(before.agents@);
    let w = choose|j: int| 0 <= j < before.agents@.len() && before.agents@[j].id@ == agent_id;
    assert(ids[w] == agent_id);
    let k = first_agent(before.agents@, agent_id)->0;
    assert(0 <= k < ids.len() && ids[k] == agent_id);
    assert(before.agents@[k].id@ == agent_id);
    assert(after.agents@[k] == with_accepted(before.agents@[k], true));
    assert forall|j: int| 0 <= j < after.agents@.len() implies (#[trigger] after.agents@[j].accepted <==> after.agents@[j].id@ == agent_id) by {
        assert(after.agents@[j] == with_accepted(before.agents@[j], j == k));
        if j != k {
            assert(before.agents@[j].id@ != before.agents@[k].id@);
        }
    }
    assert forall|a: int, b: int|
        0 <= a < after.agents@.len() && 0 <= b < after.agents@.len() && #[trigger] after.agents@[a].accepted
            && #[trigger] after.agents@[b].accepted implies a == b by {
        assert(after.agents@[a] == with_accepted(before.agents@[a], a == k));
        assert(after.agents@[b] == with_accepted(before.agents@[b], b == k));
    }
    assert forall|a: int, b: int| 0 <= a < after.agents@.len() && 0 <= b < after.agents@.len() && a != b
        implies #[trigger] after.agents@[a].id@ != #[trigger] after.agents@[b].id@ by {
        assert(after.agents@[a] == with_accepted(before.agents@[a], a == k));
        assert(after.agents@[b] == with_accepted(before.agents@[b], b == k));
    }
}

/// Accepting one agent and then another leaves only the second accepted,
/// when agent ids are distinct and both agents belong to the task.
pub proof fn lemma_accept_twice(t0: Task, t1: Task, t2: Task, first: Seq<char>, second: Seq<char>, n1: i64, n2: i64)
    requires
        distinct_ids(t0.agents@),
        exists|j: int| 0 <= j < t0.agents@.len() && t0.agents@[j].id@ == first,
        exists|j: int| 0 <= j < t0.agents@.len() && t0.agents@[j].id@ == second,
        accepted_update(t0, t1, first, n1),
        accepted_update(t1, t2, second, n2),
    ensures
        forall|j: int| 0 <= j < t2.agents@.len() ==> (#[trigger] t2.agents@[j].accepted <==> t2.agents@[j].id@ == second),
        exists|j: int| 0 <= j < t2.agents@.len() && t2.agents@[j].accepted,
{
    lemma_accept_leaves_one(t0, t1, first, n1);
    let w = choose|j: int| 0 <= j < t0.agents@.len() && t0.agents@[j].id@ == second;
    let k = first_agent(t0.agents@, first)->0;
    assert(agent_ids(t0.agents@)[w] == second);
    assert(0 <= k < agent_ids(t0.agents@).len());
    assert(t1.agents@[w] == with_accepted(t0.agents@[w], w == k));
    assert(t1.agents@[w].id@ == second);
    lemma_accept_leaves_one(t1, t2, second, n2);
}

/// Accepting one agent of a task with distinct agent ids and then cleaning
/// up the unaccepted ones leaves exactly that agent, and hands back the
/// worktree paths of all the others.
pub proof fn lemma_accept_then_cleanup(before: Task, mid: Task, after: Task, agent_id: Seq<char>, now1: i64)
    requires
        distinct_ids(before.agents@),
        exists|j: int| 0 <= j < before.agents@.len() && before.agents@[j].id@ == agent_id,
        accepted_update(before, mid, agent_id, now1),
        after.agents@ == accepted_only(mid.agents@),
    ensures
        after.agents@.len() == 1,
        after.agents@[0].id@ == agent_id,
        after.agents@[0].accepted,
        unaccepted_paths(mid.agents@).len() == before.agents@.len() - 1,
{
    lemma_accept_leaves_one(before, mid, agent_id, now1);
    let k = choose|j: int| 0 <= j < mid.agents@.len() && mid.agents@[j].accepted;
    assert forall|j: int| 0 <= j < mid.agents@.len() implies (#[trigger] mid.agents@[j].accepted <==> j == k) by {}
    lemma_accepted_only_single(mid.agents@, k, mid.agents@.len() as int);
    assert(mid.agents@.subrange(0, mid.agents@.len() as int) == mid.agents@);
    lemma_unaccepted_count(mid.agents@, k, mid.agents@.len() as int);
}

proof fn lemma_unaccepted_count(ags: Seq<TaskAgent>, k: int, n: int)
    requires
        0 <= k < ags.len(),
        0 <= n <= ags.len(),
        forall|j: int| 0 <= j < ags.len() ==> (#[trigger] ags[j].accepted <==> j == k),
    ensures
        unaccepted_paths(ags.subrange(0, n)).len() == if n > k {
            n - 1
        } else {
            n
        },
    decreases n,
{
    if n > 0 {
        lemma_unaccepted_count(ags, k, n - 1);
        assert(ags.subrange(0, n).drop_last() == ags.subrange(0, n - 1));
        assert(ags.subrange(0, n).last() == ags[n - 1]);
    }
    if n == ags.len() {
        assert(ags.subrange(0, n) == ags);
    }
}


/// The source a task's worktrees are made from: its commit when the
/// source type is `"commit"`, its branch otherwise.
pub open spec fn source_ref_of(t: Task) -> Option<String> {
    if t.source_type@ == "commit"@ {
        t.source_commit
    } else {
        t.source_branch
    }
}

/// The source a task's worktrees are made from (see `source_ref_of`).
pub fn source_ref(task: &Task) -> (r: Option<String>)
    ensures
        r == source_ref_of(*task),
{
    source_ref_from(&task.source_type, &task.source_branch, &task.source_commit)
}

/// The source named by a source type and its branch and commit: the commit
/// for `"commit"`, the branch otherwise.
pub fn source_ref_from(source_type: &String, branch: &Option<String>, commit: &Option<String>) -> (r: Option<String>)
    ensures
        r == if source_type@ == "commit"@ {
            *commit
        } else {
            *branch
        },
{
    if same_text(source_type, "commit") {
        clone_opt(commit)
    } else {
        clone_opt(branch)
    }
}

/// The folder name of an agent's worktree: task-name slug, a hyphen, model
/// slug.
pub open spec fn agent_leaf(task_name: Seq<char>, model_id: Seq<char>) -> Seq<char> {
    slug_text(lower_of(task_name)) + "-"@ + slug_text(lower_of(model_id))
}

/// Where an agent's worktree goes: inside the task folder, named by
/// `agent_leaf`.
pub fn agent_worktree_path(task_folder: &str, task_name: &str, model_id: &str) -> (r: String)
    ensures
        r@ == join_of(task_folder@, agent_leaf(task_name@, model_id@)),
{
    let a = slugify(task_name);
    let b = slugify_model_id(model_id);
    let mut leaf = chars_of(a.as_str());
    let h = chars_of("-");
    extend_chars(&mut leaf, h.as_slice());
    let bc = chars_of(b.as_str());
    extend_chars(&mut leaf, bc.as_slice());
    let leaf_s = string_of(leaf.as_slice());
    join_str(task_folder, leaf_s.as_str())
}

/// The id of the agent at position `i` (from zero): `agent-` and `i + 1`.
pub open spec fn agent_id_text(i: nat) -> Seq<char> {
    "agent-"@ + decimal(i + 1)
}

fn agent_id(i: usize) -> (r: String)
    requires
        i < usize::MAX,
    ensures
        r@ == agent_id_text(i as nat),
{
    let d = decimal_text(i + 1);
    message("agent-", d.as_str())
}

/// Checks a task request before anything is created: the name must hold
/// more than whitespace, and at least one model must be chosen.
pub fn validate_task_request(name: &str, models: &Vec<ModelSelection>) -> (r: Result<(), String>)
    ensures
        blank(name@) ==> (r matches Err(e) && e@ == "Task name cannot be empty"@),
        !blank(name@) && models@.len() == 0 ==> (r matches Err(e) && e@ == "At least one model must be selected"@),
        !blank(name@) && models@.len() > 0 ==> r is Ok,
{
    if is_blank(name) {
        return Err("Task name cannot be empty".to_string());
    }
    if models.len() == 0 {
        return Err("At least one model must be selected".to_string());
    }
    Ok(())
}

/// `a` is the fresh agent at position `i` for model `m`, in worktree `p`.
pub open spec fn fresh_agent(a: TaskAgent, i: nat, m: ModelSelection, p: Seq<char>, now: i64) -> bool {
    &&& a.id@ == agent_id_text(i)
    &&& a.model_id == m.model_id
    &&& a.provider_id == m.provider_id
    &&& a.agent_type is None
    &&& a.worktree_path@ == p
    &&& a.session_id is None
    &&& a.status == AgentStatus::Idle
    &&& !a.accepted
    &&& a.created_at == now
}

/// Records a new task whose agents' worktrees have been created at
/// `worktree_paths` (one per model, in order), and returns it. The request
/// is checked as `validate_task_request` does first; on an error nothing
/// is recorded.
#[verifier::rlimit(30)]
pub fn create_task_impl(
    state: &mut TaskManagerState,
    task_id: String,
    name: String,
    source_type: String,
    source_branch: Option<String>,
    source_commit: Option<String>,
    source_repo_path: String,
    agent_type: String,
    models: &Vec<ModelSelection>,
    worktree_paths: &Vec<String>,
    now: i64,
) -> (r: Result<Task, String>)
    requires
        worktree_paths@.len() == models@.len(),
    ensures
        blank(name@) ==> (r matches Err(e) && e@ == "Task name cannot be empty"@ && *final(state) == *old(state)),
        !blank(name@) && models@.len() == 0 ==> (r matches Err(e) && e@ == "At least one model must be selected"@
            && *final(state) == *old(state)),
        !blank(name@) && models@.len() > 0 ==> (r matches Ok(t) && {
            &&& t.id == task_id && t.name == name && t.source_type == source_type
            &&& t.source_branch == source_branch && t.source_commit == source_commit
            &&& t.source_repo_path == source_repo_path && t.agent_type == agent_type
            &&& t.status == TaskStatus::Idle && t.created_at == now && t.updated_at == now
            &&& t.agents@.len() == models@.len()
            &&& forall|i: int|
                0 <= i < t.agents@.len() ==> fresh_agent(#[trigger] t.agents@[i], i as nat, models@[i], worktree_paths@[i]@, now)
            &&& final(state).store.tasks@.len() == old(state).store.tasks@.len() + 1
            &&& final(state).store.tasks@.drop_last() == old(state).store.tasks@
            &&& same_task(final(state).store.tasks@.last(), t)
        }),
{
    let v = validate_task_request(name.as_str(), models);
    if v.is_err() {
        return Err(v.unwrap_err());
    }
    let mut agents: Vec<TaskAgent> = Vec::new();
    let mut i: usize = 0;
    while i < models.len()
        invariant
            i <= models@.len(),
            worktree_paths@.len() == models@.len(),
            agents@.len() == i,
            forall|j: int| 0 <= j < i ==> fresh_agent(#[trigger] agents@[j], j as nat, models@[j], worktree_paths@[j]@, now),
        decreases models.len() - i,
    {
        let m = &models[i];
        let a = TaskAgent {
            id: agent_id(i),
            model_id: m.model_id.clone(),
            provider_id: m.provider_id.clone(),
            agent_type: None,
            worktree_path: worktree_paths[i].clone(),
            session_id: None,
            status: AgentStatus::Idle,
            accepted: false,
            created_at: now,
        };
        agents.push(a);
        i = i + 1;
    }
    let task = Task {
        id: task_id,
        name,
        source_type,
        source_branch,
        source_commit,
        source_repo_path,
        agent_type,
        status: TaskStatus::Idle,
        created_at: now,
        updated_at: now,
        agents,
    };
    let out = task.copy();
    state.store.tasks.push(task);
    assert(state.store.tasks@.drop_last() =~= old(state).store.tasks@);
    Ok(out)
}

/// `after` is the task store `before` with the task at `i` replaced.
pub open spec fn replaced_at(before: Seq<Task>, after: Seq<Task>, i: int) -> bool {
    after == before.update(i, after[i])
}

/// Appends an agent for model `model_id` to task `task_id`, its worktree
/// already created at `worktree_path`: its id is `agent-N` with `N` one
/// more than the number of agents, it starts idle and unaccepted, and the
/// task's update time becomes `now`. Returns the updated task.
pub fn add_agent_to_task_impl(
    state: &mut TaskManagerState,
    task_id: &str,
    model_id: String,
    provider_id: String,
    agent_type: Option<String>,
    worktree_path: String,
    now: i64,
) -> (r: Result<Task, String>)
    ensures
        match first_task(old(state).store.tasks@, task_id@) {
            None => (r matches Err(e) && e@ == task_not_found(task_id@)) && *final(state) == *old(state),
            Some(i) => {
                let before = old(state).store.tasks@[i];
                let after = final(state).store.tasks@[i];
                if before.agents@.len() == usize::MAX {
                    r is Err && *final(state) == *old(state)
                } else {
                    &&& replaced_at(old(state).store.tasks@, final(state).store.tasks@, i)
                    &&& after == (Task { agents: after.agents, updated_at: now, ..before })
                    &&& after.agents@.drop_last() == before.agents@
                    &&& after.agents@.len() == before.agents@.len() + 1
                    &&& ({
                        let a = after.agents@.last();
                        &&& a.id@ == agent_id_text(before.agents@.len() as nat)
                        &&& a.model_id == model_id && a.provider_id == provider_id
                        &&& a.agent_type == agent_type && a.worktree_path == worktree_path
                        &&& a.session_id is None && a.status == AgentStatus::Idle
                        &&& !a.accepted && a.created_at == now
                    })
                    &&& r matches Ok(t) && same_task(t, after)
                }
            },
        },
{
    let ti = match find_task(&state.store.tasks, task_id) {
        Some(i) => i,
        None => return Err(message("Task not found: ", task_id)),
    };
    let n = state.store.tasks[ti].agents.len();
    if n == usize::MAX {
        return Err("Too many agents".to_string());
    }
    let a = TaskAgent {
        id: agent_id(n),
        model_id,
        provider_id,
        agent_type,
        worktree_path,
        session_id: None,
        status: AgentStatus::Idle,
        accepted: false,
        created_at: now,
    };
    push_agent(&mut state.store.tasks[ti], a, now);
    assert(state.store.tasks@ =~= old(state).store.tasks@.update(ti as int, state.store.tasks@[ti as int]));
    Ok(state.store.tasks[ti].copy())
}

fn push_agent(task: &mut Task, a: TaskAgent, now: i64)
    ensures
        *final(task) == (Task { agents: final(task).agents, updated_at: now, ..*old(task) }),
        final(task).agents@ == old(task).agents@.push(a),
{
    task.agents.push(a);
    task.updated_at = now;
}

/// The agents of `ags` whose id is not `id`, in order.
pub open spec fn without_agent(ags: Seq<TaskAgent>, id: Seq<char>) -> Seq<TaskAgent>
    decreases ags.len(),
{
    if ags.len() == 0 {
        Seq::empty()
    } else {
        let s = without_agent(ags.drop_last(), id);
        if ags.last().id@ == id {
            s
        } else {
            s.push(ags.last())
        }
    }
}

fn drop_agent(task: &mut Task, agent_id: &str, now: i64)
    ensures
        *final(task) == (Task { agents: final(task).agents, updated_at: now, ..*old(task) }),
        final(task).agents@ == without_agent(old(task).agents@, agent_id@),
{
    let mut agents: Vec<TaskAgent> = Vec::new();
    std::mem::swap(&mut task.agents, &mut agents);
    let ghost all = agents@;
    let mut kept: Vec<TaskAgent> = Vec::new();
    let mut i: usize = 0;
    while i < agents.len()
        invariant
            i <= agents.len(),
            agents@ == all,
            kept@ == without_agent(all.subrange(0, i as int), agent_id@),
        decreases agents.len() - i,
    {
        assert(all.subrange(0, i + 1).drop_last() == all.subrange(0, i as int));
        if !same_text(&agents[i].id, agent_id) {
            kept.push(agents[i].copy());
        }
        i = i + 1;
    }
    assert(all.subrange(0, all.len() as int) == all);
    task.agents = kept;
    task.updated_at = now;
}

/// Removes agent `agent_id` from task `task_id` and sets the task's update
/// time to `now`. Returns the agent's worktree path, for the caller to
/// remove the worktree when asked to.
pub fn remove_agent_from_task_impl(state: &mut TaskManagerState, task_id: &str, agent_id: &str, now: i64) -> (r: Result<String, String>)
    ensures
        match first_task(old(state).store.tasks@, task_id@) {
            None => (r matches Err(e) && e@ == task_not_found(task_id@)) && *final(state) == *old(state),
            Some(i) => {
                let before = old(state).store.tasks@[i];
                let after = final(state).store.tasks@[i];
                match first_agent(before.agents@, agent_id@) {
                    None => (r matches Err(e) && e@ == agent_not_found(agent_id@)) && *final(state) == *old(state),
                    Some(k) => {
                        &&& replaced_at(old(state).store.tasks@, final(state).store.tasks@, i)
                        &&& after == (Task { agents: after.agents, updated_at: now, ..before })
                        &&& after.agents@ == without_agent(before.agents@, agent_id@)
                        &&& r matches Ok(p) && p == before.agents@[k].worktree_path
                    },
                }
            },
        },
{
    let ti = match find_task(&state.store.tasks, task_id) {
        Some(i) => i,
        None => return Err(message("Task not found: ", task_id)),
    };
    let k = match find_agent(&state.store.tasks[ti].agents, agent_id) {
        Some(k) => k,
        None => return Err(message("Agent not found: ", agent_id)),
    };
    let path = state.store.tasks[ti].agents[k].worktree_path.clone();
    drop_agent(&mut state.store.tasks[ti], agent_id, now);
    assert(state.store.tasks@ =~= old(state).store.tasks@.update(ti as int, state.store.tasks@[ti as int]));
    Ok(path)
}

/// What one agent update does to the agent.
pub enum AgentChange {
    Session(Option<String>),
    Status(AgentStatus),
}

pub open spec fn changed(a: TaskAgent, c: AgentChange) -> TaskAgent {
    match c {
        AgentChange::Session(s) => (TaskAgent { session_id: s, ..a }),
        AgentChange::Status(st) => (TaskAgent { status: st, ..a }),
    }
}

/// Applies `change` to the first agent with id `agent_id` of task
/// `task_id`, and sets the task's update time to `now`.
fn update_agent(state: &mut TaskManagerState, task_id: &str, agent_id: &str, change: AgentChange, now: i64) -> (r: Result<(), String>)
    ensures
        match first_task(old(state).store.tasks@, task_id@) {
            None => (r matches Err(e) && e@ == task_not_found(task_id@)) && *final(state) == *old(state),
            Some(i) => {
                let before = old(state).store.tasks@[i];
                let after = final(state).store.tasks@[i];
                match first_agent(before.agents@, agent_id@) {
                    None => (r matches Err(e) && e@ == agent_not_found(agent_id@)) && *final(state) == *old(state),
                    Some(k) => {
                        &&& r is Ok
                        &&& replaced_at(old(state).store.tasks@, final(state).store.tasks@, i)
                        &&& after == (Task { agents: after.agents, updated_at: now, ..before })
                        &&& after.agents@ == before.agents@.update(k, changed(before.agents@[k], change))
                    },
                }
            },
        },
{
    let ti = match find_task(&state.store.tasks, task_id) {
        Some(i) => i,
        None => return Err(message("Task not found: ", task_id)),
    };
    let k = match find_agent(&state.store.tasks[ti].agents, agent_id) {
        Some(k) => k,
        None => return Err(message("Agent not found: ", agent_id)),
    };
    change_agent(&mut state.store.tasks[ti], k, change, now);
    assert(state.store.tasks@ =~= old(state).store.tasks@.update(ti as int, state.store.tasks@[ti as int]));
    Ok(())
}

fn change_agent(task: &mut Task, k: usize, change: AgentChange, now: i64)
    requires
        k < old(task).agents@.len(),
    ensures
        *final(task) == (Task { agents: final(task).agents, updated_at: now, ..*old(task) }),
        final(task).agents@ == old(task).agents@.update(k as int, changed(old(task).agents@[k as int], change)),
{
    let ghost c = change;
    match change {
        AgentChange::Session(s) => {
            task.agents[k].session_id = s;
        },
        AgentChange::Status(st) => {
            task.agents[k].status = st;
        },
    }
    task.updated_at = now;
    assert(task.agents@ =~= old(task).agents@.update(k as int, changed(old(task).agents@[k as int], c)));
}

/// Sets the external session id of agent `agent_id` of task `task_id`
/// (see `update_agent`).
pub fn update_agent_session_impl(
    state: &mut TaskManagerState,
    task_id: &str,
    agent_id: &str,
    session_id: Option<String>,
    now: i64,
) -> (r: Result<(), String>)
    ensures
        match first_task(old(state).store.tasks@, task_id@) {
            None => (r matches Err(e) && e@ == task_not_found(task_id@)) && *final(state) == *old(state),
            Some(i) => {
                let before = old(state).store.tasks@[i];
                let after = final(state).store.tasks@[i];
                match first_agent(before.agents@, agent_id@) {
                    None => (r matches Err(e) && e@ == agent_not_found(agent_id@)) && *final(state) == *old(state),
                    Some(k) => {
                        &&& r is Ok
                        &&& replaced_at(old(state).store.tasks@, final(state).store.tasks@, i)
                        &&& after == (Task { agents: after.agents, updated_at: now, ..before })
                        &&& after.agents@ == before.agents@.update(k, (TaskAgent { session_id: session_id, ..before.agents@[k] }))
                    },
                }
            },
        },
{
    update_agent(state, task_id, agent_id, AgentChange::Session(session_id), now)
}

/// Sets the status of agent `agent_id` of task `task_id` (see
/// `update_agent`).
pub fn update_agent_status_impl(
    state: &mut TaskManagerState,
    task_id: &str,
    agent_id: &str,
    status: AgentStatus,
    now: i64,
) -> (r: Result<(), String>)
    ensures
        match first_task(old(state).store.tasks@, task_id@) {
            None => (r matches Err(e) && e@ == task_not_found(task_id@)) && *final(state) == *old(state),
            Some(i) => {
                let before = old(state).store.tasks@[i];
                let after = final(state).store.tasks@[i];
                match first_agent(before.agents@, agent_id@) {
                    None => (r matches Err(e) && e@ == agent_not_found(agent_id@)) && *final(state) == *old(state),
                    Some(k) => {
                        &&& r is Ok
                        &&& replaced_at(old(state).store.tasks@, final(state).store.tasks@, i)
                        &&& after == (Task { agents: after.agents, updated_at: now, ..before })
                        &&& after.agents@ == before.agents@.update(k, (TaskAgent { status: status, ..before.agents@[k] }))
                    },
                }
            },
        },
{
    update_agent(state, task_id, agent_id, AgentChange::Status(status), now)
}

/// Renames task `task_id` and/or sets its status, where given, and sets
/// its update time to `now`. Returns the updated task.
pub fn update_task_impl(
    state: &mut TaskManagerState,
    task_id: &str,
    name: Option<String>,
    status: Option<TaskStatus>,
    now: i64,
) -> (r: Result<Task, String>)
    ensures
        match first_task(old(state).store.tasks@, task_id@) {
            None => (r matches Err(e) && e@ == task_not_found(task_id@)) && *final(state) == *old(state),
            Some(i) => {
                let before = old(state).store.tasks@[i];
                let after = final(state).store.tasks@[i];
                &&& replaced_at(old(state).store.tasks@, final(state).store.tasks@, i)
                &&& after == (Task {
                    name: match name {
                        Some(n) => n,
                        None => before.name,
                    },
                    status: match status {
                        Some(s) => s,
                        None => before.status,
                    },
                    updated_at: now,
                    ..before
                })
                &&& r matches Ok(t) && same_task(t, after)
            },
        },
{
    let ti = match find_task(&state.store.tasks, task_id) {
        Some(i) => i,
        None => return Err(message("Task not found: ", task_id)),
    };
    match name {
        Some(n) => {
            state.store.tasks[ti].name = n;
        },
        None => {},
    }
    match status {
        Some(s) => {
            state.store.tasks[ti].status = s;
        },
        None => {},
    }
    state.store.tasks[ti].updated_at = now;
    assert(state.store.tasks@ =~= old(state).store.tasks@.update(ti as int, state.store.tasks@[ti as int]));
    Ok(state.store.tasks[ti].copy())
}

/// The tasks of `ts` whose id is not `id`, in order.
pub open spec fn without_task(ts: Seq<Task>, id: Seq<char>) -> Seq<Task>
    decreases ts.len(),
{
    if ts.len() == 0 {
        Seq::empty()
    } else {
        let s = without_task(ts.drop_last(), id);
        if ts.last().id@ == id {
            s
        } else {
            s.push(ts.last())
        }
    }
}

/// Removes task `task_id` from the store and returns it, so that the
/// caller can remove its worktrees and folder when asked to.
pub fn delete_task_impl(state: &mut TaskManagerState, task_id: &str) -> (r: Result<Task, String>)
    ensures
        match first_task(old(state).store.tasks@, task_id@) {
            None => (r matches Err(e) && e@ == task_not_found(task_id@)) && *final(state) == *old(state),
            Some(i) => {
                &&& final(state).store.tasks@ == without_task(old(state).store.tasks@, task_id@)
                &&& r matches Ok(t) && same_task(t, old(state).store.tasks@[i])
            },
        },
{
    let ti = match find_task(&state.store.tasks, task_id) {
        Some(i) => i,
        None => return Err(message("Task not found: ", task_id)),
    };
    let removed = state.store.tasks[ti].copy();
    let mut tasks: Vec<Task> = Vec::new();
    std::mem::swap(&mut state.store.tasks, &mut tasks);
    state.store.tasks = other_tasks(tasks, task_id);
    Ok(removed)
}

fn other_tasks(tasks: Vec<Task>, task_id: &str) -> (r: Vec<Task>)
    ensures
        r@ == without_task(tasks@, task_id@),
{
    let ghost all = tasks@;
    let mut tasks = tasks;
    let mut kept: Vec<Task> = Vec::new();
    let ghost mut d: int = 0;
    while tasks.len() > 0
        invariant
            0 <= d <= all.len(),
            tasks@ == all.subrange(d, all.len() as int),
            kept@ == without_task(all.subrange(0, d), task_id@),
        decreases tasks.len(),
    {
        let t = tasks.remove(0);
        proof {
            assert(t == all[d]);
            assert(all.subrange(0, d + 1).drop_last() =~= all.subrange(0, d));
        }
        if !same_text(&t.id, task_id) {
            kept.push(t);
        }
        proof {
            d = d + 1;
            assert(tasks@ =~= all.subrange(d, all.len() as int));
        }
    }
    assert(all.subrange(0, all.len() as int) == all);
    kept
}

/// The ids of the agents whose worktree is absent (`present[k]` false),
/// in agent order.
pub open spec fn missing_ids(ags: Seq<TaskAgent>, present: Seq<bool>) -> Seq<Seq<char>>
    decreases ags.len(),
{
    if ags.len() == 0 || present.len() != ags.len() {
        Seq::empty()
    } else {
        let s = missing_ids(ags.drop_last(), present.drop_last());
        if present.last() {
            s
        } else {
            s.push(ags.last().id@)
        }
    }
}

pub open spec fn id_texts(v: Seq<String>) -> Seq<Seq<char>> {
    v.map_values(|x: String| x@)
}

/// The ids of the agents whose worktree is absent, given for each agent
/// whether its worktree is present (see `missing_ids`).
pub fn missing_agents(agents: &Vec<TaskAgent>, present: &Vec<bool>) -> (r: Vec<String>)
    requires
        present@.len() == agents@.len(),
    ensures
        id_texts(r@) == missing_ids(agents@, present@),
{
    let mut ids: Vec<String> = Vec::new();
    let mut k: usize = 0;
    while k < agents.len()
        invariant
            k <= agents.len(),
            present@.len() == agents@.len(),
            id_texts(ids@) == missing_ids(agents@.subrange(0, k as int), present@.subrange(0, k as int)),
        decreases agents.len() - k,
    {
        assert(agents@.subrange(0, k + 1).drop_last() == agents@.subrange(0, k as int));
        assert(present@.subrange(0, k + 1).drop_last() == present@.subrange(0, k as int));
        if !present[k] {
            let id = agents[k].id.clone();
            ids.push(id);
            assert(id_texts(ids@) =~= id_texts(ids@.drop_last()).push(id@));
        }
        k = k + 1;
    }
    assert(agents@.subrange(0, agents.len() as int) == agents@);
    assert(present@.subrange(0, agents.len() as int) == present@);
    ids
}

/// The ids of the agents of task `task_id` whose worktree is gone from
/// disk, in agent order. Whether each worktree is present is read from the
/// disk; the choice on those answers is `missing_agents`. The store is not
/// changed.
pub fn validate_task_worktrees_impl(state: &TaskManagerState, task_id: &str) -> (r: Result<Vec<String>, String>)
    ensures
        match first_task(state.store.tasks@, task_id@) {
            None => r matches Err(e) && e@ == task_not_found(task_id@),
            Some(i) => r matches Ok(ids) && exists|p: Seq<bool>|
                p.len() == state.store.tasks@[i].agents@.len() && #[trigger] missing_ids(state.store.tasks@[i].agents@, p)
                    == id_texts(ids@),
        },
{
    let ti = match find_task(&state.store.tasks, task_id) {
        Some(i) => i,
        None => return Err(message("Task not found: ", task_id)),
    };
    let task = &state.store.tasks[ti];
    let mut present: Vec<bool> = Vec::new();
    let mut k: usize = 0;
    while k < task.agents.len()
        invariant
            k <= task.agents.len(),
            present@.len() == k,
        decreases task.agents.len() - k,
    {
        present.push(path_exists(task.agents[k].worktree_path.as_str()));
        k = k + 1;
    }
    let ids = missing_agents(&task.agents, &present);
    assert(missing_ids(state.store.tasks@[ti as int].agents@, present@) == id_texts(ids@));
    Ok(ids)
}

/// What recreating a lost agent worktree needs: the repository, the source
/// to check out, and where the worktree goes.
pub struct RecreatePlan {
    pub repo_path: String,
    pub source_ref: Option<String>,
    pub worktree_path: String,
}

/// Plans recreating the worktree of agent `agent_id` of task `task_id` from
/// the task's own source. Refuses when the worktree path still exists
/// on disk, so that nothing is overwritten.
pub fn recreate_agent_worktree_impl(state: &TaskManagerState, task_id: &str, agent_id: &str) -> (r: Result<RecreatePlan, String>)
    ensures
        match first_task(state.store.tasks@, task_id@) {
            None => r matches Err(e) && e@ == task_not_found(task_id@),
            Some(i) => {
                let t = state.store.tasks@[i];
                match first_agent(t.agents@, agent_id@) {
                    None => r matches Err(e) && e@ == agent_not_found(agent_id@),
                    Some(k) => match r {
                        Ok(p) => p.repo_path == t.source_repo_path && p.source_ref == source_ref_of(t)
                            && p.worktree_path == t.agents@[k].worktree_path,
                        Err(e) => e@ == "Worktree already exists"@,
                    },
                }
            },
        },
{
    let ti = match find_task(&state.store.tasks, task_id) {
        Some(i) => i,
        None => return Err(message("Task not found: ", task_id)),
    };
    let task = &state.store.tasks[ti];
    let k = match find_agent(&task.agents, agent_id) {
        Some(k) => k,
        None => return Err(message("Agent not found: ", agent_id)),
    };
    if path_exists(task.agents[k].worktree_path.as_str()) {
        return Err("Worktree already exists".to_string());
    }
    Ok(RecreatePlan {
        repo_path: task.source_repo_path.clone(),
        source_ref: source_ref(task),
        worktree_path: task.agents[k].worktree_path.clone(),
    })
}

/// Two agents of one task whose model ids slug differently get different
/// worktree paths; each path is the task folder joined with the agent's
/// `agent_leaf` (see `agent_worktree_path`).
pub proof fn lemma_agent_paths_distinct(folder: Seq<char>, task_name: Seq<char>, m1: Seq<char>, m2: Seq<char>)
    requires
        slug_text(lower_of(m1)) != slug_text(lower_of(m2)),
    ensures
        join_of(folder, agent_leaf(task_name, m1)) != join_of(folder, agent_leaf(task_name, m2)),
{
    let head = slug_text(lower_of(task_name)) + "-"@;
    let l1 = agent_leaf(task_name, m1);
    let l2 = agent_leaf(task_name, m2);
    assert(l1 == head + slug_text(lower_of(m1)));
    assert(l2 == head + slug_text(lower_of(m2)));
    reveal_strlit("-");
    assert(head.len() > 0);
    assert(l1[0] == l2[0]);
    if l1 == l2 {
        assert(l1.subrange(head.len() as int, l1.len() as int) =~= slug_text(lower_of(m1)));
        assert(l2.subrange(head.len() as int, l2.len() as int) =~= slug_text(lower_of(m2)));
    }
    if !crate::paths::is_absolute(l1) {
        let sep: Seq<char> = if folder.len() == 0 || folder.last() == '/' {
            Seq::empty()
        } else {
            seq!['/']
        };
        let path_a = join_of(folder, l1);
        let path_b = join_of(folder, l2);
        assert(path_a == folder + sep + l1);
        assert(path_b == folder + sep + l2);
        if path_a == path_b {
            let k: int = (folder.len() + sep.len()) as int;
            assert(path_a.subrange(k, path_a.len() as int) =~= l1);
            assert(path_b.subrange(k, path_b.len() as int) =~= l2);
        }
    }
}

} // verus!
