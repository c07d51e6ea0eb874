//! Delegating tasks to sub-agents: the sub-agent roster, the task queue, and the two
//! steps around a sub-agent's run (assigning the task, then recording its outcome).
//! Running the sub-agent's model happens outside the library, between the two steps.

use vstd::prelude::*;
use crate::audit::opt_view;
use crate::clock::{new_uuid, now_timestamp, MAX_TIMESTAMP};
use crate::error::AppError;
use crate::text::{clone_strings, concat3, str_eq, str_to_string, string_views};

verus! {

/// A sub-agent's settings. The temperature is a floating-point number, held by its
/// IEEE-754 bit pattern (`f64::to_bits`).
#[derive(Debug)]
pub struct SubAgentConfig {
    pub id: String,
    pub name: String,
    pub role: String,
    pub model: String,
    pub provider: Option<String>,
    pub api_base_url: Option<String>,
    pub api_key: Option<String>,
    pub max_tokens: Option<u32>,
    pub temperature_bits: Option<u64>,
    pub tools: Vec<String>,
}

/// The value of a sub-agent's settings.
pub struct SubAgentConfigView {
    pub id: Seq<char>,
    pub name: Seq<char>,
    pub role: Seq<char>,
    pub model: Seq<char>,
    pub provider: Option<Seq<char>>,
    pub api_base_url: Option<Seq<char>>,
    pub api_key: Option<Seq<char>>,
    pub max_tokens: Option<u32>,
    pub temperature_bits: Option<u64>,
    pub tools: Seq<Seq<char>>,
}

impl View for SubAgentConfig {
    type V = SubAgentConfigView;

    open spec fn view(&self) -> SubAgentConfigView {
        SubAgentConfigView {
            id: self.id@,
            name: self.name@,
            role: self.role@,
            model: self.model@,
            provider: opt_view(self.provider),
            api_base_url: opt_view(self.api_base_url),
            api_key: opt_view(self.api_key),
            max_tokens: self.max_tokens,
            temperature_bits: self.temperature_bits,
            tools: string_views(self.tools@),
        }
    }
}

fn clone_opt(o: &Option<String>) -> (r: Option<String>)
    ensures
        opt_view(r) == opt_view(*o),
{
    match o {
        Some(s) => Some(s.clone()),
        None => None,
    }
}

impl SubAgentConfig {
    /// A copy of the settings.
    pub fn duplicate(&self) -> (r: Self)
        ensures
            r@ == self@,
    {
        SubAgentConfig {
            id: self.id.clone(),
            name: self.name.clone(),
            role: self.role.clone(),
            model: self.model.clone(),
            provider: clone_opt(&self.provider),
            api_base_url: clone_opt(&self.api_base_url),
            api_key: clone_opt(&self.api_key),
            max_tokens: self.max_tokens,
            temperature_bits: self.temperature_bits,
            tools: clone_strings(&self.tools),
        }
    }
}

/// Where a task stands.
#[derive(Debug, Clone, Copy, PartialEq, Eq, Structural)]
pub enum TaskStatus {
    Pending,
    Running,
    Completed,
    Failed,
    Cancelled,
}

/// A task to delegate.
#[derive(Debug)]
pub struct Task {
    pub id: String,
    pub description: String,
    pub assigned_to: Option<String>,
    pub status: TaskStatus,
    pub result: Option<String>,
    pub created_at: i64,
    pub completed_at: Option<i64>,
    pub priority: u8,
}

/// The value of a task.
pub struct TaskView {
    pub id: Seq<char>,
    pub description: Seq<char>,
    pub assigned_to: Option<Seq<char>>,
    pub status: TaskStatus,
    pub result: Option<Seq<char>>,
    pub created_at: i64,
    pub completed_at: Option<i64>,
    pub priority: u8,
}

impl View for Task {
    type V = TaskView;

    open spec fn view(&self) -> TaskView {
        TaskView {
            id: self.id@,
            description: self.description@,
            assigned_to: opt_view(self.assigned_to),
            status: self.status,
            result: opt_view(self.result),
            created_at: self.created_at,
            completed_at: self.completed_at,
            priority: self.priority,
        }
    }
}

impl Task {
    /// A copy of the task.
    pub fn duplicate(&self) -> (r: Self)
        ensures
            r@ == self@,
    {
        Task {
            id: self.id.clone(),
            description: self.description.clone(),
            assigned_to: clone_opt(&self.assigned_to),
            status: self.status,
            result: clone_opt(&self.result),
            created_at: self.created_at,
            completed_at: self.completed_at,
            priority: self.priority,
        }
    }
}

/// The outcome of a delegation.
#[derive(Debug)]
pub struct DelegationResult {
    pub task_id: String,
    pub sub_agent_id: String,
    pub status: TaskStatus,
    pub result: String,
}

/// A sub-agent: its settings, the tasks it holds, and whether it is active. The model
/// that runs its tasks is kept outside the library.
#[derive(Debug)]
pub struct SubAgent {
    pub config: SubAgentConfig,
    pub tasks: Vec<Task>,
    pub is_active: bool,
}

/// The views of some tasks.
pub open spec fn task_views(v: Seq<Task>) -> Seq<TaskView> {
    v.map_values(|t: Task| t@)
}

/// Completed tasks.
pub open spec fn is_completed() -> spec_fn(TaskView) -> bool {
    |t: TaskView| t.status == TaskStatus::Completed
}

/// Tasks with a given status.
pub open spec fn has_status(s: TaskStatus) -> spec_fn(TaskView) -> bool {
    |t: TaskView| t.status == s
}

fn tasks_with_status(v: &Vec<Task>, s: TaskStatus) -> (r: Vec<Task>)
    ensures
        task_views(r@) == task_views(v@).filter(has_status(s)),
{
    let ghost tv = task_views(v@);
    let mut out: Vec<Task> = Vec::new();
    let mut i: usize = 0;
    proof {
        reveal(Seq::filter);
        assert(tv.take(0).filter(has_status(s)) =~= Seq::<TaskView>::empty());
        assert(task_views(out@) =~= Seq::<TaskView>::empty());
    }
    while i < v.len()
        invariant
            i <= v@.len(),
            tv == task_views(v@),
            task_views(out@) == tv.take(i as int).filter(has_status(s)),
        decreases v.len() - i,
    {
        let ghost before = task_views(out@);
        proof {
            assert(tv.take(i + 1) =~= tv.take(i as int).push(tv[i as int]));
            tv.take(i as int).lemma_filter_push(tv[i as int], has_status(s));
        }
        if v[i].status == s {
            out.push(v[i].duplicate());
            assert(task_views(out@) =~= before.push(tv[i as int]));
        }
        i = i + 1;
    }
    assert(tv.take(tv.len() as int) =~= tv);
    out
}

impl SubAgent {
    /// How many tasks the sub-agent holds.
    pub fn get_task_count(&self) -> (n: usize)
        ensures
            n == self.tasks@.len(),
    {
        self.tasks.len()
    }

    /// The sub-agent's completed tasks, in order.
    pub fn get_completed_tasks(&self) -> (r: Vec<Task>)
        ensures
            task_views(r@) == task_views(self.tasks@).filter(is_completed()),
    {
        let r = tasks_with_status(&self.tasks, TaskStatus::Completed);
        assert(has_status(TaskStatus::Completed) == is_completed());
        r
    }
}

/// Counts over the task queue and the roster.
#[derive(Debug)]
pub struct DelegationStats {
    pub total_tasks: usize,
    pub pending: usize,
    pub running: usize,
    pub completed: usize,
    pub failed: usize,
    pub sub_agents: usize,
}

/// The first position whose entry has id `id`.
pub open spec fn first_task(ts: Seq<TaskView>, id: Seq<char>, i: int) -> bool {
    0 <= i < ts.len() && ts[i].id == id && forall|j: int| 0 <= j < i ==> #[trigger] ts[j].id != id
}

/// Whether some task has id `id`.
pub open spec fn has_task(ts: Seq<TaskView>, id: Seq<char>) -> bool {
    exists|i: int| 0 <= i < ts.len() && #[trigger] ts[i].id == id
}

/// Whether some sub-agent has id `id`.
pub open spec fn has_agent(agents: Seq<SubAgentConfigView>, id: Seq<char>) -> bool {
    exists|i: int| 0 <= i < agents.len() && #[trigger] agents[i].id == id
}

/// The roster of sub-agents, in the order added, and the task queue.
pub struct DelegationSystem {
    sub_agents: Vec<SubAgent>,
    task_queue: Vec<Task>,
}

impl DelegationSystem {
    /// The sub-agents' settings, in the order added.
    pub closed spec fn agents_view(&self) -> Seq<SubAgentConfigView> {
        self.sub_agents@.map_values(|a: SubAgent| a.config@)
    }

    /// The tasks, in the order created.
    pub closed spec fn tasks_view(&self) -> Seq<TaskView> {
        task_views(self.task_queue@)
    }

    /// An empty roster and queue.
    pub fn new() -> (r: Self)
        ensures
            r.agents_view() == Seq::<SubAgentConfigView>::empty(),
            r.tasks_view() == Seq::<TaskView>::empty(),
    {
        let r = DelegationSystem { sub_agents: Vec::new(), task_queue: Vec::new() };
        assert(r.agents_view() =~= Seq::<SubAgentConfigView>::empty());
        assert(r.tasks_view() =~= Seq::<TaskView>::empty());
        r
    }

    /// Adds an inactive sub-agent with no tasks; returns its id.
    pub fn create_sub_agent(&mut self, config: SubAgentConfig) -> (r: Result<String, AppError>)
        ensures
            r == Ok::<String, AppError>(config.id),
            final(self).agents_view() == old(self).agents_view().push(config@),
            final(self).tasks_view() == old(self).tasks_view(),
    {
        let id = config.id.clone();
        let ghost cv = config@;
        self.sub_agents.push(SubAgent { config, tasks: Vec::new(), is_active: false });
        assert(self.agents_view() =~= old(self).agents_view().push(cv));
        Ok(id)
    }

    /// Removes the sub-agents with id `id`; whether there was one.
    pub fn remove_sub_agent(&mut self, id: &str) -> (r: Result<bool, AppError>)
        ensures
            final(self).agents_view() == old(self).agents_view().filter(|a: SubAgentConfigView| a.id != id@),
            r == Ok::<bool, AppError>(has_agent(old(self).agents_view(), id@)),
            final(self).tasks_view() == old(self).tasks_view(),
    {
        let ghost p = |a: SubAgentConfigView| a.id != id@;
        let ghost av = self.agents_view();
        let mut kept: Vec<SubAgent> = Vec::new();
        let mut removed = false;
        let mut i: usize = 0;
        proof {
            reveal(Seq::filter);
            assert(av.take(0).filter(p) =~= Seq::<SubAgentConfigView>::empty());
            assert(kept@.map_values(|a: SubAgent| a.config@) =~= Seq::<SubAgentConfigView>::empty());
        }
        while i < self.sub_agents.len()
            invariant
                i <= self.sub_agents@.len(),
                av == self.agents_view(),
                p == (|a: SubAgentConfigView| a.id != id@),
                kept@.map_values(|a: SubAgent| a.config@) == av.take(i as int).filter(p),
                removed == has_agent(av.take(i as int), id@),
            decreases self.sub_agents.len() - i,
        {
            let ghost x = av[i as int];
            proof {
                assert(x == self.sub_agents@[i as int].config@);
                assert(av.take(i + 1) =~= av.take(i as int).push(x));
                av.take(i as int).lemma_filter_push(x, p);
                if has_agent(av.take(i + 1), id@) && x.id != id@ {
                    let j = choose|j: int| 0 <= j < av.take(i + 1).len() && #[trigger] av.take(i + 1)[j].id == id@;
                    assert(j < i);
                    assert(av.take(i as int)[j].id == id@);
                }
                if has_agent(av.take(i as int), id@) {
                    let j = choose|j: int| 0 <= j < av.take(i as int).len() && #[trigger] av.take(i as int)[j].id == id@;
                    assert(av.take(i + 1)[j].id == id@);
                }
                if x.id == id@ {
                    assert(av.take(i + 1)[i as int].id == id@);
                }
            }
            let a = &self.sub_agents[i];
            if str_eq(a.config.id.as_str(), id) {
                removed = true;
                assert(!p(x));
                assert(av.take(i + 1).filter(p) == av.take(i as int).filter(p));
            } else {
                let ghost before = kept@;
                let copy = SubAgent { config: a.config.duplicate(), tasks: clone_tasks(&a.tasks), is_active: a.is_active };
                kept.push(copy);
                assert(kept@.map_values(|a: SubAgent| a.config@) =~= before.map_values(|a: SubAgent| a.config@).push(x));
                assert(p(x));
                assert(av.take(i + 1).filter(p) == av.take(i as int).filter(p).push(x));
            }
            i = i + 1;
        }
        assert(av.take(av.len() as int) =~= av);
        self.sub_agents = kept;
        assert(self.tasks_view() == old(self).tasks_view());
        Ok(removed)
    }

    /// A copy of the first sub-agent with id `id`, if any.
    pub fn get_sub_agent(&self, id: &str) -> (r: Option<SubAgent>)
        ensures
            match r {
                Some(a) => exists|i: int| 0 <= i < self.agents_view().len() && #[trigger] self.agents_view()[i] == a.config@
                    && a.config@.id == id@
                    && forall|j: int| 0 <= j < i ==> #[trigger] self.agents_view()[j].id != id@,
                None => !has_agent(self.agents_view(), id@),
            },
    {
        let mut i: usize = 0;
        while i < self.sub_agents.len()
            invariant
                i <= self.sub_agents@.len(),
                forall|j: int| 0 <= j < i ==> #[trigger] self.agents_view()[j].id != id@,
            decreases self.sub_agents.len() - i,
        {
            assert(self.agents_view()[i as int] == self.sub_agents@[i as int].config@);
            if str_eq(self.sub_agents[i].config.id.as_str(), id) {
                let a = &self.sub_agents[i];
                let copy = SubAgent {
                    config: a.config.duplicate(),
                    tasks: clone_tasks(&a.tasks),
                    is_active: a.is_active,
                };
                assert(self.agents_view()[i as int] == copy.config@);
                return Some(copy);
            }
            i = i + 1;
        }
        None
    }

    /// The sub-agents' settings, in the order added.
    pub fn list_sub_agents(&self) -> (r: Vec<SubAgentConfig>)
        ensures
            r@.map_values(|c: SubAgentConfig| c@) == self.agents_view(),
    {
        let mut out: Vec<SubAgentConfig> = Vec::new();
        let mut i: usize = 0;
        while i < self.sub_agents.len()
            invariant
                i <= self.sub_agents@.len(),
                out@.map_values(|c: SubAgentConfig| c@) == self.agents_view().take(i as int),
            decreases self.sub_agents.len() - i,
        {
            let ghost before = out@;
            out.push(self.sub_agents[i].config.duplicate());
            proof {
                assert(out@.map_values(|c: SubAgentConfig| c@) =~= before.map_values(|c: SubAgentConfig| c@).push(self.agents_view()[i as int]));
                assert(self.agents_view().take(i + 1) =~= self.agents_view().take(i as int).push(self.agents_view()[i as int]));
            }
            i = i + 1;
        }
        assert(self.agents_view().take(self.agents_view().len() as int) =~= self.agents_view());
        out
    }

    /// Queues a pending, unassigned task under a fresh random id; returns the id.
    pub fn create_task(&mut self, description: &str, priority: u8) -> (r: String)
        ensures
            final(self).agents_view() == old(self).agents_view(),
            final(self).tasks_view().drop_last() == old(self).tasks_view(),
            final(self).tasks_view().len() == old(self).tasks_view().len() + 1,
            ({
                let t = final(self).tasks_view().last();
                &&& t.id == r@
                &&& t.description == description@
                &&& t.assigned_to is None
                &&& t.status == TaskStatus::Pending
                &&& t.result is None
                &&& 0 <= t.created_at < MAX_TIMESTAMP
                &&& t.completed_at is None
                &&& t.priority == priority
            }),
    {
        let id = new_uuid();
        let task = Task {
            id: id.clone(),
            description: str_to_string(description),
            assigned_to: None,
            status: TaskStatus::Pending,
            result: None,
            created_at: now_timestamp(),
            completed_at: None,
            priority,
        };
        let ghost tv = task@;
        self.task_queue.push(task);
        assert(self.tasks_view() =~= old(self).tasks_view().push(tv));
        assert(self.agents_view() =~= old(self).agents_view());
        id
    }

    fn task_position(&self, id: &str) -> (r: Option<usize>)
        ensures
            match r {
                Some(i) => first_task(self.tasks_view(), id@, i as int),
                None => !has_task(self.tasks_view(), id@),
            },
    {
        let mut i: usize = 0;
        while i < self.task_queue.len()
            invariant
                i <= self.task_queue@.len(),
                forall|j: int| 0 <= j < i ==> #[trigger] self.tasks_view()[j].id != id@,
            decreases self.task_queue.len() - i,
        {
            assert(self.tasks_view()[i as int] == self.task_queue@[i as int]@);
            if str_eq(self.task_queue[i].id.as_str(), id) {
                return Some(i);
            }
            i = i + 1;
        }
        None
    }

    /// Assigns the first task with id `task_id` to the sub-agent `sub_agent_id` and
    /// marks it running; returns a copy for the sub-agent to run. `NotFound` when there
    /// is no such sub-agent, or no such task.
    pub fn begin_delegation(&mut self, task_id: &str, sub_agent_id: &str) -> (r: Result<Task, AppError>)
        ensures
            final(self).agents_view() == old(self).agents_view(),
            r is Ok <==> has_agent(old(self).agents_view(), sub_agent_id@) && has_task(old(self).tasks_view(), task_id@),
            !has_agent(old(self).agents_view(), sub_agent_id@) ==> (r matches Err(e) && e is NotFound
                && e.message() == "SubAgent "@ + sub_agent_id@ + " not found"@),
            has_agent(old(self).agents_view(), sub_agent_id@) && !has_task(old(self).tasks_view(), task_id@) ==> (r matches Err(e)
                && e is NotFound && e.message() == "Task "@ + task_id@ + " not found"@),
            match r {
                Ok(t) => exists|i: int| first_task(old(self).tasks_view(), task_id@, i)
                    && t@ == (TaskView { assigned_to: Some(sub_agent_id@), status: TaskStatus::Running, ..old(self).tasks_view()[i] })
                    && final(self).tasks_view() == old(self).tasks_view().update(i, t@),
                Err(_) => final(self).tasks_view() == old(self).tasks_view(),
            },
    {
        if self.get_sub_agent(sub_agent_id).is_none() {
            return Err(AppError::NotFound(concat3("SubAgent ", sub_agent_id, " not found")));
        }
        let i = match self.task_position(task_id) {
            Some(i) => i,
            None => return Err(AppError::NotFound(concat3("Task ", task_id, " not found"))),
        };
        let mut t = self.task_queue[i].duplicate();
        t.assigned_to = Some(str_to_string(sub_agent_id));
        t.status = TaskStatus::Running;
        let out = t.duplicate();
        self.task_queue.set(i, t);
        assert(self.tasks_view() =~= old(self).tasks_view().update(i as int, out@));
        assert(self.agents_view() =~= old(self).agents_view());
        Ok(out)
    }

    /// Records the outcome of a sub-agent's run of the task `task_id`: the first task
    /// with that id is marked completed with the reply, or failed, with the completion
    /// time; the result names the task and the sub-agent, with the reply or the error's
    /// text.
    pub fn finish_delegation(&mut self, task_id: &str, sub_agent_id: &str, outcome: Result<String, AppError>) -> (r: DelegationResult)
        ensures
            final(self).agents_view() == old(self).agents_view(),
            r.task_id@ == task_id@,
            r.sub_agent_id@ == sub_agent_id@,
            match outcome {
                Ok(reply) => r.status == TaskStatus::Completed && r.result@ == reply@,
                Err(e) => r.status == TaskStatus::Failed && r.result@ == e.text(),
            },
            !has_task(old(self).tasks_view(), task_id@) ==> final(self).tasks_view() == old(self).tasks_view(),
            has_task(old(self).tasks_view(), task_id@) ==> exists|i: int| first_task(old(self).tasks_view(), task_id@, i)
                && final(self).tasks_view() == old(self).tasks_view().update(i, final(self).tasks_view()[i])
                && final(self).tasks_view()[i] == (TaskView {
                    status: r.status,
                    result: Some(match outcome { Ok(reply) => reply@, Err(_) => "Task execution failed"@ }),
                    completed_at: final(self).tasks_view()[i].completed_at,
                    ..old(self).tasks_view()[i]
                })
                && (final(self).tasks_view()[i].completed_at matches Some(t) && 0 <= t < MAX_TIMESTAMP),
    {
        let (status, text, stored) = match outcome {
            Ok(reply) => {
                let stored = reply.clone();
                (TaskStatus::Completed, reply, stored)
            },
            Err(e) => (TaskStatus::Failed, e.to_text(), str_to_string("Task execution failed")),
        };
        if let Some(i) = self.task_position(task_id) {
            let mut t = self.task_queue[i].duplicate();
            t.status = status;
            t.result = Some(stored);
            t.completed_at = Some(now_timestamp());
            let ghost tv = t@;
            self.task_queue.set(i, t);
            assert(self.tasks_view() =~= old(self).tasks_view().update(i as int, tv));
            assert(self.tasks_view()[i as int] == tv);
            assert(first_task(old(self).tasks_view(), task_id@, i as int));
        }
        assert(self.agents_view() =~= old(self).agents_view());
        DelegationResult { task_id: str_to_string(task_id), sub_agent_id: str_to_string(sub_agent_id), status, result: text }
    }

    /// A copy of the first task with id `id`, if any.
    pub fn get_task(&self, id: &str) -> (r: Option<Task>)
        ensures
            match r {
                Some(t) => exists|i: int| first_task(self.tasks_view(), id@, i) && #[trigger] self.tasks_view()[i] == t@,
                None => !has_task(self.tasks_view(), id@),
            },
    {
        match self.task_position(id) {
            Some(i) => {
                let t = self.task_queue[i].duplicate();
                assert(self.tasks_view()[i as int] == t@);
                Some(t)
            },
            None => None,
        }
    }

    /// All tasks, in the order created.
    pub fn list_tasks(&self) -> (r: Vec<Task>)
        ensures
            task_views(r@) == self.tasks_view(),
    {
        clone_tasks(&self.task_queue)
    }

    /// The pending tasks, in the order created.
    pub fn get_pending_tasks(&self) -> (r: Vec<Task>)
        ensures
            task_views(r@) == self.tasks_view().filter(has_status(TaskStatus::Pending)),
    {
        tasks_with_status(&self.task_queue, TaskStatus::Pending)
    }

    /// Cancels the first task with id `id` when it is pending or running; whether it was
    /// cancelled.
    pub fn cancel_task(&mut self, id: &str) -> (r: Result<bool, AppError>)
        ensures
            final(self).agents_view() == old(self).agents_view(),
            ({
                let ts = old(self).tasks_view();
                let cancels = exists|i: int| first_task(ts, id@, i)
                    && (ts[i].status == TaskStatus::Pending || ts[i].status == TaskStatus::Running);
                &&& r == Ok::<bool, AppError>(cancels)
                &&& !cancels ==> final(self).tasks_view() == ts
                &&& cancels ==> exists|i: int| first_task(ts, id@, i)
                    && final(self).tasks_view() == ts.update(i, TaskView { status: TaskStatus::Cancelled, ..ts[i] })
            }),
    {
        match self.task_position(id) {
            Some(i) => {
                let st = self.task_queue[i].status;
                if st == TaskStatus::Pending || st == TaskStatus::Running {
                    let mut t = self.task_queue[i].duplicate();
                    t.status = TaskStatus::Cancelled;
                    let ghost tv = t@;
                    self.task_queue.set(i, t);
                    assert(self.tasks_view() =~= old(self).tasks_view().update(i as int, tv));
                    assert(self.agents_view() =~= old(self).agents_view());
                    Ok(true)
                } else {
                    proof {
                        assert forall|j: int| first_task(old(self).tasks_view(), id@, j) implies !(old(self).tasks_view()[j].status
                            == TaskStatus::Pending || old(self).tasks_view()[j].status == TaskStatus::Running) by {
                            assert(j == i);
                        }
                    }
                    Ok(false)
                }
            },
            None => Ok(false),
        }
    }

    /// Counts of tasks by status and of sub-agents.
    pub fn get_stats(&self) -> (r: DelegationStats)
        ensures
            r.total_tasks == self.tasks_view().len(),
            r.pending == self.tasks_view().filter(has_status(TaskStatus::Pending)).len(),
            r.running == self.tasks_view().filter(has_status(TaskStatus::Running)).len(),
            r.completed == self.tasks_view().filter(has_status(TaskStatus::Completed)).len(),
            r.failed == self.tasks_view().filter(has_status(TaskStatus::Failed)).len(),
            r.sub_agents == self.agents_view().len(),
    {
        DelegationStats {
            total_tasks: self.task_queue.len(),
            pending: tasks_with_status(&self.task_queue, TaskStatus::Pending).len(),
            running: tasks_with_status(&self.task_queue, TaskStatus::Running).len(),
            completed: tasks_with_status(&self.task_queue, TaskStatus::Completed).len(),
            failed: tasks_with_status(&self.task_queue, TaskStatus::Failed).len(),
            sub_agents: self.sub_agents.len(),
        }
    }
}

fn clone_tasks(v: &Vec<Task>) -> (r: Vec<Task>)
    ensures
        task_views(r@) == task_views(v@),
{
    let mut out: Vec<Task> = Vec::new();
    let mut i: usize = 0;
    while i < v.len()
        invariant
            i <= v@.len(),
            task_views(out@) == task_views(v@).take(i as int),
        decreases v.len() - i,
    {
        let ghost before = out@;
        out.push(v[i].duplicate());
        proof {
            assert(task_views(out@) =~= task_views(before).push(v@[i as int]@));
            assert(task_views(v@).take(i + 1) =~= task_views(v@).take(i as int).push(v@[i as int]@));
        }
        i = i + 1;
    }
    assert(task_views(v@).take(v@.len() as int) =~= task_views(v@));
    out
}

/// The sub-agent each task goes to when tasks are delegated in parallel: task `i` to
/// sub-agent `i` modulo their number.
pub fn parallel_assignments(task_ids: &Vec<String>, sub_agent_ids: &Vec<String>) -> (r: Vec<(String, String)>)
    requires
        task_ids@.len() > 0 ==> sub_agent_ids@.len() > 0,
    ensures
        r@.len() == task_ids@.len(),
        forall|i: int| 0 <= i < r@.len() ==> (#[trigger] r@[i]).0@ == task_ids@[i]@
            && r@[i].1@ == sub_agent_ids@[i % (sub_agent_ids@.len() as int)]@,
{
    let mut out: Vec<(String, String)> = Vec::new();
    let mut i: usize = 0;
    while i < task_ids.len()
        invariant
            i <= task_ids@.len(),
            task_ids@.len() > 0 ==> sub_agent_ids@.len() > 0,
            out@.len() == i,
            forall|k: int| 0 <= k < i ==> (#[trigger] out@[k]).0@ == task_ids@[k]@
                && out@[k].1@ == sub_agent_ids@[k % (sub_agent_ids@.len() as int)]@,
        decreases task_ids.len() - i,
    {
        let j = i % sub_agent_ids.len();
        out.push((task_ids[i].clone(), sub_agent_ids[j].clone()));
        i = i + 1;
    }
    out
}

} // verus!
