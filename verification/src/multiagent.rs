//! Several agents working together: agent profiles, collaboration tasks assigned to
//! them, and the messages they exchange.

use vstd::prelude::*;
use crate::clock::{new_uuid, now_timestamp, MAX_TIMESTAMP};
use crate::error::AppError;
use crate::keyed::restrict_where;
use crate::rbac::lists_map;
use crate::store::{filter_pred, record_entries, Record, RecordFilter, Store};
use crate::text::{clone_strings, nat_decimal, push_str, push_u64_decimal, str_eq, str_to_string, string_views};

verus! {

/// The bit pattern of the floating-point number 100.0 (`100.0f64.to_bits()`).
pub const FULL_PROGRESS_BITS: u64 = 0x4059_0000_0000_0000;

/// An agent's profile.
#[derive(Debug)]
pub struct AgentProfile {
    pub id: String,
    pub name: String,
    pub role: String,
    pub capabilities: Vec<String>,
    pub status: String,
    pub created_at: i64,
    pub task_count: usize,
}

/// The value of an agent's profile.
pub struct AgentView {
    pub id: Seq<char>,
    pub name: Seq<char>,
    pub role: Seq<char>,
    pub capabilities: Seq<Seq<char>>,
    pub status: Seq<char>,
    pub created_at: i64,
    pub task_count: usize,
}

impl View for AgentProfile {
    type V = AgentView;

    open spec fn view(&self) -> AgentView {
        AgentView {
            id: self.id@,
            name: self.name@,
            role: self.role@,
            capabilities: string_views(self.capabilities@),
            status: self.status@,
            created_at: self.created_at,
            task_count: self.task_count,
        }
    }
}

impl Record for AgentProfile {
    open spec fn key_of(v: AgentView) -> Seq<char> {
        v.id
    }

    fn key(&self) -> (r: &str) {
        self.id.as_str()
    }

    fn duplicate(&self) -> (r: Self) {
        AgentProfile {
            id: self.id.clone(),
            name: self.name.clone(),
            role: self.role.clone(),
            capabilities: clone_strings(&self.capabilities),
            status: self.status.clone(),
            created_at: self.created_at,
            task_count: self.task_count,
        }
    }
}

/// A task several agents work on. Its progress, a percentage, is a floating-point
/// number, held by its IEEE-754 bit pattern (`f64::to_bits`).
#[derive(Debug)]
pub struct CollaborationTask {
    pub id: String,
    pub title: String,
    pub description: String,
    pub assigned_agents: Vec<String>,
    pub status: String,
    pub progress_bits: u64,
    pub created_at: i64,
    pub completed_at: Option<i64>,
}

/// The value of a collaboration task.
pub struct CollabTaskView {
    pub id: Seq<char>,
    pub title: Seq<char>,
    pub description: Seq<char>,
    pub assigned_agents: Seq<Seq<char>>,
    pub status: Seq<char>,
    pub progress_bits: u64,
    pub created_at: i64,
    pub completed_at: Option<i64>,
}

impl View for CollaborationTask {
    type V = CollabTaskView;

    open spec fn view(&self) -> CollabTaskView {
        CollabTaskView {
            id: self.id@,
            title: self.title@,
            description: self.description@,
            assigned_agents: string_views(self.assigned_agents@),
            status: self.status@,
            progress_bits: self.progress_bits,
            created_at: self.created_at,
            completed_at: self.completed_at,
        }
    }
}

impl Record for CollaborationTask {
    open spec fn key_of(v: CollabTaskView) -> Seq<char> {
        v.id
    }

    fn key(&self) -> (r: &str) {
        self.id.as_str()
    }

    fn duplicate(&self) -> (r: Self) {
        CollaborationTask {
            id: self.id.clone(),
            title: self.title.clone(),
            description: self.description.clone(),
            assigned_agents: clone_strings(&self.assigned_agents),
            status: self.status.clone(),
            progress_bits: self.progress_bits,
            created_at: self.created_at,
            completed_at: self.completed_at,
        }
    }
}

/// A message between two agents.
#[derive(Debug)]
pub struct AgentMessage {
    pub id: String,
    pub from_agent: String,
    pub to_agent: String,
    pub content: String,
    pub timestamp: i64,
    pub message_type: String,
}

/// The value of a message.
pub struct MessageView {
    pub id: Seq<char>,
    pub from_agent: Seq<char>,
    pub to_agent: Seq<char>,
    pub content: Seq<char>,
    pub timestamp: i64,
    pub message_type: Seq<char>,
}

impl View for AgentMessage {
    type V = MessageView;

    open spec fn view(&self) -> MessageView {
        MessageView {
            id: self.id@,
            from_agent: self.from_agent@,
            to_agent: self.to_agent@,
            content: self.content@,
            timestamp: self.timestamp,
            message_type: self.message_type@,
        }
    }
}

impl AgentMessage {
    /// A copy of the message.
    pub fn duplicate(&self) -> (r: Self)
        ensures
            r@ == self@,
    {
        AgentMessage {
            id: self.id.clone(),
            from_agent: self.from_agent.clone(),
            to_agent: self.to_agent.clone(),
            content: self.content.clone(),
            timestamp: self.timestamp,
            message_type: self.message_type.clone(),
        }
    }
}

/// The views of some messages.
pub open spec fn message_views(v: Seq<AgentMessage>) -> Seq<MessageView> {
    v.map_values(|m: AgentMessage| m@)
}

/// The message recorded under `id` at `now`.
pub open spec fn message_at(id: Seq<char>, from_agent: Seq<char>, to_agent: Seq<char>, content: Seq<char>, message_type: Seq<char>, now: i64) -> MessageView {
    MessageView { id, from_agent, to_agent, content, timestamp: now, message_type }
}

/// Messages sent by or to `agent`.
pub open spec fn involves(agent: Seq<char>) -> spec_fn(MessageView) -> bool {
    |m: MessageView| m.from_agent == agent || m.to_agent == agent
}

/// How the framework is set up.
#[derive(Debug)]
pub struct CollaborationConfig {
    pub max_agents: usize,
    pub default_role: String,
    pub enable_auto_assignment: bool,
}

/// Counts over agents, tasks and messages.
#[derive(Debug)]
pub struct MultiAgentStats {
    pub total_agents: usize,
    pub active_agents: usize,
    pub total_tasks: usize,
    pub pending_tasks: usize,
    pub in_progress_tasks: usize,
    pub completed_tasks: usize,
    pub total_messages: usize,
    pub max_agents: usize,
}

/// The agents after a task assigned to `ids` is created: each registered agent's task
/// count grows by one for each time its id is listed.
pub open spec fn bumped(m: Map<Seq<char>, AgentView>, ids: Seq<Seq<char>>) -> Map<Seq<char>, AgentView>
    decreases ids.len(),
{
    if ids.len() == 0 {
        m
    } else {
        let prev = bumped(m, ids.drop_last());
        let k = ids.last();
        if prev.dom().contains(k) {
            prev.insert(k, AgentView { task_count: (prev[k].task_count + 1) as usize, ..prev[k] })
        } else {
            prev
        }
    }
}

/// Bumping keeps the registered agents, and raises each count by at most the number of
/// ids.
pub proof fn lemma_bumped(m: Map<Seq<char>, AgentView>, ids: Seq<Seq<char>>)
    requires
        forall|k: Seq<char>| #[trigger] m.dom().contains(k) ==> m[k].task_count + ids.len() <= usize::MAX,
    ensures
        bumped(m, ids).dom() == m.dom(),
        forall|k: Seq<char>| #[trigger] m.dom().contains(k) ==> m[k].task_count <= bumped(m, ids)[k].task_count <= m[k].task_count + ids.len(),
    decreases ids.len(),
{
    if ids.len() > 0 {
        lemma_bumped(m, ids.drop_last());
        let prev = bumped(m, ids.drop_last());
        let k = ids.last();
        if prev.dom().contains(k) {
            assert(bumped(m, ids).dom() =~= m.dom());
        }
    }
}

/// A registered agent: active, no tasks yet.
pub open spec fn new_agent(id: Seq<char>, name: Seq<char>, role: Seq<char>, capabilities: Seq<Seq<char>>, now: i64) -> AgentView {
    AgentView { id, name, role, capabilities, status: "active"@, created_at: now, task_count: 0 }
}

/// A new collaboration task: pending, no progress.
pub open spec fn new_collab_task(id: Seq<char>, title: Seq<char>, description: Seq<char>, agents: Seq<Seq<char>>, now: i64) -> CollabTaskView {
    CollabTaskView {
        id, title, description, assigned_agents: agents, status: "pending"@, progress_bits: 0, created_at: now, completed_at: None,
    }
}

/// A task after its progress is set to the percentage with bits `bits` at `now`; when
/// `full` (the percentage reached 100) it is completed then.
pub open spec fn progressed(t: CollabTaskView, bits: u64, full: bool, now: i64) -> CollabTaskView {
    if full {
        CollabTaskView { progress_bits: bits, status: "completed"@, completed_at: Some(now), ..t }
    } else {
        CollabTaskView { progress_bits: bits, ..t }
    }
}

/// Agents with a given status.
pub struct AgentsWithStatus<'a> {
    pub status: &'a str,
}

impl<'a> RecordFilter<AgentProfile> for AgentsWithStatus<'a> {
    open spec fn holds(&self, v: AgentView) -> bool {
        v.status == self.status@
    }

    fn test(&self, r: &AgentProfile) -> (b: bool) {
        str_eq(r.status.as_str(), self.status)
    }
}

/// Tasks with a given status.
pub struct TasksWithStatus<'a> {
    pub status: &'a str,
}

impl<'a> RecordFilter<CollaborationTask> for TasksWithStatus<'a> {
    open spec fn holds(&self, v: CollabTaskView) -> bool {
        v.status == self.status@
    }

    fn test(&self, r: &CollaborationTask) -> (b: bool) {
        str_eq(r.status.as_str(), self.status)
    }
}

/// Agents, collaboration tasks and messages.
pub struct MultiAgentFramework {
    agents: Store<AgentProfile>,
    tasks: Store<CollaborationTask>,
    messages: Vec<AgentMessage>,
    config: CollaborationConfig,
}

impl MultiAgentFramework {
    /// The agents, by id.
    pub closed spec fn agents_view(&self) -> Map<Seq<char>, AgentView> {
        self.agents.view_map()
    }

    /// The tasks, by id.
    pub closed spec fn tasks_view(&self) -> Map<Seq<char>, CollabTaskView> {
        self.tasks.view_map()
    }

    /// The messages, in the order sent.
    pub closed spec fn messages_view(&self) -> Seq<MessageView> {
        message_views(self.messages@)
    }

    /// The most agents the framework takes.
    pub closed spec fn max_agents(&self) -> usize {
        self.config.max_agents
    }

    /// The framework's invariant: each id is held once in each table.
    pub closed spec fn wf(&self) -> bool {
        self.agents.wf() && self.tasks.wf()
    }

    /// No agents, tasks or messages.
    pub fn new(config: CollaborationConfig) -> (r: Self)
        ensures
            r.wf(),
            r.agents_view() == Map::<Seq<char>, AgentView>::empty(),
            r.tasks_view() == Map::<Seq<char>, CollabTaskView>::empty(),
            r.messages_view() == Seq::<MessageView>::empty(),
            r.max_agents() == config.max_agents,
    {
        let r = MultiAgentFramework { agents: Store::new(), tasks: Store::new(), messages: Vec::new(), config };
        assert(r.messages_view() =~= Seq::<MessageView>::empty());
        r
    }

    /// Registers an agent under `id`, at `now`; `Internal` when the framework already
    /// holds its most agents.
    pub fn register_agent_at(&mut self, name: String, role: String, capabilities: Vec<String>, id: String, now: i64) -> (r: Result<String, AppError>)
        requires
            old(self).wf(),
        ensures
            final(self).wf(),
            final(self).tasks_view() == old(self).tasks_view(),
            final(self).messages_view() == old(self).messages_view(),
            final(self).max_agents() == old(self).max_agents(),
            r is Ok <==> old(self).agents_view().dom().len() < old(self).max_agents(),
            match r {
                Ok(rid) => rid@ == id@ && final(self).agents_view() == old(self).agents_view().insert(id@,
                    new_agent(id@, name@, role@, string_views(capabilities@), now)),
                Err(e) => final(self).agents_view() == old(self).agents_view() && e is Internal
                    && e.message() == "Maximum agent limit ("@ + nat_decimal(old(self).max_agents() as nat) + ") reached"@,
            },
    {
        if self.agents.len() >= self.config.max_agents {
            let mut m = str_to_string("Maximum agent limit (");
            push_u64_decimal(&mut m, self.config.max_agents as u64);
            push_str(&mut m, ") reached");
            return Err(AppError::Internal(m));
        }
        let profile = AgentProfile {
            id: id.clone(),
            name,
            role,
            capabilities,
            status: str_to_string("active"),
            created_at: now,
            task_count: 0,
        };
        self.agents.insert(profile);
        Ok(id)
    }

    /// Registers an agent under a fresh random id, now; `Internal` when the framework
    /// already holds its most agents.
    pub fn register_agent(&mut self, name: String, role: String, capabilities: Vec<String>) -> (r: Result<String, AppError>)
        requires
            old(self).wf(),
        ensures
            final(self).wf(),
            final(self).tasks_view() == old(self).tasks_view(),
            final(self).messages_view() == old(self).messages_view(),
            final(self).max_agents() == old(self).max_agents(),
            r is Ok <==> old(self).agents_view().dom().len() < old(self).max_agents(),
            match r {
                Ok(id) => exists|now: i64| 0 <= now < MAX_TIMESTAMP && final(self).agents_view() == old(self).agents_view().insert(id@,
                    #[trigger] new_agent(id@, name@, role@, string_views(capabilities@), now)),
                Err(e) => final(self).agents_view() == old(self).agents_view() && e is Internal
                    && e.message() == "Maximum agent limit ("@ + nat_decimal(old(self).max_agents() as nat) + ") reached"@,
            },
    {
        let id = new_uuid();
        let now = now_timestamp();
        let ghost (nv, rv, cv) = (name@, role@, string_views(capabilities@));
        let r = self.register_agent_at(name, role, capabilities, id, now);
        proof {
            if r is Ok {
                let rid = r->Ok_0;
                assert(self.agents_view() == old(self).agents_view().insert(rid@, new_agent(rid@, nv, rv, cv, now)));
            }
        }
        r
    }

    /// Removes the agent `id`, if there is one.
    pub fn unregister_agent(&mut self, id: &str) -> (r: Result<(), AppError>)
        requires
            old(self).wf(),
        ensures
            final(self).wf(),
            r is Ok,
            final(self).agents_view() == old(self).agents_view().remove(id@),
            final(self).tasks_view() == old(self).tasks_view(),
            final(self).messages_view() == old(self).messages_view(),
            final(self).max_agents() == old(self).max_agents(),
    {
        let _ = self.agents.remove(id);
        Ok(())
    }

    /// Every agent, once each.
    pub fn list_agents(&self) -> (r: Vec<AgentProfile>)
        requires
            self.wf(),
        ensures
            lists_map(record_entries(r@).map_values(|e: (Seq<char>, AgentView)| e.0), r@.map_values(|x: AgentProfile| x@), self.agents_view()),
    {
        self.agents.values()
    }

    /// The agent `id`, if there is one.
    pub fn get_agent(&self, id: &str) -> (r: Option<AgentProfile>)
        requires
            self.wf(),
        ensures
            match r {
                Some(a) => self.agents_view().dom().contains(id@) && a@ == self.agents_view()[id@],
                None => !self.agents_view().dom().contains(id@),
            },
    {
        self.agents.get_copy(id)
    }

    /// Creates a pending task under `id`, at `now`, assigned to `agent_ids`, and counts it
    /// for each listed agent that is registered.
    pub fn create_collaboration_task_at(&mut self, title: String, description: String, agent_ids: Vec<String>, id: String, now: i64) -> (r: Result<String, AppError>)
        requires
            old(self).wf(),
            forall|k: Seq<char>| #[trigger] old(self).agents_view().dom().contains(k)
                ==> old(self).agents_view()[k].task_count + agent_ids@.len() <= usize::MAX,
        ensures
            final(self).wf(),
            r == Ok::<String, AppError>(id),
            final(self).tasks_view() == old(self).tasks_view().insert(id@,
                new_collab_task(id@, title@, description@, string_views(agent_ids@), now)),
            final(self).agents_view() == bumped(old(self).agents_view(), string_views(agent_ids@)),
            final(self).messages_view() == old(self).messages_view(),
            final(self).max_agents() == old(self).max_agents(),
    {
        let ghost ids = string_views(agent_ids@);
        let task = CollaborationTask {
            id: id.clone(),
            title,
            description,
            assigned_agents: clone_strings(&agent_ids),
            status: str_to_string("pending"),
            progress_bits: 0,
            created_at: now,
            completed_at: None,
        };
        self.tasks.insert(task);
        let ghost start = self.agents_view();
        let mut i: usize = 0;
        proof {
            assert(ids.take(0) =~= Seq::<Seq<char>>::empty());
        }
        while i < agent_ids.len()
            invariant
                self.wf(),
                i <= agent_ids@.len(),
                ids == string_views(agent_ids@),
                start == old(self).agents_view(),
                forall|k: Seq<char>| #[trigger] start.dom().contains(k) ==> start[k].task_count + ids.len() <= usize::MAX,
                self.agents_view() == bumped(start, ids.take(i as int)),
                self.tasks_view() == old(self).tasks_view().insert(id@,
                    new_collab_task(id@, title@, description@, ids, now)),
                self.messages@ == old(self).messages@,
                self.config.max_agents == old(self).config.max_agents,
            decreases agent_ids.len() - i,
        {
            proof {
                assert(ids.take(i + 1).drop_last() =~= ids.take(i as int));
                assert(ids.take(i + 1).last() == agent_ids@[i as int]@);
                lemma_bumped(start, ids.take(i as int));
            }
            match self.agents.get_copy(agent_ids[i].as_str()) {
                Some(mut a) => {
                    a.task_count = a.task_count + 1;
                    self.agents.insert(a);
                },
                None => {},
            }
            i = i + 1;
        }
        assert(ids.take(ids.len() as int) =~= ids);
        Ok(id)
    }

    /// Creates a pending task under a fresh random id, now, assigned to `agent_ids`, and
    /// counts it for each listed agent that is registered.
    pub fn create_collaboration_task(&mut self, title: String, description: String, agent_ids: Vec<String>) -> (r: Result<String, AppError>)
        requires
            old(self).wf(),
            forall|k: Seq<char>| #[trigger] old(self).agents_view().dom().contains(k)
                ==> old(self).agents_view()[k].task_count + agent_ids@.len() <= usize::MAX,
        ensures
            final(self).wf(),
            r is Ok,
            match r {
                Ok(id) => exists|now: i64| 0 <= now < MAX_TIMESTAMP && final(self).tasks_view() == old(self).tasks_view().insert(id@,
                    #[trigger] new_collab_task(id@, title@, description@, string_views(agent_ids@), now)),
                Err(_) => false,
            },
            final(self).agents_view() == bumped(old(self).agents_view(), string_views(agent_ids@)),
            final(self).messages_view() == old(self).messages_view(),
            final(self).max_agents() == old(self).max_agents(),
    {
        let id = new_uuid();
        let now = now_timestamp();
        let ghost (tv, dv) = (title@, description@);
        let r = self.create_collaboration_task_at(title, description, agent_ids, id, now);
        proof {
            if r is Ok {
                let rid = r->Ok_0;
                assert(self.tasks_view() == old(self).tasks_view().insert(rid@, new_collab_task(rid@, tv, dv, string_views(agent_ids@), now)));
            }
        }
        r
    }

    /// Marks the task `task_id` in progress; `NotFound` when there is none.
    pub fn start_task(&mut self, task_id: &str) -> (r: Result<(), AppError>)
        requires
            old(self).wf(),
        ensures
            final(self).wf(),
            r is Ok <==> old(self).tasks_view().dom().contains(task_id@),
            final(self).tasks_view() == if r is Ok {
                old(self).tasks_view().insert(task_id@, CollabTaskView { status: "in_progress"@, ..old(self).tasks_view()[task_id@] })
            } else {
                old(self).tasks_view()
            },
            r is Err ==> r->Err_0 is NotFound && r->Err_0.message() == "Task "@ + task_id@ + " not found"@,
            final(self).agents_view() == old(self).agents_view(),
            final(self).messages_view() == old(self).messages_view(),
            final(self).max_agents() == old(self).max_agents(),
    {
        match self.tasks.get_copy(task_id) {
            Some(mut t) => {
                t.status = str_to_string("in_progress");
                self.tasks.insert(t);
                Ok(())
            },
            None => Err(crate::error::AppError::NotFound(crate::text::concat3("Task ", task_id, " not found"))),
        }
    }

    /// Sets the progress of the task `task_id`, at `now`, to the percentage with bits
    /// `progress_bits` (already capped at 100); when `full` (it reached 100) the task is
    /// completed then. `NotFound` when there is no such task.
    pub fn update_task_progress_at(&mut self, task_id: &str, progress_bits: u64, full: bool, now: i64) -> (r: Result<(), AppError>)
        requires
            old(self).wf(),
        ensures
            final(self).wf(),
            r is Ok <==> old(self).tasks_view().dom().contains(task_id@),
            final(self).tasks_view() == if r is Ok {
                old(self).tasks_view().insert(task_id@, progressed(old(self).tasks_view()[task_id@], progress_bits, full, now))
            } else {
                old(self).tasks_view()
            },
            r is Err ==> r->Err_0 is NotFound && r->Err_0.message() == "Task "@ + task_id@ + " not found"@,
            final(self).agents_view() == old(self).agents_view(),
            final(self).messages_view() == old(self).messages_view(),
            final(self).max_agents() == old(self).max_agents(),
    {
        match self.tasks.get_copy(task_id) {
            Some(mut t) => {
                t.progress_bits = progress_bits;
                if full {
                    t.status = str_to_string("completed");
                    t.completed_at = Some(now);
                }
                self.tasks.insert(t);
                Ok(())
            },
            None => Err(crate::error::AppError::NotFound(crate::text::concat3("Task ", task_id, " not found"))),
        }
    }

    /// Sets the progress of the task `task_id`, now; see `update_task_progress_at`.
    pub fn update_task_progress(&mut self, task_id: &str, progress_bits: u64, full: bool) -> (r: Result<(), AppError>)
        requires
            old(self).wf(),
        ensures
            final(self).wf(),
            r is Ok <==> old(self).tasks_view().dom().contains(task_id@),
            r is Ok ==> exists|now: i64| 0 <= now < MAX_TIMESTAMP && final(self).tasks_view()
                == old(self).tasks_view().insert(task_id@, #[trigger] progressed(old(self).tasks_view()[task_id@], progress_bits, full, now)),
            r is Err ==> final(self).tasks_view() == old(self).tasks_view()
                && r->Err_0 is NotFound && r->Err_0.message() == "Task "@ + task_id@ + " not found"@,
            final(self).agents_view() == old(self).agents_view(),
            final(self).messages_view() == old(self).messages_view(),
            final(self).max_agents() == old(self).max_agents(),
    {
        let now = now_timestamp();
        let r = self.update_task_progress_at(task_id, progress_bits, full, now);
        assert(r is Ok ==> self.tasks_view() == old(self).tasks_view().insert(task_id@, progressed(old(self).tasks_view()[task_id@], progress_bits, full, now)));
        r
    }

    /// Completes the task `task_id` now: its progress becomes 100.
    pub fn complete_task(&mut self, task_id: &str) -> (r: Result<(), AppError>)
        requires
            old(self).wf(),
        ensures
            final(self).wf(),
            r is Ok <==> old(self).tasks_view().dom().contains(task_id@),
            r is Ok ==> exists|now: i64| 0 <= now < MAX_TIMESTAMP && final(self).tasks_view()
                == old(self).tasks_view().insert(task_id@, #[trigger] progressed(old(self).tasks_view()[task_id@], FULL_PROGRESS_BITS, true, now)),
            r is Err ==> final(self).tasks_view() == old(self).tasks_view()
                && r->Err_0 is NotFound && r->Err_0.message() == "Task "@ + task_id@ + " not found"@,
            final(self).agents_view() == old(self).agents_view(),
            final(self).messages_view() == old(self).messages_view(),
            final(self).max_agents() == old(self).max_agents(),
    {
        self.update_task_progress(task_id, FULL_PROGRESS_BITS, true)
    }

    /// Every task, once each.
    pub fn list_tasks(&self) -> (r: Vec<CollaborationTask>)
        requires
            self.wf(),
        ensures
            lists_map(record_entries(r@).map_values(|e: (Seq<char>, CollabTaskView)| e.0), r@.map_values(|x: CollaborationTask| x@), self.tasks_view()),
    {
        self.tasks.values()
    }

    /// The task `task_id`, if there is one.
    pub fn get_task(&self, task_id: &str) -> (r: Option<CollaborationTask>)
        requires
            self.wf(),
        ensures
            match r {
                Some(t) => self.tasks_view().dom().contains(task_id@) && t@ == self.tasks_view()[task_id@],
                None => !self.tasks_view().dom().contains(task_id@),
            },
    {
        self.tasks.get_copy(task_id)
    }

    /// Records a message under `id`, at `now`, and returns the id.
    pub fn send_message_at(&mut self, from_agent: &str, to_agent: &str, content: &str, message_type: &str, id: String, now: i64) -> (r: Result<String, AppError>)
        requires
            old(self).wf(),
        ensures
            final(self).wf(),
            r == Ok::<String, AppError>(id),
            final(self).messages_view() == old(self).messages_view().push(MessageView {
                id: id@, from_agent: from_agent@, to_agent: to_agent@, content: content@, timestamp: now, message_type: message_type@,
            }),
            final(self).agents_view() == old(self).agents_view(),
            final(self).tasks_view() == old(self).tasks_view(),
            final(self).max_agents() == old(self).max_agents(),
    {
        let m = AgentMessage {
            id: id.clone(),
            from_agent: str_to_string(from_agent),
            to_agent: str_to_string(to_agent),
            content: str_to_string(content),
            timestamp: now,
            message_type: str_to_string(message_type),
        };
        let ghost mv = m@;
        self.messages.push(m);
        assert(self.messages_view() =~= old(self).messages_view().push(mv));
        Ok(id)
    }

    /// Records a message under a fresh random id, now, and returns the id.
    pub fn send_message(&mut self, from_agent: &str, to_agent: &str, content: &str, message_type: &str) -> (r: Result<String, AppError>)
        requires
            old(self).wf(),
        ensures
            final(self).wf(),
            r is Ok,
            match r {
                Ok(id) => exists|now: i64| 0 <= now < MAX_TIMESTAMP && final(self).messages_view() == old(self).messages_view().push(
                    #[trigger] message_at(id@, from_agent@, to_agent@, content@, message_type@, now)),
                Err(_) => false,
            },
            final(self).agents_view() == old(self).agents_view(),
            final(self).tasks_view() == old(self).tasks_view(),
            final(self).max_agents() == old(self).max_agents(),
    {
        let id = new_uuid();
        let now = now_timestamp();
        let ghost iv = id@;
        let r = self.send_message_at(from_agent, to_agent, content, message_type, id, now);
        assert(r->Ok_0@ == iv);
        assert(self.messages_view() == old(self).messages_view().push(message_at(r->Ok_0@, from_agent@, to_agent@, content@, message_type@, now)));
        r
    }

    /// The messages sent by or to `agent_id`, in the order sent.
    pub fn get_agent_messages(&self, agent_id: &str) -> (r: Vec<AgentMessage>)
        ensures
            message_views(r@) == self.messages_view().filter(involves(agent_id@)),
    {
        let ghost mv = self.messages_view();
        let ghost p = involves(agent_id@);
        let mut out: Vec<AgentMessage> = Vec::new();
        let mut i: usize = 0;
        proof {
            reveal(Seq::filter);
            assert(mv.take(0).filter(p) =~= Seq::<MessageView>::empty());
            assert(message_views(out@) =~= Seq::<MessageView>::empty());
        }
        while i < self.messages.len()
            invariant
                i <= self.messages@.len(),
                mv == self.messages_view(),
                p == involves(agent_id@),
                message_views(out@) == mv.take(i as int).filter(p),
            decreases self.messages.len() - i,
        {
            let ghost before = message_views(out@);
            proof {
                assert(mv.take(i + 1) =~= mv.take(i as int).push(mv[i as int]));
                mv.take(i as int).lemma_filter_push(mv[i as int], p);
            }
            let m = &self.messages[i];
            if str_eq(m.from_agent.as_str(), agent_id) || str_eq(m.to_agent.as_str(), agent_id) {
                out.push(m.duplicate());
                assert(message_views(out@) =~= before.push(mv[i as int]));
            }
            i = i + 1;
        }
        assert(mv.take(mv.len() as int) =~= mv);
        out
    }

    fn count_agents(&self, status: &str) -> (n: usize)
        requires
            self.wf(),
        ensures
            n == restrict_where(self.agents_view(), |v: AgentView| v.status == status@).dom().len(),
    {
        let f = AgentsWithStatus { status };
        let v = self.agents.values_where(&f);
        assert(restrict_where(self.agents_view(), filter_pred::<AgentProfile, AgentsWithStatus>(&f))
            =~= restrict_where(self.agents_view(), |v: AgentView| v.status == status@));
        v.len()
    }

    fn count_tasks(&self, status: &str) -> (n: usize)
        requires
            self.wf(),
        ensures
            n == restrict_where(self.tasks_view(), |v: CollabTaskView| v.status == status@).dom().len(),
    {
        let f = TasksWithStatus { status };
        let v = self.tasks.values_where(&f);
        assert(restrict_where(self.tasks_view(), filter_pred::<CollaborationTask, TasksWithStatus>(&f))
            =~= restrict_where(self.tasks_view(), |v: CollabTaskView| v.status == status@));
        v.len()
    }

    /// Counts over agents, tasks and messages.
    pub fn get_stats(&self) -> (r: MultiAgentStats)
        requires
            self.wf(),
        ensures
            r.total_agents == self.agents_view().dom().len(),
            r.active_agents == restrict_where(self.agents_view(), |v: AgentView| v.status == "active"@).dom().len(),
            r.total_tasks == self.tasks_view().dom().len(),
            r.pending_tasks == restrict_where(self.tasks_view(), |v: CollabTaskView| v.status == "pending"@).dom().len(),
            r.in_progress_tasks == restrict_where(self.tasks_view(), |v: CollabTaskView| v.status == "in_progress"@).dom().len(),
            r.completed_tasks == restrict_where(self.tasks_view(), |v: CollabTaskView| v.status == "completed"@).dom().len(),
            r.total_messages == self.messages_view().len(),
            r.max_agents == self.max_agents(),
    {
        MultiAgentStats {
            total_agents: self.agents.len(),
            active_agents: self.count_agents("active"),
            total_tasks: self.tasks.len(),
            pending_tasks: self.count_tasks("pending"),
            in_progress_tasks: self.count_tasks("in_progress"),
            completed_tasks: self.count_tasks("completed"),
            total_messages: self.messages.len(),
            max_agents: self.config.max_agents,
        }
    }
}

/// The framework never holds more agents than its limit: registering at the limit is
/// refused and leaves the agents as they were.
pub proof fn law_agent_limit(before: Map<Seq<char>, AgentView>, max: usize, after: Map<Seq<char>, AgentView>, registered: bool)
    requires
        before.dom().finite(),
        before.dom().len() <= max,
        registered <==> before.dom().len() < max,
        !registered ==> after == before,
        registered ==> exists|k: Seq<char>, v: AgentView| after == #[trigger] before.insert(k, v),
    ensures
        after.dom().len() <= max,
{
    if registered {
        let (k, v) = choose|k: Seq<char>, v: AgentView| after == #[trigger] before.insert(k, v);
        if before.dom().contains(k) {
            assert(after.dom() =~= before.dom());
        } else {
            assert(after.dom() =~= before.dom().insert(k));
        }
    }
}

} // verus!
