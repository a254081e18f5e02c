//! The registry of spawned sub-agents: admitting tasks, recording how they end, forgetting them.

use std::sync::Arc;
use std::time::SystemTime;
use vstd::prelude::*;
use vstd::string::*;

use crate::agent::{AgentModel, DelegateAgentConfig};
use crate::clock::{unix_millis, unix_millis_of};
use crate::laws::next_id_is_fresh;
use crate::listing::{
    by_creation, by_creation_is_stable, one_more_by_creation, remaining, remaining_of_one_more,
};
use crate::table::NameTable;
use crate::task::{
    clone_opt_ctx, completion_of, conclude, opt_ctx, opt_task, CompletionModel, OutcomeModel,
    ReplyCtxModel, RunOutcome, SpawnCompletion, SpawnReplyCtx, SubagentStatus, SubagentTask,
    TaskModel,
};
use crate::text::{
    blank, clone_opt, decimal, decimal_is_injective, is_blank, join, joined, opt_text,
    push_decimal, texts, trimmed,
};

verus! {

/// Ended tasks are forgotten once they are older than this, in milliseconds.
pub const GC_COMPLETED_TASK_AGE_MS: i64 = 600_000;

/// Completion events that a slow subscriber may fall behind by.
pub const COMPLETION_CHANNEL_CAPACITY: usize = 64;

/// Pause between two looks at a task that is waited for, in milliseconds.
pub const WAIT_POLL_INTERVAL_MS: u64 = 500;

/// The agent that takes a task for which none was named.
pub const DEFAULT_AGENT: &'static str = "worker";

/// The ID of the task with number `n`.
pub open spec fn task_id(n: nat) -> Seq<char> {
    "subagent-"@ + decimal(n)
}

impl TaskModel {
    /// Whether the task outlives a clean-up at the time `now_ms`. Its age wraps around at the ends
    /// of the `i64` range.
    pub open spec fn survives(self, now_ms: i64) -> bool {
        self.status == SubagentStatus::Running || now_ms.wrapping_sub(self.created)
            <= GC_COMPLETED_TASK_AGE_MS
    }
}

/// The tasks that outlive a clean-up at the time `now_ms`.
pub open spec fn survivors(tasks: Map<Seq<char>, TaskModel>, now_ms: i64) -> Map<
    Seq<char>,
    TaskModel,
> {
    tasks.restrict(
        Set::new(|id: Seq<char>| tasks.contains_key(id) && tasks[id].survives(now_ms)),
    )
}

/// What a [`SubagentManager`] holds.
#[verifier::ext_equal]
pub struct ManagerModel {
    /// The tasks, by ID.
    pub tasks: Map<Seq<char>, TaskModel>,
    /// The IDs of the tasks, in the order in which they came in.
    pub order: Seq<Seq<char>>,
    /// The number that the next task gets.
    pub next_id: u32,
    /// The agents, by name.
    pub agents: Map<Seq<char>, AgentModel>,
    /// The names of the agents, in the order of their configuration.
    pub agent_names: Seq<Seq<char>>,
    pub fallback_credential: Option<Seq<char>>,
    pub reply_ctx: Option<ReplyCtxModel>,
}

/// What a background run needs to know.
pub struct SpawnJob {
    pub task_id: String,
    /// What the caller is told about the spawn.
    pub display: String,
    /// The agent that runs the task.
    pub agent_name: String,
    /// The configuration of that agent.
    pub agent: DelegateAgentConfig,
    /// The credential for the agent's provider.
    pub credential: Option<String>,
    /// The positions of the parent's tools that the agent gets.
    pub tools: Vec<usize>,
    pub task: String,
    /// Where the result goes.
    pub reply_ctx: Option<SpawnReplyCtx>,
}

/// What a [`SpawnJob`] says.
#[verifier::ext_equal]
pub struct JobModel {
    pub task_id: Seq<char>,
    pub display: Seq<char>,
    pub agent_name: Seq<char>,
    pub agent: AgentModel,
    pub credential: Option<Seq<char>>,
    pub tools: Seq<usize>,
    pub task: Seq<char>,
    pub reply_ctx: Option<ReplyCtxModel>,
}

impl View for SpawnJob {
    type V = JobModel;

    open spec fn view(&self) -> JobModel {
        JobModel {
            task_id: self.task_id@,
            display: self.display@,
            agent_name: self.agent_name@,
            agent: self.agent@,
            credential: opt_text(self.credential),
            tools: self.tools@,
            task: self.task@,
            reply_ctx: opt_ctx(self.reply_ctx),
        }
    }
}

/// What the caller is told about a spawn.
pub open spec fn spawn_display(id: Seq<char>, label: Seq<char>, agent: Seq<char>) -> Seq<char> {
    if label.len() == 0 {
        "Spawned background subagent '"@ + id + "' (agent: "@ + agent
            + "). Use spawn_status tool to check progress."@
    } else {
        "Spawned background subagent '"@ + id + "' label=\""@ + label + "\" (agent: "@ + agent
            + "). Use spawn_status tool to check progress."@
    }
}

/// The refusal of a task for an agent that is not configured.
pub open spec fn unknown_agent(name: Seq<char>, available: Seq<Seq<char>>) -> Seq<char> {
    "Unknown agent '"@ + name + "'. Available: "@ + if available.len() == 0 {
        "(none)"@
    } else {
        joined(available, ", "@)
    }
}

/// The refusal of a task whose agent's provider could not be created.
pub open spec fn provider_failure(provider: Seq<char>, reason: Seq<char>) -> Seq<char> {
    "Failed to create provider '"@ + provider + "': "@ + reason
}

impl ManagerModel {
    /// The agent that takes a task for `agent_name`; `None` where there are no agents to choose
    /// from.
    pub open spec fn resolve(self, agent_name: Seq<char>) -> Option<Seq<char>> {
        if !is_blank(agent_name) {
            Some(trimmed(agent_name))
        } else if self.agent_names.len() == 0 {
            None
        } else if self.agents.contains_key(DEFAULT_AGENT@) {
            Some(DEFAULT_AGENT@)
        } else {
            Some(self.agent_names[0])
        }
    }

    /// Why a task is refused before anything is started; `None` where it is admitted.
    pub open spec fn refusal(self, task: Seq<char>, agent_name: Seq<char>) -> Option<Seq<char>> {
        if is_blank(task) {
            Some("task is required and must be a non-empty string"@)
        } else {
            match self.resolve(agent_name) {
                None => Some("No delegate agents configured for spawn"@),
                Some(name) => if self.agents.contains_key(name) {
                    None
                } else {
                    Some(unknown_agent(name, self.agent_names))
                },
            }
        }
    }

    /// The registry after a clean-up at the time `now_ms`.
    pub open spec fn cleaned(self, now_ms: i64) -> ManagerModel {
        let tasks = survivors(self.tasks, now_ms);
        ManagerModel { tasks, order: remaining(self.order, tasks), ..self }
    }

    /// The registry while a message from `ctx` is being processed.
    pub open spec fn addressed(self, ctx: Option<ReplyCtxModel>) -> ManagerModel {
        ManagerModel { reply_ctx: ctx, ..self }
    }

    /// The ID that the next admitted task gets.
    pub open spec fn next_task_id(self) -> Seq<char> {
        task_id(self.next_id as nat)
    }

    /// The entry for an admitted task.
    pub open spec fn new_task(
        self,
        task: Seq<char>,
        label: Seq<char>,
        agent_name: Seq<char>,
        created_ms: i64,
    ) -> TaskModel {
        TaskModel {
            id: self.next_task_id(),
            task,
            label,
            agent_name: self.resolve(agent_name).unwrap(),
            status: SubagentStatus::Running,
            result: Seq::empty(),
            created: created_ms,
        }
    }

    /// The registry after a request to spawn `task`, cleaned up at `gc_ms`.
    pub open spec fn after_spawn(
        self,
        task: Seq<char>,
        label: Seq<char>,
        agent_name: Seq<char>,
        gc_ms: i64,
        created_ms: i64,
    ) -> ManagerModel {
        if is_blank(task) {
            self
        } else if self.refusal(task, agent_name) is Some {
            self.cleaned(gc_ms)
        } else {
            ManagerModel {
                tasks: survivors(self.tasks, gc_ms).insert(
                    self.next_task_id(),
                    self.new_task(task, label, agent_name, created_ms),
                ),
                order: remaining(self.order, survivors(self.tasks, gc_ms)).push(
                    self.next_task_id(),
                ),
                next_id: (self.next_id + 1) as u32,
                ..self
            }
        }
    }

    /// What is to be run for an admitted task, where the parent has the tools `tools`.
    pub open spec fn job(
        self,
        task: Seq<char>,
        label: Seq<char>,
        agent_name: Seq<char>,
        tools: Seq<Seq<char>>,
    ) -> JobModel {
        let name = self.resolve(agent_name).unwrap();
        let agent = self.agents[name];
        JobModel {
            task_id: self.next_task_id(),
            display: spawn_display(self.next_task_id(), label, name),
            agent_name: name,
            agent,
            credential: match agent.api_key {
                Some(key) => Some(key),
                None => self.fallback_credential,
            },
            tools: agent.granted(tools),
            task,
            reply_ctx: self.reply_ctx,
        }
    }

    /// The registry without the task `id`.
    pub open spec fn without(self, id: Seq<char>) -> ManagerModel {
        ManagerModel { tasks: self.tasks.remove(id), order: self.order.remove_value(id), ..self }
    }

    /// The registry after the run of the task `id` ended.
    pub open spec fn after_end(self, id: Seq<char>, outcome: OutcomeModel) -> ManagerModel {
        if self.tasks.contains_key(id) {
            ManagerModel { tasks: self.tasks.insert(id, self.tasks[id].ended(outcome)), ..self }
        } else {
            self
        }
    }

    /// The event that reports the end of the task `id`; `None` where the task is gone.
    pub open spec fn end_event(
        self,
        id: Seq<char>,
        outcome: OutcomeModel,
        ctx: Option<ReplyCtxModel>,
    ) -> Option<CompletionModel> {
        if self.tasks.contains_key(id) {
            Some(self.tasks[id].ended(outcome).completion(ctx))
        } else {
            None
        }
    }

    /// The task `id`.
    pub open spec fn task(self, id: Seq<char>) -> Option<TaskModel> {
        self.tasks.get(id)
    }

    /// The tasks, in the order in which they came in.
    pub open spec fn entries(self) -> Seq<TaskModel> {
        self.order.map_values(|id: Seq<char>| self.tasks[id])
    }

    /// The tasks, in the order in which they are listed.
    pub open spec fn listing(self) -> Seq<TaskModel> {
        by_creation(self.entries())
    }

    /// What a wait for the task `id` ends with; `None` where it goes on.
    pub open spec fn wait_result(self, id: Seq<char>, deadline_passed: bool) -> Option<
        Option<TaskModel>,
    > {
        match self.task(id) {
            None => Some(None),
            Some(task) => if task.status != SubagentStatus::Running || deadline_passed {
                Some(Some(task))
            } else {
                None
            },
        }
    }

    /// Whether a task may stand under `id`: it knows its ID, which is one that was given out, and
    /// it has a result exactly when it has ended.
    pub open spec fn holds(self, id: Seq<char>) -> bool {
        let task = self.tasks[id];
        &&& task.id == id
        &&& exists|n: nat| n < self.next_id && id == #[trigger] task_id(n)
        &&& task.status == SubagentStatus::Running <==> task.result.len() == 0
    }

    /// The invariant of the registry.
    pub open spec fn inv(self) -> bool {
        &&& forall|id: Seq<char>| #[trigger] self.tasks.contains_key(id) ==> self.holds(id)
        &&& self.order.no_duplicates()
        &&& self.order.to_set() == self.tasks.dom()
        &&& self.agent_names.no_duplicates()
        &&& self.agent_names.to_set() == self.agents.dom()
    }
}

/// What a list of tasks says.
pub open spec fn task_models(list: Seq<SubagentTask>) -> Seq<TaskModel> {
    list.map_values(|t: SubagentTask| t@)
}

/// What to do next while a task is waited for.
pub enum WaitStep {
    /// The wait is over: the task as it is now, or `None` where it is gone.
    Done(Option<SubagentTask>),
    /// Look again after [`WAIT_POLL_INTERVAL_MS`].
    Sleep,
}

impl WaitStep {
    /// What the wait ended with; `None` where it goes on.
    pub open spec fn result(self) -> Option<Option<TaskModel>> {
        match self {
            WaitStep::Done(task) => Some(opt_task(task)),
            WaitStep::Sleep => None,
        }
    }
}

/// Whether a wait that may take `timeout_nanos` is over after `elapsed_nanos`, in nanoseconds.
pub fn deadline_passed(elapsed_nanos: u128, timeout_nanos: u128) -> (passed: bool)
    ensures
        passed == (elapsed_nanos >= timeout_nanos),
{
    elapsed_nanos >= timeout_nanos
}

/// Manages spawned sub-agent tasks.
pub struct SubagentManager {
    tasks: NameTable<SubagentTask>,
    next_id: u32,
    agents: Arc<NameTable<DelegateAgentConfig>>,
    fallback_credential: Option<String>,
    current_reply_ctx: Option<SpawnReplyCtx>,
}

impl View for SubagentManager {
    type V = ManagerModel;

    closed spec fn view(&self) -> ManagerModel {
        ManagerModel {
            tasks: self.tasks@.map_values(|t: SubagentTask| t@),
            order: self.tasks.names(),
            next_id: self.next_id,
            agents: self.agents@.map_values(|a: DelegateAgentConfig| a@),
            agent_names: self.agents.names(),
            fallback_credential: opt_text(self.fallback_credential),
            reply_ctx: opt_ctx(self.current_reply_ctx),
        }
    }
}

impl SubagentManager {
    /// The registry is well formed.
    pub closed spec fn wf(&self) -> bool {
        &&& self.tasks.wf()
        &&& self.agents.wf()
        &&& self@.inv()
    }

    /// What a well-formed registry holds keeps its invariant.
    pub proof fn invariant_holds(&self)
        requires
            self.wf(),
        ensures
            self@.inv(),
    {
    }

    /// A registry without tasks.
    pub fn new(
        agents: Arc<NameTable<DelegateAgentConfig>>,
        fallback_credential: Option<String>,
    ) -> (manager: Self)
        requires
            agents.wf(),
        ensures
            manager.wf(),
            manager@ == (ManagerModel {
                tasks: Map::empty(),
                order: Seq::empty(),
                next_id: 1,
                agents: agents@.map_values(|a: DelegateAgentConfig| a@),
                agent_names: agents.names(),
                fallback_credential: opt_text(fallback_credential),
                reply_ctx: None,
            }),
    {
        let manager = SubagentManager {
            tasks: NameTable::new(),
            next_id: 1,
            agents,
            fallback_credential,
            current_reply_ctx: None,
        };
        proof {
            manager.agents.names_are_the_keys();
            manager.tasks.names_are_the_keys();
            assert(manager@.tasks =~= Map::empty());
            assert(manager@.agents.dom() =~= manager.agents@.dom());
        }
        manager
    }

    /// The agents that tasks can be given to.
    pub(crate) fn agents(&self) -> (agents: Arc<NameTable<DelegateAgentConfig>>)
        ensures
            agents.names() == self@.agent_names,
    {
        self.agents.clone()
    }

    /// Whether there is a number left for another task.
    pub fn has_free_id(&self) -> (free: bool)
        ensures
            free == (self@.next_id < u32::MAX),
    {
        self.next_id < u32::MAX
    }

    /// Sets the reply context for the current message being processed.
    pub fn set_reply_context(&mut self, ctx: Option<SpawnReplyCtx>)
        requires
            old(self).wf(),
        ensures
            final(self).wf(),
            final(self)@ == old(self)@.addressed(opt_ctx(ctx)),
    {
        self.current_reply_ctx = ctx;
        assert(forall|id: Seq<char>| old(self)@.holds(id) ==> self@.holds(id));
    }

    /// A snapshot of the current reply context.
    pub fn capture_reply_context(&self) -> (ctx: Option<SpawnReplyCtx>)
        ensures
            opt_ctx(ctx) == self@.reply_ctx,
    {
        clone_opt_ctx(&self.current_reply_ctx)
    }

    /// A snapshot of a task by ID.
    pub fn get_task(&self, task_id: &str) -> (task: Option<SubagentTask>)
        requires
            self.wf(),
        ensures
            opt_task(task) == self@.task(task_id@),
    {
        match self.tasks.get(task_id) {
            Some(task) => Some(task.clone()),
            None => None,
        }
    }

    /// Removes completed, failed and canceled tasks that at the time `now_ms` are older than
    /// [`GC_COMPLETED_TASK_AGE_MS`].
    pub fn gc_completed_tasks_at(&mut self, now_ms: i64)
        requires
            old(self).wf(),
        ensures
            final(self).wf(),
            final(self)@ == old(self)@.cleaned(now_ms),
    {
        let ghost order = self@.order;
        let ghost kept = survivors(self@.tasks, now_ms);
        let ghost mut k: int = 0;
        let mut i: usize = 0;
        proof {
            reveal(Seq::filter);
            self.tasks.names_are_the_keys();
            assert(remaining(order.take(0), kept) + order.skip(0) =~= order);
        }
        while i < self.tasks.len()
            invariant
                i <= self.tasks.names().len(),
                self.tasks.wf(),
                order == old(self)@.order,
                kept == survivors(old(self)@.tasks, now_ms),
                0 <= k <= order.len(),
                i == remaining(order.take(k), kept).len(),
                self.tasks.names() == remaining(order.take(k), kept) + order.skip(k),
                self.next_id == old(self).next_id,
                self.agents == old(self).agents,
                self.fallback_credential == old(self).fallback_credential,
                self.current_reply_ctx == old(self).current_reply_ctx,
                forall|id: Seq<char>| #[trigger]
                    self.tasks@.contains_key(id) ==> old(self).tasks@.contains_key(id)
                        && self.tasks@[id] == old(self).tasks@[id],
                forall|id: Seq<char>| #[trigger]
                    old(self).tasks@.contains_key(id) && !self.tasks@.contains_key(id)
                        ==> !old(self).tasks@[id]@.survives(now_ms),
                forall|j: int|
                    0 <= j < i ==> self.tasks@[#[trigger] self.tasks.names()[j]]@.survives(now_ms),
            decreases self.tasks.names().len() - i,
        {
            let task = self.tasks.value_at(i);
            proof {
                assert(self.tasks.names()[i as int] == order[k]);
                assert(kept.contains_key(order[k]) == task@.survives(now_ms));
                assert(order.take(k + 1) =~= order.take(k).push(order[k]));
                remaining_of_one_more(order.take(k), order[k], kept);
                let front = remaining(order.take(k), kept);
                assert(front + order.skip(k) =~= front.push(order[k]) + order.skip(k + 1));
                assert((front + order.skip(k)).remove(i as int) =~= front + order.skip(k + 1));
                k = k + 1;
            }
            if task.status == SubagentStatus::Running || now_ms.wrapping_sub(task.created)
                <= GC_COMPLETED_TASK_AGE_MS {
                i = i + 1;
            } else {
                self.tasks.remove_at(i);
            }
        }
        proof {
            self.tasks.names_are_the_keys();
            assert forall|id: Seq<char>| #[trigger]
                self.tasks@.contains_key(id) implies self.tasks@[id]@.survives(now_ms) by {
                let j = self.tasks.names().index_of(id);
                assert(self.tasks.names()[j] == id);
            }
            assert(self@.tasks =~= kept);
            assert(order.take(k) =~= order);
            assert(remaining(order, kept) + order.skip(k) =~= remaining(order, kept));
            assert(self@.tasks.dom() =~= self.tasks@.dom());
            assert forall|id: Seq<char>| #[trigger]
                self@.tasks.contains_key(id) implies self@.holds(id) by {
                assert(old(self)@.tasks.contains_key(id));
            }
        }
    }

    /// Removes completed, failed and canceled tasks that are older than
    /// [`GC_COMPLETED_TASK_AGE_MS`] by the system clock.
    pub fn gc_completed_tasks(&mut self)
        requires
            old(self).wf(),
        ensures
            final(self).wf(),
            exists|now: SystemTime|
                final(self)@ == old(self)@.cleaned(#[trigger] unix_millis_of(now)),
    {
        self.gc_completed_tasks_at(unix_millis(SystemTime::now()));
    }

    /// The agent that takes a task for `agent_name`.
    fn resolve_agent(&self, agent_name: &str) -> (name: Option<String>)
        requires
            self.wf(),
        ensures
            opt_text(name) == self@.resolve(agent_name@),
    {
        let named = agent_name.trim();
        if !named.is_empty() {
            return Some(named.to_string());
        }
        if self.agents.len() == 0 {
            None
        } else if self.agents.contains(DEFAULT_AGENT) {
            Some(DEFAULT_AGENT.to_string())
        } else {
            Some(self.agents.name_at(0).clone())
        }
    }

    /// The refusal of a task for the agent `name`, which is not configured.
    fn unknown_agent_message(&self, name: &str) -> (message: String)
        ensures
            message@ == unknown_agent(name@, self@.agent_names),
    {
        let available = self.agents.name_list();
        let mut message = "Unknown agent '".to_string();
        message.append(name);
        message.append("'. Available: ");
        if available.is_empty() {
            message.append("(none)");
        } else {
            message.append(join(&available, ", ").as_str());
        }
        message
    }

    /// Why a task would be refused; `None` where it would be admitted.
    pub fn refusal(&self, task: &str, agent_name: &str) -> (refusal: Option<String>)
        requires
            self.wf(),
        ensures
            opt_text(refusal) == self@.refusal(task@, agent_name@),
    {
        if blank(task) {
            return Some("task is required and must be a non-empty string".to_string());
        }
        match self.resolve_agent(agent_name) {
            Some(name) => {
                if self.agents.contains(name.as_str()) {
                    None
                } else {
                    Some(self.unknown_agent_message(name.as_str()))
                }
            },
            None => Some("No delegate agents configured for spawn".to_string()),
        }
    }

    /// Admits a task, at the time `created_ms`, after a clean-up at the time `gc_ms`.
    ///
    /// `tools` are the names of the parent's tools. On success the task is registered as running;
    /// the job says what is to be run for it.
    pub fn spawn_at(
        &mut self,
        task: String,
        label: String,
        agent_name: String,
        tools: &Vec<String>,
        gc_ms: i64,
        created_ms: i64,
    ) -> (job: Result<SpawnJob, String>)
        requires
            old(self).wf(),
            old(self)@.refusal(task@, agent_name@) is None ==> old(self)@.next_id < u32::MAX,
        ensures
            final(self).wf(),
            final(self)@ == old(self)@.after_spawn(
                task@,
                label@,
                agent_name@,
                gc_ms,
                created_ms,
            ),
            job is Err <==> old(self)@.refusal(task@, agent_name@) is Some,
            job matches Err(refusal) ==> old(self)@.refusal(task@, agent_name@) == Some(refusal@),
            job matches Ok(j) ==> j@ == old(self)@.job(
                task@,
                label@,
                agent_name@,
                texts(tools@),
            ),
            job is Ok ==> !old(self)@.tasks.contains_key(old(self)@.next_task_id()),
    {
        if let Some(refusal) = self.refusal(task.as_str(), agent_name.as_str()) {
            if !blank(task.as_str()) {
                self.gc_completed_tasks_at(gc_ms);
            }
            return Err(refusal);
        }
        self.gc_completed_tasks_at(gc_ms);
        let name = self.resolve_agent(agent_name.as_str()).unwrap();
        let agent = self.agents.get(name.as_str()).unwrap().clone();
        let ghost cleaned = self@;
        let mut id = "subagent-".to_string();
        push_decimal(&mut id, self.next_id as u64);
        self.next_id = self.next_id + 1;
        let entry = SubagentTask {
            id: id.clone(),
            task: task.clone(),
            label: label.clone(),
            agent_name: name.clone(),
            status: SubagentStatus::Running,
            result: String::new(),
            created: created_ms,
        };
        self.tasks.insert(id.clone(), entry);
        let tools = agent.granted_tools(tools);
        let credential = match &agent.api_key {
            Some(key) => Some(key.clone()),
            None => clone_opt(&self.fallback_credential),
        };
        let reply_ctx = self.capture_reply_context();
        let mut display = "Spawned background subagent '".to_string();
        display.append(id.as_str());
        if label.as_str().is_empty() {
            display.append("' (agent: ");
        } else {
            display.append("' label=\"");
            display.append(label.as_str());
            display.append("\" (agent: ");
        }
        display.append(name.as_str());
        display.append("). Use spawn_status tool to check progress.");
        proof {
            assert(id@ == task_id(old(self)@.next_id as nat));
            assert(self@.tasks =~= cleaned.tasks.insert(id@, entry@));
            assert(entry@ =~= old(self)@.new_task(task@, label@, agent_name@, created_ms));
            assert forall|k: Seq<char>| #[trigger]
                self@.tasks.contains_key(k) implies self@.holds(k) by {
                if k != id@ {
                    assert(cleaned.tasks.contains_key(k));
                    assert(cleaned.holds(k));
                }
            }
            next_id_is_fresh(old(self)@);
            assert(!cleaned.tasks.contains_key(id@));
            assert(self@.order == cleaned.order.push(id@));
            self.tasks.names_are_the_keys();
            assert(self@.tasks.dom() =~= self.tasks@.dom());
        }
        Ok(
            SpawnJob {
                task_id: id,
                display,
                agent_name: name,
                agent,
                credential,
                tools,
                task,
                reply_ctx,
            },
        )
    }

    /// Admits a task, by the system clock.
    ///
    /// `tools` are the names of the parent's tools. On success the task is registered as running;
    /// the job says what is to be run for it.
    pub fn spawn(
        &mut self,
        task: String,
        label: String,
        agent_name: String,
        tools: &Vec<String>,
    ) -> (job: Result<SpawnJob, String>)
        requires
            old(self).wf(),
            old(self)@.refusal(task@, agent_name@) is None ==> old(self)@.next_id < u32::MAX,
        ensures
            final(self).wf(),
            exists|gc: SystemTime, created: SystemTime|
                final(self)@ == old(self)@.after_spawn(
                    task@,
                    label@,
                    agent_name@,
                    #[trigger] unix_millis_of(gc),
                    #[trigger] unix_millis_of(created),
                ),
            job is Err <==> old(self)@.refusal(task@, agent_name@) is Some,
            job matches Err(refusal) ==> old(self)@.refusal(task@, agent_name@) == Some(refusal@),
            job matches Ok(j) ==> j@ == old(self)@.job(
                task@,
                label@,
                agent_name@,
                texts(tools@),
            ),
    {
        let gc_ms = unix_millis(SystemTime::now());
        let created_ms = unix_millis(SystemTime::now());
        self.spawn_at(task, label, agent_name, tools, gc_ms, created_ms)
    }

    /// Takes back a task whose agent's provider could not be created, and says so.
    pub fn abandon_spawn(&mut self, job: &SpawnJob, reason: &str) -> (refusal: String)
        requires
            old(self).wf(),
        ensures
            final(self).wf(),
            final(self)@ == old(self)@.without(job@.task_id),
            refusal@ == provider_failure(job@.agent.provider, reason@),
    {
        self.tasks.remove(job.task_id.as_str());
        proof {
            self.tasks.names_are_the_keys();
            assert(self@.tasks.dom() =~= self.tasks@.dom());
            assert(self@.tasks =~= old(self)@.tasks.remove(job@.task_id));
            assert forall|id: Seq<char>| #[trigger]
                self@.tasks.contains_key(id) implies self@.holds(id) by {
                assert(old(self)@.tasks.contains_key(id));
            }
        }
        let mut refusal = "Failed to create provider '".to_string();
        refusal.append(job.agent.provider.as_str());
        refusal.append("': ");
        refusal.append(reason);
        refusal
    }

    /// Records how the run of a task ended. Returns the event to broadcast, addressed to
    /// `reply_ctx`; `None` where the task is gone.
    pub fn finish_task(
        &mut self,
        task_id: &str,
        outcome: RunOutcome,
        reply_ctx: Option<SpawnReplyCtx>,
    ) -> (event: Option<SpawnCompletion>)
        requires
            old(self).wf(),
        ensures
            final(self).wf(),
            final(self)@ == old(self)@.after_end(task_id@, outcome@),
            event is Some <==> old(self)@.tasks.contains_key(task_id@),
            event matches Some(e) ==> old(self)@.end_event(task_id@, outcome@, opt_ctx(reply_ctx))
                == Some(e@),
    {
        let mut task = match self.get_task(task_id) {
            Some(task) => task,
            None => {
                return None;
            },
        };
        let ghost before = task@;
        let (status, result) = conclude(outcome);
        task.status = status;
        task.result = result;
        let event = completion_of(&task, reply_ctx);
        proof {
            assert(old(self)@.holds(task_id@));
            ended_has_a_result(outcome@);
            assert(task@ =~= before.ended(outcome@));
        }
        self.tasks.insert(task.id.clone(), task);
        proof {
            self.tasks.names_are_the_keys();
            assert(self@.tasks.dom() =~= self.tasks@.dom());
            assert(self@.tasks =~= old(self)@.tasks.insert(task_id@, before.ended(outcome@)));
            assert forall|id: Seq<char>| #[trigger]
                self@.tasks.contains_key(id) implies self@.holds(id) by {
                assert(old(self)@.holds(id));
            }
        }
        Some(event)
    }

    /// What to do next while the task `task_id` is waited for.
    pub fn wait_for_task(&self, task_id: &str, deadline_passed: bool) -> (step: WaitStep)
        requires
            self.wf(),
        ensures
            step.result() == self@.wait_result(task_id@, deadline_passed),
    {
        match self.get_task(task_id) {
            Some(task) => {
                if task.status != SubagentStatus::Running || deadline_passed {
                    WaitStep::Done(Some(task))
                } else {
                    WaitStep::Sleep
                }
            },
            None => WaitStep::Done(None),
        }
    }

    /// Snapshots of all tasks, in the order of their creation; those that were created at the same
    /// time in the order in which they came in.
    pub fn list_tasks(&self) -> (list: Vec<SubagentTask>)
        requires
            self.wf(),
        ensures
            task_models(list@) == self@.listing(),
    {
        let mut list: Vec<SubagentTask> = Vec::new();
        let ghost entries = self@.entries();
        let mut k: usize = 0;
        assert(task_models(list@) =~= by_creation(entries.take(0)));
        while k < self.tasks.len()
            invariant
                self.wf(),
                entries == self@.entries(),
                k <= self.tasks.names().len(),
                task_models(list@) == by_creation(entries.take(k as int)),
            decreases self.tasks.names().len() - k,
        {
            let task = self.tasks.value_at(k).clone();
            let ghost models = task_models(list@);
            proof {
                by_creation_is_stable(entries.take(k as int));
                assert(entries[k as int] == task@);
            }
            let mut at: usize = list.len();
            while at > 0 && list[at - 1].created > task.created
                invariant
                    at <= list@.len(),
                    models == task_models(list@),
                    forall|i: int|
                        at <= i < models.len() ==> (#[trigger] models[i]).created > task@.created,
                decreases at,
            {
                at = at - 1;
                assert(models[at as int] == list@[at as int]@);
            }
            proof {
                if at > 0 {
                    assert(models[at - 1] == list@[at - 1]@);
                }
                assert forall|i: int| 0 <= i < at implies (#[trigger] models[i]).created
                    <= task@.created by {
                    assert(models[i].created <= models[at - 1].created);
                }
                one_more_by_creation(entries.take(k as int), task@, at as int);
            }
            list.insert(at, task);
            k = k + 1;
            proof {
                assert(task_models(list@) =~= models.insert(at as int, task@));
                assert(entries.take(k as int) =~= entries.take(k - 1).push(task@));
            }
        }
        assert(entries.take(k as int) =~= entries);
        list
    }
}

/// Two tasks with the same ID have the same number.
pub proof fn task_id_is_injective(a: nat, b: nat)
    requires
        task_id(a) == task_id(b),
    ensures
        a == b,
{
    let prefix = "subagent-"@;
    assert(task_id(a).skip(prefix.len() as int) =~= decimal(a));
    assert(task_id(b).skip(prefix.len() as int) =~= decimal(b));
    decimal_is_injective(a, b);
}

/// A run that ended leaves a result behind.
pub proof fn ended_has_a_result(outcome: OutcomeModel)
    ensures
        outcome.result().len() > 0,
        outcome.status() != SubagentStatus::Running,
{
    reveal_strlit("[Empty response]");
    reveal_strlit("Error: ");
    reveal_strlit("Timed out after ");
    if let OutcomeModel::Response(text) = outcome {
        if text.len() == 0 {
            assert(trimmed(text).len() == 0);
        }
    }
}

} // verus!
