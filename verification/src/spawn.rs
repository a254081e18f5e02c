//! The `spawn` tool: hands a task to a sub-agent in the background.

use serde_json::Value;
use std::sync::Arc;
use std::time::SystemTime;
use vstd::prelude::*;
use vstd::string::*;

use crate::agent::DelegateAgentConfig;
use crate::clock::unix_millis_of;
use crate::json::{
    flag_at, flag_member, json_of, list_value, members_of, no_members, number_value, object_value,
    opt_str, put, text, text_at, text_member, Json,
};
use crate::manager::{provider_failure, ManagerModel, SpawnJob, SubagentManager};
use crate::table::NameTable;
use crate::task::{
    opt_task, SubagentStatus, SubagentTask, TaskModel, SPAWN_AGENTIC_TIMEOUT_SECS,
};
use crate::text::{join, joined, texts, trimmed};
use crate::tool::{refused, succeeded, ReplyModel, ToolResult};

verus! {

/// How much longer than the sub-agent itself a caller waits for it, in seconds.
pub const WAIT_GRACE_SECS: u64 = 10;

/// A request to spawn a sub-agent.
#[derive(Debug)]
pub struct SpawnRequest {
    pub task: String,
    pub label: String,
    pub agent: String,
    pub wait: bool,
}

/// What a [`SpawnRequest`] says.
#[verifier::ext_equal]
pub struct RequestModel {
    pub task: Seq<char>,
    pub label: Seq<char>,
    pub agent: Seq<char>,
    pub wait: bool,
}

impl View for SpawnRequest {
    type V = RequestModel;

    open spec fn view(&self) -> RequestModel {
        RequestModel {
            task: self.task@,
            label: self.label@,
            agent: self.agent@,
            wait: self.wait,
        }
    }
}

/// An argument without the white space around it; empty where it is missing.
pub open spec fn argument(given: Option<Seq<char>>) -> Seq<char> {
    match given {
        Some(text) => trimmed(text),
        None => Seq::empty(),
    }
}

/// The request that the given arguments make.
pub open spec fn request(
    task: Option<Seq<char>>,
    label: Option<Seq<char>>,
    agent: Option<Seq<char>>,
    wait: Option<bool>,
) -> RequestModel {
    RequestModel {
        task: argument(task),
        label: argument(label),
        agent: argument(agent),
        wait: match wait {
            Some(w) => w,
            None => true,
        },
    }
}

/// The request that a document makes.
pub open spec fn request_of(args: Json) -> RequestModel {
    request(
        text_member(args, "task"@),
        text_member(args, "label"@),
        text_member(args, "agent"@),
        flag_member(args, "wait"@),
    )
}

fn trimmed_argument(given: Option<&str>) -> (value: String)
    ensures
        value@ == argument(opt_str(given)),
{
    match given {
        Some(text) => text.trim().to_string(),
        None => String::new(),
    }
}

impl SpawnRequest {
    /// The request that the given arguments make.
    pub fn new(
        task: Option<&str>,
        label: Option<&str>,
        agent: Option<&str>,
        wait: Option<bool>,
    ) -> (made: SpawnRequest)
        ensures
            made@ == request(opt_str(task), opt_str(label), opt_str(agent), wait),
    {
        SpawnRequest {
            task: trimmed_argument(task),
            label: trimmed_argument(label),
            agent: trimmed_argument(agent),
            wait: wait.unwrap_or(true),
        }
    }

    /// The request that a JSON value makes.
    pub fn from_args(args: &Value) -> (made: SpawnRequest)
        ensures
            made@ == request_of(json_of(*args)),
    {
        SpawnRequest::new(
            text_at(args, "task"),
            text_at(args, "label"),
            text_at(args, "agent"),
            flag_at(args, "wait"),
        )
    }
}

/// What is to be done about a request.
pub enum SpawnStep {
    /// Answer.
    Reply(ToolResult),
    /// Create the provider for the job, then go on with [`SpawnTool::launched`].
    Launch { job: SpawnJob, wait: bool },
}

/// What is to be done once the provider for a job was tried.
pub enum LaunchStep {
    /// Answer.
    Reply(ToolResult),
    /// Wait for the task, then answer with [`SpawnTool::waited`].
    Wait,
}

/// The answer after waiting for the task `id`, which was then `found`.
pub open spec fn wait_reply(id: Seq<char>, found: Option<TaskModel>) -> ReplyModel {
    match found {
        Some(task) => ReplyModel {
            success: task.status == SubagentStatus::Completed,
            output: if task.result.len() == 0 {
                "Subagent '"@ + id + "' finished with status: "@ + task.status.word()
            } else {
                task.result
            },
            error: if task.status == SubagentStatus::Completed {
                None
            } else {
                Some("Subagent status: "@ + task.status.word())
            },
        },
        None => refused("Task '"@ + id + "' disappeared during wait"@),
    }
}

/// The schema of a parameter: its type and what it is for.
pub open spec fn parameter(kind: Seq<char>, description: Seq<char>) -> Map<Seq<char>, Json> {
    Map::empty().insert("type"@, Json::Text(kind)).insert("description"@, Json::Text(description))
}

/// What the schema says about the agents to choose from.
pub open spec fn agent_choice(agents: Seq<Seq<char>>) -> Seq<char> {
    "Agent to use. Available: "@ + if agents.len() == 0 {
        "(uses default)"@
    } else {
        joined(agents, ", "@)
    }
}

/// The parameters of the tool, where the agents are `agents`.
pub open spec fn spawn_parameters(agents: Seq<Seq<char>>) -> Map<Seq<char>, Json> {
    Map::empty().insert(
        "task"@,
        Json::Object(
            parameter("string"@, "The task for the subagent to complete"@).insert(
                "minLength"@,
                Json::Number(1),
            ),
        ),
    ).insert(
        "label"@,
        Json::Object(parameter("string"@, "Optional short label for display"@)),
    ).insert("agent"@, Json::Object(parameter("string"@, agent_choice(agents)))).insert(
        "wait"@,
        Json::Object(
            parameter(
                "boolean"@,
                "Wait for completion and return result inline (default: true). Set false for fire-and-forget."@,
            ),
        ),
    )
}

/// The schema of the tool's arguments, where the agents are `agents`.
pub open spec fn spawn_schema(agents: Seq<Seq<char>>) -> Json {
    Json::Object(
        Map::empty().insert("type"@, Json::Text("object"@)).insert(
            "properties"@,
            Json::Object(spawn_parameters(agents)),
        ).insert("required"@, Json::List(seq![Json::Text("task"@)])),
    )
}

/// The members of a parameter's schema.
pub(crate) fn parameter_members(
    kind: &str,
    description: &str,
) -> (m: serde_json::Map<String, Value>)
    ensures
        members_of(m) == parameter(kind@, description@),
{
    let mut m = no_members();
    put(&mut m, "type", text(kind));
    put(&mut m, "description", text(description));
    m
}

/// Tool that spawns a sub-agent to handle a task in the background.
pub struct SpawnTool {
    agents: Arc<NameTable<DelegateAgentConfig>>,
}

impl SpawnTool {
    /// The names of the agents to choose from.
    pub closed spec fn agent_names(&self) -> Seq<Seq<char>> {
        self.agents.names()
    }

    /// The tool for the agents of `manager`.
    pub fn new(manager: &SubagentManager) -> (tool: SpawnTool)
        ensures
            tool.agent_names() == manager@.agent_names,
    {
        SpawnTool { agents: manager.agents() }
    }

    /// The name of the tool.
    pub fn name(&self) -> (name: &'static str)
        ensures
            name@ == "spawn"@,
    {
        "spawn"
    }

    /// What the tool is for.
    pub fn description(&self) -> (description: &'static str)
        ensures
            description@
                == "Spawn a subagent or tasks to handle a task in the background. Use this for complex or time-consuming tasks that can run independently. The subagent will complete the task asynchronously. Use spawn_status tool to check progress and retrieve results."@,
    {
        "Spawn a subagent or tasks to handle a task in the background. Use this for complex or time-consuming tasks that can run independently. The subagent will complete the task asynchronously. Use spawn_status tool to check progress and retrieve results."
    }

    /// The schema of the tool's arguments.
    pub fn parameters_schema(&self) -> (schema: Value)
        ensures
            json_of(schema) == spawn_schema(self.agent_names()),
    {
        let names = self.agents.name_list();
        let mut choice = "Agent to use. Available: ".to_string();
        if names.is_empty() {
            choice.append("(uses default)");
        } else {
            choice.append(join(&names, ", ").as_str());
        }
        let mut task = parameter_members("string", "The task for the subagent to complete");
        put(&mut task, "minLength", number_value(1));
        let label = parameter_members("string", "Optional short label for display");
        let agent = parameter_members("string", choice.as_str());
        let wait = parameter_members(
            "boolean",
            "Wait for completion and return result inline (default: true). Set false for fire-and-forget.",
        );
        let mut properties = no_members();
        put(&mut properties, "task", object_value(task));
        put(&mut properties, "label", object_value(label));
        put(&mut properties, "agent", object_value(agent));
        put(&mut properties, "wait", object_value(wait));
        let mut required: Vec<Value> = Vec::new();
        required.push(text("task"));
        proof {
            assert(required@.map_values(|item: Value| json_of(item)) =~= seq![
                Json::Text("task"@),
            ]);
        }
        let mut schema = no_members();
        put(&mut schema, "type", text("object"));
        put(&mut schema, "properties", object_value(properties));
        put(&mut schema, "required", list_value(required));
        object_value(schema)
    }

    /// Takes a request: refuses it, or registers the task and says what to launch.
    ///
    /// `tools` are the names of the parent's tools.
    pub fn execute(
        &self,
        manager: &mut SubagentManager,
        args: &Value,
        tools: &Vec<String>,
    ) -> (step: SpawnStep)
        requires
            old(manager).wf(),
            old(manager)@.refusal(
                request_of(json_of(*args)).task,
                request_of(json_of(*args)).agent,
            ) is None ==> old(manager)@.next_id < u32::MAX,
        ensures
            final(manager).wf(),
            spawn_step(
                old(manager)@,
                final(manager)@,
                request_of(json_of(*args)),
                texts(tools@),
                step,
            ),
    {
        self.execute_request(manager, SpawnRequest::from_args(args), tools)
    }

    /// Takes a request as [`SpawnTool::execute`] does, unless it would be admitted and there is no
    /// number left for its task: then nothing is done, and the answer is `None`.
    pub fn try_execute(
        &self,
        manager: &mut SubagentManager,
        args: &Value,
        tools: &Vec<String>,
    ) -> (step: Option<SpawnStep>)
        requires
            old(manager).wf(),
        ensures
            final(manager).wf(),
            step is None <==> old(manager)@.next_id == u32::MAX && old(manager)@.refusal(
                request_of(json_of(*args)).task,
                request_of(json_of(*args)).agent,
            ) is None,
            step is None ==> final(manager)@ == old(manager)@,
            step matches Some(s) ==> spawn_step(
                old(manager)@,
                final(manager)@,
                request_of(json_of(*args)),
                texts(tools@),
                s,
            ),
    {
        let request = SpawnRequest::from_args(args);
        if !manager.has_free_id() && manager.refusal(
            request.task.as_str(),
            request.agent.as_str(),
        ).is_none() {
            None
        } else {
            Some(self.execute_request(manager, request, tools))
        }
    }

    /// Takes a request: refuses it, or registers the task and says what to launch.
    ///
    /// `tools` are the names of the parent's tools.
    pub fn execute_request(
        &self,
        manager: &mut SubagentManager,
        request: SpawnRequest,
        tools: &Vec<String>,
    ) -> (step: SpawnStep)
        requires
            old(manager).wf(),
            old(manager)@.refusal(request@.task, request@.agent) is None ==> old(manager)@.next_id
                < u32::MAX,
        ensures
            final(manager).wf(),
            spawn_step(old(manager)@, final(manager)@, request@, texts(tools@), step),
    {
        let wait = request.wait;
        match manager.spawn(request.task, request.label, request.agent, tools) {
            Ok(job) => SpawnStep::Launch { job, wait },
            Err(refusal) => SpawnStep::Reply(ToolResult::refused(refusal)),
        }
    }

    /// Goes on once the provider for `job` was tried: `failure` says why it could not be created.
    pub fn launched(
        &self,
        manager: &mut SubagentManager,
        job: &SpawnJob,
        wait: bool,
        failure: Option<String>,
    ) -> (step: LaunchStep)
        requires
            old(manager).wf(),
        ensures
            final(manager).wf(),
            final(manager)@ == match failure {
                Some(_) => old(manager)@.without(job@.task_id),
                None => old(manager)@,
            },
            match failure {
                Some(reason) => step matches LaunchStep::Reply(reply) && reply@ == refused(
                    provider_failure(job@.agent.provider, reason@),
                ),
                None => if wait {
                    step == LaunchStep::Wait
                } else {
                    step matches LaunchStep::Reply(reply) && reply@ == succeeded(job@.display)
                },
            },
    {
        match failure {
            Some(reason) => {
                let refusal = manager.abandon_spawn(job, reason.as_str());
                LaunchStep::Reply(ToolResult::refused(refusal))
            },
            None => {
                if wait {
                    LaunchStep::Wait
                } else {
                    LaunchStep::Reply(ToolResult::succeeded(job.display.clone()))
                }
            },
        }
    }

    /// How long to wait for a task, in seconds.
    pub fn wait_timeout_secs(&self) -> (secs: u64)
        ensures
            secs == SPAWN_AGENTIC_TIMEOUT_SECS + WAIT_GRACE_SECS,
    {
        SPAWN_AGENTIC_TIMEOUT_SECS + WAIT_GRACE_SECS
    }

    /// Answers after waiting for the task `task_id`, which was then `found`.
    pub fn waited(&self, task_id: &str, found: Option<SubagentTask>) -> (reply: ToolResult)
        ensures
            reply@ == wait_reply(task_id@, opt_task(found)),
    {
        match found {
            Some(task) => {
                let success = task.status == SubagentStatus::Completed;
                let error = if success {
                    None
                } else {
                    let mut message = "Subagent status: ".to_string();
                    message.append(task.status.as_str());
                    Some(message)
                };
                let output = if task.result.as_str().is_empty() {
                    let mut message = "Subagent '".to_string();
                    message.append(task_id);
                    message.append("' finished with status: ");
                    message.append(task.status.as_str());
                    message
                } else {
                    task.result
                };
                ToolResult { success, output, error }
            },
            None => {
                let mut message = "Task '".to_string();
                message.append(task_id);
                message.append("' disappeared during wait");
                ToolResult::refused(message)
            },
        }
    }
}

/// Whether `step` and the registry `after` are what comes of `request` in the registry `before`,
/// at some readings of the clock, where the parent has the tools `tools`.
pub open spec fn spawn_step(
    before: ManagerModel,
    after: ManagerModel,
    request: RequestModel,
    tools: Seq<Seq<char>>,
    step: SpawnStep,
) -> bool {
    &&& exists|gc: SystemTime, created: SystemTime|
        after == before.after_spawn(
            request.task,
            request.label,
            request.agent,
            #[trigger] unix_millis_of(gc),
            #[trigger] unix_millis_of(created),
        )
    &&& match before.refusal(request.task, request.agent) {
        Some(refusal) => step matches SpawnStep::Reply(reply) && reply@ == refused(refusal),
        None => step matches SpawnStep::Launch { job, wait } && wait == request.wait && job@
            == before.job(request.task, request.label, request.agent, tools),
    }
}

} // verus!
