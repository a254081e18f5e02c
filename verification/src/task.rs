//! Sub-agent tasks, how they end, and the events that report it.

use vstd::prelude::*;
use vstd::string::*;

use crate::text::{blank, clone_opt, decimal, is_blank, opt_text, push_decimal};

verus! {

/// How long a sub-agent may run in the background, in seconds.
pub const SPAWN_AGENTIC_TIMEOUT_SECS: u64 = 600;

/// Status of a spawned sub-agent task.
#[derive(Debug, Clone, Copy, PartialEq, Eq, Structural)]
pub enum SubagentStatus {
    Running,
    Completed,
    Failed,
    Canceled,
}

impl SubagentStatus {
    /// The status as a word.
    pub open spec fn word(self) -> Seq<char> {
        match self {
            SubagentStatus::Running => "running"@,
            SubagentStatus::Completed => "completed"@,
            SubagentStatus::Failed => "failed"@,
            SubagentStatus::Canceled => "canceled"@,
        }
    }

    /// The status as a word.
    pub fn as_str(&self) -> (word: &'static str)
        ensures
            word@ == self.word(),
    {
        match self {
            SubagentStatus::Running => "running",
            SubagentStatus::Completed => "completed",
            SubagentStatus::Failed => "failed",
            SubagentStatus::Canceled => "canceled",
        }
    }

    /// The status as a word, in a string of its own.
    pub fn to_string(&self) -> (word: String)
        ensures
            word@ == self.word(),
    {
        self.as_str().to_string()
    }
}

/// Context for delivering results back to the originating channel.
#[derive(Debug)]
pub struct SpawnReplyCtx {
    pub channel_name: String,
    pub reply_target: String,
    pub thread_ts: Option<String>,
}

/// What a [`SpawnReplyCtx`] says.
#[verifier::ext_equal]
pub struct ReplyCtxModel {
    pub channel_name: Seq<char>,
    pub reply_target: Seq<char>,
    pub thread_ts: Option<Seq<char>>,
}

impl View for SpawnReplyCtx {
    type V = ReplyCtxModel;

    open spec fn view(&self) -> ReplyCtxModel {
        ReplyCtxModel {
            channel_name: self.channel_name@,
            reply_target: self.reply_target@,
            thread_ts: opt_text(self.thread_ts),
        }
    }
}

impl Clone for SpawnReplyCtx {
    fn clone(&self) -> (copy: Self)
        ensures
            copy == *self,
    {
        SpawnReplyCtx {
            channel_name: self.channel_name.clone(),
            reply_target: self.reply_target.clone(),
            thread_ts: clone_opt(&self.thread_ts),
        }
    }
}

/// What an optional [`SpawnReplyCtx`] says.
pub open spec fn opt_ctx(ctx: Option<SpawnReplyCtx>) -> Option<ReplyCtxModel> {
    match ctx {
        Some(c) => Some(c@),
        None => None,
    }
}

/// A copy of an optional [`SpawnReplyCtx`].
pub fn clone_opt_ctx(ctx: &Option<SpawnReplyCtx>) -> (copy: Option<SpawnReplyCtx>)
    ensures
        copy == *ctx,
{
    match ctx {
        Some(c) => Some(c.clone()),
        None => None,
    }
}

/// A tracked background sub-agent task.
#[derive(Debug)]
pub struct SubagentTask {
    pub id: String,
    pub task: String,
    pub label: String,
    pub agent_name: String,
    pub status: SubagentStatus,
    pub result: String,
    /// Milliseconds from the Unix epoch to the spawn.
    pub created: i64,
}

/// What a [`SubagentTask`] says.
#[verifier::ext_equal]
pub struct TaskModel {
    pub id: Seq<char>,
    pub task: Seq<char>,
    pub label: Seq<char>,
    pub agent_name: Seq<char>,
    pub status: SubagentStatus,
    pub result: Seq<char>,
    pub created: i64,
}

impl View for SubagentTask {
    type V = TaskModel;

    open spec fn view(&self) -> TaskModel {
        TaskModel {
            id: self.id@,
            task: self.task@,
            label: self.label@,
            agent_name: self.agent_name@,
            status: self.status,
            result: self.result@,
            created: self.created,
        }
    }
}

impl Clone for SubagentTask {
    fn clone(&self) -> (copy: Self)
        ensures
            copy == *self,
    {
        SubagentTask {
            id: self.id.clone(),
            task: self.task.clone(),
            label: self.label.clone(),
            agent_name: self.agent_name.clone(),
            status: self.status,
            result: self.result.clone(),
            created: self.created,
        }
    }
}

/// What an optional [`SubagentTask`] says.
pub open spec fn opt_task(task: Option<SubagentTask>) -> Option<TaskModel> {
    match task {
        Some(t) => Some(t@),
        None => None,
    }
}

/// Event broadcast when a spawned sub-agent completes.
#[derive(Debug)]
pub struct SpawnCompletion {
    pub task_id: String,
    pub label: String,
    pub status: SubagentStatus,
    pub result: String,
    pub reply_channel: Option<String>,
    pub reply_target: Option<String>,
    pub thread_ts: Option<String>,
}

/// What a [`SpawnCompletion`] says.
#[verifier::ext_equal]
pub struct CompletionModel {
    pub task_id: Seq<char>,
    pub label: Seq<char>,
    pub status: SubagentStatus,
    pub result: Seq<char>,
    pub reply_channel: Option<Seq<char>>,
    pub reply_target: Option<Seq<char>>,
    pub thread_ts: Option<Seq<char>>,
}

impl View for SpawnCompletion {
    type V = CompletionModel;

    open spec fn view(&self) -> CompletionModel {
        CompletionModel {
            task_id: self.task_id@,
            label: self.label@,
            status: self.status,
            result: self.result@,
            reply_channel: opt_text(self.reply_channel),
            reply_target: opt_text(self.reply_target),
            thread_ts: opt_text(self.thread_ts),
        }
    }
}

impl Clone for SpawnCompletion {
    fn clone(&self) -> (copy: Self)
        ensures
            copy == *self,
    {
        SpawnCompletion {
            task_id: self.task_id.clone(),
            label: self.label.clone(),
            status: self.status,
            result: self.result.clone(),
            reply_channel: clone_opt(&self.reply_channel),
            reply_target: clone_opt(&self.reply_target),
            thread_ts: clone_opt(&self.thread_ts),
        }
    }
}

/// How a background run ended.
#[derive(Debug)]
pub enum RunOutcome {
    /// The sub-agent answered.
    Response(String),
    /// The run failed, with this message.
    Error(String),
    /// The run did not end in time.
    TimedOut,
}

/// What a [`RunOutcome`] says.
pub enum OutcomeModel {
    Response(Seq<char>),
    Error(Seq<char>),
    TimedOut,
}

impl View for RunOutcome {
    type V = OutcomeModel;

    open spec fn view(&self) -> OutcomeModel {
        match *self {
            RunOutcome::Response(text) => OutcomeModel::Response(text@),
            RunOutcome::Error(message) => OutcomeModel::Error(message@),
            RunOutcome::TimedOut => OutcomeModel::TimedOut,
        }
    }
}

impl OutcomeModel {
    /// The status that a task ends with.
    pub open spec fn status(self) -> SubagentStatus {
        match self {
            OutcomeModel::Response(_) => SubagentStatus::Completed,
            _ => SubagentStatus::Failed,
        }
    }

    /// The result that a task ends with.
    pub open spec fn result(self) -> Seq<char> {
        match self {
            OutcomeModel::Response(text) => if is_blank(text) {
                "[Empty response]"@
            } else {
                text
            },
            OutcomeModel::Error(message) => "Error: "@ + message,
            OutcomeModel::TimedOut => "Timed out after "@ + decimal(
                SPAWN_AGENTIC_TIMEOUT_SECS as nat,
            ) + "s"@,
        }
    }
}

impl TaskModel {
    /// The task after its run ended with `outcome`.
    pub open spec fn ended(self, outcome: OutcomeModel) -> TaskModel {
        TaskModel { status: outcome.status(), result: outcome.result(), ..self }
    }

    /// The event that reports the end of the task, addressed to `ctx`.
    pub open spec fn completion(self, ctx: Option<ReplyCtxModel>) -> CompletionModel {
        CompletionModel {
            task_id: self.id,
            label: self.label,
            status: self.status,
            result: self.result,
            reply_channel: match ctx {
                Some(c) => Some(c.channel_name),
                None => None,
            },
            reply_target: match ctx {
                Some(c) => Some(c.reply_target),
                None => None,
            },
            thread_ts: match ctx {
                Some(c) => c.thread_ts,
                None => None,
            },
        }
    }
}

/// The status and the result that a task ends with.
pub fn conclude(outcome: RunOutcome) -> (end: (SubagentStatus, String))
    ensures
        end.0 == outcome@.status(),
        end.1@ == outcome@.result(),
{
    match outcome {
        RunOutcome::Response(text) => {
            if blank(text.as_str()) {
                (SubagentStatus::Completed, "[Empty response]".to_string())
            } else {
                (SubagentStatus::Completed, text)
            }
        },
        RunOutcome::Error(message) => {
            let mut result = "Error: ".to_string();
            result.append(message.as_str());
            (SubagentStatus::Failed, result)
        },
        RunOutcome::TimedOut => {
            let mut result = "Timed out after ".to_string();
            push_decimal(&mut result, SPAWN_AGENTIC_TIMEOUT_SECS);
            result.append("s");
            (SubagentStatus::Failed, result)
        },
    }
}

/// The event that reports the end of `task`, addressed to `ctx`.
pub fn completion_of(task: &SubagentTask, ctx: Option<SpawnReplyCtx>) -> (event: SpawnCompletion)
    ensures
        event@ == task@.completion(opt_ctx(ctx)),
{
    let (reply_channel, reply_target, thread_ts) = match ctx {
        Some(c) => (Some(c.channel_name), Some(c.reply_target), c.thread_ts),
        None => (None, None, None),
    };
    SpawnCompletion {
        task_id: task.id.clone(),
        label: task.label.clone(),
        status: task.status,
        result: task.result.clone(),
        reply_channel,
        reply_target,
        thread_ts,
    }
}

} // verus!
