//! What holds of the models: they say what the values hold, field by field.

use std::time::SystemTime;
use vstd::prelude::*;

use crate::agent::{ChatMessage, DelegateAgentConfig};
use crate::clock::{instant_nanos, unix_millis_of, unix_secs_of};
use crate::json::{flag_member, opt_str, text_member, Json};
use crate::manager::{task_models, SpawnJob, WaitStep};
use crate::spawn::SpawnRequest;
use crate::task::{
    opt_ctx, opt_task, OutcomeModel, RunOutcome, SpawnCompletion, SpawnReplyCtx, SubagentTask,
    TaskModel,
};
use crate::text::{opt_text, texts};
use crate::tool::ToolResult;

verus! {

/// Whether an optional text says what an optional string holds.
pub open spec fn says(model: Option<Seq<char>>, value: Option<String>) -> bool {
    match value {
        Some(text) => model == Some(text@),
        None => model is None,
    }
}

/// The model of a task says each of its fields.
pub proof fn task_field_by_field(task: SubagentTask)
    ensures
        task@.id == task.id@,
        task@.task == task.task@,
        task@.label == task.label@,
        task@.agent_name == task.agent_name@,
        task@.status == task.status,
        task@.result == task.result@,
        task@.created == task.created,
{
}

/// The model of a job says each of its fields.
pub proof fn job_field_by_field(job: SpawnJob)
    ensures
        job@.task_id == job.task_id@,
        job@.display == job.display@,
        job@.agent_name == job.agent_name@,
        job@.agent == job.agent@,
        says(job@.credential, job.credential),
        job@.tools == job.tools@,
        job@.task == job.task@,
        job@.reply_ctx == opt_ctx(job.reply_ctx),
{
}

/// The model of a configuration says each of its fields, and every entry of its allowlist.
pub proof fn agent_field_by_field(agent: DelegateAgentConfig, i: int)
    ensures
        agent@.provider == agent.provider@,
        agent@.model == agent.model@,
        says(agent@.system_prompt, agent.system_prompt),
        says(agent@.api_key, agent.api_key),
        agent@.max_depth == agent.max_depth,
        agent@.agentic == agent.agentic,
        agent@.max_iterations == agent.max_iterations,
        agent@.allowed_tools.len() == agent.allowed_tools@.len(),
        0 <= i < agent.allowed_tools@.len() ==> agent@.allowed_tools[i]
            == agent.allowed_tools@[i]@,
{
}

/// The model of an event says each of its fields.
pub proof fn event_field_by_field(event: SpawnCompletion)
    ensures
        event@.task_id == event.task_id@,
        event@.label == event.label@,
        event@.status == event.status,
        event@.result == event.result@,
        says(event@.reply_channel, event.reply_channel),
        says(event@.reply_target, event.reply_target),
        says(event@.thread_ts, event.thread_ts),
{
}

/// The model of a reply context says each of its fields.
pub proof fn context_field_by_field(ctx: SpawnReplyCtx)
    ensures
        ctx@.channel_name == ctx.channel_name@,
        ctx@.reply_target == ctx.reply_target@,
        says(ctx@.thread_ts, ctx.thread_ts),
        opt_ctx(Some(ctx)) == Some(ctx@),
        opt_ctx(None) is None,
{
}

/// The models of the other values say each of their fields.
pub proof fn other_models_field_by_field(
    reply: ToolResult,
    request: SpawnRequest,
    message: ChatMessage,
    text: String,
)
    ensures
        reply@.success == reply.success,
        reply@.output == reply.output@,
        says(reply@.error, reply.error),
        request@.task == request.task@,
        request@.label == request.label@,
        request@.agent == request.agent@,
        request@.wait == request.wait,
        message@.role == message.role,
        message@.content == message.content@,
        RunOutcome::Response(text)@ == OutcomeModel::Response(text@),
        RunOutcome::Error(text)@ == OutcomeModel::Error(text@),
        RunOutcome::TimedOut@ == OutcomeModel::TimedOut,
{
}

/// The model of a collection or of an optional value says what is in it.
pub proof fn collections_item_by_item(
    strings: Seq<String>,
    tasks: Seq<SubagentTask>,
    task: SubagentTask,
    text: Option<String>,
    slice: &str,
    i: int,
)
    ensures
        texts(strings).len() == strings.len(),
        0 <= i < strings.len() ==> texts(strings)[i] == strings[i]@,
        task_models(tasks).len() == tasks.len(),
        0 <= i < tasks.len() ==> task_models(tasks)[i] == tasks[i]@,
        says(opt_text(text), text),
        opt_str(Some(slice)) == Some(slice@),
        opt_str(None) is None,
        opt_task(Some(task)) == Some(task@),
        opt_task(None) is None,
        WaitStep::Done(Some(task)).result() == Some(Some(task@)),
        WaitStep::Done(None).result() == Some(None::<TaskModel>),
        WaitStep::Sleep.result() is None,
{
}

/// What stands under a name in an object is read as the text or truth value that it is; anything
/// else, and anything in what is no object, is not there.
pub proof fn members_are_read_as_they_are(
    members: Map<Seq<char>, Json>,
    name: Seq<char>,
    document: Json,
)
    ensures
        text_member(Json::Object(members), name) is Some <==> members.contains_key(name)
            && members[name] is Text,
        text_member(Json::Object(members), name) matches Some(text) ==> members[name]
            == Json::Text(text),
        flag_member(Json::Object(members), name) is Some <==> members.contains_key(name)
            && members[name] is Bool,
        flag_member(Json::Object(members), name) matches Some(flag) ==> members[name]
            == Json::Bool(flag),
        !(document is Object) ==> text_member(document, name) is None && flag_member(
            document,
            name,
        ) is None,
{
}

/// A clock reading is counted in whole milliseconds and whole seconds since the epoch, which agree;
/// readings before the epoch count as the epoch.
pub proof fn clock_readings(t: SystemTime)
    requires
        instant_nanos(t) / 1_000_000 <= i64::MAX,
    ensures
        instant_nanos(t) >= 0 ==> unix_millis_of(t) * 1_000_000 <= instant_nanos(t) < (
        unix_millis_of(t) + 1) * 1_000_000,
        instant_nanos(t) < 0 ==> unix_millis_of(t) == 0,
        unix_secs_of(t) * 1000 <= unix_millis_of(t) < (unix_secs_of(t) + 1) * 1000,
{
}

} // verus!
