//! What holds of the end of a task: what is recorded and reported, and what a wait ends with.

use vstd::prelude::*;

use crate::laws::words::{all_white, blank_is_all_white};
use crate::manager::{ManagerModel, WAIT_POLL_INTERVAL_MS};
use crate::spawn::{wait_reply, WAIT_GRACE_SECS};
use crate::task::{
    CompletionModel, OutcomeModel, ReplyCtxModel, SubagentStatus, TaskModel,
    SPAWN_AGENTIC_TIMEOUT_SECS,
};
use crate::text::decimal;
use crate::tool::ReplyModel;

verus! {

/// A task that was answered has completed, and its result is the answer, word for word; an answer
/// of nothing but white space is called empty.
pub proof fn answer_is_the_result(m: ManagerModel, id: Seq<char>, answer: Seq<char>)
    requires
        m.tasks.contains_key(id),
    ensures
        ({
            let after = m.after_end(id, OutcomeModel::Response(answer));
            &&& after.tasks.contains_key(id)
            &&& after.tasks[id].status == SubagentStatus::Completed
            &&& !all_white(answer) ==> after.tasks[id].result == answer
            &&& all_white(answer) ==> after.tasks[id].result == "[Empty response]"@
        }),
{
    blank_is_all_white(answer);
}

/// A task whose run broke off has failed, and its result says why.
pub proof fn error_is_the_result(m: ManagerModel, id: Seq<char>, message: Seq<char>)
    requires
        m.tasks.contains_key(id),
    ensures
        ({
            let after = m.after_end(id, OutcomeModel::Error(message));
            &&& after.tasks.contains_key(id)
            &&& after.tasks[id].status == SubagentStatus::Failed
            &&& after.tasks[id].result == "Error: "@ + message
        }),
{
}

/// A task that did not end in time has failed, and its result says after how long.
pub proof fn timeout_is_the_result(m: ManagerModel, id: Seq<char>)
    requires
        m.tasks.contains_key(id),
    ensures
        ({
            let after = m.after_end(id, OutcomeModel::TimedOut);
            &&& after.tasks.contains_key(id)
            &&& after.tasks[id].status == SubagentStatus::Failed
            &&& after.tasks[id].result == "Timed out after "@ + decimal(600) + "s"@
        }),
{
}

/// How a run ended decides the status and the result alone, whatever the task.
pub proof fn outcomes(text: Seq<char>)
    ensures
        OutcomeModel::Response(text).status() == SubagentStatus::Completed,
        OutcomeModel::Error(text).status() == SubagentStatus::Failed,
        OutcomeModel::TimedOut.status() == SubagentStatus::Failed,
        !all_white(text) ==> OutcomeModel::Response(text).result() == text,
        all_white(text) ==> OutcomeModel::Response(text).result() == "[Empty response]"@,
        OutcomeModel::Error(text).result() == "Error: "@ + text,
        OutcomeModel::TimedOut.result() == "Timed out after "@ + decimal(600) + "s"@,
{
    blank_is_all_white(text);
}

/// The end of a task changes its status and its result; what it was asked, its label, its agent and
/// its time of creation stay, and so does everything else.
pub proof fn end_keeps_the_rest(
    m: ManagerModel,
    id: Seq<char>,
    outcome: OutcomeModel,
    other: Seq<char>,
)
    requires
        other != id,
    ensures
        ({
            let after = m.after_end(id, outcome);
            &&& after.tasks.contains_key(id) <==> m.tasks.contains_key(id)
            &&& m.tasks.contains_key(id) ==> {
                &&& after.tasks[id].id == m.tasks[id].id
                &&& after.tasks[id].task == m.tasks[id].task
                &&& after.tasks[id].label == m.tasks[id].label
                &&& after.tasks[id].agent_name == m.tasks[id].agent_name
                &&& after.tasks[id].created == m.tasks[id].created
            }
            &&& after.tasks.contains_key(other) <==> m.tasks.contains_key(other)
            &&& m.tasks.contains_key(other) ==> after.tasks[other] == m.tasks[other]
            &&& after == (ManagerModel { tasks: after.tasks, ..m })
        }),
{
}

/// The end of a task that is there is always reported: with its ID and label, with the status and
/// the result that it now has, and to where the result belongs.
pub proof fn end_is_reported(
    m: ManagerModel,
    id: Seq<char>,
    outcome: OutcomeModel,
    ctx: Option<ReplyCtxModel>,
)
    requires
        m.inv(),
        m.tasks.contains_key(id),
    ensures
        ({
            let task = m.after_end(id, outcome).tasks[id];
            m.end_event(id, outcome, ctx) == Some(
                CompletionModel {
                    task_id: id,
                    label: m.tasks[id].label,
                    status: task.status,
                    result: task.result,
                    reply_channel: if ctx is Some {
                        Some(ctx.unwrap().channel_name)
                    } else {
                        None
                    },
                    reply_target: if ctx is Some {
                        Some(ctx.unwrap().reply_target)
                    } else {
                        None
                    },
                    thread_ts: if ctx is Some {
                        ctx.unwrap().thread_ts
                    } else {
                        None
                    },
                },
            )
        }),
{
    assert(m.holds(id));
}

/// An event carries what its task says, and goes to the channel, the target and the thread of its
/// reply context.
pub proof fn event_carries_the_task(task: TaskModel, ctx: ReplyCtxModel)
    ensures
        task.completion(Some(ctx)) == (CompletionModel {
            task_id: task.id,
            label: task.label,
            status: task.status,
            result: task.result,
            reply_channel: Some(ctx.channel_name),
            reply_target: Some(ctx.reply_target),
            thread_ts: ctx.thread_ts,
        }),
        task.completion(None) == (CompletionModel {
            reply_channel: None,
            reply_target: None,
            thread_ts: None,
            ..task.completion(Some(ctx))
        }),
{
}

/// A task is looked up under its ID: what is there is found as it is, and nothing else is.
pub proof fn lookup_finds_what_is_there(m: ManagerModel, id: Seq<char>)
    ensures
        m.tasks.contains_key(id) ==> m.task(id) == Some(m.tasks[id]),
        !m.tasks.contains_key(id) ==> m.task(id) is None,
{
}

/// A wait goes on exactly as long as the task runs and there is time left; it ends with the task as
/// it is then.
pub proof fn wait_ends_with_the_task(m: ManagerModel, id: Seq<char>, deadline_passed: bool)
    ensures
        m.wait_result(id, deadline_passed) is None <==> m.tasks.contains_key(id)
            && m.tasks[id].status == SubagentStatus::Running && !deadline_passed,
        m.wait_result(id, deadline_passed) matches Some(Some(task)) ==> m.tasks.contains_key(id)
            && task == m.tasks[id],
        m.wait_result(id, deadline_passed) == Some(None::<TaskModel>)
            <==> !m.tasks.contains_key(id),
{
}

/// The reports give the status of a task in one word.
pub proof fn status_in_a_word()
    ensures
        SubagentStatus::Running.word() == "running"@,
        SubagentStatus::Completed.word() == "completed"@,
        SubagentStatus::Failed.word() == "failed"@,
        SubagentStatus::Canceled.word() == "canceled"@,
{
}

/// The answer after a wait gives the result of the task, word for word, whatever its status; only
/// a task without one is answered with its status. All but completed tasks are reported as errors.
pub proof fn answer_after_a_wait(id: Seq<char>, task: TaskModel)
    ensures
        ({
            let reply = wait_reply(id, Some(task));
            &&& task.result.len() > 0 ==> reply.output == task.result
            &&& task.result.len() == 0 ==> reply.output == "Subagent '"@ + id
                + "' finished with status: "@ + task.status.word()
            &&& reply.success <==> task.status == SubagentStatus::Completed
            &&& task.status == SubagentStatus::Completed ==> reply.error is None
            &&& task.status != SubagentStatus::Completed ==> reply.error == Some(
                "Subagent status: "@ + task.status.word(),
            )
        }),
        wait_reply(id, None) == (ReplyModel {
            success: false,
            output: Seq::empty(),
            error: Some("Task '"@ + id + "' disappeared during wait"@),
        }),
{
}

/// A caller waits ten seconds longer than the ten minutes that a sub-agent may run, and looks twice
/// a second.
pub proof fn callers_outwait_their_tasks()
    ensures
        SPAWN_AGENTIC_TIMEOUT_SECS == 10 * 60,
        WAIT_GRACE_SECS == 10,
        2 * WAIT_POLL_INTERVAL_MS == 1000,
{
}

} // verus!
