//! The `spawn_status` tool: reports on spawned sub-agents.

use serde_json::Value;
use std::time::SystemTime;
use vstd::prelude::*;
use vstd::string::*;
use vstd::utf8::*;

use crate::clock::{unix_secs, unix_secs_of};
use crate::json::{
    json_of, no_members, object_value, opt_str, put, text, text_at, text_member, Json,
};
use crate::laws::listing_is_in_order;
use crate::listing::is_listing;
use crate::manager::{task_models, ManagerModel, SubagentManager};
use crate::spawn::{parameter, parameter_members};
use crate::task::{SubagentStatus, SubagentTask, TaskModel};
use crate::text::{
    decimal, is_blank, push_decimal, push_signed_decimal, signed_decimal, trimmed,
};
use crate::tool::{refused, succeeded, ReplyModel, ToolResult};

verus! {

/// How much of a result the list of tasks shows, in bytes of UTF-8.
pub const PREVIEW_BYTES: usize = 200;

/// Whether a text can be cut after `max_len` bytes of its UTF-8 encoding, or need not be.
pub open spec fn can_truncate(s: Seq<char>, max_len: nat) -> bool {
    encode_utf8(s).len() <= max_len || is_char_boundary(encode_utf8(s), max_len as int)
}

/// The first `max_len` bytes of a text in UTF-8, or all of it.
pub open spec fn truncated(s: Seq<char>, max_len: nat) -> Seq<char> {
    if encode_utf8(s).len() <= max_len {
        s
    } else {
        decode_utf8(encode_utf8(s).take(max_len as int))
    }
}

/// Cuts a text after `max_len` bytes, where it is longer.
pub fn truncate_str(s: &str, max_len: usize) -> (cut: &str)
    requires
        can_truncate(s@, max_len as nat),
    ensures
        cut@ == truncated(s@, max_len as nat),
        encode_utf8(s@).len() > max_len ==> encode_utf8(cut@) == encode_utf8(s@).take(
            max_len as int,
        ),
{
    if s.as_bytes().len() <= max_len {
        s
    } else {
        let cut = s.split_at(max_len).0;
        proof {
            encode_utf8_decode_utf8(cut@);
        }
        cut
    }
}

/// Whether [`truncate_str`] can cut a text after `max_len` bytes.
pub fn truncatable(s: &str, max_len: usize) -> (can: bool)
    ensures
        can == can_truncate(s@, max_len as nat),
{
    s.as_bytes().len() <= max_len || s.is_char_boundary(max_len)
}

/// `a / b`, with the fraction cut off.
pub open spec fn quotient(a: int, b: int) -> int {
    if a >= 0 {
        a / b
    } else {
        -((-a) / b)
    }
}

/// The seconds from a time in milliseconds to a time in seconds, both since the Unix epoch. The
/// difference wraps around at the ends of the `i64` range.
pub open spec fn elapsed_secs(millis: i64, now_secs: i64) -> i64 {
    now_secs.wrapping_sub(quotient(millis as int, 1000) as i64)
}

/// How long ago something was that happened `elapsed` seconds ago.
pub open spec fn ago(elapsed: int) -> Seq<char> {
    if elapsed < 60 {
        signed_decimal(elapsed) + "s ago"@
    } else if elapsed < 3600 {
        signed_decimal(elapsed / 60) + "m ago"@
    } else {
        signed_decimal(elapsed / 3600) + "h ago"@
    }
}

/// How long before `now_secs`, in seconds since the Unix epoch, the time `millis` was, in
/// milliseconds since the Unix epoch.
pub fn format_timestamp_at(millis: i64, now_secs: i64) -> (formatted: String)
    ensures
        formatted@ == ago(elapsed_secs(millis, now_secs) as int),
{
    let secs: i64 = millis / 1000;
    let elapsed: i64 = now_secs.wrapping_sub(secs);
    let mut formatted = String::new();
    if elapsed < 60 {
        push_signed_decimal(&mut formatted, elapsed);
        formatted.append("s ago");
    } else if elapsed < 3600 {
        push_signed_decimal(&mut formatted, elapsed / 60);
        formatted.append("m ago");
    } else {
        push_signed_decimal(&mut formatted, elapsed / 3600);
        formatted.append("h ago");
    }
    assert(formatted@ =~= ago(elapsed_secs(millis, now_secs) as int));
    formatted
}

/// How long ago by the system clock the time `millis` was, in milliseconds since the Unix epoch.
pub fn format_timestamp(millis: i64) -> (formatted: String)
    ensures
        exists|now: SystemTime|
            formatted@ == ago(elapsed_secs(millis, #[trigger] unix_secs_of(now)) as int),
{
    let now_secs = unix_secs(SystemTime::now());
    format_timestamp_at(millis, now_secs)
}

/// The report on one task, where `age` says how long ago it was created.
pub open spec fn task_detail(task: TaskModel, age: Seq<char>) -> Seq<char> {
    "Task: "@ + task.id + "\nLabel: "@ + (if task.label.len() == 0 {
        "(none)"@
    } else {
        task.label
    }) + "\nAgent: "@ + task.agent_name + "\nStatus: "@ + task.status.word() + "\nCreated: "@ + age
        + "\n"@ + (if task.result.len() == 0 {
        Seq::empty()
    } else {
        "Result:\n"@ + task.result + "\n"@
    }) + "Original task: "@ + task.task
}

/// The report on one task at the time `now_secs`, in seconds since the Unix epoch.
pub fn format_task_detail_at(task: &SubagentTask, now_secs: i64) -> (report: String)
    ensures
        report@ == task_detail(task@, ago(elapsed_secs(task@.created, now_secs) as int)),
{
    let mut out = "Task: ".to_string();
    out.append(task.id.as_str());
    out.append("\nLabel: ");
    if task.label.as_str().is_empty() {
        out.append("(none)");
    } else {
        out.append(task.label.as_str());
    }
    out.append("\nAgent: ");
    out.append(task.agent_name.as_str());
    out.append("\nStatus: ");
    out.append(task.status.as_str());
    out.append("\nCreated: ");
    out.append(format_timestamp_at(task.created, now_secs).as_str());
    out.append("\n");
    let ghost head = out@;
    if !task.result.as_str().is_empty() {
        out.append("Result:\n");
        out.append(task.result.as_str());
        out.append("\n");
        assert(out@ =~= head + ("Result:\n"@ + task.result@ + "\n"@));
    } else {
        assert(out@ =~= head + Seq::empty());
    }
    out.append("Original task: ");
    out.append(task.task.as_str());
    out
}

/// The report on one task, by the system clock.
pub fn format_task_detail(task: &SubagentTask) -> (report: String)
    ensures
        exists|now: SystemTime|
            report@ == task_detail(
                task@,
                ago(elapsed_secs(task@.created, #[trigger] unix_secs_of(now)) as int),
            ),
{
    let now_secs = unix_secs(SystemTime::now());
    format_task_detail_at(task, now_secs)
}

/// How many of `list` have the status `status`.
pub open spec fn count_of(list: Seq<TaskModel>, status: SubagentStatus) -> nat
    decreases list.len(),
{
    if list.len() == 0 {
        0
    } else {
        count_of(list.drop_last(), status) + if list.last().status == status {
            1nat
        } else {
            0nat
        }
    }
}

/// The line of the list for one task.
pub open spec fn task_line(task: TaskModel) -> Seq<char> {
    "- "@ + task.id + (if task.label.len() == 0 {
        Seq::empty()
    } else {
        " ["@ + task.label + "]"@
    }) + " (agent: "@ + task.agent_name + ") — "@ + task.status.word() + (if task.result.len()
        == 0 {
        Seq::empty()
    } else {
        "\n    Result: "@ + truncated(task.result, PREVIEW_BYTES as nat)
    }) + "\n"@
}

/// The lines of the list, one task after the other.
pub open spec fn task_lines(list: Seq<TaskModel>) -> Seq<char>
    decreases list.len(),
{
    if list.len() == 0 {
        Seq::empty()
    } else {
        task_lines(list.drop_last()) + task_line(list.last())
    }
}

/// The heading of the list.
pub open spec fn list_heading(list: Seq<TaskModel>) -> Seq<char> {
    "Subagent Tasks Summary: "@ + decimal(list.len()) + " total ("@ + decimal(
        count_of(list, SubagentStatus::Running),
    ) + " running, "@ + decimal(count_of(list, SubagentStatus::Completed)) + " completed, "@
        + decimal(count_of(list, SubagentStatus::Failed)) + " failed, "@ + decimal(
        count_of(list, SubagentStatus::Canceled),
    ) + " canceled)\n\n"@
}

/// The report on a list of tasks.
pub open spec fn task_list(list: Seq<TaskModel>) -> Seq<char> {
    if list.len() == 0 {
        "No subagent tasks have been spawned."@
    } else {
        list_heading(list) + task_lines(list)
    }
}

/// Whether the result of each task can be cut for the list.
pub open spec fn can_preview(list: Seq<TaskModel>) -> bool {
    forall|i: int|
        0 <= i < list.len() ==> can_truncate(#[trigger] list[i].result, PREVIEW_BYTES as nat)
}

/// How many of `list` have the status `status`.
fn count(list: &Vec<SubagentTask>, status: SubagentStatus) -> (n: usize)
    ensures
        n == count_of(task_models(list@), status),
{
    let ghost models = task_models(list@);
    let mut n: usize = 0;
    let mut i: usize = 0;
    while i < list.len()
        invariant
            i <= list.len(),
            n <= i,
            models == task_models(list@),
            n == count_of(models.take(i as int), status),
        decreases list.len() - i,
    {
        if list[i].status == status {
            n = n + 1;
        }
        i = i + 1;
        proof {
            assert(models.take(i as int).drop_last() =~= models.take(i - 1));
            assert(models.take(i as int).last() == list@[i - 1]@);
        }
    }
    assert(models.take(list.len() as int) =~= models);
    n
}

/// Appends the line of the list for one task.
fn push_task_line(out: &mut String, task: &SubagentTask)
    requires
        can_truncate(task@.result, PREVIEW_BYTES as nat),
    ensures
        final(out)@ == old(out)@ + task_line(task@),
{
    let mut line = "- ".to_string();
    line.append(task.id.as_str());
    let ghost head = line@;
    if !task.label.as_str().is_empty() {
        line.append(" [");
        line.append(task.label.as_str());
        line.append("]");
        assert(line@ =~= head + (" ["@ + task.label@ + "]"@));
    } else {
        assert(line@ =~= head + Seq::empty());
    }
    line.append(" (agent: ");
    line.append(task.agent_name.as_str());
    line.append(") — ");
    line.append(task.status.as_str());
    let ghost middle = line@;
    if !task.result.as_str().is_empty() {
        line.append("\n    Result: ");
        line.append(truncate_str(task.result.as_str(), PREVIEW_BYTES));
        assert(line@ =~= middle + ("\n    Result: "@ + truncated(
            task.result@,
            PREVIEW_BYTES as nat,
        )));
    } else {
        assert(line@ =~= middle + Seq::empty());
    }
    line.append("\n");
    out.append(line.as_str());
}

/// The report on a list of tasks.
pub fn format_task_list(list: &Vec<SubagentTask>) -> (report: String)
    requires
        can_preview(task_models(list@)),
    ensures
        report@ == task_list(task_models(list@)),
{
    if list.is_empty() {
        return "No subagent tasks have been spawned.".to_string();
    }
    let ghost models = task_models(list@);
    let mut out = "Subagent Tasks Summary: ".to_string();
    push_decimal(&mut out, list.len() as u64);
    out.append(" total (");
    push_decimal(&mut out, count(list, SubagentStatus::Running) as u64);
    out.append(" running, ");
    push_decimal(&mut out, count(list, SubagentStatus::Completed) as u64);
    out.append(" completed, ");
    push_decimal(&mut out, count(list, SubagentStatus::Failed) as u64);
    out.append(" failed, ");
    push_decimal(&mut out, count(list, SubagentStatus::Canceled) as u64);
    out.append(" canceled)\n\n");
    assert(out@ == list_heading(models));
    let mut i: usize = 0;
    assert(out@ =~= list_heading(models) + task_lines(models.take(0)));
    while i < list.len()
        invariant
            i <= list.len(),
            models == task_models(list@),
            can_preview(models),
            out@ == list_heading(models) + task_lines(models.take(i as int)),
        decreases list.len() - i,
    {
        assert(models[i as int] == list@[i as int]@);
        push_task_line(&mut out, &list[i]);
        i = i + 1;
        proof {
            assert(models.take(i as int).drop_last() =~= models.take(i - 1));
            assert(models.take(i as int).last() == models[i - 1]);
            assert(out@ =~= list_heading(models) + task_lines(models.take(i as int)));
        }
    }
    assert(models.take(list.len() as int) =~= models);
    out
}

/// The task that a document asks for; `None` where it asks for all.
pub open spec fn requested_task(args: Json) -> Option<Seq<char>> {
    match text_member(args, "task_id"@) {
        Some(id) => if is_blank(id) {
            None
        } else {
            Some(trimmed(id))
        },
        None => None,
    }
}

/// The answer to a question about the task `id` of the registry `m`, at the time `now_secs`.
pub open spec fn detail_reply(m: ManagerModel, id: Seq<char>, now_secs: i64) -> ReplyModel {
    match m.task(id) {
        Some(task) => succeeded(
            task_detail(task, ago(elapsed_secs(task.created, now_secs) as int)),
        ),
        None => refused("Task '"@ + id + "' not found"@),
    }
}

/// The answer to a question about all tasks of the registry `m`.
pub open spec fn overview_reply(m: ManagerModel) -> ReplyModel {
    succeeded(task_list(m.listing()))
}

/// The answer to the question `args` about the registry `m`, at the time `now_secs`.
pub open spec fn status_reply(m: ManagerModel, args: Json, now_secs: i64) -> ReplyModel {
    match requested_task(args) {
        Some(id) => detail_reply(m, id, now_secs),
        None => overview_reply(m),
    }
}

/// Whether `reply` answers the question `args` about the registry `m`, at some reading of
/// the clock.
pub open spec fn is_status_reply(m: ManagerModel, args: Json, reply: ReplyModel) -> bool {
    exists|now: SystemTime| reply == status_reply(m, args, #[trigger] unix_secs_of(now))
}

/// Whether the results of all tasks can be cut for the list.
pub open spec fn all_previewable(m: ManagerModel) -> bool {
    forall|id: Seq<char>| #[trigger]
        m.tasks.contains_key(id) ==> can_truncate(m.tasks[id].result, PREVIEW_BYTES as nat)
}

/// The schema of the arguments of [`SpawnStatusTool`].
pub open spec fn status_schema() -> Json {
    Json::Object(
        Map::empty().insert("type"@, Json::Text("object"@)).insert(
            "properties"@,
            Json::Object(
                Map::empty().insert(
                    "task_id"@,
                    Json::Object(
                        parameter("string"@, "Optional task ID to get specific status"@),
                    ),
                ),
            ),
        ),
    )
}

/// Tool that queries the status of spawned sub-agent tasks.
pub struct SpawnStatusTool;

impl SpawnStatusTool {
    /// The tool.
    pub fn new() -> (tool: SpawnStatusTool)
        ensures
            tool == SpawnStatusTool,
    {
        SpawnStatusTool
    }

    /// The name of the tool.
    pub fn name(&self) -> (name: &'static str)
        ensures
            name@ == "spawn_status"@,
    {
        "spawn_status"
    }

    /// What the tool is for.
    pub fn description(&self) -> (description: &'static str)
        ensures
            description@
                == "Check status and results of spawned background subagents. Without arguments, lists all subagents. With task_id, shows detailed status for that specific task."@,
    {
        "Check status and results of spawned background subagents. Without arguments, lists all subagents. With task_id, shows detailed status for that specific task."
    }

    /// The schema of the tool's arguments.
    pub fn parameters_schema(&self) -> (schema: Value)
        ensures
            json_of(schema) == status_schema(),
    {
        let mut properties = no_members();
        put(
            &mut properties,
            "task_id",
            object_value(parameter_members("string", "Optional task ID to get specific status")),
        );
        let mut schema = no_members();
        put(&mut schema, "type", text("object"));
        put(&mut schema, "properties", object_value(properties));
        object_value(schema)
    }

    /// Reports on the task `task_id` at the time `now_secs`, in seconds since the Unix epoch.
    pub fn detail(&self, manager: &SubagentManager, task_id: &str, now_secs: i64) -> (reply:
        ToolResult)
        requires
            manager.wf(),
        ensures
            reply@ == detail_reply(manager@, task_id@, now_secs),
    {
        match manager.get_task(task_id) {
            Some(task) => ToolResult::succeeded(format_task_detail_at(&task, now_secs)),
            None => {
                let mut message = "Task '".to_string();
                message.append(task_id);
                message.append("' not found");
                ToolResult::refused(message)
            },
        }
    }

    /// Whether the results of all tasks can be cut for [`SpawnStatusTool::overview`].
    pub fn can_overview(&self, manager: &SubagentManager) -> (can: bool)
        requires
            manager.wf(),
        ensures
            can == all_previewable(manager@),
    {
        let list = manager.list_tasks();
        let ghost models = task_models(list@);
        let mut i: usize = 0;
        proof {
            manager.invariant_holds();
            listing_is_in_order(manager@);
        }
        while i < list.len()
            invariant
                i <= list.len(),
                models == task_models(list@),
                is_listing(models, manager@.tasks),
                forall|j: int|
                    0 <= j < i ==> can_truncate(
                        #[trigger] models[j].result,
                        PREVIEW_BYTES as nat,
                    ),
            decreases list.len() - i,
        {
            assert(models[i as int] == list@[i as int]@);
            if !truncatable(list[i].result.as_str(), PREVIEW_BYTES) {
                assert(manager@.tasks.contains_key(models[i as int].id));
                return false;
            }
            i = i + 1;
        }
        proof {
            assert forall|id: Seq<char>| #[trigger]
                manager@.tasks.contains_key(id) implies can_truncate(
                manager@.tasks[id].result,
                PREVIEW_BYTES as nat,
            ) by {
                let j = choose|j: int| 0 <= j < models.len() && models[j].id == id;
                assert(can_truncate(models[j].result, PREVIEW_BYTES as nat));
            }
        }
        true
    }

    /// Reports on all tasks.
    pub fn overview(&self, manager: &SubagentManager) -> (reply: ToolResult)
        requires
            manager.wf(),
            all_previewable(manager@),
        ensures
            reply@ == overview_reply(manager@),
    {
        let list = manager.list_tasks();
        proof {
            let models = task_models(list@);
            manager.invariant_holds();
            listing_is_in_order(manager@);
            assert forall|i: int| 0 <= i < models.len() implies can_truncate(
                #[trigger] models[i].result,
                PREVIEW_BYTES as nat,
            ) by {
                assert(manager@.tasks.contains_key(models[i].id));
            }
        }
        ToolResult::succeeded(format_task_list(&list))
    }

    /// The task that `args` asks for; `None` where it asks for all.
    pub fn requested<'a>(&self, args: &'a Value) -> (id: Option<&'a str>)
        ensures
            opt_str(id) == requested_task(json_of(*args)),
    {
        match text_at(args, "task_id") {
            Some(id) => {
                let id = id.trim();
                if id.is_empty() {
                    None
                } else {
                    Some(id)
                }
            },
            None => None,
        }
    }

    /// Reports on the task that `args` asks for, or on all tasks, at the time `now_secs`, in
    /// seconds since the Unix epoch.
    pub fn execute_at(&self, manager: &SubagentManager, args: &Value, now_secs: i64) -> (reply:
        ToolResult)
        requires
            manager.wf(),
            requested_task(json_of(*args)) is None ==> all_previewable(manager@),
        ensures
            reply@ == status_reply(manager@, json_of(*args), now_secs),
    {
        match self.requested(args) {
            Some(id) => self.detail(manager, id, now_secs),
            None => self.overview(manager),
        }
    }

    /// Reports on the task that `args` asks for, or on all tasks, by the system clock.
    pub fn execute(&self, manager: &SubagentManager, args: &Value) -> (reply: ToolResult)
        requires
            manager.wf(),
            requested_task(json_of(*args)) is None ==> all_previewable(manager@),
        ensures
            is_status_reply(manager@, json_of(*args), reply@),
    {
        let now_secs = unix_secs(SystemTime::now());
        self.execute_at(manager, args, now_secs)
    }

    /// Reports as [`SpawnStatusTool::execute`] does; `None` where `args` asks for all tasks and a
    /// result cannot be cut for the list.
    pub fn try_execute(&self, manager: &SubagentManager, args: &Value) -> (reply: Option<
        ToolResult,
    >)
        requires
            manager.wf(),
        ensures
            reply is None <==> requested_task(json_of(*args)) is None && !all_previewable(manager@),
            reply matches Some(r) ==> is_status_reply(manager@, json_of(*args), r@),
    {
        if self.requested(args).is_none() && !self.can_overview(manager) {
            None
        } else {
            Some(self.execute(manager, args))
        }
    }
}

} // verus!
