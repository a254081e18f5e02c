//! What holds of reports: on one task, on all tasks, and on how long ago something was.

use std::time::SystemTime;
use vstd::prelude::*;
use vstd::utf8::*;

use crate::clock::unix_secs_of;
use crate::json::{json_member, Json};
use crate::laws::{listing_is_in_order, listing_of_no_tasks_is_empty};
use crate::laws::spawning::describes;
use crate::laws::words::{all_white, blank_is_all_white, sign_of_a_number};
use crate::listing::{by_creation_keeps_the_tasks, created_at};
use crate::manager::ManagerModel;
use crate::spawn_status::{
    ago, all_previewable, can_truncate, count_of, detail_reply, elapsed_secs, is_status_reply,
    list_heading, overview_reply, requested_task, status_reply, status_schema, task_detail,
    task_line, task_lines, task_list, truncated,
};
use crate::task::{SubagentStatus, TaskModel};
use crate::text::{decimal, trimmed};
use crate::tool::ReplyModel;

verus! {

/// Whether `text` ends with `end`.
pub open spec fn ends_with(text: Seq<char>, end: Seq<char>) -> bool {
    end.len() <= text.len() && text.skip(text.len() - end.len()) == end
}

proof fn lemma_ends(before: Seq<char>, end: Seq<char>)
    ensures
        ends_with(before + end, end),
{
    assert((before + end).skip((before + end).len() - end.len()) =~= end);
}

/// A report on one task shows its result in full wherever there is one, whatever the status, and
/// ends with what was asked.
pub proof fn report_has_the_result(task: TaskModel, age: Seq<char>)
    ensures
        task.result.len() > 0 ==> ends_with(
            task_detail(task, age),
            "Result:\n"@ + task.result + "\nOriginal task: "@ + task.task,
        ),
        ends_with(task_detail(task, age), "Original task: "@ + task.task),
{
    reveal_strlit("\nOriginal task: ");
    reveal_strlit("Original task: ");
    reveal_strlit("\n");
    assert("\nOriginal task: "@ =~= "\n"@ + "Original task: "@);
    let head = "Task: "@ + task.id + "\nLabel: "@ + (if task.label.len() == 0 {
        "(none)"@
    } else {
        task.label
    }) + "\nAgent: "@ + task.agent_name + "\nStatus: "@ + task.status.word() + "\nCreated: "@ + age
        + "\n"@;
    if task.result.len() > 0 {
        let end = "Result:\n"@ + task.result + "\nOriginal task: "@ + task.task;
        assert(task_detail(task, age) =~= head + end);
        lemma_ends(head, end);
        let short = "Original task: "@ + task.task;
        assert(task_detail(task, age) =~= (head + ("Result:\n"@ + task.result + "\n"@)) + short);
        lemma_ends(head + ("Result:\n"@ + task.result + "\n"@), short);
    } else {
        let short = "Original task: "@ + task.task;
        assert(task_detail(task, age) =~= head + short);
        lemma_ends(head, short);
    }
}

/// A report on one task begins with its ID, its label where it has one, its agent, its status and
/// its age; between them and what was asked stands the result and nothing else.
pub proof fn report_has_every_part(task: TaskModel, age: Seq<char>)
    ensures
        ({
            let label = if task.label == Seq::<char>::empty() {
                "(none)"@
            } else {
                task.label
            };
            let head = "Task: "@ + task.id + "\nLabel: "@ + label + "\nAgent: "@ + task.agent_name
                + "\nStatus: "@ + task.status.word() + "\nCreated: "@ + age + "\n"@;
            let end = "Original task: "@ + task.task;
            &&& task.result.len() == 0 ==> task_detail(task, age) == head + end
            &&& task.result.len() > 0 ==> task_detail(task, age) == head + ("Result:\n"@
                + task.result + "\n"@) + end
        }),
{
    if task.label.len() == 0 {
        assert(task.label =~= Seq::empty());
    }
    let label = if task.label == Seq::<char>::empty() {
        "(none)"@
    } else {
        task.label
    };
    let head = "Task: "@ + task.id + "\nLabel: "@ + label + "\nAgent: "@ + task.agent_name
        + "\nStatus: "@ + task.status.word() + "\nCreated: "@ + age + "\n"@;
    let end = "Original task: "@ + task.task;
    if task.result.len() == 0 {
        assert(task_detail(task, age) =~= head + end);
    } else {
        assert(task_detail(task, age) =~= head + ("Result:\n"@ + task.result + "\n"@) + end);
    }
}

/// The age of something is the time from then to now in whole seconds, both since the epoch.
pub proof fn age_in_seconds(millis: i64, now_secs: i64)
    ensures
        millis >= 0 && now_secs - millis / 1000 >= i64::MIN ==> elapsed_secs(millis, now_secs)
            == now_secs - millis / 1000,
        millis < 0 && now_secs + (-millis) / 1000 <= i64::MAX ==> elapsed_secs(millis, now_secs)
            == now_secs + (-millis) / 1000,
{
}

/// Ages are told in seconds up to a minute, in whole minutes up to an hour, and in whole hours from
/// then on.
pub proof fn age_in_words(n: nat, seconds: nat)
    ensures
        n < 60 ==> ago(n as int) == decimal(n) + "s ago"@,
        1 <= n < 60 && seconds < 60 ==> ago((60 * n + seconds) as int) == decimal(n) + "m ago"@,
        1 <= n && seconds < 3600 ==> ago((3600 * n + seconds) as int) == decimal(n) + "h ago"@,
        n > 0 ==> ago(-(n as int)) == seq!['-'] + decimal(n) + "s ago"@,
{
    sign_of_a_number(n);
    if seconds < 60 {
        assert((60 * n + seconds) / 60 == n);
    }
    if seconds < 3600 {
        assert((3600 * n + seconds) / 3600 == n);
    }
}

/// A question for a task is answered with the report on it where it is there, and with a refusal
/// that names it where it is not.
pub proof fn question_for_a_task(
    m: ManagerModel,
    members: Map<Seq<char>, Json>,
    asked: Seq<char>,
    now_secs: i64,
)
    requires
        members.contains_key("task_id"@),
        members["task_id"@] == Json::Text(asked),
        !all_white(asked),
    ensures
        ({
            let id = trimmed(asked);
            let reply = status_reply(m, Json::Object(members), now_secs);
            &&& m.tasks.contains_key(id) ==> reply == (ReplyModel {
                success: true,
                output: task_detail(
                    m.tasks[id],
                    ago(elapsed_secs(m.tasks[id].created, now_secs) as int),
                ),
                error: None,
            })
            &&& !m.tasks.contains_key(id) ==> reply == (ReplyModel {
                success: false,
                output: Seq::empty(),
                error: Some("Task '"@ + id + "' not found"@),
            })
        }),
{
    blank_is_all_white(asked);
}

/// A question that names no task is answered with the list of all tasks: a heading and a line for
/// each, or that there are none.
pub proof fn question_for_all_tasks(m: ManagerModel, args: Json, now_secs: i64)
    requires
        m.inv(),
        args matches Json::Object(members) ==> !members.contains_key("task_id"@) || !(
        members["task_id"@] is Text) || all_white(members["task_id"@]->Text_0),
    ensures
        ({
            let reply = status_reply(m, args, now_secs);
            &&& reply.success
            &&& reply.error is None
            &&& m.tasks == Map::<Seq<char>, TaskModel>::empty() ==> reply.output
                == "No subagent tasks have been spawned."@
            &&& m.tasks != Map::<Seq<char>, TaskModel>::empty() ==> reply.output == list_heading(
                m.listing(),
            ) + task_lines(m.listing())
        }),
{
    if let Json::Object(members) = args {
        if members.contains_key("task_id"@) && members["task_id"@] is Text {
            blank_is_all_white(members["task_id"@]->Text_0);
        }
    }
    listing_of_no_tasks_is_empty(m);
}

/// The report on a task, and that on all tasks, are what is answered to a question for them.
pub proof fn reports_are_the_answers(m: ManagerModel, id: Seq<char>, now_secs: i64)
    ensures
        m.tasks.contains_key(id) ==> detail_reply(m, id, now_secs) == (ReplyModel {
            success: true,
            output: task_detail(
                m.tasks[id],
                ago(elapsed_secs(m.tasks[id].created, now_secs) as int),
            ),
            error: None,
        }),
        !m.tasks.contains_key(id) ==> detail_reply(m, id, now_secs) == (ReplyModel {
            success: false,
            output: Seq::empty(),
            error: Some("Task '"@ + id + "' not found"@),
        }),
        overview_reply(m) == (ReplyModel {
            success: true,
            output: task_list(m.listing()),
            error: None,
        }),
        overview_reply(m) == status_reply(m, Json::Null, now_secs),
{
}

/// The task that is asked for is what stands under `task_id`, without the white space around it;
/// nothing, something blank, or something else than a text asks for no task.
pub proof fn asked_for(members: Map<Seq<char>, Json>, asked: Seq<char>)
    ensures
        requested_task(Json::Object(members.insert("task_id"@, Json::Text(asked)))) == if all_white(
            asked,
        ) {
            None
        } else {
            Some(trimmed(asked))
        },
        !members.contains_key("task_id"@) || !(members["task_id"@] is Text) ==> requested_task(
            Json::Object(members),
        ) is None,
{
    blank_is_all_white(asked);
}

/// What is answered at a reading of the clock is what is owed at that time.
pub proof fn answers_hold_at_some_time(m: ManagerModel, args: Json, reply: ReplyModel)
    requires
        is_status_reply(m, args, reply),
    ensures
        exists|now: SystemTime| reply == status_reply(m, args, #[trigger] unix_secs_of(now)),
{
}

/// The list has a line for each task, one after the other.
pub proof fn one_line_for_each_task(list: Seq<TaskModel>, task: TaskModel)
    ensures
        task_lines(Seq::empty()) == Seq::<char>::empty(),
        task_lines(list.push(task)) == task_lines(list) + task_line(task),
{
    assert(list.push(task).drop_last() =~= list);
}

/// The lines of a list are those of its beginning and those of its end.
pub proof fn lines_of_two_lists(front: Seq<TaskModel>, back: Seq<TaskModel>)
    ensures
        task_lines(front + back) == task_lines(front) + task_lines(back),
    decreases back.len(),
{
    if back.len() == 0 {
        assert(front + back =~= front);
        assert(task_lines(front) + Seq::empty() =~= task_lines(front));
    } else {
        lines_of_two_lists(front, back.drop_last());
        assert((front + back).drop_last() =~= front + back.drop_last());
        assert(task_lines(front) + (task_lines(back.drop_last()) + task_line(back.last()))
            =~= task_lines(front) + task_lines(back.drop_last()) + task_line(back.last()));
    }
}

/// The line of a task names it, its label where it has one, its agent and its status.
pub proof fn line_has_every_part(task: TaskModel)
    ensures
        ({
            let label = if task.label == Seq::<char>::empty() {
                Seq::empty()
            } else {
                " ["@ + task.label + "]"@
            };
            let head = "- "@ + task.id + label + " (agent: "@ + task.agent_name + ") — "@
                + task.status.word();
            &&& task.result.len() == 0 ==> task_line(task) == head + "\n"@
            &&& task.result.len() > 0 ==> task_line(task) == head + ("\n    Result: "@ + truncated(
                task.result,
                200,
            )) + "\n"@
        }),
{
    if task.label.len() == 0 {
        assert(task.label =~= Seq::empty());
    }
    if task.result.len() == 0 {
        let label = if task.label == Seq::<char>::empty() {
            Seq::empty()
        } else {
            " ["@ + task.label + "]"@
        };
        let head = "- "@ + task.id + label + " (agent: "@ + task.agent_name + ") — "@
            + task.status.word();
        assert(head + Seq::empty() =~= head);
    }
}

/// Each task counts once, towards its own status.
pub proof fn each_task_counts_once(
    list: Seq<TaskModel>,
    task: TaskModel,
    status: SubagentStatus,
)
    ensures
        count_of(Seq::empty(), status) == 0,
        task.status == status ==> count_of(list.push(task), status) == count_of(list, status) + 1,
        task.status != status ==> count_of(list.push(task), status) == count_of(list, status),
{
    assert(list.push(task).drop_last() =~= list);
}

/// The heading says how many tasks there are, and how many of each status.
pub proof fn heading_counts(list: Seq<TaskModel>)
    ensures
        list_heading(list) == "Subagent Tasks Summary: "@ + decimal(list.len()) + " total ("@
            + decimal(list.filter(|t: TaskModel| t.status == SubagentStatus::Running).len())
            + " running, "@ + decimal(
            list.filter(|t: TaskModel| t.status == SubagentStatus::Completed).len(),
        ) + " completed, "@ + decimal(
            list.filter(|t: TaskModel| t.status == SubagentStatus::Failed).len(),
        ) + " failed, "@ + decimal(
            list.filter(|t: TaskModel| t.status == SubagentStatus::Canceled).len(),
        ) + " canceled)\n\n"@,
{
    lemma_count(list, SubagentStatus::Running);
    lemma_count(list, SubagentStatus::Completed);
    lemma_count(list, SubagentStatus::Failed);
    lemma_count(list, SubagentStatus::Canceled);
    let status = SubagentStatus::Running;
    assert((|t: TaskModel| t.status == SubagentStatus::Running) =~= (|t: TaskModel|
        t.status == status));
    let status = SubagentStatus::Completed;
    assert((|t: TaskModel| t.status == SubagentStatus::Completed) =~= (|t: TaskModel|
        t.status == status));
    let status = SubagentStatus::Failed;
    assert((|t: TaskModel| t.status == SubagentStatus::Failed) =~= (|t: TaskModel|
        t.status == status));
    let status = SubagentStatus::Canceled;
    assert((|t: TaskModel| t.status == SubagentStatus::Canceled) =~= (|t: TaskModel|
        t.status == status));
}

proof fn lemma_count(list: Seq<TaskModel>, status: SubagentStatus)
    ensures
        count_of(list, status) == list.filter(|t: TaskModel| t.status == status).len(),
    decreases list.len(),
{
    reveal(Seq::filter);
    if list.len() > 0 {
        lemma_count(list.drop_last(), status);
    }
}

/// A list of tasks is reported as its heading with its lines below, or as there being none.
pub proof fn heading_and_lines(list: Seq<TaskModel>)
    ensures
        list.len() > 0 ==> task_list(list) == list_heading(list) + task_lines(list),
        list.len() == 0 ==> task_list(list) == "No subagent tasks have been spawned."@,
{
}

/// The list holds each task there is once and as it is. It goes by creation, and among tasks of one
/// time by the order in which they came in.
pub proof fn list_is_complete_and_ordered(m: ManagerModel, id: Seq<char>, created: i64)
    requires
        m.inv(),
    ensures
        m.listing().len() == m.order.len(),
        forall|i: int, j: int|
            0 <= i < j < m.listing().len() ==> m.listing()[i].created <= m.listing()[j].created
                && m.listing()[i].id != m.listing()[j].id,
        m.tasks.contains_key(id) ==> m.listing().contains(m.tasks[id]),
        forall|i: int|
            0 <= i < m.listing().len() ==> m.tasks.contains_key((#[trigger] m.listing()[i]).id)
                && m.tasks[m.listing()[i].id] == m.listing()[i],
        m.listing().filter(|t: TaskModel| t.created == created) == m.order.map_values(
            |k: Seq<char>| m.tasks[k],
        ).filter(|t: TaskModel| t.created == created),
{
    listing_is_in_order(m);
    by_creation_keeps_the_tasks(m.entries());
    assert(created_at(m.listing(), created) == created_at(m.entries(), created));
    if m.tasks.contains_key(id) {
        let i = choose|i: int| 0 <= i < m.listing().len() && m.listing()[i].id == id;
        assert(m.listing()[i] == m.tasks[id]);
    }
}

proof fn lemma_encode_add(a: Seq<char>, b: Seq<char>)
    ensures
        encode_utf8(a + b) == encode_utf8(a) + encode_utf8(b),
        is_char_boundary(encode_utf8(a + b), encode_utf8(a).len() as int),
    decreases a.len(),
{
    encode_utf8_valid_utf8(a + b);
    if a.len() == 0 {
        assert(a + b =~= b);
        assert(encode_utf8(a) + encode_utf8(b) =~= encode_utf8(b));
    } else {
        let rest = a.drop_first();
        lemma_encode_add(rest, b);
        assert((a + b).drop_first() =~= rest + b);
        assert((a + b)[0] == a[0]);
        let first = encode_scalar(a[0] as u32);
        assert(first + (encode_utf8(rest) + encode_utf8(b)) =~= first + encode_utf8(rest)
            + encode_utf8(b));
        encode_utf8_first_scalar(a + b);
        let bytes = encode_utf8(a + b);
        assert(pop_first_scalar(bytes) =~= encode_utf8(rest + b));
        assert(encode_utf8(a).len() == first.len() + encode_utf8(rest).len());
    }
}

/// A text can be cut behind each of its characters, and what is left is the part up to there; a
/// text that is short enough stays whole.
pub proof fn cutting_keeps_the_front(front: Seq<char>, back: Seq<char>, max_len: nat)
    ensures
        encode_utf8(front).len() == max_len ==> can_truncate(front + back, max_len) && truncated(
            front + back,
            max_len,
        ) == front,
        encode_utf8(front).len() <= max_len ==> can_truncate(front, max_len) && truncated(
            front,
            max_len,
        ) == front,
{
    lemma_encode_add(front, back);
    if encode_utf8(front).len() == max_len {
        let bytes = encode_utf8(front + back);
        if bytes.len() <= max_len {
            if back.len() > 0 {
                encode_utf8_first_scalar(back);
                assert(encode_utf8(back).len() > 0);
            }
            assert(front + back =~= front);
        } else {
            assert(bytes.take(max_len as int) =~= encode_utf8(front));
            encode_utf8_decode_utf8(front);
        }
    }
}

/// The list can be shown wherever each result is short enough or can be cut.
pub proof fn short_results_can_be_listed(m: ManagerModel)
    ensures
        all_previewable(m) <==> forall|id: Seq<char>| #[trigger]
            m.tasks.contains_key(id) ==> encode_utf8(m.tasks[id].result).len() <= 200
                || is_char_boundary(encode_utf8(m.tasks[id].result), 200),
{
}

/// The schema of the `spawn_status` tool describes its one argument, and requires none.
pub proof fn schema_of_the_question()
    ensures
        json_member(status_schema(), "type"@) == Some(Json::Text("object"@)),
        describes(
            status_schema(),
            "task_id"@,
            "string"@,
            "Optional task ID to get specific status"@,
        ),
        json_member(status_schema(), "required"@) is None,
{
    reveal_strlit("type");
    reveal_strlit("properties");
    reveal_strlit("required");
    reveal_strlit("description");
    assert("properties"@.len() == 10 && "required"@.len() == 8 && "type"@.len() == 4);
    assert("description"@.len() == 11);
}

} // verus!
