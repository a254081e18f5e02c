//! What holds of the registry and its tools as a whole.

pub mod agents;
pub mod ending;
pub mod models;
pub mod spawning;
pub mod status;
pub mod words;

use std::time::SystemTime;
use vstd::prelude::*;
use vstd::utf8::*;

use crate::agent::{is_basic_tool, is_spawning_tool, AgentModel};
use crate::clock::unix_secs_of;
use crate::json::{flag_member, json_member, text_member, Json};
use crate::listing::{
    by_creation_is_stable, by_creation_keeps_the_tasks, created_at, is_listing, remaining,
    remaining_is_idempotent,
};
use crate::manager::{
    ended_has_a_result, survivors, task_id, task_id_is_injective, JobModel, ManagerModel,
};
use crate::spawn::{request_of, spawn_parameters, spawn_schema, wait_reply};
use crate::spawn_status::{
    can_truncate, count_of, detail_reply, is_status_reply, overview_reply, requested_task,
    status_reply, truncated,
};
use crate::task::{OutcomeModel, ReplyCtxModel, SubagentStatus, TaskModel};
use crate::text::{is_blank, is_white_space, trimmed, trimmed_end, trimmed_start};
use crate::tool::{refused, succeeded, ReplyModel};

verus! {

/// The ID that the next task gets is not in use.
pub proof fn next_id_is_fresh(m: ManagerModel)
    requires
        m.inv(),
    ensures
        !m.tasks.contains_key(m.next_task_id()),
{
    if m.tasks.contains_key(m.next_task_id()) {
        assert(m.holds(m.next_task_id()));
        let n = choose|n: nat| n < m.next_id && m.next_task_id() == #[trigger] task_id(n);
        task_id_is_injective(n, m.next_id as nat);
    }
}

/// Tasks that are admitted at different times never share an ID.
pub proof fn ids_are_never_reused(earlier: ManagerModel, later: ManagerModel)
    requires
        earlier.next_id < later.next_id,
    ensures
        earlier.next_task_id() != later.next_task_id(),
{
    if earlier.next_task_id() == later.next_task_id() {
        task_id_is_injective(earlier.next_id as nat, later.next_id as nat);
    }
}

/// Numbers are used up by admitted tasks, one each, and by nothing else.
pub proof fn numbers_are_used_one_by_one(
    m: ManagerModel,
    task: Seq<char>,
    label: Seq<char>,
    agent_name: Seq<char>,
    gc_ms: i64,
    created_ms: i64,
    id: Seq<char>,
    outcome: OutcomeModel,
    ctx: Option<ReplyCtxModel>,
)
    requires
        m.next_id < u32::MAX,
    ensures
        m.after_spawn(task, label, agent_name, gc_ms, created_ms).next_id == m.next_id + (
        if m.refusal(task, agent_name) is None {
            1int
        } else {
            0int
        }),
        m.cleaned(gc_ms).next_id == m.next_id,
        m.without(id).next_id == m.next_id,
        m.after_end(id, outcome).next_id == m.next_id,
        m.addressed(ctx).next_id == m.next_id,
{
}

/// An admitted task can be looked up under the ID of its job, is running, and carries what it was
/// spawned with.
pub proof fn spawned_task_is_found(
    m: ManagerModel,
    task: Seq<char>,
    label: Seq<char>,
    agent_name: Seq<char>,
    tools: Seq<Seq<char>>,
    gc_ms: i64,
    created_ms: i64,
)
    requires
        m.refusal(task, agent_name) is None,
    ensures
        ({
            let found = m.after_spawn(task, label, agent_name, gc_ms, created_ms).task(
                m.job(task, label, agent_name, tools).task_id,
            );
            &&& found is Some
            &&& found.unwrap().id == m.job(task, label, agent_name, tools).task_id
            &&& found.unwrap().task == task
            &&& found.unwrap().label == label
            &&& found.unwrap().status == SubagentStatus::Running
            &&& found.unwrap().result.len() == 0
            &&& found.unwrap().created == created_ms
            &&& m.agents.contains_key(found.unwrap().agent_name)
            &&& m.agents[found.unwrap().agent_name] == m.job(task, label, agent_name, tools).agent
        }),
{
}

/// A request to spawn, admitted or not, leaves every running task as it is.
pub proof fn spawn_keeps_running_tasks(
    m: ManagerModel,
    task: Seq<char>,
    label: Seq<char>,
    agent_name: Seq<char>,
    gc_ms: i64,
    created_ms: i64,
    id: Seq<char>,
)
    requires
        m.inv(),
        m.tasks.contains_key(id),
        m.tasks[id].status == SubagentStatus::Running,
    ensures
        m.after_spawn(task, label, agent_name, gc_ms, created_ms).task(id) == m.task(id),
{
    next_id_is_fresh(m);
}

/// A refused request starts nothing: no task is added or changed, and no ID is used up. Where
/// there is no task to do, nothing changes at all.
pub proof fn refused_spawn_starts_nothing(
    m: ManagerModel,
    task: Seq<char>,
    label: Seq<char>,
    agent_name: Seq<char>,
    gc_ms: i64,
    created_ms: i64,
)
    requires
        m.refusal(task, agent_name) is Some,
    ensures
        ({
            let after = m.after_spawn(task, label, agent_name, gc_ms, created_ms);
            &&& after.tasks.submap_of(m.tasks)
            &&& after == m || after == m.cleaned(gc_ms)
            &&& after == ManagerModel { tasks: after.tasks, order: after.order, ..m }
            &&& is_blank(task) ==> after == m
        }),
{
}

/// A spawn that is taken back, because the provider could not be created, leaves no task behind.
pub proof fn abandoned_spawn_leaves_no_task(
    m: ManagerModel,
    task: Seq<char>,
    label: Seq<char>,
    agent_name: Seq<char>,
    tools: Seq<Seq<char>>,
    gc_ms: i64,
    created_ms: i64,
)
    requires
        m.inv(),
        m.refusal(task, agent_name) is None,
    ensures
        m.after_spawn(task, label, agent_name, gc_ms, created_ms).without(
            m.job(task, label, agent_name, tools).task_id,
        ) == (ManagerModel { next_id: (m.next_id + 1) as u32, ..m.cleaned(gc_ms) }),
{
    next_id_is_fresh(m);
    let id = m.next_task_id();
    let tasks = survivors(m.tasks, gc_ms);
    let kept = remaining(m.order, tasks);
    let order = kept.push(id);
    remaining_is_idempotent(m.order, tasks);
    assert(!tasks.contains_key(id));
    assert(!kept.contains(id));
    assert(order[kept.len() as int] == id);
    assert(order.contains(id));
    order.index_of_first_ensures(id);
    let at = order.index_of_first(id).unwrap();
    if at < kept.len() {
        assert(kept[at] == id);
    }
    assert(order.remove_value(id) =~= kept);
    let entry = m.new_task(task, label, agent_name, created_ms);
    assert(tasks.insert(id, entry).remove(id) =~= tasks);
}

/// An agent that is named, with or without white space around the name, takes the task; it is
/// refused exactly where there is no agent of that name.
pub proof fn named_agent_takes_the_task(m: ManagerModel, task: Seq<char>, agent_name: Seq<char>)
    requires
        !is_blank(task),
        !is_blank(agent_name),
    ensures
        m.resolve(agent_name) == Some(trimmed(agent_name)),
        m.refusal(task, agent_name) is None <==> m.agents.contains_key(trimmed(agent_name)),
{
}

/// Where no agent is named, a task is admitted exactly where there are agents.
pub proof fn some_agent_takes_an_unaddressed_task(
    m: ManagerModel,
    task: Seq<char>,
    agent_name: Seq<char>,
)
    requires
        m.inv(),
        !is_blank(task),
        is_blank(agent_name),
    ensures
        m.refusal(task, agent_name) is None <==> m.agents.dom() != Set::<Seq<char>>::empty(),
        m.agents.contains_key("worker"@) ==> m.resolve(agent_name) == Some("worker"@),
{
    if m.agent_names.len() > 0 {
        assert(m.agent_names.to_set().contains(m.agent_names[0]));
    } else {
        assert(m.agent_names.to_set() =~= Set::<Seq<char>>::empty());
        assert(!m.agents.dom().contains("worker"@));
    }
}

/// A clean-up never removes a running task.
pub proof fn cleanup_keeps_running_tasks(m: ManagerModel, now_ms: i64, id: Seq<char>)
    requires
        m.tasks.contains_key(id),
        m.tasks[id].status == SubagentStatus::Running,
    ensures
        m.cleaned(now_ms).task(id) == m.task(id),
{
}

/// An ended task stays for ten minutes from its creation, and a clean-up after that removes it.
pub proof fn ended_tasks_stay_ten_minutes(m: ManagerModel, now_ms: i64, id: Seq<char>)
    requires
        m.tasks.contains_key(id),
        m.tasks[id].status != SubagentStatus::Running,
        i64::MIN <= now_ms - m.tasks[id].created <= i64::MAX,
    ensures
        now_ms - m.tasks[id].created <= 10 * 60 * 1000 ==> m.cleaned(now_ms).task(id) == m.task(id),
        now_ms - m.tasks[id].created > 10 * 60 * 1000 ==> m.cleaned(now_ms).task(id) is None,
{
}

/// A second clean-up at the same time changes nothing.
pub proof fn cleanup_is_idempotent(m: ManagerModel, now_ms: i64)
    ensures
        m.cleaned(now_ms).cleaned(now_ms) == m.cleaned(now_ms),
{
    assert(m.cleaned(now_ms).cleaned(now_ms).tasks =~= m.cleaned(now_ms).tasks);
    remaining_is_idempotent(m.order, survivors(m.tasks, now_ms));
}

/// A later clean-up keeps nothing that an earlier one would have removed, as long as no age wraps
/// around.
pub proof fn cleanup_is_monotone(m: ManagerModel, earlier_ms: i64, later_ms: i64)
    requires
        earlier_ms <= later_ms,
        forall|id: Seq<char>| #[trigger]
            m.tasks.contains_key(id) ==> i64::MIN <= earlier_ms - m.tasks[id].created && later_ms
                - m.tasks[id].created <= i64::MAX,
    ensures
        m.cleaned(later_ms).tasks.submap_of(m.cleaned(earlier_ms).tasks),
{
}

/// The end of a task is recorded under its ID, and nothing else changes.
pub proof fn end_changes_one_task(m: ManagerModel, id: Seq<char>, outcome: OutcomeModel)
    requires
        m.tasks.contains_key(id),
    ensures
        m.after_end(id, outcome).task(id) == Some(m.tasks[id].ended(outcome)),
        m.after_end(id, outcome).without(id) == m.without(id),
        m.after_end(id, outcome).order == m.order,
{
    assert(m.after_end(id, outcome).tasks.remove(id) =~= m.tasks.remove(id));
}

/// The end of a task that is gone is not reported, and changes nothing.
pub proof fn end_of_a_forgotten_task_is_silent(
    m: ManagerModel,
    id: Seq<char>,
    outcome: OutcomeModel,
    ctx: Option<ReplyCtxModel>,
)
    requires
        !m.tasks.contains_key(id),
    ensures
        m.after_end(id, outcome) == m,
        m.end_event(id, outcome, ctx) is None,
{
}

/// The event that reports the end of a task says what the registry then holds.
pub proof fn event_agrees_with_the_registry(
    m: ManagerModel,
    id: Seq<char>,
    outcome: OutcomeModel,
    ctx: Option<ReplyCtxModel>,
)
    requires
        m.inv(),
        m.tasks.contains_key(id),
    ensures
        ({
            let event = m.end_event(id, outcome, ctx).unwrap();
            let task = m.after_end(id, outcome).task(id).unwrap();
            &&& m.end_event(id, outcome, ctx) is Some
            &&& event.task_id == id
            &&& event.label == task.label
            &&& event.status == task.status
            &&& event.result == task.result
            &&& event.status != SubagentStatus::Running
            &&& event.result.len() > 0
        }),
{
    assert(m.holds(id));
    ended_has_a_result(outcome);
}

/// The end of a task is reported to where its spawn came from, whatever message is being
/// processed when it ends.
pub proof fn result_goes_where_the_task_came_from(
    m: ManagerModel,
    task: Seq<char>,
    label: Seq<char>,
    agent_name: Seq<char>,
    tools: Seq<Seq<char>>,
    later: ManagerModel,
    outcome: OutcomeModel,
)
    requires
        m.refusal(task, agent_name) is None,
        later.tasks.contains_key(m.job(task, label, agent_name, tools).task_id),
    ensures
        ({
            let job = m.job(task, label, agent_name, tools);
            let event = later.end_event(job.task_id, outcome, job.reply_ctx).unwrap();
            match m.reply_ctx {
                Some(ctx) => {
                    &&& event.reply_channel == Some(ctx.channel_name)
                    &&& event.reply_target == Some(ctx.reply_target)
                    &&& event.thread_ts == ctx.thread_ts
                },
                None => {
                    &&& event.reply_channel is None
                    &&& event.reply_target is None
                    &&& event.thread_ts is None
                },
            }
        }),
{
}

/// A spawn captures the reply context that was set last.
pub proof fn spawn_captures_the_reply_context(
    m: ManagerModel,
    ctx: Option<ReplyCtxModel>,
    task: Seq<char>,
    label: Seq<char>,
    agent_name: Seq<char>,
    tools: Seq<Seq<char>>,
)
    ensures
        m.addressed(ctx).reply_ctx == ctx,
        m.addressed(ctx).job(task, label, agent_name, tools) == (JobModel {
            reply_ctx: ctx,
            ..m.job(task, label, agent_name, tools)
        }),
{
}

/// A task that was spawned and answered, and then waited for, gives its answer inline.
pub proof fn inline_result(
    m: ManagerModel,
    task: Seq<char>,
    label: Seq<char>,
    agent_name: Seq<char>,
    gc_ms: i64,
    created_ms: i64,
    answer: Seq<char>,
)
    requires
        m.refusal(task, agent_name) is None,
        !is_blank(answer),
    ensures
        wait_reply(
            m.next_task_id(),
            m.after_spawn(task, label, agent_name, gc_ms, created_ms).after_end(
                m.next_task_id(),
                OutcomeModel::Response(answer),
            ).task(m.next_task_id()),
        ) == succeeded(answer),
{
    if answer.len() == 0 {
        assert(trimmed(answer).len() == 0);
    }
}

/// The answer after a wait is a success exactly where the task completed, and only then has no
/// error.
pub proof fn waiting_succeeds_on_completion_alone(id: Seq<char>, found: Option<TaskModel>)
    ensures
        wait_reply(id, found).success <==> (found is Some && found.unwrap().status
            == SubagentStatus::Completed),
        wait_reply(id, found).success <==> wait_reply(id, found).error is None,
{
}

/// A wait that ends before its deadline ends with a task that has a result, or finds the task
/// gone; the result is what is answered.
pub proof fn wait_in_time_ends_with_a_result(m: ManagerModel, id: Seq<char>)
    requires
        m.inv(),
    ensures
        match m.wait_result(id, false) {
            Some(Some(task)) => {
                &&& task.status != SubagentStatus::Running
                &&& task.result.len() > 0
                &&& wait_reply(id, Some(task)).output == task.result
            },
            Some(None) => !m.tasks.contains_key(id),
            None => m.tasks.contains_key(id) && m.tasks[id].status == SubagentStatus::Running,
        },
{
    if m.tasks.contains_key(id) {
        assert(m.holds(id));
    }
}

/// A wait never outlasts its deadline.
pub proof fn wait_ends_at_the_deadline(m: ManagerModel, id: Seq<char>)
    ensures
        m.wait_result(id, true) == Some(m.task(id)),
{
}

/// A request waits unless it says not to, and one without a task is refused.
pub proof fn requests_wait_by_default(args: Json, m: ManagerModel)
    ensures
        request_of(args).wait <==> flag_member(args, "wait"@) != Some(false),
        text_member(args, "task"@) is None ==> m.refusal(
            request_of(args).task,
            request_of(args).agent,
        ) is Some,
{
    if text_member(args, "task"@) is None {
        assert(trimmed(request_of(args).task).len() == 0);
    }
}

/// The schema of the `spawn` tool asks for a task and nothing else, and describes each argument.
pub proof fn schema_requires_the_task_alone(agents: Seq<Seq<char>>)
    ensures
        json_member(spawn_schema(agents), "required"@) == Some(
            Json::List(seq![Json::Text("task"@)]),
        ),
        json_member(spawn_schema(agents), "properties"@) == Some(
            Json::Object(spawn_parameters(agents)),
        ),
        spawn_parameters(agents).dom() == set!["task"@, "label"@, "agent"@, "wait"@],
        forall|name: Seq<char>| #[trigger]
            spawn_parameters(agents).contains_key(name) ==> spawn_parameters(
                agents,
            )[name] is Object,
{
    reveal_strlit("type");
    reveal_strlit("properties");
    reveal_strlit("required");
    assert("properties"@.len() == 10 && "required"@.len() == 8 && "type"@.len() == 4);
    assert(spawn_parameters(agents).dom() =~= set!["task"@, "label"@, "agent"@, "wait"@]);
}

/// No sub-agent gets a tool by which it could start sub-agents of its own.
pub proof fn no_agent_gets_a_spawning_tool(agent: AgentModel, name: Seq<char>)
    requires
        agent.grants(name),
    ensures
        !is_spawning_tool(name),
{
    reveal_strlit("delegate");
    reveal_strlit("spawn");
    reveal_strlit("shell");
    reveal_strlit("file_read");
    reveal_strlit("file_write");
    reveal_strlit("file_edit");
    reveal_strlit("glob_search");
    reveal_strlit("content_search");
    reveal_strlit("web_fetch");
    reveal_strlit("web_search");
    reveal_strlit("http_request");
    reveal_strlit("memory_store");
    reveal_strlit("memory_recall");
    assert("delegate"@[0] == 'd');
    assert("spawn"@.len() == 5);
    assert("spawn"@[1] == 'p');
    if is_basic_tool(name) {
        assert("shell"@[1] == 'h');
        assert("web_fetch"@.len() == 9);
    }
}

/// The wildcard grants every tool by which no sub-agents can be started.
pub proof fn wildcard_grants_all_other_tools(agent: AgentModel, name: Seq<char>)
    requires
        agent.lists("*"@),
    ensures
        agent.grants(name) <==> !is_spawning_tool(name),
{
}

/// An allowlist without the wildcard grants only tools that it lists.
pub proof fn allowlist_grants_only_listed_tools(agent: AgentModel, name: Seq<char>)
    requires
        agent.has_allowlist(),
        !agent.lists("*"@),
    ensures
        agent.grants(name) <==> agent.lists(name) && !is_spawning_tool(name),
{
}

/// Without an allowlist the basic tools are granted.
pub proof fn basic_tools_without_an_allowlist(agent: AgentModel, name: Seq<char>)
    requires
        agent.allowed_tools.len() == 0,
    ensures
        agent.grants(name) <==> is_basic_tool(name),
{
}

/// The granted positions are those of the granted tools, in ascending order.
pub proof fn granted_positions(agent: AgentModel, tools: Seq<Seq<char>>)
    requires
        tools.len() <= usize::MAX,
    ensures
        forall|i: int|
            #![trigger agent.granted(tools)[i]]
            0 <= i < agent.granted(tools).len() ==> agent.granted(tools)[i] < tools.len()
                && agent.grants(tools[agent.granted(tools)[i] as int]),
        forall|i: int, j: int|
            0 <= i < j < agent.granted(tools).len() ==> agent.granted(tools)[i] < agent.granted(
                tools,
            )[j],
        forall|p: usize|
            p < tools.len() && agent.grants(#[trigger] tools[p as int]) ==> agent.granted(
                tools,
            ).contains(p),
    decreases tools.len(),
{
    if tools.len() > 0 {
        let init = tools.drop_last();
        granted_positions(agent, init);
        let before = agent.granted(init);
        let after = agent.granted(tools);
        assert forall|p: usize|
            p < tools.len() && agent.grants(#[trigger] tools[p as int]) implies after.contains(
            p,
        ) by {
            if p == tools.len() - 1 {
                assert(after[after.len() - 1] == p);
            } else {
                assert(tools[p as int] == init[p as int]);
                let i = before.index_of(p);
                assert(after[i] == p);
            }
        }
        assert forall|i: int|
            #![trigger after[i]]
            0 <= i < after.len() implies after[i] < tools.len() && agent.grants(
            tools[after[i] as int],
        ) by {
            if i < before.len() {
                assert(after[i] == before[i]);
                assert(tools[before[i] as int] == init[before[i] as int]);
            }
        }
    }
}

/// The list holds each task once, in the order of creation. Those that were created at the same
/// time are listed in the order in which they came in.
pub proof fn listing_is_in_order(m: ManagerModel)
    requires
        m.inv(),
    ensures
        is_listing(m.listing(), m.tasks),
        forall|created: i64| #[trigger]
            created_at(m.listing(), created) == created_at(m.entries(), created),
{
    let entries = m.entries();
    let list = m.listing();
    by_creation_is_stable(entries);
    by_creation_keeps_the_tasks(entries);
    assert forall|i: int| 0 <= i < entries.len() implies m.tasks.contains_key(m.order[i])
        && #[trigger] entries[i] == m.tasks[m.order[i]] && entries[i].id == m.order[i] by {
        assert(m.order.to_set().contains(m.order[i]));
        assert(m.holds(m.order[i]));
    }
    assert(entries.no_duplicates());
    assert forall|i: int| 0 <= i < list.len() implies m.tasks.contains_key(#[trigger] list[i].id)
        && m.tasks[list[i].id] == list[i] by {
        assert(list.contains(list[i]));
        let j = entries.index_of(list[i]);
        assert(entries[j] == list[i]);
    }
    assert forall|i: int, j: int| 0 <= i < j < list.len() implies list[i].id != list[j].id by {
        assert(m.tasks[list[i].id] == list[i]);
        assert(m.tasks[list[j].id] == list[j]);
    }
    assert forall|id: Seq<char>| #[trigger] m.tasks.contains_key(id) implies exists|i: int|
        0 <= i < list.len() && list[i].id == id by {
        assert(m.order.to_set().contains(id));
        let j = m.order.index_of(id);
        assert(entries.contains(entries[j]));
        assert(list.contains(entries[j]));
        let i = list.index_of(entries[j]);
        assert(list[i].id == id);
    }
}

/// A task is in the list exactly where it can be looked up, and says the same in both.
pub proof fn listing_agrees_with_lookup(m: ManagerModel, id: Seq<char>)
    requires
        m.inv(),
    ensures
        m.task(id) is Some <==> exists|i: int|
            0 <= i < m.listing().len() && m.listing()[i].id == id,
        forall|i: int|
            0 <= i < m.listing().len() && (#[trigger] m.listing()[i]).id == id ==> m.task(id)
                == Some(m.listing()[i]),
{
    let list = m.listing();
    listing_is_in_order(m);
    if exists|i: int| 0 <= i < list.len() && list[i].id == id {
        let i = choose|i: int| 0 <= i < list.len() && list[i].id == id;
        assert(m.tasks.contains_key(list[i].id));
    }
}

/// The list is empty exactly where there are no tasks.
pub proof fn listing_of_no_tasks_is_empty(m: ManagerModel)
    requires
        m.inv(),
    ensures
        m.listing().len() == 0 <==> m.tasks == Map::<Seq<char>, TaskModel>::empty(),
{
    let list = m.listing();
    listing_is_in_order(m);
    if list.len() == 0 {
        assert(m.tasks =~= Map::<Seq<char>, TaskModel>::empty());
    } else {
        assert(m.tasks.contains_key(list[0].id));
    }
}

/// The list is as long as there are tasks.
pub proof fn listing_has_every_task_once(m: ManagerModel)
    requires
        m.inv(),
    ensures
        m.tasks.dom().finite(),
        m.listing().len() == m.tasks.dom().len(),
{
    let list = m.listing();
    listing_is_in_order(m);
    let ids = list.map_values(|t: TaskModel| t.id);
    assert(ids.to_set() =~= m.tasks.dom()) by {
        assert forall|id: Seq<char>| #[trigger] ids.to_set().contains(id) implies m.tasks.dom().contains(
            id,
        ) by {
            let i = ids.index_of(id);
            assert(ids[i] == list[i].id);
            assert(m.tasks.contains_key(list[i].id));
        }
        assert forall|id: Seq<char>| #[trigger] m.tasks.dom().contains(id) implies ids.to_set().contains(
            id,
        ) by {
            assert(m.tasks.contains_key(id));
            let i = choose|i: int| 0 <= i < list.len() && list[i].id == id;
            assert(ids[i] == id);
        }
    }
    assert(ids.no_duplicates());
    ids.unique_seq_to_set();
}

/// The counts in the heading of the list add up to its length.
pub proof fn counts_add_up(list: Seq<TaskModel>)
    ensures
        count_of(list, SubagentStatus::Running) + count_of(list, SubagentStatus::Completed)
            + count_of(list, SubagentStatus::Failed) + count_of(list, SubagentStatus::Canceled)
            == list.len(),
    decreases list.len(),
{
    if list.len() > 0 {
        counts_add_up(list.drop_last());
    }
}

/// A spawned task can be asked for by its ID.
pub proof fn status_of_a_spawned_task(
    m: ManagerModel,
    task: Seq<char>,
    label: Seq<char>,
    agent_name: Seq<char>,
    gc_ms: i64,
    created_ms: i64,
    now_secs: i64,
)
    requires
        m.refusal(task, agent_name) is None,
    ensures
        detail_reply(
            m.after_spawn(task, label, agent_name, gc_ms, created_ms),
            m.next_task_id(),
            now_secs,
        ).success,
{
}

/// A cut text is a beginning of the text, no longer in UTF-8 than asked for; a text that is short
/// enough is not cut.
pub proof fn truncation_is_a_prefix(s: Seq<char>, max_len: nat)
    requires
        can_truncate(s, max_len),
    ensures
        truncated(s, max_len).is_prefix_of(s),
        encode_utf8(truncated(s, max_len)).len() <= max_len,
        encode_utf8(s).len() <= max_len ==> truncated(s, max_len) == s,
{
    let bytes = encode_utf8(s);
    if bytes.len() > max_len {
        encode_utf8_valid_utf8(s);
        encode_utf8_decode_utf8(s);
        valid_utf8_split(bytes, max_len as int);
        decode_utf8_split(bytes, max_len as int);
        assert(bytes.take(max_len as int) =~= bytes.subrange(0, max_len as int));
        decode_utf8_encode_utf8(bytes.take(max_len as int));
    }
}

/// A text that was cut can be cut again, and is then not changed.
pub proof fn truncation_is_idempotent(s: Seq<char>, max_len: nat)
    requires
        can_truncate(s, max_len),
    ensures
        truncated(truncated(s, max_len), max_len) == truncated(s, max_len),
{
    truncation_is_a_prefix(s, max_len);
}

/// Trimming a text twice is trimming it once.
pub proof fn trimming_is_idempotent(s: Seq<char>)
    ensures
        trimmed(trimmed(s)) == trimmed(s),
{
    trimmed_start_is_tight(s);
    trimmed_end_is_tight(trimmed_start(s));
}

proof fn trimmed_start_is_tight(s: Seq<char>)
    ensures
        trimmed_start(s).len() == 0 || !is_white_space(trimmed_start(s).first()),
    decreases s.len(),
{
    if s.len() > 0 && is_white_space(s.first()) {
        trimmed_start_is_tight(s.drop_first());
    }
}

proof fn trimmed_end_is_tight(s: Seq<char>)
    ensures
        trimmed_end(s).len() == 0 || (!is_white_space(trimmed_end(s).last())
            && trimmed_end(s).first() == s.first()),
    decreases s.len(),
{
    if s.len() > 0 && is_white_space(s.last()) {
        trimmed_end_is_tight(s.drop_last());
    }
}

/// A request through the tool is refused, and for the same reason, exactly where a direct spawn
/// with its arguments would be.
pub proof fn white_space_around_arguments_does_not_matter(
    m: ManagerModel,
    task: Seq<char>,
    agent_name: Seq<char>,
)
    ensures
        m.refusal(trimmed(task), trimmed(agent_name)) == m.refusal(task, agent_name),
        m.resolve(trimmed(agent_name)) == m.resolve(agent_name),
{
    trimming_is_idempotent(task);
    trimming_is_idempotent(agent_name);
}

/// A question without a `task_id`, with one that is no text, or with a blank one, is answered
/// with the list of all tasks, whatever the clock says.
pub proof fn blank_task_id_asks_for_all(
    m: ManagerModel,
    args: Json,
    now_secs: i64,
    reply: ReplyModel,
)
    requires
        match text_member(args, "task_id"@) {
            Some(id) => is_blank(id),
            None => true,
        },
    ensures
        status_reply(m, args, now_secs) == overview_reply(m),
        is_status_reply(m, args, reply) <==> reply == overview_reply(m),
{
    if reply == overview_reply(m) {
        let now: SystemTime = arbitrary();
        assert(reply == status_reply(m, args, unix_secs_of(now)));
    }
}

/// White space around a `task_id` does not matter: it is answered as the trimmed one is.
pub proof fn trimmed_task_id_asks_the_same(
    m: ManagerModel,
    args: Json,
    trimmed_args: Json,
    now_secs: i64,
    reply: ReplyModel,
)
    requires
        text_member(args, "task_id"@) is Some,
        text_member(trimmed_args, "task_id"@) == Some(
            trimmed(text_member(args, "task_id"@).unwrap()),
        ),
    ensures
        status_reply(m, args, now_secs) == status_reply(m, trimmed_args, now_secs),
        is_status_reply(m, args, reply) <==> is_status_reply(m, trimmed_args, reply),
{
    trimming_is_idempotent(text_member(args, "task_id"@).unwrap());
}

/// Two questions for all tasks of a registry that did not change are answered alike, whenever they
/// are asked.
pub proof fn overviews_are_equal(
    m: ManagerModel,
    args: Json,
    other_args: Json,
    reply: ReplyModel,
    other_reply: ReplyModel,
)
    requires
        requested_task(args) is None,
        requested_task(other_args) is None,
        is_status_reply(m, args, reply),
        is_status_reply(m, other_args, other_reply),
    ensures
        reply == other_reply,
{
}

/// A question for a task that is not there is answered alike whenever it is asked.
pub proof fn missing_task_is_refused(m: ManagerModel, args: Json, reply: ReplyModel)
    requires
        requested_task(args) is Some,
        m.task(requested_task(args).unwrap()) is None,
        is_status_reply(m, args, reply),
    ensures
        reply == refused("Task '"@ + requested_task(args).unwrap() + "' not found"@),
{
}

} // verus!
