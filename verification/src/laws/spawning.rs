//! What holds of requests to spawn: who gets a task, what is run for it, and what is refused.

use std::time::SystemTime;
use vstd::prelude::*;

use crate::clock::unix_millis_of;
use crate::json::{json_member, Json};
use crate::laws::next_id_is_fresh;
use crate::laws::words::{all_white, blank_is_all_white};
use crate::manager::{provider_failure, survivors, ManagerModel};
use crate::spawn::{request, request_of, spawn_schema, spawn_step, RequestModel, SpawnStep};
use crate::task::{ReplyCtxModel, SubagentStatus, TaskModel};
use crate::text::{decimal, joined, trimmed};
use crate::tool::ReplyModel;

verus! {

/// Whether `name` is the agent that a task for `agent_name` falls to: the one that is named, and
/// where none is, `worker`, or the first one where there is no `worker`.
pub open spec fn falls_to(m: ManagerModel, agent_name: Seq<char>, name: Seq<char>) -> bool {
    if !all_white(agent_name) {
        name == trimmed(agent_name)
    } else if m.agents.contains_key("worker"@) {
        name == "worker"@
    } else {
        m.agent_names.len() > 0 && name == m.agent_names[0]
    }
}

/// A task for an agent that is configured is registered under that agent, and run with its
/// configuration, whatever other agents there are.
pub proof fn named_agent_runs_the_task(
    m: ManagerModel,
    task: Seq<char>,
    label: Seq<char>,
    agent_name: Seq<char>,
    tools: Seq<Seq<char>>,
    gc_ms: i64,
    created_ms: i64,
)
    requires
        !all_white(task),
        !all_white(agent_name),
        m.agents.contains_key(trimmed(agent_name)),
    ensures
        ({
            let job = m.job(task, label, agent_name, tools);
            let after = m.after_spawn(task, label, agent_name, gc_ms, created_ms);
            &&& m.refusal(task, agent_name) is None
            &&& after.tasks.contains_key(job.task_id)
            &&& after.tasks[job.task_id].agent_name == trimmed(agent_name)
            &&& job.agent_name == trimmed(agent_name)
            &&& job.agent == m.agents[trimmed(agent_name)]
        }),
{
    blank_is_all_white(task);
    blank_is_all_white(agent_name);
}

/// A task falls to one agent: it is admitted, registered under that agent, and run with the
/// configuration and the tools of that agent.
pub proof fn admitted_task(
    m: ManagerModel,
    task: Seq<char>,
    label: Seq<char>,
    agent_name: Seq<char>,
    tools: Seq<Seq<char>>,
    gc_ms: i64,
    created_ms: i64,
    name: Seq<char>,
)
    requires
        m.inv(),
        !all_white(task),
        falls_to(m, agent_name, name),
        m.agents.contains_key(name),
    ensures
        m.refusal(task, agent_name) is None,
        ({
            let id = "subagent-"@ + decimal(m.next_id as nat);
            let job = m.job(task, label, agent_name, tools);
            let after = m.after_spawn(task, label, agent_name, gc_ms, created_ms);
            &&& job.task_id == id
            &&& job.agent_name == name
            &&& job.agent == m.agents[name]
            &&& job.tools == m.agents[name].granted(tools)
            &&& job.task == task
            &&& job.reply_ctx == m.reply_ctx
            &&& after.tasks.contains_key(id)
            &&& after.tasks[id] == (TaskModel {
                id,
                task,
                label,
                agent_name: name,
                status: SubagentStatus::Running,
                result: Seq::empty(),
                created: created_ms,
            })
            &&& after.order.len() > 0 && after.order.last() == id
            &&& after.order.drop_last() == m.cleaned(gc_ms).order
            &&& m.next_id < u32::MAX ==> after.next_id == m.next_id + 1
        }),
{
    blank_is_all_white(task);
    blank_is_all_white(agent_name);
    if m.agent_names.len() == 0 {
        assert(m.agent_names.to_set().contains(name));
    }
    let after = m.after_spawn(task, label, agent_name, gc_ms, created_ms);
    assert(after.order.drop_last() =~= m.cleaned(gc_ms).order);
}

/// An agent's own key is the credential of its jobs, with or without a fallback; the fallback
/// serves the agents that have none.
pub proof fn own_key_comes_first(
    m: ManagerModel,
    task: Seq<char>,
    label: Seq<char>,
    agent_name: Seq<char>,
    tools: Seq<Seq<char>>,
)
    ensures
        ({
            let job = m.job(task, label, agent_name, tools);
            &&& job.agent.api_key is Some ==> job.credential == job.agent.api_key
            &&& job.agent.api_key is None ==> job.credential == m.fallback_credential
        }),
{
}

/// What a caller is told about a spawn names the task, the label where there is one, and the
/// agent that runs it, and says how to ask for it.
pub proof fn spawn_is_announced(
    m: ManagerModel,
    task: Seq<char>,
    label: Seq<char>,
    agent_name: Seq<char>,
    tools: Seq<Seq<char>>,
)
    ensures
        ({
            let job = m.job(task, label, agent_name, tools);
            job.display == "Spawned background subagent '"@ + job.task_id + (if label
                == Seq::<char>::empty() {
                "' (agent: "@
            } else {
                "' label=\""@ + label + "\" (agent: "@
            }) + job.agent_name + "). Use spawn_status tool to check progress."@
        }),
{
    let job = m.job(task, label, agent_name, tools);
    if label.len() == 0 {
        assert(label =~= Seq::empty());
    } else {
        assert("Spawned background subagent '"@ + job.task_id + ("' label=\""@ + label
            + "\" (agent: "@) =~= "Spawned background subagent '"@ + job.task_id + "' label=\""@
            + label + "\" (agent: "@);
    }
}

/// A request is refused where there is nothing to do, where there are no agents to choose from, or
/// where the named agent does not exist, and nowhere else; the answer says which.
pub proof fn refusals(m: ManagerModel, task: Seq<char>, agent_name: Seq<char>)
    requires
        m.inv(),
    ensures
        all_white(task) ==> m.refusal(task, agent_name) == Some(
            "task is required and must be a non-empty string"@,
        ),
        !all_white(task) && all_white(agent_name) ==> m.refusal(task, agent_name) == if m.agents.dom()
            == Set::<Seq<char>>::empty() {
            Some("No delegate agents configured for spawn"@)
        } else {
            None
        },
        !all_white(task) && !all_white(agent_name) ==> m.refusal(task, agent_name)
            == if m.agents.contains_key(trimmed(agent_name)) {
            None
        } else {
            Some(
                "Unknown agent '"@ + trimmed(agent_name) + "'. Available: "@ + if m.agents.dom()
                    == Set::<Seq<char>>::empty() {
                    "(none)"@
                } else {
                    joined(m.agent_names, ", "@)
                },
            )
        },
{
    blank_is_all_white(task);
    blank_is_all_white(agent_name);
    if m.agent_names.len() > 0 {
        assert(m.agent_names.to_set().contains(m.agent_names[0]));
    } else {
        assert(m.agent_names.to_set() =~= Set::<Seq<char>>::empty());
        assert(!m.agents.dom().contains("worker"@));
    }
}

/// Whether `task` is left alone by a clean-up at the time `now_ms`: it runs, or is at most ten
/// minutes old.
pub open spec fn is_left(task: TaskModel, now_ms: i64) -> bool {
    task.status == SubagentStatus::Running || now_ms.wrapping_sub(task.created) <= 10 * 60 * 1000
}

/// A clean-up removes the ended tasks that are more than ten minutes old, one and all; the others
/// stay as they are, in their order, and so does everything else.
pub proof fn cleanup_task_by_task(m: ManagerModel, now_ms: i64, id: Seq<char>)
    ensures
        m.cleaned(now_ms).tasks.contains_key(id) <==> m.tasks.contains_key(id) && is_left(
            m.tasks[id],
            now_ms,
        ),
        m.cleaned(now_ms).tasks.contains_key(id) ==> m.cleaned(now_ms).tasks[id] == m.tasks[id],
        m.cleaned(now_ms).order == m.order.filter(
            |k: Seq<char>| m.tasks.contains_key(k) && is_left(m.tasks[k], now_ms),
        ),
        m.cleaned(now_ms).next_id == m.next_id,
        m.cleaned(now_ms).agents == m.agents,
        m.cleaned(now_ms).agent_names == m.agent_names,
        m.cleaned(now_ms).fallback_credential == m.fallback_credential,
        m.cleaned(now_ms).reply_ctx == m.reply_ctx,
{
    let kept = survivors(m.tasks, now_ms);
    let a = |k: Seq<char>| kept.contains_key(k);
    let b = |k: Seq<char>| m.tasks.contains_key(k) && is_left(m.tasks[k], now_ms);
    assert(a =~= b);
}

/// A request to spawn changes nothing where there is no task to do. Otherwise it cleans up; all
/// that it does beyond that is to add the new task, where it is admitted.
pub proof fn spawn_adds_one_task(
    m: ManagerModel,
    task: Seq<char>,
    label: Seq<char>,
    agent_name: Seq<char>,
    gc_ms: i64,
    created_ms: i64,
    id: Seq<char>,
)
    requires
        m.inv(),
    ensures
        ({
            let after = m.after_spawn(task, label, agent_name, gc_ms, created_ms);
            let new_id = "subagent-"@ + decimal(m.next_id as nat);
            &&& all_white(task) ==> after == m
            &&& !all_white(task) && m.refusal(task, agent_name) is Some ==> after == m.cleaned(
                gc_ms,
            )
            &&& !all_white(task) && m.refusal(task, agent_name) is None ==> {
                &&& !m.tasks.contains_key(new_id)
                &&& after.tasks.remove(new_id) == m.cleaned(gc_ms).tasks
                &&& after.agents == m.agents
                &&& after.agent_names == m.agent_names
                &&& after.fallback_credential == m.fallback_credential
                &&& after.reply_ctx == m.reply_ctx
            }
        }),
{
    blank_is_all_white(task);
    next_id_is_fresh(m);
    let after = m.after_spawn(task, label, agent_name, gc_ms, created_ms);
    if !all_white(task) && m.refusal(task, agent_name) is None {
        assert(after.tasks.remove(m.next_task_id()) =~= m.cleaned(gc_ms).tasks);
    }
}

proof fn lemma_others(order: Seq<Seq<char>>, id: Seq<char>)
    ensures
        !order.contains(id) ==> order.filter(|k: Seq<char>| k != id) == order,
    decreases order.len(),
{
    reveal(Seq::filter);
    if order.len() > 0 && !order.contains(id) {
        let init = order.drop_last();
        assert forall|i: int| 0 <= i < init.len() implies init[i] != id by {
            assert(order[i] == init[i]);
        }
        lemma_others(init, id);
        assert(order[order.len() - 1] == order.last());
        assert(init.push(order.last()) =~= order);
    }
}

/// Taking a task out takes out that one and no other, and nothing else changes.
pub proof fn removal_of_one_task(m: ManagerModel, id: Seq<char>, other: Seq<char>)
    requires
        m.inv(),
        other != id,
    ensures
        !m.without(id).tasks.contains_key(id),
        m.without(id).tasks.contains_key(other) <==> m.tasks.contains_key(other),
        m.tasks.contains_key(other) ==> m.without(id).tasks[other] == m.tasks[other],
        !m.without(id).order.contains(id),
        m.without(id).order.contains(other) <==> m.order.contains(other),
        m.without(id).order == m.order.filter(|k: Seq<char>| k != id),
        m.without(id).next_id == m.next_id,
        m.without(id).agents == m.agents,
        m.without(id).agent_names == m.agent_names,
        m.without(id).fallback_credential == m.fallback_credential,
        m.without(id).reply_ctx == m.reply_ctx,
{
    m.order.index_of_first_ensures(id);
    lemma_others(m.order, id);
    if m.order.contains(id) {
        let i = m.order.index_of_first(id).unwrap();
        let rest = m.order.remove(i);
        let front = m.order.take(i);
        let back = m.order.skip(i + 1);
        let others = |k: Seq<char>| k != id;
        assert(m.order =~= front + seq![id] + back);
        assert(rest =~= front + back);
        Seq::filter_distributes_over_add(front + seq![id], back, others);
        Seq::filter_distributes_over_add(front, seq![id], others);
        assert(!front.contains(id));
        if back.contains(id) {
            let j = back.index_of(id);
            assert(m.order[i + 1 + j] == m.order[i]);
        }
        lemma_others(front, id);
        lemma_others(back, id);
        assert(seq![id].filter(others) =~= Seq::empty()) by {
            reveal(Seq::filter);
            assert(seq![id].drop_last() =~= Seq::empty());
        }
        if rest.contains(id) {
            let j = rest.index_of(id);
            let k = if j < i {
                j
            } else {
                j + 1
            };
            assert(m.order[k] == m.order[i]);
        }
        if rest.contains(other) {
            let j = rest.index_of(other);
            let k = if j < i {
                j
            } else {
                j + 1
            };
            assert(m.order[k] == other);
        }
        if m.order.contains(other) {
            let k = m.order.index_of(other);
            let j = if k < i {
                k
            } else {
                k - 1
            };
            assert(rest[j] == other);
        }
    }
}

/// A refusal because of the provider names it and gives the reason.
pub proof fn provider_failure_is_explained(provider: Seq<char>, reason: Seq<char>)
    ensures
        provider_failure(provider, reason) == "Failed to create provider '"@ + provider + "': "@
            + reason,
{
}

/// Where results are to go changes by itself: no task, agent or number changes with it.
pub proof fn addressing_changes_nothing_else(m: ManagerModel, ctx: Option<ReplyCtxModel>)
    ensures
        m.addressed(ctx) == (ManagerModel { reply_ctx: ctx, ..m }),
{
}

/// What a document says under `name` is the argument, without the white space around it; anything
/// but a text there is as good as nothing.
pub open spec fn is_argument(
    members: Map<Seq<char>, Json>,
    name: Seq<char>,
    value: Seq<char>,
) -> bool {
    if members.contains_key(name) && members[name] is Text {
        value == trimmed(members[name]->Text_0)
    } else {
        value == Seq::<char>::empty()
    }
}

/// A request is made of what stands under `task`, `label`, `agent` and `wait`, each by itself. It
/// waits unless `wait` is false.
pub proof fn request_argument_by_argument(members: Map<Seq<char>, Json>, args: Json)
    ensures
        ({
            let made = request_of(Json::Object(members));
            &&& is_argument(members, "task"@, made.task)
            &&& is_argument(members, "label"@, made.label)
            &&& is_argument(members, "agent"@, made.agent)
            &&& made.wait <==> !(members.contains_key("wait"@) && members["wait"@] == Json::Bool(
                false,
            ))
        }),
        !(args is Object) ==> request_of(args) == (RequestModel {
            task: Seq::empty(),
            label: Seq::empty(),
            agent: Seq::empty(),
            wait: true,
        }),
{
}

/// A request that is made of single arguments keeps them apart: each is trimmed, and empty where it
/// is missing. It waits unless it says not to.
pub proof fn request_of_single_arguments(
    task: Option<Seq<char>>,
    label: Option<Seq<char>>,
    agent: Option<Seq<char>>,
    wait: Option<bool>,
)
    ensures
        ({
            let made = request(task, label, agent, wait);
            &&& made.task == trimmed(task.unwrap_or(Seq::empty()))
            &&& made.label == trimmed(label.unwrap_or(Seq::empty()))
            &&& made.agent == trimmed(agent.unwrap_or(Seq::empty()))
            &&& made.wait <==> wait != Some(false)
        }),
{
    blank_is_all_white(Seq::empty());
    assert(trimmed(Seq::empty()) =~= Seq::<char>::empty());
}

/// What comes of a request is what comes of a spawn with its arguments: the answer to a refusal is
/// a failure that says why, and the job of an admitted task is launched, waited for as asked.
pub proof fn request_becomes_a_spawn(
    before: ManagerModel,
    after: ManagerModel,
    request: RequestModel,
    tools: Seq<Seq<char>>,
    step: SpawnStep,
)
    requires
        spawn_step(before, after, request, tools, step),
    ensures
        before.refusal(request.task, request.agent) matches Some(refusal) ==> {
            &&& step is Reply
            &&& step->Reply_0@ == (ReplyModel {
                success: false,
                output: Seq::empty(),
                error: Some(refusal),
            })
        },
        before.refusal(request.task, request.agent) is None ==> {
            &&& step is Launch
            &&& step->job@ == before.job(request.task, request.label, request.agent, tools)
            &&& step->wait == request.wait
        },
        exists|gc: SystemTime, created: SystemTime|
            after == before.after_spawn(
                request.task,
                request.label,
                request.agent,
                #[trigger] unix_millis_of(gc),
                #[trigger] unix_millis_of(created),
            ),
{
}

/// Whether `schema` describes `name` as a parameter of type `kind`, with the given description.
pub open spec fn describes(
    schema: Json,
    name: Seq<char>,
    kind: Seq<char>,
    description: Seq<char>,
) -> bool {
    match json_member(schema, "properties"@) {
        Some(properties) => match json_member(properties, name) {
            Some(parameter) => json_member(parameter, "type"@) == Some(Json::Text(kind))
                && json_member(parameter, "description"@) == Some(Json::Text(description)),
            None => false,
        },
        None => false,
    }
}

/// The schema of the `spawn` tool describes each of its arguments, and names every agent there is
/// to choose from.
pub proof fn schema_describes_the_arguments(agents: Seq<Seq<char>>)
    ensures
        ({
            let schema = spawn_schema(agents);
            &&& json_member(schema, "type"@) == Some(Json::Text("object"@))
            &&& describes(schema, "task"@, "string"@, "The task for the subagent to complete"@)
            &&& json_member(
                json_member(json_member(schema, "properties"@).unwrap(), "task"@).unwrap(),
                "minLength"@,
            ) == Some(Json::Number(1))
            &&& describes(schema, "label"@, "string"@, "Optional short label for display"@)
            &&& agents.len() > 0 ==> describes(
                schema,
                "agent"@,
                "string"@,
                "Agent to use. Available: "@ + joined(agents, ", "@),
            )
            &&& agents.len() == 0 ==> describes(
                schema,
                "agent"@,
                "string"@,
                "Agent to use. Available: "@ + "(uses default)"@,
            )
            &&& describes(
                schema,
                "wait"@,
                "boolean"@,
                "Wait for completion and return result inline (default: true). Set false for fire-and-forget."@,
            )
        }),
{
    reveal_strlit("type");
    reveal_strlit("properties");
    reveal_strlit("required");
    reveal_strlit("description");
    reveal_strlit("minLength");
    reveal_strlit("task");
    reveal_strlit("label");
    reveal_strlit("agent");
    reveal_strlit("wait");
    assert("properties"@.len() == 10 && "required"@.len() == 8 && "type"@.len() == 4);
    assert("description"@.len() == 11 && "minLength"@.len() == 9);
    assert("task"@.len() == 4 && "wait"@.len() == 4 && "label"@.len() == 5 && "agent"@.len() == 5);
    assert("task"@[0] == 't' && "wait"@[0] == 'w');
    assert("label"@[0] == 'l' && "agent"@[0] == 'a');
}

} // verus!
