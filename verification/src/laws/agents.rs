//! What holds of delegate agents: the tools they get and how they run.

use vstd::prelude::*;

use crate::agent::AgentModel;
use crate::laws::granted_positions;
use crate::text::trimmed;

verus! {

/// Every entry of an allowlist counts, wherever it stands: the tool that it names is granted,
/// unless sub-agents could be started by it.
pub proof fn every_entry_counts(agent: AgentModel, i: int, name: Seq<char>)
    requires
        0 <= i < agent.allowed_tools.len(),
        trimmed(agent.allowed_tools[i]) == name,
        name.len() > 0,
        name != "delegate"@,
        name != "spawn"@,
    ensures
        agent.grants(name),
{
}

/// A wildcard counts wherever it stands: it grants every tool by which no sub-agents can be
/// started.
pub proof fn wildcard_counts_anywhere(agent: AgentModel, i: int, name: Seq<char>)
    requires
        0 <= i < agent.allowed_tools.len(),
        trimmed(agent.allowed_tools[i]) == "*"@,
        name != "delegate"@,
        name != "spawn"@,
    ensures
        agent.grants(name),
{
    reveal_strlit("*");
}

/// A tool that an agent with an allowlist gets is named by an entry, or there is a wildcard.
pub proof fn granted_tools_have_an_entry(agent: AgentModel, name: Seq<char>)
    requires
        agent.allowed_tools.len() > 0,
        agent.grants(name),
    ensures
        name != "delegate"@,
        name != "spawn"@,
        exists|i: int|
            0 <= i < agent.allowed_tools.len() && (trimmed(#[trigger] agent.allowed_tools[i])
                == "*"@ || (name.len() > 0 && trimmed(agent.allowed_tools[i]) == name)),
{
    if agent.lists("*"@) {
        let i = choose|i: int|
            0 <= i < agent.allowed_tools.len() && trimmed(#[trigger] agent.allowed_tools[i])
                == "*"@;
        assert(trimmed(agent.allowed_tools[i]) == "*"@);
    } else {
        let i = choose|i: int|
            0 <= i < agent.allowed_tools.len() && trimmed(#[trigger] agent.allowed_tools[i])
                == name;
        assert(trimmed(agent.allowed_tools[i]) == name);
    }
}

/// Without an allowlist an agent gets the tools for the shell, for files, for searching, for the
/// web and for memory, and no others.
pub proof fn tools_without_an_allowlist(agent: AgentModel, name: Seq<char>)
    requires
        agent.allowed_tools.len() == 0,
    ensures
        agent.grants(name) <==> seq![
            "shell"@,
            "file_read"@,
            "file_write"@,
            "file_edit"@,
            "glob_search"@,
            "content_search"@,
            "web_fetch"@,
            "web_search"@,
            "http_request"@,
            "memory_store"@,
            "memory_recall"@,
        ].contains(name),
{
    let basic = seq![
        "shell"@,
        "file_read"@,
        "file_write"@,
        "file_edit"@,
        "glob_search"@,
        "content_search"@,
        "web_fetch"@,
        "web_search"@,
        "http_request"@,
        "memory_store"@,
        "memory_recall"@,
    ];
    if agent.grants(name) {
        assert(basic[0] == name || basic[1] == name || basic[2] == name || basic[3] == name
            || basic[4] == name || basic[5] == name || basic[6] == name || basic[7] == name
            || basic[8] == name || basic[9] == name || basic[10] == name);
    }
}

/// The tools of an agent depend on its allowlist alone, and the order of the entries does not
/// matter: one whose entries are all found in another allowlist gets no tool that the other does
/// not grant.
pub proof fn more_entries_grant_more(less: AgentModel, more: AgentModel, name: Seq<char>)
    requires
        less.allowed_tools.len() > 0,
        forall|i: int|
            0 <= i < less.allowed_tools.len() ==> more.allowed_tools.contains(
                #[trigger] less.allowed_tools[i],
            ),
        less.grants(name),
    ensures
        more.grants(name),
{
    granted_tools_have_an_entry(less, name);
    let i = choose|i: int|
        0 <= i < less.allowed_tools.len() && (trimmed(#[trigger] less.allowed_tools[i]) == "*"@
            || (name.len() > 0 && trimmed(less.allowed_tools[i]) == name));
    let j = more.allowed_tools.index_of(less.allowed_tools[i]);
    assert(more.allowed_tools[j] == less.allowed_tools[i]);
    if trimmed(less.allowed_tools[i]) == "*"@ {
        wildcard_counts_anywhere(more, j, name);
    } else {
        every_entry_counts(more, j, name);
    }
}

/// Of the parent's tools an agent gets each one that is granted to it, by position, and in the
/// parent's order.
pub proof fn granted_one_by_one(agent: AgentModel, tools: Seq<Seq<char>>, p: usize)
    requires
        tools.len() <= usize::MAX,
    ensures
        agent.granted(tools).contains(p) <==> p < tools.len() && agent.grants(tools[p as int]),
        forall|i: int, j: int|
            0 <= i < j < agent.granted(tools).len() ==> agent.granted(tools)[i] < agent.granted(
                tools,
            )[j],
{
    granted_positions(agent, tools);
    let granted = agent.granted(tools);
    if granted.contains(p) {
        let i = granted.index_of(p);
        assert(granted[i] == p);
    }
}

/// A configured number of iterations holds; without one there are ten.
pub proof fn configured_iterations_hold(agent: AgentModel)
    ensures
        agent.max_iterations > 0 ==> agent.iterations() == agent.max_iterations,
        agent.max_iterations == 0 ==> agent.iterations() == 10,
{
}

/// A configured system prompt is what the sub-agent is told, even where it is empty; the prompts
/// of agents without one are the same.
pub proof fn configured_prompt_holds(agent: AgentModel, other: AgentModel)
    ensures
        agent.system_prompt matches Some(p) ==> agent.prompt() == p,
        agent.system_prompt is None && other.system_prompt is None ==> agent.prompt()
            == other.prompt(),
        agent.system_prompt is None ==> agent.prompt()
            == "You are a subagent. Complete the given task independently and report the result.\nYou have access to tools - use them as needed to complete your task.\nAfter completing the task, provide a clear summary of what was done."@,
{
}

} // verus!
