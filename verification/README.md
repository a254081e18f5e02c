# subagent_spawn

Background sub-agents for an agent that works with tools: a registry of spawned tasks, the `spawn`
tool that hands a task to a sub-agent, and the `spawn_status` tool that reports on them. The
library is verified with Verus.

* `src/manager.rs`: the registry. It admits tasks, records how they end, forgets old ones and
  answers questions about them. Its view, `ManagerModel`, is the state that all contracts speak of.
* `src/spawn.rs`, `src/spawn_status.rs`: the two tools.
* `src/listing.rs`: the order in which tasks are listed.
* `src/agent.rs`: agent configurations, and which tools a sub-agent gets.
* `src/task.rs`, `src/tool.rs`, `src/table.rs`, `src/text.rs`: tasks and their events, answers,
  tables by name, text.
* `src/json.rs`, `src/clock.rs`: JSON values and the system clock. The items that call `serde_json`
  and the standard library's clock, and whose contracts are not proved, are here; `src/text.rs`
  has two more, for trimming and comparing text.
* `src/laws.rs`: what holds of the registry and its tools as a whole.
* `app/`: locks, providers, model calls, timers and the broadcast of completion events around the
  library.

The registry takes `&mut self`: whoever shares it between threads puts a lock around it, as `app/`
does. Where a function has a `requires`, a caller that Verus does not see tests it first, or calls the
`try_execute` of the tool, which does.
