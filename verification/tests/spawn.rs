use serde_json::Value;
use std::sync::Arc;
use subagent_spawn::agent::DelegateAgentConfig;
use subagent_spawn::manager::{deadline_passed, SpawnJob, SubagentManager, WaitStep};
use subagent_spawn::spawn::{LaunchStep, SpawnRequest, SpawnStep, SpawnTool};
use subagent_spawn::table::NameTable;
use subagent_spawn::task::{RunOutcome, SpawnReplyCtx, SubagentStatus, SubagentTask};

fn config(provider: &str, api_key: Option<&str>) -> DelegateAgentConfig {
    DelegateAgentConfig {
        provider: provider.to_string(),
        model: "llama3".to_string(),
        system_prompt: Some("You are a research assistant.".to_string()),
        api_key: api_key.map(|k| k.to_string()),
        max_depth: 3,
        agentic: true,
        allowed_tools: vec!["shell".to_string(), "file_read".to_string()],
        max_iterations: 5,
    }
}

fn empty_agents() -> Arc<NameTable<DelegateAgentConfig>> {
    Arc::new(NameTable::new())
}

fn agents(names: &[&str]) -> Arc<NameTable<DelegateAgentConfig>> {
    let mut table = NameTable::new();
    for name in names {
        table.insert(name.to_string(), config("ollama", None));
    }
    Arc::new(table)
}

fn sample_agents() -> Arc<NameTable<DelegateAgentConfig>> {
    agents(&["researcher"])
}

fn make_manager(agents: Arc<NameTable<DelegateAgentConfig>>) -> SubagentManager {
    SubagentManager::new(agents, None)
}

fn spawn(manager: &mut SubagentManager, task: &str, label: &str, agent: &str) -> Result<SpawnJob, String> {
    manager.spawn(task.to_string(), label.to_string(), agent.to_string(), &Vec::new())
}

fn spawn_at(manager: &mut SubagentManager, task: &str, gc_ms: i64, created_ms: i64) -> SpawnJob {
    manager
        .spawn_at(task.to_string(), String::new(), String::new(), &Vec::new(), gc_ms, created_ms)
        .ok()
        .unwrap()
}

fn ids(list: Vec<SubagentTask>) -> Vec<String> {
    list.into_iter().map(|t| t.id).collect()
}

fn parse(text: &str) -> Value {
    serde_json::from_str(text).unwrap()
}

fn tool_names(names: &[&str]) -> Vec<String> {
    names.iter().map(|n| n.to_string()).collect()
}

#[test]
fn spawn_tool_name_and_schema() {
    let manager = make_manager(sample_agents());
    let tool = SpawnTool::new(&manager);
    assert_eq!(tool.name(), "spawn");
    let schema = tool.parameters_schema();
    assert!(schema["properties"]["task"].is_object());
    assert!(schema["properties"]["label"].is_object());
    assert!(schema["properties"]["agent"].is_object());
    assert!(schema["properties"]["wait"].is_object());
    let required = schema["required"].as_array().unwrap();
    assert_eq!(required.len(), 1);
    assert!(required.contains(&Value::String("task".to_string())));
}

#[test]
fn spawn_tool_schema_in_full() {
    let tool = SpawnTool::new(&make_manager(agents(&["worker", "researcher"])));
    let expected = parse(
        r#"{
            "type": "object",
            "properties": {
                "task": {
                    "type": "string",
                    "minLength": 1,
                    "description": "The task for the subagent to complete"
                },
                "label": {
                    "type": "string",
                    "description": "Optional short label for display"
                },
                "agent": {
                    "type": "string",
                    "description": "Agent to use. Available: worker, researcher"
                },
                "wait": {
                    "type": "boolean",
                    "description": "Wait for completion and return result inline (default: true). Set false for fire-and-forget."
                }
            },
            "required": ["task"]
        }"#,
    );
    assert_eq!(tool.parameters_schema(), expected);
}

#[test]
fn spawn_tool_schema_without_agents() {
    let tool = SpawnTool::new(&make_manager(empty_agents()));
    assert_eq!(
        tool.parameters_schema()["properties"]["agent"]["description"],
        Value::String("Agent to use. Available: (uses default)".to_string())
    );
}

#[test]
fn spawn_tool_description_not_empty() {
    let manager = make_manager(sample_agents());
    let tool = SpawnTool::new(&manager);
    assert!(!tool.description().is_empty());
    assert!(tool.description().contains("background"));
}

#[test]
fn spawn_empty_task_returns_error() {
    let mut manager = make_manager(sample_agents());
    let result = spawn(&mut manager, "", "", "");
    assert!(result.is_err());
    assert!(result.err().unwrap().contains("required"));
}

#[test]
fn spawn_unknown_agent_returns_error() {
    let mut manager = make_manager(sample_agents());
    let result = spawn(&mut manager, "test task", "", "nonexistent");
    assert!(result.is_err());
    assert!(result.err().unwrap().contains("Unknown agent"));
}

#[test]
fn spawn_no_agents_returns_error() {
    let mut manager = make_manager(empty_agents());
    let result = spawn(&mut manager, "test task", "", "");
    assert!(result.is_err());
    assert!(result.err().unwrap().contains("No delegate agents"));
}

#[test]
fn list_tasks_empty() {
    let manager = make_manager(sample_agents());
    assert!(manager.list_tasks().is_empty());
}

#[test]
fn get_task_not_found() {
    let manager = make_manager(sample_agents());
    assert!(manager.get_task("subagent-999").is_none());
}

#[test]
fn task_status_display() {
    assert_eq!(SubagentStatus::Running.to_string(), "running");
    assert_eq!(SubagentStatus::Completed.to_string(), "completed");
    assert_eq!(SubagentStatus::Failed.to_string(), "failed");
    assert_eq!(SubagentStatus::Canceled.to_string(), "canceled");
}

#[test]
fn refusals_in_full() {
    let mut manager = make_manager(agents(&["worker", "researcher"]));
    assert_eq!(
        spawn(&mut manager, " \n\t\u{3000}", "", "").err().unwrap(),
        "task is required and must be a non-empty string"
    );
    assert_eq!(
        spawn(&mut manager, "t", "", " nobody ").err().unwrap(),
        "Unknown agent 'nobody'. Available: worker, researcher"
    );
    let mut manager = make_manager(empty_agents());
    assert_eq!(
        spawn(&mut manager, "t", "", "nobody").err().unwrap(),
        "Unknown agent 'nobody'. Available: (none)"
    );
    assert_eq!(
        spawn(&mut manager, "t", "", "  ").err().unwrap(),
        "No delegate agents configured for spawn"
    );
}

#[test]
fn spawned_task_is_running_and_found() {
    let mut manager = make_manager(sample_agents());
    let job = manager
        .spawn_at("dig".to_string(), "l".to_string(), " researcher\n".to_string(), &Vec::new(), 0, 42)
        .ok()
        .unwrap();
    assert_eq!(job.task_id, "subagent-1");
    assert_eq!(job.task, "dig");
    assert_eq!(job.agent.provider, "ollama");
    assert_eq!(
        job.display,
        "Spawned background subagent 'subagent-1' label=\"l\" (agent: researcher). \
         Use spawn_status tool to check progress."
    );
    let task = manager.get_task("subagent-1").unwrap();
    assert_eq!(task.id, "subagent-1");
    assert_eq!(task.task, "dig");
    assert_eq!(task.label, "l");
    assert_eq!(task.agent_name, "researcher");
    assert_eq!(task.status, SubagentStatus::Running);
    assert_eq!(task.result, "");
    assert_eq!(task.created, 42);
}

#[test]
fn display_without_a_label() {
    let mut manager = make_manager(sample_agents());
    let job = spawn(&mut manager, "dig", "", "").ok().unwrap();
    assert_eq!(
        job.display,
        "Spawned background subagent 'subagent-1' (agent: researcher). \
         Use spawn_status tool to check progress."
    );
}

#[test]
fn spawn_reads_the_clock() {
    let before = std::time::SystemTime::now()
        .duration_since(std::time::UNIX_EPOCH)
        .unwrap()
        .as_millis() as i64;
    let mut manager = make_manager(sample_agents());
    spawn(&mut manager, "dig", "", "").ok().unwrap();
    let created = manager.get_task("subagent-1").unwrap().created;
    assert!(created >= before);
    assert!(created < before + 60_000);
}

#[test]
fn default_agent_takes_unaddressed_tasks() {
    let mut manager = make_manager(agents(&["researcher", "worker"]));
    spawn(&mut manager, "dig", "", "").ok().unwrap();
    assert_eq!(manager.get_task("subagent-1").unwrap().agent_name, "worker");
    let mut manager = make_manager(agents(&["researcher", "writer"]));
    spawn(&mut manager, "dig", "", " ").ok().unwrap();
    assert_eq!(manager.get_task("subagent-1").unwrap().agent_name, "researcher");
}

#[test]
fn ids_count_up() {
    let mut manager = make_manager(sample_agents());
    for n in 1..=12 {
        let job = spawn(&mut manager, "dig", "", "").ok().unwrap();
        assert_eq!(job.task_id, format!("subagent-{n}"));
    }
    assert!(spawn(&mut manager, "dig", "", "nobody").is_err());
    assert_eq!(spawn(&mut manager, "dig", "", "").ok().unwrap().task_id, "subagent-13");
    assert_eq!(manager.list_tasks().len(), 13);
    assert!(manager.has_free_id());
}

#[test]
fn credential_falls_back() {
    let mut table = NameTable::new();
    table.insert("own".to_string(), config("openrouter", Some("own-key")));
    table.insert("none".to_string(), config("openrouter", None));
    let mut manager = SubagentManager::new(Arc::new(table), Some("shared-key".to_string()));
    let job = spawn(&mut manager, "t", "", "own").ok().unwrap();
    assert_eq!(job.credential, Some("own-key".to_string()));
    let job = spawn(&mut manager, "t", "", "none").ok().unwrap();
    assert_eq!(job.credential, Some("shared-key".to_string()));
    let mut manager = make_manager(sample_agents());
    assert_eq!(spawn(&mut manager, "t", "", "").ok().unwrap().credential, None);
}

#[test]
fn job_has_the_granted_tools() {
    let mut manager = make_manager(sample_agents());
    let tools = tool_names(&["spawn", "shell", "web_fetch", "file_read"]);
    let job = manager.spawn("t".to_string(), String::new(), String::new(), &tools).ok().unwrap();
    assert_eq!(job.tools, vec![1, 3]);
}

#[test]
fn allowlist_holds_for_every_agent() {
    let mut plain = config("ollama", None);
    plain.agentic = false;
    plain.allowed_tools = vec!["shell".to_string()];
    let mut table = NameTable::new();
    table.insert("plain".to_string(), plain);
    let mut manager = make_manager(Arc::new(table));
    let tools = tool_names(&["shell", "file_read"]);
    let job = manager.spawn("t".to_string(), String::new(), String::new(), &tools).ok().unwrap();
    assert_eq!(job.tools, vec![0]);
}

#[test]
fn abandoned_spawn_leaves_no_trace() {
    let mut manager = make_manager(sample_agents());
    let kept = spawn(&mut manager, "a", "", "").ok().unwrap();
    let job = spawn(&mut manager, "b", "", "").ok().unwrap();
    let refusal = manager.abandon_spawn(&job, "no key");
    assert_eq!(refusal, "Failed to create provider 'ollama': no key");
    assert!(manager.get_task(&job.task_id).is_none());
    assert!(manager.get_task(&kept.task_id).is_some());
    assert_eq!(spawn(&mut manager, "c", "", "").ok().unwrap().task_id, "subagent-3");
}

#[test]
fn finished_task_has_its_result() {
    let mut manager = make_manager(sample_agents());
    let outcomes = vec![
        (RunOutcome::Response("done".to_string()), SubagentStatus::Completed, "done"),
        (RunOutcome::Response(" \n".to_string()), SubagentStatus::Completed, "[Empty response]"),
        (RunOutcome::Response(" x ".to_string()), SubagentStatus::Completed, " x "),
        (RunOutcome::Error("boom".to_string()), SubagentStatus::Failed, "Error: boom"),
        (RunOutcome::TimedOut, SubagentStatus::Failed, "Timed out after 600s"),
    ];
    for (outcome, status, result) in outcomes {
        let other = spawn(&mut manager, "other", "", "").ok().unwrap();
        let job = spawn(&mut manager, "t", "lbl", "").ok().unwrap();
        let event = manager.finish_task(&job.task_id, outcome, job.reply_ctx).unwrap();
        assert_eq!(event.task_id, job.task_id);
        assert_eq!(event.label, "lbl");
        assert_eq!(event.status, status);
        assert_eq!(event.result, result);
        assert_eq!(event.reply_channel, None);
        assert_eq!(event.reply_target, None);
        assert_eq!(event.thread_ts, None);
        let task = manager.get_task(&job.task_id).unwrap();
        assert_eq!(task.status, status);
        assert_eq!(task.result, result);
        assert_eq!(task.task, "t");
        assert_eq!(manager.get_task(&other.task_id).unwrap().status, SubagentStatus::Running);
    }
}

#[test]
fn forgotten_task_is_not_reported() {
    let mut manager = make_manager(sample_agents());
    assert!(manager
        .finish_task("subagent-1", RunOutcome::Response("late".to_string()), None)
        .is_none());
    assert!(manager.list_tasks().is_empty());
}

#[test]
fn result_goes_where_the_task_came_from() {
    let mut manager = make_manager(sample_agents());
    manager.set_reply_context(Some(SpawnReplyCtx {
        channel_name: "telegram".to_string(),
        reply_target: "chat-7".to_string(),
        thread_ts: Some("12.5".to_string()),
    }));
    assert_eq!(manager.capture_reply_context().unwrap().channel_name, "telegram");
    let job = spawn(&mut manager, "t", "", "").ok().unwrap();
    manager.set_reply_context(Some(SpawnReplyCtx {
        channel_name: "discord".to_string(),
        reply_target: "other".to_string(),
        thread_ts: None,
    }));
    let event = manager
        .finish_task(&job.task_id, RunOutcome::Response("done".to_string()), job.reply_ctx)
        .unwrap();
    assert_eq!(event.reply_channel, Some("telegram".to_string()));
    assert_eq!(event.reply_target, Some("chat-7".to_string()));
    assert_eq!(event.thread_ts, Some("12.5".to_string()));
    manager.set_reply_context(None);
    assert!(manager.capture_reply_context().is_none());
}

#[test]
fn cleanup_removes_old_ended_tasks() {
    let mut manager = make_manager(sample_agents());
    let running = spawn_at(&mut manager, "a", 0, 0);
    let ended = spawn_at(&mut manager, "b", 0, 0);
    let failed = spawn_at(&mut manager, "c", 0, 1);
    manager.finish_task(&ended.task_id, RunOutcome::Response("x".to_string()), None);
    manager.finish_task(&failed.task_id, RunOutcome::TimedOut, None);
    manager.gc_completed_tasks_at(599_999);
    assert_eq!(manager.list_tasks().len(), 3);
    manager.gc_completed_tasks_at(600_000);
    assert_eq!(manager.list_tasks().len(), 3);
    manager.gc_completed_tasks_at(600_001);
    assert!(manager.get_task(&ended.task_id).is_none());
    assert!(manager.get_task(&failed.task_id).is_some());
    manager.gc_completed_tasks_at(600_001);
    assert_eq!(manager.list_tasks().len(), 2);
    manager.gc_completed_tasks_at(i64::MAX);
    assert_eq!(ids(manager.list_tasks()), vec![running.task_id]);
}

#[test]
fn cleanup_by_the_system_clock() {
    let mut manager = make_manager(sample_agents());
    let old = spawn_at(&mut manager, "a", 0, 0);
    manager.finish_task(&old.task_id, RunOutcome::TimedOut, None);
    let new = spawn(&mut manager, "b", "", "").ok().unwrap();
    assert!(manager.get_task(&old.task_id).is_none());
    manager.finish_task(&new.task_id, RunOutcome::TimedOut, None);
    manager.gc_completed_tasks();
    assert!(manager.get_task(&new.task_id).is_some());
}

#[test]
fn refused_spawns_clean_up_unless_there_is_no_task() {
    let mut manager = make_manager(sample_agents());
    let old = spawn_at(&mut manager, "a", 0, 0);
    manager.finish_task(&old.task_id, RunOutcome::TimedOut, None);
    assert!(spawn(&mut manager, "  ", "", "").is_err());
    assert!(manager.get_task(&old.task_id).is_some());
    assert!(spawn(&mut manager, "t", "", "nobody").is_err());
    assert!(manager.get_task(&old.task_id).is_none());
}

#[test]
fn tasks_are_listed_by_creation() {
    let mut manager = make_manager(sample_agents());
    spawn_at(&mut manager, "a", 0, 30);
    spawn_at(&mut manager, "b", 0, -5);
    spawn_at(&mut manager, "c", 0, 20);
    spawn_at(&mut manager, "d", 0, 30);
    spawn_at(&mut manager, "e", 0, 7);
    let created: Vec<i64> = manager.list_tasks().iter().map(|t| t.created).collect();
    assert_eq!(created, vec![-5, 7, 20, 30, 30]);
    for task in manager.list_tasks() {
        let found = manager.get_task(&task.id).unwrap();
        assert_eq!(found.task, task.task);
        assert_eq!(found.created, task.created);
    }
    let mut all = ids(manager.list_tasks());
    all.sort();
    assert_eq!(
        all,
        vec!["subagent-1", "subagent-2", "subagent-3", "subagent-4", "subagent-5"]
    );
}

#[test]
fn waiting_ends_with_the_task_or_the_deadline() {
    let mut manager = make_manager(sample_agents());
    let job = spawn(&mut manager, "t", "", "").ok().unwrap();
    assert!(matches!(manager.wait_for_task(&job.task_id, false), WaitStep::Sleep));
    match manager.wait_for_task(&job.task_id, true) {
        WaitStep::Done(Some(task)) => assert_eq!(task.status, SubagentStatus::Running),
        _ => panic!("the deadline has passed"),
    }
    assert!(matches!(manager.wait_for_task("subagent-9", false), WaitStep::Done(None)));
    manager.finish_task(&job.task_id, RunOutcome::Response("x".to_string()), None);
    match manager.wait_for_task(&job.task_id, false) {
        WaitStep::Done(Some(task)) => assert_eq!(task.result, "x"),
        _ => panic!("the task has ended"),
    }
}

#[test]
fn deadlines() {
    let timeout: u128 = 610_000_000_000;
    assert!(!deadline_passed(0, timeout));
    assert!(!deadline_passed(timeout - 1, timeout));
    assert!(deadline_passed(timeout, timeout));
    assert!(deadline_passed(timeout + 1, timeout));
    assert!(deadline_passed(0, 0));
}

#[test]
fn equally_old_tasks_are_listed_as_they_came_in() {
    let mut manager = make_manager(sample_agents());
    let first = spawn_at(&mut manager, "a", 0, 20);
    spawn_at(&mut manager, "b", 0, 10);
    let gone = spawn_at(&mut manager, "c", 0, 20);
    spawn_at(&mut manager, "d", 0, 10);
    spawn_at(&mut manager, "e", 0, 20);
    manager.finish_task(&first.task_id, RunOutcome::Response("x".to_string()), None);
    manager.abandon_spawn(&gone, "no key");
    let expected = ["subagent-2", "subagent-4", "subagent-1", "subagent-5"];
    assert_eq!(ids(manager.list_tasks()), expected);
    assert_eq!(ids(manager.list_tasks()), expected);
    manager.gc_completed_tasks_at(600_021);
    spawn_at(&mut manager, "f", 0, 10);
    assert_eq!(
        ids(manager.list_tasks()),
        ["subagent-2", "subagent-4", "subagent-6", "subagent-5"]
    );
}

#[test]
fn requests_from_arguments() {
    let request = SpawnRequest::from_args(&parse(
        r#"{"task": " dig \n", "label": "\t l ", "agent": " worker", "wait": false}"#,
    ));
    assert_eq!(request.task, "dig");
    assert_eq!(request.label, "l");
    assert_eq!(request.agent, "worker");
    assert!(!request.wait);
    let request = SpawnRequest::from_args(&parse(r#"{"task": 3, "label": null, "wait": "no"}"#));
    assert_eq!(request.task, "");
    assert_eq!(request.label, "");
    assert_eq!(request.agent, "");
    assert!(request.wait);
    let request = SpawnRequest::from_args(&parse(r#"["task"]"#));
    assert_eq!(request.task, "");
    assert!(request.wait);
}

#[test]
fn execute_refuses() {
    let mut manager = make_manager(sample_agents());
    let tool = SpawnTool::new(&manager);
    match tool.execute(&mut manager, &parse(r#"{"label": "x"}"#), &Vec::new()) {
        SpawnStep::Reply(reply) => {
            assert!(!reply.success);
            assert_eq!(reply.output, "");
            assert_eq!(
                reply.error,
                Some("task is required and must be a non-empty string".to_string())
            );
        }
        _ => panic!("there is no task"),
    }
    assert!(manager.list_tasks().is_empty());
}

#[test]
fn execute_launches() {
    let mut manager = make_manager(sample_agents());
    let tool = SpawnTool::new(&manager);
    let args = parse(r#"{"task": " dig ", "wait": false}"#);
    match tool.execute(&mut manager, &args, &tool_names(&["shell"])) {
        SpawnStep::Launch { job, wait } => {
            assert!(!wait);
            assert_eq!(job.task, "dig");
            assert_eq!(job.tools, vec![0]);
            match tool.launched(&mut manager, &job, wait, None) {
                LaunchStep::Reply(reply) => {
                    assert!(reply.success);
                    assert_eq!(reply.output, job.display);
                    assert_eq!(reply.error, None);
                }
                _ => panic!("the caller does not wait"),
            }
            assert!(manager.get_task(&job.task_id).is_some());
        }
        _ => panic!("the request is in order"),
    }
}

#[test]
fn try_execute_launches() {
    let mut manager = make_manager(sample_agents());
    let tool = SpawnTool::new(&manager);
    match tool.try_execute(&mut manager, &parse(r#"{"task": "dig"}"#), &Vec::new()) {
        Some(SpawnStep::Launch { job, wait }) => {
            assert!(wait);
            assert_eq!(job.task_id, "subagent-1");
            assert_eq!(job.agent_name, "researcher");
        }
        _ => panic!("the request is in order"),
    }
    assert_eq!(manager.refusal("dig", "researcher"), None);
    assert_eq!(
        manager.refusal("dig", "nobody"),
        Some("Unknown agent 'nobody'. Available: researcher".to_string())
    );
}

#[test]
fn failed_provider_is_answered() {
    let mut manager = make_manager(sample_agents());
    let tool = SpawnTool::new(&manager);
    match tool.execute(&mut manager, &parse(r#"{"task": "dig"}"#), &Vec::new()) {
        SpawnStep::Launch { job, wait } => {
            assert!(wait);
            match tool.launched(&mut manager, &job, wait, Some("no key".to_string())) {
                LaunchStep::Reply(reply) => {
                    assert!(!reply.success);
                    assert_eq!(reply.output, "");
                    assert_eq!(
                        reply.error,
                        Some("Failed to create provider 'ollama': no key".to_string())
                    );
                }
                _ => panic!("there is nothing to wait for"),
            }
            assert!(manager.list_tasks().is_empty());
        }
        _ => panic!("the request is in order"),
    }
}

#[test]
fn inline_result() {
    let mut manager = make_manager(sample_agents());
    let tool = SpawnTool::new(&manager);
    assert_eq!(tool.wait_timeout_secs(), 610);
    match tool.execute(&mut manager, &parse(r#"{"task": "dig"}"#), &Vec::new()) {
        SpawnStep::Launch { job, wait } => {
            assert!(matches!(
                tool.launched(&mut manager, &job, wait, None),
                LaunchStep::Wait
            ));
            let running = tool.waited(&job.task_id, manager.get_task(&job.task_id));
            assert!(!running.success);
            assert_eq!(running.output, "Subagent 'subagent-1' finished with status: running");
            assert_eq!(running.error, Some("Subagent status: running".to_string()));
            manager.finish_task(&job.task_id, RunOutcome::Response("gold".to_string()), None);
            let reply = tool.waited(&job.task_id, manager.get_task(&job.task_id));
            assert!(reply.success);
            assert_eq!(reply.output, "gold");
            assert_eq!(reply.error, None);
            manager.finish_task(&job.task_id, RunOutcome::Error("boom".to_string()), None);
            let reply = tool.waited(&job.task_id, manager.get_task(&job.task_id));
            assert!(!reply.success);
            assert_eq!(reply.output, "Error: boom");
            assert_eq!(reply.error, Some("Subagent status: failed".to_string()));
            let gone = tool.waited(&job.task_id, None);
            assert!(!gone.success);
            assert_eq!(gone.output, "");
            assert_eq!(
                gone.error,
                Some("Task 'subagent-1' disappeared during wait".to_string())
            );
        }
        _ => panic!("the request is in order"),
    }
}
