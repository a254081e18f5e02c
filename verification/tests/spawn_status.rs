use serde_json::Value;
use std::sync::Arc;
use std::time::{SystemTime, UNIX_EPOCH};
use subagent_spawn::agent::DelegateAgentConfig;
use subagent_spawn::manager::SubagentManager;
use subagent_spawn::spawn_status::{
    format_task_detail, format_task_detail_at, format_timestamp, format_timestamp_at,
    truncatable, truncate_str, SpawnStatusTool,
};
use subagent_spawn::table::NameTable;
use subagent_spawn::task::{RunOutcome, SubagentStatus, SubagentTask};

fn no_agents() -> SubagentManager {
    SubagentManager::new(Arc::new(NameTable::new()), None)
}

fn one_agent() -> SubagentManager {
    let mut table = NameTable::new();
    table.insert(
        "researcher".to_string(),
        DelegateAgentConfig {
            provider: "ollama".to_string(),
            model: "llama3".to_string(),
            system_prompt: None,
            api_key: None,
            max_depth: 3,
            agentic: true,
            allowed_tools: Vec::new(),
            max_iterations: 0,
        },
    );
    SubagentManager::new(Arc::new(table), None)
}

fn spawn_at(manager: &mut SubagentManager, task: &str, label: &str, created_ms: i64) -> String {
    manager
        .spawn_at(task.to_string(), label.to_string(), String::new(), &Vec::new(), 0, created_ms)
        .ok()
        .unwrap()
        .task_id
}

fn parse(text: &str) -> Value {
    serde_json::from_str(text).unwrap()
}

#[test]
fn spawn_status_tool_name_and_schema() {
    let tool = SpawnStatusTool::new();
    assert_eq!(tool.name(), "spawn_status");
    let schema = tool.parameters_schema();
    assert!(schema["properties"]["task_id"].is_object());
}

#[test]
fn spawn_status_schema_in_full() {
    let expected = parse(
        r#"{
            "type": "object",
            "properties": {
                "task_id": {
                    "type": "string",
                    "description": "Optional task ID to get specific status"
                }
            }
        }"#,
    );
    assert_eq!(SpawnStatusTool::new().parameters_schema(), expected);
    assert!(SpawnStatusTool::new().description().contains("lists all subagents"));
}

#[test]
fn spawn_status_no_tasks() {
    let manager = no_agents();
    let tool = SpawnStatusTool::new();
    let result = tool.execute(&manager, &parse("{}"));
    assert!(result.success);
    assert!(result.output.contains("No subagent tasks"));
}

#[test]
fn spawn_status_task_not_found() {
    let manager = no_agents();
    let tool = SpawnStatusTool::new();
    let result = tool.execute(&manager, &parse(r#"{"task_id": "subagent-999"}"#));
    assert!(!result.success);
    assert!(result.error.unwrap().contains("not found"));
}

#[test]
fn format_timestamp_seconds() {
    let now = SystemTime::now().duration_since(UNIX_EPOCH).unwrap().as_millis() as i64;
    let formatted = format_timestamp(now - 30_000);
    assert!(formatted.contains("30s ago"));
}

#[test]
fn format_timestamp_minutes() {
    let now = SystemTime::now().duration_since(UNIX_EPOCH).unwrap().as_millis() as i64;
    let formatted = format_timestamp(now - 120_000);
    assert!(formatted.contains("2m ago"));
}

#[test]
fn format_timestamp_units() {
    assert_eq!(format_timestamp_at(0, 0), "0s ago");
    assert_eq!(format_timestamp_at(1_999, 60), "59s ago");
    assert_eq!(format_timestamp_at(0, 60), "1m ago");
    assert_eq!(format_timestamp_at(0, 3_599), "59m ago");
    assert_eq!(format_timestamp_at(0, 3_600), "1h ago");
    assert_eq!(format_timestamp_at(0, 360_000), "100h ago");
    assert_eq!(format_timestamp_at(12_345, 2), "-10s ago");
    assert_eq!(format_timestamp_at(-1_500, 0), "1s ago");
    assert_eq!(format_timestamp_at(0, i64::MIN), "-9223372036854775808s ago");
}

#[test]
fn truncate_str_short() {
    assert_eq!(truncate_str("hello", 10), "hello");
}

#[test]
fn truncate_str_long() {
    assert_eq!(truncate_str("hello world", 5), "hello");
}

#[test]
fn truncate_str_edges() {
    assert_eq!(truncate_str("hello", 5), "hello");
    assert_eq!(truncate_str("hello", 0), "");
    assert_eq!(truncate_str("", 0), "");
    assert_eq!(truncate_str("aäb", 3), "aä");
    assert_eq!(truncate_str(truncate_str("aäb", 3), 3), "aä");
    assert!(truncatable("aäb", 3));
    assert!(!truncatable("aäb", 2));
    assert!(truncatable("aäb", 4));
    assert!(truncatable("aäb", 9));
}

#[test]
fn task_detail_in_full() {
    let mut task = SubagentTask {
        id: "subagent-3".to_string(),
        task: "dig for gold".to_string(),
        label: String::new(),
        agent_name: "researcher".to_string(),
        status: SubagentStatus::Running,
        result: String::new(),
        created: 5_000,
    };
    assert_eq!(
        format_task_detail_at(&task, 130),
        "Task: subagent-3\nLabel: (none)\nAgent: researcher\nStatus: running\n\
         Created: 2m ago\nOriginal task: dig for gold"
    );
    task.label = "gold".to_string();
    task.status = SubagentStatus::Completed;
    task.result = "none\nfound".to_string();
    assert_eq!(
        format_task_detail_at(&task, 10_000),
        "Task: subagent-3\nLabel: gold\nAgent: researcher\nStatus: completed\n\
         Created: 2h ago\nResult:\nnone\nfound\nOriginal task: dig for gold"
    );
    task.created = SystemTime::now().duration_since(UNIX_EPOCH).unwrap().as_millis() as i64;
    assert!(format_task_detail(&task).contains("Created: 0s ago"));
}

#[test]
fn status_of_one_task() {
    let mut manager = one_agent();
    let id = spawn_at(&mut manager, "dig", "gold", 0);
    let reply = SpawnStatusTool::new().detail(&manager, &id, 59);
    assert!(reply.success);
    assert_eq!(
        reply.output,
        "Task: subagent-1\nLabel: gold\nAgent: researcher\nStatus: running\n\
         Created: 59s ago\nOriginal task: dig"
    );
    assert_eq!(reply.error, None);
    let reply = SpawnStatusTool::new().execute(&manager, &parse(r#"{"task_id": " subagent-1\n"}"#));
    assert!(reply.success);
    assert!(reply.output.contains("Original task: dig"));
    for args in [r#"{"task_id": "subagent-2"}"#, r#"{"task_id": " subagent-2\t"}"#] {
        let reply = SpawnStatusTool::new().execute(&manager, &parse(args));
        assert!(!reply.success);
        assert_eq!(reply.output, "");
        assert_eq!(reply.error, Some("Task 'subagent-2' not found".to_string()));
    }
}

#[test]
fn status_of_all_tasks() {
    let mut manager = one_agent();
    let a = spawn_at(&mut manager, "a", "", 10);
    let b = spawn_at(&mut manager, "b", "second", 5);
    spawn_at(&mut manager, "c", "third", 20);
    manager.finish_task(&a, RunOutcome::Response("x".repeat(201)), None);
    manager.finish_task(&b, RunOutcome::Error("boom".to_string()), None);
    let tool = SpawnStatusTool::new();
    assert!(tool.can_overview(&manager));
    let expected = format!(
        "Subagent Tasks Summary: 3 total (1 running, 1 completed, 1 failed, 0 canceled)\n\n\
         - subagent-2 [second] (agent: researcher) — failed\n    Result: Error: boom\n\
         - subagent-1 (agent: researcher) — completed\n    Result: {}\n\
         - subagent-3 [third] (agent: researcher) — running\n",
        "x".repeat(200)
    );
    for args in ["{}", r#"{"task_id": "  "}"#, r#"{"task_id": 7}"#, "null"] {
        let reply = tool.execute(&manager, &parse(args));
        assert!(reply.success);
        assert_eq!(reply.output, expected);
        assert_eq!(reply.error, None);
    }
}

#[test]
fn questions_at_the_same_time_are_answered_alike() {
    let mut manager = one_agent();
    spawn_at(&mut manager, "a", "", 7_000);
    spawn_at(&mut manager, "b", "", 7_000);
    let tool = SpawnStatusTool::new();
    let all = tool.execute_at(&manager, &parse("{}"), 10).output;
    assert_eq!(
        all,
        "Subagent Tasks Summary: 2 total (2 running, 0 completed, 0 failed, 0 canceled)\n\n\
         - subagent-1 (agent: researcher) — running\n\
         - subagent-2 (agent: researcher) — running\n"
    );
    for args in ["{}", r#"{"task_id": " \n"}"#, r#"{"task_id": []}"#] {
        assert_eq!(tool.execute_at(&manager, &parse(args), 99).output, all);
        assert_eq!(tool.execute(&manager, &parse(args)).output, all);
    }
    let one = tool.execute_at(&manager, &parse(r#"{"task_id": "subagent-2"}"#), 10).output;
    assert!(one.contains("Created: 3s ago"));
    assert_eq!(
        tool.execute_at(&manager, &parse(r#"{"task_id": "\t subagent-2 "}"#), 10).output,
        one
    );
    let reply = tool.execute_at(&manager, &parse(r#"{"task_id": " subagent-999 "}"#), 10);
    assert_eq!(reply.error, Some("Task 'subagent-999' not found".to_string()));
}

#[test]
fn overview_needs_results_that_can_be_cut() {
    let mut manager = one_agent();
    let id = spawn_at(&mut manager, "a", "", 10);
    let tool = SpawnStatusTool::new();
    manager.finish_task(&id, RunOutcome::Response(format!("{}ä", "x".repeat(199))), None);
    assert!(!tool.can_overview(&manager));
    assert!(tool.try_execute(&manager, &parse("{}")).is_none());
    assert!(tool.try_execute(&manager, &parse(r#"{"task_id": "subagent-1"}"#)).unwrap().success);
    assert_eq!(tool.requested(&parse(r#"{"task_id": " subagent-1"}"#)), Some("subagent-1"));
    assert_eq!(tool.requested(&parse(r#"{"task_id": " "}"#)), None);
    manager.finish_task(&id, RunOutcome::Response(format!("{}ä", "x".repeat(198))), None);
    assert!(tool.can_overview(&manager));
    assert!(tool.try_execute(&manager, &parse("{}")).unwrap().success);
}
