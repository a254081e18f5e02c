use std::sync::Arc;
use subagent_spawn::agent::{
    share_tools, ChatRole, DelegateAgentConfig, ToolArcRef, DEFAULT_SYSTEM_PROMPT,
};
use subagent_spawn::table::NameTable;
use subagent_spawn::text::{blank, join, push_decimal, push_signed_decimal, same_text};

fn config(agentic: bool, allowed: &[&str]) -> DelegateAgentConfig {
    DelegateAgentConfig {
        provider: "openrouter".to_string(),
        model: "m".to_string(),
        system_prompt: None,
        api_key: None,
        max_depth: 1,
        agentic,
        allowed_tools: names(allowed),
        max_iterations: 0,
    }
}

fn names(list: &[&str]) -> Vec<String> {
    list.iter().map(|n| n.to_string()).collect()
}

const BASIC: [&str; 11] = [
    "shell",
    "file_read",
    "file_write",
    "file_edit",
    "glob_search",
    "content_search",
    "web_fetch",
    "web_search",
    "http_request",
    "memory_store",
    "memory_recall",
];

#[test]
fn wildcard_grants_all_but_spawning_tools() {
    let agent = config(true, &["*"]);
    let tools = names(&["delegate", "shell", "spawn", "custom", "spawn_status"]);
    assert_eq!(agent.granted_tools(&tools), vec![1, 3, 4]);
    assert_eq!(config(false, &["*"]).granted_tools(&tools), vec![1, 3, 4]);
    assert_eq!(config(true, &["shell", " * "]).granted_tools(&tools), vec![1, 3, 4]);
}

#[test]
fn allowlist_grants_only_listed_tools() {
    let agent = config(true, &[" shell ", "web_fetch", "", "spawn"]);
    assert!(agent.grants("shell"));
    assert!(agent.grants("web_fetch"));
    assert!(!agent.grants("file_read"));
    assert!(!agent.grants("spawn"));
    assert!(!agent.grants(""));
    assert!(!agent.grants("delegate"));
    let limited = config(false, &["shell"]);
    assert_eq!(limited.granted_tools(&names(&["shell", "file_read"])), vec![0]);
    let blank = config(true, &[" ", ""]);
    assert!(!blank.grants("shell"));
    assert!(!blank.grants(""));
}

#[test]
fn basic_tools_without_an_allowlist() {
    for agent in [config(true, &[]), config(false, &[])] {
        for name in BASIC {
            assert!(agent.grants(name));
        }
        for name in ["spawn", "delegate", "custom", "", "spawn_status"] {
            assert!(!agent.grants(name));
        }
    }
}

#[test]
fn iterations_default() {
    let mut agent = config(true, &[]);
    assert_eq!(agent.iterations(), 10);
    agent.max_iterations = 100;
    assert_eq!(agent.iterations(), 100);
}

#[test]
fn history_starts_with_the_role_and_the_task() {
    let mut agent = config(true, &[]);
    let history = agent.initial_history("dig".to_string());
    assert_eq!(history.len(), 2);
    assert_eq!(history[0].role, ChatRole::System);
    assert_eq!(history[0].content, DEFAULT_SYSTEM_PROMPT);
    assert_eq!(
        history[0].content,
        "You are a subagent. Complete the given task independently and report the result.\n\
         You have access to tools - use them as needed to complete your task.\n\
         After completing the task, provide a clear summary of what was done."
    );
    assert_eq!(history[1].role, ChatRole::User);
    assert_eq!(history[1].content, "dig");
    agent.system_prompt = Some("You dig.".to_string());
    assert_eq!(agent.initial_history(String::new())[0].content, "You dig.");
}

#[test]
fn shared_tools_are_the_tools() {
    let tools: Vec<Arc<str>> = vec![Arc::from("a"), Arc::from("b"), Arc::from("c")];
    let shared = share_tools(&tools, &vec![2, 0]);
    assert_eq!(shared.len(), 2);
    assert!(Arc::ptr_eq(shared[0].inner(), &tools[2]));
    assert!(Arc::ptr_eq(shared[1].inner(), &tools[0]));
    let one = ToolArcRef::new(tools[1].clone());
    assert!(Arc::ptr_eq(one.inner(), &tools[1]));
}

#[test]
fn table_keeps_names_apart() {
    let mut table: NameTable<u32> = NameTable::new();
    table.insert("a".to_string(), 1);
    table.insert("b".to_string(), 2);
    table.insert("c".to_string(), 3);
    table.insert("b".to_string(), 4);
    assert_eq!(table.len(), 3);
    assert_eq!(table.name_list(), names(&["a", "b", "c"]));
    assert_eq!(table.get("b"), Some(&4));
    assert_eq!(table.get("d"), None);
    assert!(table.contains("a"));
    table.remove("a");
    table.remove("d");
    assert!(!table.contains("a"));
    assert_eq!(table.name_at(0), "b");
    assert_eq!(*table.value_at(1), 3);
    table.remove_at(0);
    assert_eq!(table.name_list(), names(&["c"]));
}

#[test]
fn white_space_is_unicode_white_space() {
    for c in [
        '\u{9}', '\u{a}', '\u{b}', '\u{c}', '\u{d}', ' ', '\u{85}', '\u{a0}', '\u{1680}', '\u{2000}',
        '\u{200a}', '\u{2028}', '\u{2029}', '\u{202f}', '\u{205f}', '\u{3000}',
    ] {
        assert!(blank(&c.to_string()));
    }
    for c in ['a', '\u{8}', '\u{e}', '\u{200b}', '\u{180e}', '\u{feff}'] {
        assert!(!blank(&c.to_string()));
    }
}

#[test]
fn text_helpers() {
    assert!(same_text("ä", "ä"));
    assert!(!same_text("ä", "a"));
    assert_eq!(join(&names(&[]), ", "), "");
    assert_eq!(join(&names(&["a"]), ", "), "a");
    assert_eq!(join(&names(&["a", "b", "c"]), ", "), "a, b, c");
    let mut out = "n=".to_string();
    push_decimal(&mut out, u64::MAX);
    assert_eq!(out, "n=18446744073709551615");
    let mut out = String::new();
    push_signed_decimal(&mut out, -120);
    assert_eq!(out, "-120");
}
