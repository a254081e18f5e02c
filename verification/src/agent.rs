//! Delegate agents: their configuration, the tools they get and the messages they start from.

use std::sync::Arc;
use vstd::prelude::*;
use vstd::string::*;

use crate::text::{clone_opt, opt_text, same_text, texts, trimmed};

verus! {

/// Iterations of the tool loop where an agent's configuration sets none.
pub const DEFAULT_MAX_ITERATIONS: usize = 10;

/// What a sub-agent is told where its configuration has no system prompt.
pub const DEFAULT_SYSTEM_PROMPT: &'static str =
    "You are a subagent. Complete the given task independently and report the result.\nYou have access to tools - use them as needed to complete your task.\nAfter completing the task, provide a clear summary of what was done.";

/// Configuration of a delegate agent.
#[derive(Debug)]
pub struct DelegateAgentConfig {
    pub provider: String,
    pub model: String,
    pub system_prompt: Option<String>,
    pub api_key: Option<String>,
    pub max_depth: u32,
    pub agentic: bool,
    pub allowed_tools: Vec<String>,
    pub max_iterations: usize,
}

/// What a [`DelegateAgentConfig`] says.
#[verifier::ext_equal]
pub struct AgentModel {
    pub provider: Seq<char>,
    pub model: Seq<char>,
    pub system_prompt: Option<Seq<char>>,
    pub api_key: Option<Seq<char>>,
    pub max_depth: u32,
    pub agentic: bool,
    pub allowed_tools: Seq<Seq<char>>,
    pub max_iterations: usize,
}

impl View for DelegateAgentConfig {
    type V = AgentModel;

    open spec fn view(&self) -> AgentModel {
        AgentModel {
            provider: self.provider@,
            model: self.model@,
            system_prompt: opt_text(self.system_prompt),
            api_key: opt_text(self.api_key),
            max_depth: self.max_depth,
            agentic: self.agentic,
            allowed_tools: texts(self.allowed_tools@),
            max_iterations: self.max_iterations,
        }
    }
}

impl Clone for DelegateAgentConfig {
    fn clone(&self) -> (copy: Self)
        ensures
            copy@ == self@,
    {
        let copy = DelegateAgentConfig {
            provider: self.provider.clone(),
            model: self.model.clone(),
            system_prompt: clone_opt(&self.system_prompt),
            api_key: clone_opt(&self.api_key),
            max_depth: self.max_depth,
            agentic: self.agentic,
            allowed_tools: self.allowed_tools.clone(),
            max_iterations: self.max_iterations,
        };
        assert(copy@.allowed_tools =~= self@.allowed_tools);
        copy
    }
}

/// The tools that a sub-agent gets without an allowlist.
pub open spec fn is_basic_tool(name: Seq<char>) -> bool {
    ||| name == "shell"@
    ||| name == "file_read"@
    ||| name == "file_write"@
    ||| name == "file_edit"@
    ||| name == "glob_search"@
    ||| name == "content_search"@
    ||| name == "web_fetch"@
    ||| name == "web_search"@
    ||| name == "http_request"@
    ||| name == "memory_store"@
    ||| name == "memory_recall"@
}

/// The tools that would let a sub-agent start sub-agents of its own.
pub open spec fn is_spawning_tool(name: Seq<char>) -> bool {
    name == "delegate"@ || name == "spawn"@
}

impl AgentModel {
    /// Whether an entry of the allowlist, once trimmed, is `name`; blank entries name nothing.
    pub open spec fn lists(self, name: Seq<char>) -> bool {
        name.len() > 0 && exists|i: int|
            0 <= i < self.allowed_tools.len() && trimmed(#[trigger] self.allowed_tools[i]) == name
    }

    /// Whether the agent gets its tools by an allowlist, be it agentic or not.
    pub open spec fn has_allowlist(self) -> bool {
        self.allowed_tools.len() > 0
    }

    /// Whether the agent gets the tool `name` from its parent.
    pub open spec fn grants(self, name: Seq<char>) -> bool {
        if self.has_allowlist() {
            (self.lists("*"@) || self.lists(name)) && !is_spawning_tool(name)
        } else {
            is_basic_tool(name)
        }
    }

    /// The positions in `tools` of those that the agent gets, in ascending order.
    pub open spec fn granted(self, tools: Seq<Seq<char>>) -> Seq<usize>
        decreases tools.len(),
    {
        if tools.len() == 0 {
            Seq::empty()
        } else {
            let before = self.granted(tools.drop_last());
            if self.grants(tools.last()) {
                before.push((tools.len() - 1) as usize)
            } else {
                before
            }
        }
    }

    /// What the sub-agent is told about its role.
    pub open spec fn prompt(self) -> Seq<char> {
        match self.system_prompt {
            Some(p) => p,
            None => DEFAULT_SYSTEM_PROMPT@,
        }
    }

    /// How often the tool loop may run.
    pub open spec fn iterations(self) -> usize {
        if self.max_iterations == 0 {
            DEFAULT_MAX_ITERATIONS
        } else {
            self.max_iterations
        }
    }
}

fn basic_tool(name: &str) -> (basic: bool)
    ensures
        basic == is_basic_tool(name@),
{
    same_text(name, "shell") || same_text(name, "file_read") || same_text(name, "file_write")
        || same_text(name, "file_edit") || same_text(name, "glob_search") || same_text(
        name,
        "content_search",
    ) || same_text(name, "web_fetch") || same_text(name, "web_search") || same_text(
        name,
        "http_request",
    ) || same_text(name, "memory_store") || same_text(name, "memory_recall")
}

impl DelegateAgentConfig {
    fn lists(&self, name: &str) -> (listed: bool)
        ensures
            listed == self@.lists(name@),
    {
        if name.is_empty() {
            return false;
        }
        let mut i: usize = 0;
        while i < self.allowed_tools.len()
            invariant
                i <= self.allowed_tools.len(),
                name@.len() > 0,
                forall|j: int|
                    0 <= j < i ==> trimmed(#[trigger] self@.allowed_tools[j]) != name@,
            decreases self.allowed_tools.len() - i,
        {
            if same_text(self.allowed_tools[i].trim(), name) {
                assert(trimmed(self@.allowed_tools[i as int]) == name@);
                return true;
            }
            i = i + 1;
        }
        false
    }

    /// Whether the agent gets the tool `name` from its parent.
    pub fn grants(&self, name: &str) -> (granted: bool)
        ensures
            granted == self@.grants(name@),
    {
        if !self.allowed_tools.is_empty() {
            (self.lists("*") || self.lists(name)) && !same_text(name, "delegate") && !same_text(
                name,
                "spawn",
            )
        } else {
            basic_tool(name)
        }
    }

    /// The positions of the parent's tools, given by name, that the agent gets.
    pub fn granted_tools(&self, tools: &Vec<String>) -> (granted: Vec<usize>)
        ensures
            granted@ == self@.granted(texts(tools@)),
    {
        let mut granted: Vec<usize> = Vec::new();
        let ghost names = texts(tools@);
        let mut i: usize = 0;
        while i < tools.len()
            invariant
                i <= tools.len(),
                names == texts(tools@),
                granted@ == self@.granted(names.take(i as int)),
            decreases tools.len() - i,
        {
            if self.grants(tools[i].as_str()) {
                granted.push(i);
            }
            i = i + 1;
            proof {
                assert(names.take(i as int).drop_last() =~= names.take(i - 1));
                assert(names.take(i as int).last() == tools@[i - 1]@);
            }
        }
        assert(names.take(tools.len() as int) =~= names);
        granted
    }

    /// How often the tool loop may run.
    pub fn iterations(&self) -> (n: usize)
        ensures
            n == self@.iterations(),
    {
        if self.max_iterations == 0 {
            DEFAULT_MAX_ITERATIONS
        } else {
            self.max_iterations
        }
    }

    /// The messages that a run on `task_prompt` starts from.
    pub fn initial_history(&self, task_prompt: String) -> (history: Vec<ChatMessage>)
        ensures
            history@.len() == 2,
            history@[0]@ == (ChatModel { role: ChatRole::System, content: self@.prompt() }),
            history@[1]@ == (ChatModel { role: ChatRole::User, content: task_prompt@ }),
    {
        let system = match &self.system_prompt {
            Some(p) => p.clone(),
            None => DEFAULT_SYSTEM_PROMPT.to_string(),
        };
        let mut history: Vec<ChatMessage> = Vec::new();
        history.push(ChatMessage { role: ChatRole::System, content: system });
        history.push(ChatMessage { role: ChatRole::User, content: task_prompt });
        history
    }
}

/// Who speaks in a [`ChatMessage`].
#[derive(Debug, Clone, Copy, PartialEq, Eq, Structural)]
pub enum ChatRole {
    System,
    User,
}

/// A message of a conversation with a model.
#[derive(Debug)]
pub struct ChatMessage {
    pub role: ChatRole,
    pub content: String,
}

/// What a [`ChatMessage`] says.
#[verifier::ext_equal]
pub struct ChatModel {
    pub role: ChatRole,
    pub content: Seq<char>,
}

impl View for ChatMessage {
    type V = ChatModel;

    open spec fn view(&self) -> ChatModel {
        ChatModel { role: self.role, content: self.content@ }
    }
}

/// A tool of the parent agent, shared with a sub-agent.
pub struct ToolArcRef<T: ?Sized> {
    inner: Arc<T>,
}

impl<T: ?Sized> ToolArcRef<T> {
    /// The tool that is shared.
    pub closed spec fn tool(self) -> Arc<T> {
        self.inner
    }

    /// Shares a tool.
    pub fn new(inner: Arc<T>) -> (shared: Self)
        ensures
            shared.tool() == inner,
    {
        ToolArcRef { inner }
    }

    /// The tool that is shared.
    pub fn inner(&self) -> (tool: &Arc<T>)
        ensures
            *tool == self.tool(),
    {
        &self.inner
    }
}

/// Shares the tools at the given positions, in their order.
pub fn share_tools<T: ?Sized>(tools: &Vec<Arc<T>>, positions: &Vec<usize>) -> (shared: Vec<
    ToolArcRef<T>,
>)
    requires
        forall|i: int| 0 <= i < positions@.len() ==> #[trigger] positions@[i] < tools@.len(),
    ensures
        shared@.len() == positions@.len(),
        forall|i: int|
            0 <= i < shared@.len() ==> #[trigger] shared@[i].tool() == tools@[positions@[i] as int],
{
    let mut shared: Vec<ToolArcRef<T>> = Vec::new();
    let mut i: usize = 0;
    while i < positions.len()
        invariant
            i <= positions.len(),
            forall|j: int| 0 <= j < positions@.len() ==> #[trigger] positions@[j] < tools@.len(),
            shared@.len() == i,
            forall|j: int|
                0 <= j < i ==> #[trigger] shared@[j].tool() == tools@[positions@[j] as int],
        decreases positions.len() - i,
    {
        assert(positions@[i as int] < tools@.len());
        shared.push(ToolArcRef::new(tools[positions[i]].clone()));
        i = i + 1;
    }
    shared
}

} // verus!
