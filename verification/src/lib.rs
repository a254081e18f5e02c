//! Background sub-agents: spawning them, keeping track of them, and reporting how they end.
//!
//! [`manager::SubagentManager`] is the registry of tasks. [`spawn::SpawnTool`] and
//! [`spawn_status::SpawnStatusTool`] are the tools by which an agent uses it. None of them does
//! the work of a sub-agent itself: where a provider has to be created, a model asked or time
//! waited for, they return what is to be done and are told how it went.

pub mod agent;
pub mod clock;
pub mod json;
pub mod laws;
pub mod listing;
pub mod manager;
pub mod spawn;
pub mod spawn_status;
pub mod table;
pub mod task;
pub mod text;
pub mod tool;
