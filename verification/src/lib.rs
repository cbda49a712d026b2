//! Verified core of an agent-runtime harness: tool-call dispatch and
//! confirmation, permission inheritance, user-input routing, sub-task
//! batches, the built-in tools' argument handling, shell sessions and their
//! output windows, scheduled tasks, memory grouping and summarization, and
//! the agent lifecycle.

pub mod actions;
pub mod batch;
pub mod calling;
pub mod chat;
pub mod completions;
pub mod config;
pub mod confirmations;
pub mod dispatch;
pub mod effects;
pub mod domain;
pub mod ids;
pub mod inflight;
pub mod json;
pub mod knowledge;
pub mod lifecycle;
pub mod memory;
pub mod orchestrator;
pub mod outbound;
pub mod permissions;
pub mod routing;
pub mod scheduling;
pub mod sessions;
pub mod shell_output;
pub mod shell_tools;
pub mod skills;
pub mod subtasks;
pub mod summarization;
pub mod text;
pub mod tools;
