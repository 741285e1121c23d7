//! The runtime error taxonomy that the agent's decision logic inspects.
use vstd::prelude::*;

verus! {

/// Errors raised while running a tool.
#[derive(Debug, Clone, PartialEq, Eq)]
pub enum ToolError {
    Timeout { name: String, timeout_ms: u64 },
    InvalidParameters { name: String, reason: String },
    ExecutionFailed { name: String, reason: String },
    Sandbox { name: String, reason: String },
    Disabled { name: String, reason: String },
    AuthRequired { name: String },
    NotFound { name: String },
    BuilderFailed(String),
}

/// Errors of the agent runtime, by subsystem.
#[derive(Debug, Clone, PartialEq, Eq)]
pub enum Error {
    Tool(ToolError),
    Safety(String),
    Channel(String),
    Llm(String),
    Job(String),
    Database(String),
    Workspace(String),
    Orchestrator(String),
    Worker(String),
    Repair(String),
    Config(String),
    /// Any other subsystem.
    Other(String),
}

} // verus!
