//! Structured telemetry vocabulary for policy decisions and execution attempts.
use vstd::prelude::*;
use crate::autonomy;
use crate::error::{Error, ToolError};
use crate::text::{from_chars, push_char, slice_chars, string_of, to_chars};

verus! {

/// How many characters of an error message the telemetry preview keeps.
pub const ERROR_PREVIEW_CHARS: usize = 240;

/// A policy decision as reported by the runtime.
#[derive(Debug, Clone, Copy, PartialEq, Eq, Structural)]
pub enum PolicyDecisionKind {
    Allow,
    RequireApproval,
    Deny,
    Modify,
    RequireMoreEvidence,
}

/// The outcome of one tool execution attempt.
#[derive(Debug, Clone, Copy, PartialEq, Eq, Structural)]
pub enum ExecutionAttemptStatus {
    Succeeded,
    Failed,
}

/// The class of a failure, as recorded in telemetry.
#[derive(Debug, Clone, Copy, PartialEq, Eq, Structural)]
pub enum FailureClass {
    ToolTimeout,
    ToolInvalidParameters,
    ToolExecution,
    ToolSandbox,
    ToolDisabled,
    ToolAuthRequired,
    ToolNotFound,
    ToolBuilderFailed,
    Safety,
    Channel,
    Llm,
    Job,
    Database,
    Workspace,
    Orchestrator,
    Worker,
    Repair,
    Config,
    Other,
}

/// The snake_case code of a failure class (its serialized form).
pub open spec fn failure_class_code(fc: FailureClass) -> Seq<char> {
    match fc {
        FailureClass::ToolTimeout => "tool_timeout"@,
        FailureClass::ToolInvalidParameters => "tool_invalid_parameters"@,
        FailureClass::ToolExecution => "tool_execution"@,
        FailureClass::ToolSandbox => "tool_sandbox"@,
        FailureClass::ToolDisabled => "tool_disabled"@,
        FailureClass::ToolAuthRequired => "tool_auth_required"@,
        FailureClass::ToolNotFound => "tool_not_found"@,
        FailureClass::ToolBuilderFailed => "tool_builder_failed"@,
        FailureClass::Safety => "safety"@,
        FailureClass::Channel => "channel"@,
        FailureClass::Llm => "llm"@,
        FailureClass::Job => "job"@,
        FailureClass::Database => "database"@,
        FailureClass::Workspace => "workspace"@,
        FailureClass::Orchestrator => "orchestrator"@,
        FailureClass::Worker => "worker"@,
        FailureClass::Repair => "repair"@,
        FailureClass::Config => "config"@,
        FailureClass::Other => "other"@,
    }
}

impl FailureClass {
    /// The snake_case code of this failure class.
    pub fn code(self) -> (s: &'static str)
        ensures
            s@ == failure_class_code(self),
    {
        match self {
            FailureClass::ToolTimeout => "tool_timeout",
            FailureClass::ToolInvalidParameters => "tool_invalid_parameters",
            FailureClass::ToolExecution => "tool_execution",
            FailureClass::ToolSandbox => "tool_sandbox",
            FailureClass::ToolDisabled => "tool_disabled",
            FailureClass::ToolAuthRequired => "tool_auth_required",
            FailureClass::ToolNotFound => "tool_not_found",
            FailureClass::ToolBuilderFailed => "tool_builder_failed",
            FailureClass::Safety => "safety",
            FailureClass::Channel => "channel",
            FailureClass::Llm => "llm",
            FailureClass::Job => "job",
            FailureClass::Database => "database",
            FailureClass::Workspace => "workspace",
            FailureClass::Orchestrator => "orchestrator",
            FailureClass::Worker => "worker",
            FailureClass::Repair => "repair",
            FailureClass::Config => "config",
            FailureClass::Other => "other",
        }
    }
}

/// The failure class of an error.
pub open spec fn failure_class_of(err: Error) -> FailureClass {
    match err {
        Error::Tool(t) => match t {
            ToolError::Timeout { .. } => FailureClass::ToolTimeout,
            ToolError::InvalidParameters { .. } => FailureClass::ToolInvalidParameters,
            ToolError::ExecutionFailed { .. } => FailureClass::ToolExecution,
            ToolError::Sandbox { .. } => FailureClass::ToolSandbox,
            ToolError::Disabled { .. } => FailureClass::ToolDisabled,
            ToolError::AuthRequired { .. } => FailureClass::ToolAuthRequired,
            ToolError::NotFound { .. } => FailureClass::ToolNotFound,
            ToolError::BuilderFailed(_) => FailureClass::ToolBuilderFailed,
        },
        Error::Safety(_) => FailureClass::Safety,
        Error::Channel(_) => FailureClass::Channel,
        Error::Llm(_) => FailureClass::Llm,
        Error::Job(_) => FailureClass::Job,
        Error::Database(_) => FailureClass::Database,
        Error::Workspace(_) => FailureClass::Workspace,
        Error::Orchestrator(_) => FailureClass::Orchestrator,
        Error::Worker(_) => FailureClass::Worker,
        Error::Repair(_) => FailureClass::Repair,
        Error::Config(_) => FailureClass::Config,
        Error::Other(_) => FailureClass::Other,
    }
}

/// Classifies an error for telemetry.
pub fn classify_failure(err: &Error) -> (fc: FailureClass)
    ensures
        fc == failure_class_of(*err),
{
    match err {
        Error::Tool(tool_err) => match tool_err {
            ToolError::Timeout { .. } => FailureClass::ToolTimeout,
            ToolError::InvalidParameters { .. } => FailureClass::ToolInvalidParameters,
            ToolError::ExecutionFailed { .. } => FailureClass::ToolExecution,
            ToolError::Sandbox { .. } => FailureClass::ToolSandbox,
            ToolError::Disabled { .. } => FailureClass::ToolDisabled,
            ToolError::AuthRequired { .. } => FailureClass::ToolAuthRequired,
            ToolError::NotFound { .. } => FailureClass::ToolNotFound,
            ToolError::BuilderFailed(_) => FailureClass::ToolBuilderFailed,
        },
        Error::Safety(_) => FailureClass::Safety,
        Error::Channel(_) => FailureClass::Channel,
        Error::Llm(_) => FailureClass::Llm,
        Error::Job(_) => FailureClass::Job,
        Error::Database(_) => FailureClass::Database,
        Error::Workspace(_) => FailureClass::Workspace,
        Error::Orchestrator(_) => FailureClass::Orchestrator,
        Error::Worker(_) => FailureClass::Worker,
        Error::Repair(_) => FailureClass::Repair,
        Error::Config(_) => FailureClass::Config,
        Error::Other(_) => FailureClass::Other,
    }
}

/// The code of an optional failure class (the serialized form, if any).
pub fn failure_class_to_string(fc: Option<FailureClass>) -> (s: Option<String>)
    ensures
        match fc {
            Some(c) => s is Some && s->0@ == failure_class_code(c),
            None => s is None,
        },
{
    match fc {
        Some(c) => Some(string_of(c.code())),
        None => None,
    }
}

/// A text cut to `max` characters, with an ellipsis when it was longer.
pub open spec fn truncated_with_ellipsis(s: Seq<char>, max: nat) -> Seq<char> {
    if s.len() <= max {
        s
    } else {
        s.take(max as int).push('…')
    }
}

/// Cuts a text to `max_chars` characters and marks the cut with `…`.
pub fn truncate_chars(s: &str, max_chars: usize) -> (r: String)
    ensures
        r@ == truncated_with_ellipsis(s@, max_chars as nat),
{
    let v = to_chars(s);
    if v.len() <= max_chars {
        from_chars(v.as_slice())
    } else {
        let t = slice_chars(v.as_slice(), 0, max_chars);
        let mut r = from_chars(t.as_slice());
        push_char(&mut r, '…');
        assert(t@ =~= s@.take(max_chars as int));
        r
    }
}

/// The telemetry preview of an error message: at most 240 characters plus `…`.
pub fn truncate_error_preview(message: &str) -> (r: String)
    ensures
        r@ == truncated_with_ellipsis(message@, ERROR_PREVIEW_CHARS as nat),
        r@.len() <= ERROR_PREVIEW_CHARS + 1,
{
    truncate_chars(message, ERROR_PREVIEW_CHARS)
}

/// Milliseconds of a duration, saturated at `u64::MAX`.
pub fn elapsed_ms(duration_ms: u128) -> (r: u64)
    ensures
        r as int == if duration_ms <= u64::MAX as u128 {
            duration_ms as int
        } else {
            u64::MAX as int
        },
{
    if duration_ms <= u64::MAX as u128 {
        duration_ms as u64
    } else {
        u64::MAX
    }
}

/// The persisted decision kind of a reported decision.
pub open spec fn autonomy_decision_kind(kind: PolicyDecisionKind) -> autonomy::PolicyDecisionKind {
    match kind {
        PolicyDecisionKind::Allow => autonomy::PolicyDecisionKind::Allow,
        PolicyDecisionKind::RequireApproval => autonomy::PolicyDecisionKind::RequireApproval,
        PolicyDecisionKind::Deny => autonomy::PolicyDecisionKind::Deny,
        PolicyDecisionKind::Modify => autonomy::PolicyDecisionKind::Modify,
        PolicyDecisionKind::RequireMoreEvidence => autonomy::PolicyDecisionKind::RequireMoreEvidence,
    }
}

/// Maps a reported decision kind to the persisted one.
pub fn map_policy_decision_kind(kind: PolicyDecisionKind) -> (r: autonomy::PolicyDecisionKind)
    ensures
        r == autonomy_decision_kind(kind),
{
    match kind {
        PolicyDecisionKind::Allow => autonomy::PolicyDecisionKind::Allow,
        PolicyDecisionKind::RequireApproval => autonomy::PolicyDecisionKind::RequireApproval,
        PolicyDecisionKind::Deny => autonomy::PolicyDecisionKind::Deny,
        PolicyDecisionKind::Modify => autonomy::PolicyDecisionKind::Modify,
        PolicyDecisionKind::RequireMoreEvidence => autonomy::PolicyDecisionKind::RequireMoreEvidence,
    }
}

/// Maps a reported attempt status to the persisted one.
pub fn map_execution_attempt_status(status: ExecutionAttemptStatus) -> (r:
    autonomy::ExecutionAttemptStatus)
    ensures
        status == ExecutionAttemptStatus::Succeeded ==> r
            == autonomy::ExecutionAttemptStatus::Succeeded,
        status == ExecutionAttemptStatus::Failed ==> r == autonomy::ExecutionAttemptStatus::Failed,
{
    match status {
        ExecutionAttemptStatus::Succeeded => autonomy::ExecutionAttemptStatus::Succeeded,
        ExecutionAttemptStatus::Failed => autonomy::ExecutionAttemptStatus::Failed,
    }
}

/// Distinct reported decision kinds stay distinct once persisted.
pub proof fn lemma_decision_kind_mapping_is_injective(a: PolicyDecisionKind, b: PolicyDecisionKind)
    ensures
        autonomy_decision_kind(a) == autonomy_decision_kind(b) ==> a == b,
{
}

} // verus!
