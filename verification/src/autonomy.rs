//! Autonomy domain vocabulary: goals, plans, steps, attempts, decisions.
use vstd::prelude::*;

verus! {

#[derive(Debug, Clone, Copy, PartialEq, Eq, Structural)]
pub enum GoalStatus {
    Proposed,
    Active,
    Blocked,
    Waiting,
    Completed,
    Abandoned,
}

#[derive(Debug, Clone, Copy, PartialEq, Eq, Structural)]
pub enum GoalRiskClass {
    Low,
    Medium,
    High,
    Critical,
}

#[derive(Debug, Clone, Copy, PartialEq, Eq, Structural)]
pub enum GoalSource {
    UserRequest,
    RoutineTrigger,
    SystemMaintenance,
    FollowUp,
}

#[derive(Debug, Clone, Copy, PartialEq, Eq, Structural)]
pub enum PlanStatus {
    Draft,
    Ready,
    Running,
    Paused,
    Failed,
    Completed,
    Superseded,
}

#[derive(Debug, Clone, Copy, PartialEq, Eq, Structural)]
pub enum PlannerKind {
    ReasoningV1,
    RuleBased,
    Hybrid,
}

#[derive(Debug, Clone, Copy, PartialEq, Eq, Structural)]
pub enum PlanStepKind {
    ToolCall,
    EvidenceGather,
    Verification,
    AskUser,
}

#[derive(Debug, Clone, Copy, PartialEq, Eq, Structural)]
pub enum PlanStepStatus {
    Pending,
    Running,
    Succeeded,
    Failed,
    Blocked,
    Skipped,
}

#[derive(Debug, Clone, Copy, PartialEq, Eq, Structural)]
pub enum ExecutionAttemptStatus {
    Running,
    Succeeded,
    Failed,
    Timeout,
    Blocked,
}

#[derive(Debug, Clone, Copy, PartialEq, Eq, Structural)]
pub enum PolicyDecisionKind {
    Allow,
    AllowWithLogging,
    RequireApproval,
    Deny,
    RequireMoreEvidence,
    Modify,
}

#[derive(Debug, Clone, Copy, PartialEq, Eq, Structural)]
pub enum PlanVerificationStatus {
    Passed,
    Failed,
    Inconclusive,
}

#[derive(Debug, Clone, Copy, PartialEq, Eq, Structural)]
pub enum EvidenceKind {
    ToolResult,
    FileDiff,
    TestRun,
    CommandOutput,
    Observation,
    UserConfirmation,
}

} // verus!
