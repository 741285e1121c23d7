//! Execution critic: deterministic post-step checks that may request a replan.
use vstd::prelude::*;
use crate::error::{Error, ToolError};
use crate::replanner::ReplanReason;
use crate::text::{
    ascii_lower, contains, contains_str, decimal, lower_str, push_decimal, push_str, string_of,
};

verus! {

/// What the critic asks the worker to do next.
#[derive(Debug, Clone, Copy, PartialEq, Eq, Structural)]
pub enum CriticAction {
    Continue,
    Replan { reason: ReplanReason },
}

/// The critic's verdict for one step.
#[derive(Debug, Clone)]
pub struct CriticDecision {
    pub action: CriticAction,
    pub reason_codes: Vec<String>,
    pub detail: Option<String>,
}

/// One finished plan step, as the critic sees it.
#[derive(Debug)]
pub struct CriticStepInput<'a> {
    pub step_index: usize,
    pub total_steps: usize,
    pub tool_name: &'a str,
    pub elapsed_ms: i64,
    pub result: &'a Result<String, Error>,
}

/// Failure text that points at a policy/approval block.
pub open spec fn policy_block_reason(reason: Seq<char>) -> bool {
    let n = ascii_lower(reason);
    contains(n, "blocked by"@) || contains(n, "approval"@) || contains(n, "circuit breaker"@)
        || contains(n, "policy"@)
}

/// Failure text that points at a transient condition.
pub open spec fn transient_failure_reason(reason: Seq<char>) -> bool {
    let n = ascii_lower(reason);
    contains(n, "timeout"@) || contains(n, "temporar"@) || contains(n, "connection"@) || contains(
        n,
        "network"@,
    ) || contains(n, "rate limit"@)
}

/// Failure text that reports an exhausted fallback budget.
pub open spec fn fallback_budget_exhausted_reason(reason: Seq<char>) -> bool {
    contains(ascii_lower(reason), "fallback budget exhausted"@)
}

/// Whether a failure reason points at a policy/approval block.
pub fn is_policy_block_reason(reason: &str) -> (b: bool)
    ensures
        b == policy_block_reason(reason@),
{
    let n = lower_str(reason);
    contains_str(&n, "blocked by") || contains_str(&n, "approval") || contains_str(
        &n,
        "circuit breaker",
    ) || contains_str(&n, "policy")
}

/// Whether a failure reason points at a transient condition.
pub fn is_transient_failure_reason(reason: &str) -> (b: bool)
    ensures
        b == transient_failure_reason(reason@),
{
    let n = lower_str(reason);
    contains_str(&n, "timeout") || contains_str(&n, "temporar") || contains_str(&n, "connection")
        || contains_str(&n, "network") || contains_str(&n, "rate limit")
}

/// Whether a failure reason reports an exhausted fallback budget.
pub fn is_fallback_budget_exhausted_reason(reason: &str) -> (b: bool)
    ensures
        b == fallback_budget_exhausted_reason(reason@),
{
    let n = lower_str(reason);
    contains_str(&n, "fallback budget exhausted")
}

/// The common head of every critic detail message.
pub open spec fn critic_prefix(step_index: nat, total_steps: nat, tool: Seq<char>) -> Seq<char> {
    "Execution critic requested replan after step "@ + decimal(step_index + 1) + "/"@ + decimal(
        total_steps,
    ) + " ("@ + tool + "): "@
}

/// The outcome of a step evaluation: action, reason codes and detail message.
pub open spec fn critic_verdict(
    step_index: nat,
    total_steps: nat,
    tool: Seq<char>,
    elapsed_ms: int,
    result: Result<String, Error>,
) -> (CriticAction, Seq<Seq<char>>, Option<Seq<char>>) {
    let p = critic_prefix(step_index, total_steps, tool);
    match result {
        Err(Error::Tool(ToolError::AuthRequired { .. })) => (
            CriticAction::Replan { reason: ReplanReason::PolicyDenied },
            seq!["critic_auth_required"@],
            Some(p + "approval/policy requirement blocked tool execution."@),
        ),
        Err(Error::Tool(ToolError::Timeout { .. })) => (
            CriticAction::Replan { reason: ReplanReason::StepFailure },
            seq!["critic_step_timeout"@],
            Some(p + "timeout suggests alternate strategy/tool is needed."@),
        ),
        Err(Error::Tool(ToolError::NotFound { .. })) => (
            CriticAction::Replan { reason: ReplanReason::ToolUnavailable },
            seq!["critic_tool_unavailable"@],
            Some(p + "tool is unavailable."@),
        ),
        Err(Error::Tool(ToolError::ExecutionFailed { reason, .. })) => if fallback_budget_exhausted_reason(reason@) {
            (
                CriticAction::Replan { reason: ReplanReason::StepFailure },
                seq!["critic_fallback_budget_exhausted"@],
                Some(p + reason@),
            )
        } else if policy_block_reason(reason@) {
            (
                CriticAction::Replan { reason: ReplanReason::PolicyDenied },
                seq!["critic_policy_blocked"@],
                Some(p + reason@),
            )
        } else if transient_failure_reason(reason@) {
            (
                CriticAction::Replan { reason: ReplanReason::StepFailure },
                seq!["critic_transient_failure"@],
                Some(p + "transient failure pattern detected ("@ + reason@ + ")"@),
            )
        } else {
            (CriticAction::Continue, seq![], None)
        },
        Err(_) => (CriticAction::Continue, seq![], None),
        Ok(_) => if elapsed_ms > 60_000 && step_index + 1 < total_steps {
            (
                CriticAction::Replan { reason: ReplanReason::BudgetExceeded },
                seq!["critic_latency_budget_drift"@],
                Some(p + "step took "@ + (if elapsed_ms < 0 {
                    seq![]
                } else {
                    decimal(elapsed_ms as nat)
                }) + "ms and exceeded latency budget."@),
            )
        } else {
            (CriticAction::Continue, seq![], None)
        },
    }
}

/// The detail head as text.
fn critic_prefix_exec(step_index: usize, total_steps: usize, tool: &str) -> (s: String)
    requires
        step_index < usize::MAX,
    ensures
        s@ == critic_prefix(step_index as nat, total_steps as nat, tool@),
{
    let mut s = string_of("Execution critic requested replan after step ");
    push_decimal(&mut s, (step_index + 1) as u64);
    push_str(&mut s, "/");
    push_decimal(&mut s, total_steps as u64);
    push_str(&mut s, " (");
    push_str(&mut s, tool);
    push_str(&mut s, "): ");
    s
}

/// A replan verdict with one reason code and a detail text.
fn replan_decision(reason: ReplanReason, code: &str, detail: String) -> (d: CriticDecision)
    ensures
        d.action == (CriticAction::Replan { reason }),
        d.reason_codes.deep_view() == seq![code@],
        d.detail is Some && d.detail->0@ == detail@,
{
    let mut codes: Vec<String> = Vec::new();
    codes.push(string_of(code));
    assert(codes.deep_view() =~= seq![code@]);
    CriticDecision { action: CriticAction::Replan { reason }, reason_codes: codes, detail: Some(detail) }
}

/// The "carry on" verdict.
fn continue_decision() -> (d: CriticDecision)
    ensures
        d.action == CriticAction::Continue,
        d.reason_codes.deep_view() == Seq::<Seq<char>>::empty(),
        d.detail is None,
{
    let codes: Vec<String> = Vec::new();
    assert(codes.deep_view() =~= Seq::<Seq<char>>::empty());
    CriticDecision { action: CriticAction::Continue, reason_codes: codes, detail: None }
}

pub struct ExecutionCritic;

impl ExecutionCritic {
    /// Evaluates one finished step.
    pub fn evaluate_step(input: CriticStepInput<'_>) -> (d: CriticDecision)
        requires
            input.step_index < usize::MAX,
        ensures
            ({
                let v = critic_verdict(
                    input.step_index as nat,
                    input.total_steps as nat,
                    input.tool_name@,
                    input.elapsed_ms as int,
                    *input.result,
                );
                &&& d.action == v.0
                &&& d.reason_codes.deep_view() == v.1
                &&& match v.2 {
                    Some(t) => d.detail is Some && d.detail->0@ == t,
                    None => d.detail is None,
                }
            }),
    {
        let p = critic_prefix_exec(input.step_index, input.total_steps, input.tool_name);
        match input.result {
            Err(Error::Tool(ToolError::AuthRequired { .. })) => {
                let mut t = p;
                push_str(&mut t, "approval/policy requirement blocked tool execution.");
                replan_decision(ReplanReason::PolicyDenied, "critic_auth_required", t)
            },
            Err(Error::Tool(ToolError::Timeout { .. })) => {
                let mut t = p;
                push_str(&mut t, "timeout suggests alternate strategy/tool is needed.");
                replan_decision(ReplanReason::StepFailure, "critic_step_timeout", t)
            },
            Err(Error::Tool(ToolError::NotFound { .. })) => {
                let mut t = p;
                push_str(&mut t, "tool is unavailable.");
                replan_decision(ReplanReason::ToolUnavailable, "critic_tool_unavailable", t)
            },
            Err(Error::Tool(ToolError::ExecutionFailed { reason, .. })) => {
                if is_fallback_budget_exhausted_reason(reason.as_str()) {
                    let mut t = p;
                    push_str(&mut t, reason.as_str());
                    replan_decision(
                        ReplanReason::StepFailure,
                        "critic_fallback_budget_exhausted",
                        t,
                    )
                } else if is_policy_block_reason(reason.as_str()) {
                    let mut t = p;
                    push_str(&mut t, reason.as_str());
                    replan_decision(ReplanReason::PolicyDenied, "critic_policy_blocked", t)
                } else if is_transient_failure_reason(reason.as_str()) {
                    let mut t = p;
                    push_str(&mut t, "transient failure pattern detected (");
                    push_str(&mut t, reason.as_str());
                    push_str(&mut t, ")");
                    replan_decision(ReplanReason::StepFailure, "critic_transient_failure", t)
                } else {
                    continue_decision()
                }
            },
            Err(_) => continue_decision(),
            Ok(_) => {
                if input.elapsed_ms > 60_000 && input.step_index + 1 < input.total_steps {
                    let mut t = p;
                    push_str(&mut t, "step took ");
                    push_decimal(&mut t, input.elapsed_ms as u64);
                    push_str(&mut t, "ms and exceeded latency budget.");
                    replan_decision(ReplanReason::BudgetExceeded, "critic_latency_budget_drift", t)
                } else {
                    continue_decision()
                }
            },
        }
    }
}

} // verus!
