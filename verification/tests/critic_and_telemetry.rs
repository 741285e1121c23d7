use titanclaw::autonomy;
use titanclaw::critic::{CriticAction, CriticStepInput, ExecutionCritic};
use titanclaw::error::{Error, ToolError};
use titanclaw::replanner::{ReplanBudgets, ReplanReason, ReplanRuntimeState, ReplannerV1};
use titanclaw::telemetry::{
    classify_failure, elapsed_ms, failure_class_to_string, map_policy_decision_kind,
    truncate_chars, truncate_error_preview, FailureClass, PolicyDecisionKind,
};

fn base_input<'a>(result: &'a Result<String, Error>) -> CriticStepInput<'a> {
    CriticStepInput {
        step_index: 0,
        total_steps: 3,
        tool_name: "shell",
        elapsed_ms: 100,
        result,
    }
}

#[test]
fn critic_maps_circuit_breaker_failure_to_policy_replan() {
    let err: Result<String, Error> = Err(Error::Tool(ToolError::ExecutionFailed {
        name: "shell".to_string(),
        reason: "Blocked by reliability circuit breaker".to_string(),
    }));
    let out = ExecutionCritic::evaluate_step(base_input(&err));
    assert_eq!(
        out.action,
        CriticAction::Replan {
            reason: ReplanReason::PolicyDenied
        }
    );
    assert!(out.reason_codes.iter().any(|c| c == "critic_policy_blocked"));
}

#[test]
fn critic_maps_timeout_to_step_failure_replan() {
    let err: Result<String, Error> = Err(Error::Tool(ToolError::Timeout {
        name: "shell".to_string(),
        timeout_ms: 5000,
    }));
    let out = ExecutionCritic::evaluate_step(base_input(&err));
    assert_eq!(
        out.action,
        CriticAction::Replan {
            reason: ReplanReason::StepFailure
        }
    );
    assert!(out.reason_codes.iter().any(|c| c == "critic_step_timeout"));
}

#[test]
fn critic_maps_fallback_budget_exhaustion_to_step_failure_replan() {
    let err: Result<String, Error> = Err(Error::Tool(ToolError::ExecutionFailed {
        name: "shell".to_string(),
        reason: "Smart-rule fallback budget exhausted after 3 attempt(s); replanning required"
            .to_string(),
    }));
    let out = ExecutionCritic::evaluate_step(base_input(&err));
    assert_eq!(
        out.action,
        CriticAction::Replan {
            reason: ReplanReason::StepFailure
        }
    );
    assert!(out
        .reason_codes
        .iter()
        .any(|c| c == "critic_fallback_budget_exhausted"));
}

#[test]
fn critic_continues_on_quick_success() {
    let ok: Result<String, Error> = Ok("ok".to_string());
    let out = ExecutionCritic::evaluate_step(base_input(&ok));
    assert_eq!(out.action, CriticAction::Continue);
}

#[test]
fn critic_flags_latency_budget_drift_on_long_success_step() {
    let ok: Result<String, Error> = Ok("ok".to_string());
    let out = ExecutionCritic::evaluate_step(CriticStepInput {
        step_index: 0,
        total_steps: 2,
        tool_name: "shell",
        elapsed_ms: 65_000,
        result: &ok,
    });
    assert_eq!(
        out.action,
        CriticAction::Replan {
            reason: ReplanReason::BudgetExceeded
        }
    );
    assert!(out
        .reason_codes
        .iter()
        .any(|c| c == "critic_latency_budget_drift"));
}

#[test]
fn critic_detail_names_step_and_tool() {
    let err: Result<String, Error> = Err(Error::Tool(ToolError::NotFound {
        name: "nope".to_string(),
    }));
    let out = ExecutionCritic::evaluate_step(base_input(&err));
    assert_eq!(
        out.detail.as_deref(),
        Some("Execution critic requested replan after step 1/3 (shell): tool is unavailable.")
    );
    let ok: Result<String, Error> = Ok("ok".to_string());
    let drift = ExecutionCritic::evaluate_step(CriticStepInput {
        step_index: 1,
        total_steps: 3,
        tool_name: "http",
        elapsed_ms: 61_234,
        result: &ok,
    });
    assert_eq!(
        drift.detail.as_deref(),
        Some("Execution critic requested replan after step 2/3 (http): step took 61234ms and exceeded latency budget.")
    );
    let transient: Result<String, Error> = Err(Error::Tool(ToolError::ExecutionFailed {
        name: "http".to_string(),
        reason: "Connection reset".to_string(),
    }));
    let t = ExecutionCritic::evaluate_step(base_input(&transient));
    assert_eq!(t.reason_codes, vec!["critic_transient_failure".to_string()]);
    let other: Result<String, Error> = Err(Error::Llm("bad".to_string()));
    assert_eq!(
        ExecutionCritic::evaluate_step(base_input(&other)).action,
        CriticAction::Continue
    );
}

#[test]
fn test_classify_failure_timeout() {
    let err = Error::Tool(ToolError::Timeout {
        name: "shell".to_string(),
        timeout_ms: 5000,
    });
    assert_eq!(classify_failure(&err), FailureClass::ToolTimeout);
}

#[test]
fn test_truncate_error_preview_limits_length() {
    let long_reason = "x".repeat(400);
    let message = format!("Tool shell execution failed: {}", long_reason);
    let preview = truncate_error_preview(&message);
    assert!(preview.chars().count() <= 241);
    assert!(preview.ends_with('…'));
}

#[test]
fn truncate_chars_keeps_short_text_and_marks_cut() {
    assert_eq!(truncate_chars("héllo", 5), "héllo");
    assert_eq!(truncate_chars("héllo", 2), "hé…");
    assert_eq!(truncate_chars("", 0), "");
}

#[test]
fn elapsed_ms_saturates() {
    assert_eq!(elapsed_ms(12), 12);
    assert_eq!(elapsed_ms(u128::MAX), u64::MAX);
}

#[test]
fn failure_class_codes_are_snake_case() {
    assert_eq!(
        failure_class_to_string(Some(FailureClass::ToolExecution)).as_deref(),
        Some("tool_execution")
    );
    assert_eq!(failure_class_to_string(None), None);
    assert_eq!(
        classify_failure(&Error::Database("x".to_string())).code(),
        "database"
    );
}

#[test]
fn test_map_policy_decision_kind_supports_require_more_evidence() {
    let mapped = map_policy_decision_kind(PolicyDecisionKind::RequireMoreEvidence);
    assert_eq!(mapped, autonomy::PolicyDecisionKind::RequireMoreEvidence);
}

#[test]
fn test_replan_runtime_state_budget() {
    let budgets = ReplanBudgets {
        max_replans_per_job: 1,
    };
    let mut state = ReplanRuntimeState::default();
    assert!(state.can_replan(budgets));
    state.record_replan();
    assert!(!state.can_replan(budgets));
}

#[test]
fn replan_budget_default_allows_two() {
    let budgets = ReplanBudgets::default();
    let mut state = ReplanRuntimeState::default();
    state.record_replan();
    assert!(state.can_replan(budgets));
    state.record_replan();
    assert!(!state.can_replan(budgets));
    let mut full = ReplanRuntimeState {
        replans_attempted: u32::MAX,
    };
    full.record_replan();
    assert_eq!(full.replans_attempted, u32::MAX);
}

#[test]
fn test_replan_prompt_includes_reason_code() {
    let prompt = ReplannerV1::replan_prompt(ReplanReason::PolicyDenied, "approval required");
    assert!(prompt.contains("policy_denied"));
    assert!(prompt.contains("approval required"));
    assert_eq!(
        prompt,
        "The previous plan needs revision. Replan now.\nReason: policy_denied.\nDetail: approval required\nProduce a revised multi-step plan that avoids the failure mode and completes the job."
    );
}

#[test]
fn execution_attempt_status_maps_to_autonomy_status() {
    assert_eq!(
        titanclaw::telemetry::map_execution_attempt_status(
            titanclaw::telemetry::ExecutionAttemptStatus::Succeeded
        ),
        autonomy::ExecutionAttemptStatus::Succeeded
    );
    assert_eq!(
        titanclaw::telemetry::map_execution_attempt_status(
            titanclaw::telemetry::ExecutionAttemptStatus::Failed
        ),
        autonomy::ExecutionAttemptStatus::Failed
    );
}
