use titanclaw::autonomy::PlanStatus;
use titanclaw::completion::VerificationNextAction;
use titanclaw::error::{Error, ToolError};
use titanclaw::plan_exec::{
    needs_stuck_nudge, plan_finish, replan_step, replanning_failed_reason,
    step_evidence_confidence_milli, step_evidence_source, step_evidence_summary,
    step_memory_summary, step_memory_title, step_replan_request, worker_iterations_exceeded,
    worker_round_stuck_reason, ITERATIONS_EXCEEDED_REASON,
    PlanFinish, PlanTally, ReplanStep, VerifierVerdict, PLAN_COMPLETION_QUESTION, STUCK_NUDGE,
};
use titanclaw::replanner::{ReplanBudgets, ReplanReason, ReplanRuntimeState};

fn tally(succeeded: usize, failed: usize) -> PlanTally {
    let mut t = PlanTally::new();
    for _ in 0..succeeded {
        t.record(true);
    }
    for _ in 0..failed {
        t.record(false);
    }
    t
}

#[test]
fn plan_step_texts() {
    assert_eq!(step_memory_title(0, true, "shell"), "Planned step 1 succeeded (shell)");
    assert_eq!(step_memory_title(2, false, "http"), "Planned step 3 failed (http)");
    let long = "r".repeat(200);
    assert_eq!(
        step_memory_summary(1, 4, false, 37, &long),
        format!("Step 2/4 failed in 37ms: {}", "r".repeat(160))
    );
    assert_eq!(
        step_evidence_summary(true, "shell", "Run tests"),
        "Succeeded shell (Run tests)"
    );
    assert_eq!(step_evidence_summary(false, "x", &"y".repeat(300)).chars().count(), 240);
    assert_eq!(step_evidence_confidence_milli(true), 950);
    assert_eq!(step_evidence_confidence_milli(false), 800);
    assert_eq!(step_evidence_source(4), "worker.plan_step.4");
    let t = tally(2, 1);
    assert_eq!((t.executed, t.succeeded, t.failed), (3, 2, 1));
}

#[test]
fn failed_step_requests_replan_when_classified() {
    let err = Error::Tool(ToolError::NotFound { name: "missing_tool".to_string() });
    let r = step_replan_request(0, 2, "missing_tool", &err, "Tool not found: missing_tool");
    assert_eq!(
        r,
        Some((
            ReplanReason::ToolUnavailable,
            "Planned step 1/2 (missing_tool) failed and requires replanning: Tool not found: missing_tool"
                .to_string()
        ))
    );
    let other = Error::Database("down".to_string());
    assert_eq!(step_replan_request(0, 2, "t", &other, "db down"), None);
}

fn verdict(allow: bool, next: VerificationNextAction, summary: &str) -> VerifierVerdict {
    VerifierVerdict { allow_completion: allow, next_action: next, summary: summary.to_string() }
}

#[test]
fn plan_finish_completes_only_with_claim_and_check() {
    let t = tally(1, 0);
    assert!(matches!(plan_finish(true, None, true, true, t, 1, "The job is complete."), PlanFinish::Complete));
    let ok = verdict(true, VerificationNextAction::Complete, "fine");
    assert!(matches!(plan_finish(true, Some(&ok), true, true, t, 1, "done"), PlanFinish::Complete));
    let blocked = verdict(false, VerificationNextAction::Replan, "Need explicit evidence");
    match plan_finish(true, Some(&blocked), true, true, t, 1, "done") {
        PlanFinish::Replan { reason, detail } => {
            assert_eq!(reason, ReplanReason::VerifierInsufficientEvidence);
            assert_eq!(detail, "Verifier blocked completion (replan): Need explicit evidence");
        }
        other => panic!("unexpected {:?}", other),
    }
    let gather = verdict(false, VerificationNextAction::GatherEvidence, "more");
    match plan_finish(true, Some(&gather), true, true, t, 1, "done") {
        PlanFinish::Replan { detail, .. } => {
            assert_eq!(detail, "Verifier blocked completion (gather_evidence): more")
        }
        other => panic!("unexpected {:?}", other),
    }
    match plan_finish(true, Some(&blocked), false, true, t, 1, "done") {
        PlanFinish::Stuck { reason } => {
            assert_eq!(reason, "Plan completed but job incomplete - needs re-planning")
        }
        other => panic!("unexpected {:?}", other),
    }
    let ask = verdict(false, VerificationNextAction::AskUser, "confirm deploy");
    match plan_finish(true, Some(&ask), true, true, t, 1, "done") {
        PlanFinish::Stuck { reason } => assert_eq!(
            reason,
            "Verifier blocked completion pending user confirmation: confirm deploy"
        ),
        other => panic!("unexpected {:?}", other),
    }
    let mark = verdict(false, VerificationNextAction::MarkBlocked, "blocked hard");
    match plan_finish(true, Some(&mark), true, true, t, 1, "done") {
        PlanFinish::Stuck { reason } => assert_eq!(reason, "blocked hard"),
        other => panic!("unexpected {:?}", other),
    }
}

#[test]
fn unclaimed_completion_replans() {
    let t = tally(1, 1);
    match plan_finish(false, None, true, true, t, 2, "Still working") {
        PlanFinish::Replan { reason, detail } => {
            assert_eq!(reason, ReplanReason::StepFailure);
            assert_eq!(
                detail,
                "Planned execution exhausted (2/2) but completion check reported remaining work. Failed steps: 1. Response: Still working"
            );
        }
        other => panic!("unexpected {:?}", other),
    }
    match plan_finish(false, None, true, true, tally(2, 0), 2, "more") {
        PlanFinish::Replan { reason, .. } => assert_eq!(reason, ReplanReason::PlanExhaustedIncomplete),
        other => panic!("unexpected {:?}", other),
    }
    assert!(matches!(
        plan_finish(false, None, true, false, t, 2, "x"),
        PlanFinish::Stuck { .. }
    ));
}

#[test]
fn replanning_loop_is_bounded() {
    let budgets = ReplanBudgets::default_budgets();
    let mut state = ReplanRuntimeState { replans_attempted: 0 };
    match replan_step(&mut state, budgets, false, ReplanReason::StepFailure, "d") {
        ReplanStep::NoLinkage { stuck_reason } => assert_eq!(
            stuck_reason,
            "Plan requires replan but autonomy linkage is unavailable: d"
        ),
        other => panic!("unexpected {:?}", other),
    }
    assert_eq!(state.replans_attempted, 0);
    match replan_step(&mut state, budgets, true, ReplanReason::PolicyDenied, "denied") {
        ReplanStep::Replan { prior_plan_status, prompt } => {
            assert_eq!(prior_plan_status, PlanStatus::Paused);
            assert!(prompt.contains("policy_denied"));
        }
        other => panic!("unexpected {:?}", other),
    }
    match replan_step(&mut state, budgets, true, ReplanReason::StepFailure, "again") {
        ReplanStep::Replan { prior_plan_status, .. } => assert_eq!(prior_plan_status, PlanStatus::Failed),
        other => panic!("unexpected {:?}", other),
    }
    assert_eq!(state.replans_attempted, 2);
    match replan_step(&mut state, budgets, true, ReplanReason::StepFailure, "third") {
        ReplanStep::BudgetExhausted { stuck_reason } => assert_eq!(
            stuck_reason,
            "Automatic replan budget exhausted after 2 attempts (last reason: step_failure - third)"
        ),
        other => panic!("unexpected {:?}", other),
    }
    assert_eq!(state.replans_attempted, 2);
    assert_eq!(
        replanning_failed_reason(1, "llm down"),
        "Automatic replanning failed after 1 attempt(s): llm down"
    );
}

#[test]
fn direct_loop_limits() {
    assert!(!worker_iterations_exceeded(50));
    assert!(worker_iterations_exceeded(51));
    assert!(!needs_stuck_nudge(5 - 2));
    assert!(needs_stuck_nudge(5));
    assert!(needs_stuck_nudge(10));
    assert!(!needs_stuck_nudge(11));
    assert_eq!(STUCK_NUDGE, "Are you stuck? Do you need help completing this job?");
    assert!(PLAN_COMPLETION_QUESTION.starts_with("All planned actions have been executed."));
}

#[test]
fn worker_round_past_the_limit_is_stuck() {
    assert_eq!(worker_round_stuck_reason(50), None);
    assert_eq!(worker_round_stuck_reason(51), Some("Maximum iterations exceeded".to_string()));
    assert_eq!(ITERATIONS_EXCEEDED_REASON, "Maximum iterations exceeded");
}
