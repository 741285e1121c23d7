use titanclaw::autonomy::{EvidenceKind, GoalRiskClass, PlanVerificationStatus};
use titanclaw::completion::{
    acceptance_criteria_present, render_plan_trace_summary, validate_action_plan, Evidence,
    EvidencePayload, PlanDefect, PlanStepLine, VerificationNextAction, VerificationRequest,
    VerifierV1,
};

fn base_request() -> VerificationRequest {
    VerificationRequest {
        completion_path: "final_llm_completion_check",
        completion_claimed: true,
        completion_candidate_summary: "done".to_string(),
        planned_steps: 2,
        executed_steps: 2,
        succeeded_steps: 2,
        failed_steps: 0,
        step_outcomes: vec![],
        base_evidence: vec![],
        acceptance_criteria: "{}".to_string(),
        risk_class: GoalRiskClass::Medium,
    }
}

#[test]
fn test_verifier_passes_clean_medium_risk_completion() {
    let out = VerifierV1::verify_completion(base_request());
    assert_eq!(out.status, PlanVerificationStatus::Passed);
    assert!(out.allow_completion);
    assert_eq!(out.next_action, VerificationNextAction::Complete);
    assert_eq!(out.summary, "Verifier passed planned execution completion");
}

#[test]
fn test_verifier_blocks_high_risk_with_explicit_criteria_pending_evidence() {
    let mut req = base_request();
    req.risk_class = GoalRiskClass::High;
    req.acceptance_criteria = r#"{"tests":"must pass"}"#.to_string();
    let out = VerifierV1::verify_completion(req);
    assert_eq!(out.status, PlanVerificationStatus::Inconclusive);
    assert!(!out.allow_completion);
    assert_eq!(out.next_action, VerificationNextAction::GatherEvidence);
    assert_eq!(out.failure_reasons, vec!["high_risk_requires_more_evidence"]);
    assert_eq!(out.evidence.len(), 2);
    assert!(out.checks.has_acceptance_criteria);
}

#[test]
fn test_verifier_soft_allows_low_risk_contradiction() {
    let mut req = base_request();
    req.risk_class = GoalRiskClass::Low;
    req.failed_steps = 1;
    req.succeeded_steps = 1;
    let out = VerifierV1::verify_completion(req);
    assert_eq!(out.status, PlanVerificationStatus::Inconclusive);
    assert!(out.allow_completion);
    assert_eq!(
        out.summary,
        "Verifier marked completion inconclusive but allowed completion (soft gate): failed_steps_present, completion_claim_contradicted_by_failed_steps"
    );
}

#[test]
fn test_verifier_blocks_high_risk_contradiction_and_requests_replan() {
    let mut req = base_request();
    req.risk_class = GoalRiskClass::Critical;
    req.failed_steps = 1;
    req.succeeded_steps = 1;
    let out = VerifierV1::verify_completion(req);
    assert_eq!(out.status, PlanVerificationStatus::Inconclusive);
    assert!(!out.allow_completion);
    assert_eq!(out.next_action, VerificationNextAction::Replan);
}

#[test]
fn verifier_rejects_unclaimed_completion() {
    let mut req = base_request();
    req.completion_claimed = false;
    req.executed_steps = 1;
    req.completion_candidate_summary = "x".repeat(250);
    let out = VerifierV1::verify_completion(req);
    assert_eq!(out.status, PlanVerificationStatus::Failed);
    assert_eq!(out.next_action, VerificationNextAction::Replan);
    assert_eq!(
        out.summary,
        "Verifier rejected completion and requires replan: llm_did_not_claim_completion, not_all_planned_steps_executed"
    );
    let candidate = &out.evidence[1];
    assert_eq!(candidate.summary.chars().count(), 240);
    assert!(matches!(
        candidate.payload,
        EvidencePayload::CompletionCandidate { completion_path: "final_llm_completion_check", truncated: true }
    ));
}

#[test]
fn verifier_appends_two_observations_after_base_evidence() {
    let mut req = base_request();
    req.step_outcomes = vec![r#"{"step":0}"#.to_string()];
    req.base_evidence = vec![Evidence {
        kind: EvidenceKind::TestRun,
        source: "worker.plan_step.0".to_string(),
        summary: "Succeeded shell (run tests)".to_string(),
        confidence_milli: 950,
        payload: EvidencePayload::Json("{}".to_string()),
    }];
    let out = VerifierV1::verify_completion(req);
    assert_eq!(out.evidence.len(), 3);
    assert_eq!(out.evidence[0].source, "worker.plan_step.0");
    let gate = &out.evidence[1];
    assert_eq!(gate.kind, EvidenceKind::Observation);
    assert_eq!(gate.source, "verifier_v1");
    assert_eq!(gate.summary, "Verifier v1 completion gate decision");
    assert_eq!(gate.confidence_milli, 800);
    match &gate.payload {
        EvidencePayload::Checks(c) => {
            assert_eq!(c.planned_steps, 2);
            assert!(c.all_planned_steps_executed);
            assert_eq!(c.step_outcomes, vec![r#"{"step":0}"#.to_string()]);
            assert!(c.failure_reasons.is_empty());
        }
        _ => panic!("gate evidence carries the checks"),
    }
    let candidate = &out.evidence[2];
    assert_eq!(candidate.source, "verifier_v1.completion_candidate");
    assert_eq!(candidate.summary, "done");
    assert_eq!(candidate.confidence_milli, 500);
}

#[test]
fn acceptance_criteria_count_only_as_a_non_empty_object() {
    assert!(acceptance_criteria_present(r#"{"tests":"must pass"}"#));
    assert!(!acceptance_criteria_present("{}"));
    assert!(!acceptance_criteria_present("[1]"));
    assert!(!acceptance_criteria_present("not json"));
    let mut req = base_request();
    req.risk_class = GoalRiskClass::High;
    req.acceptance_criteria = "{}".to_string();
    let out = VerifierV1::verify_completion(req);
    assert_eq!(out.status, PlanVerificationStatus::Passed);
}

fn sample_steps() -> Vec<PlanStepLine> {
    vec![PlanStepLine { tool_name: "shell".to_string(), reasoning: "Validate compile".to_string() }]
}

#[test]
fn test_render_plan_trace_summary_formats_steps() {
    let s = render_plan_trace_summary("Ship feature", &sample_steps());
    assert!(s.contains("Ship feature"));
    assert!(s.contains("1. shell - Validate compile"));
    let two = render_plan_trace_summary(
        "g",
        &[
            PlanStepLine { tool_name: "a".to_string(), reasoning: "x".to_string() },
            PlanStepLine { tool_name: "b".to_string(), reasoning: "y".to_string() },
        ],
    );
    assert_eq!(two, "I've created a plan to accomplish this goal: g\n\nSteps:\n1. a - x\n2. b - y");
}

#[test]
fn test_validate_action_plan_rejects_empty_actions() {
    assert_eq!(validate_action_plan("Ship feature", 0, true), Err(PlanDefect::EmptyActionList));
}

#[test]
fn test_validate_action_plan_rejects_invalid_confidence() {
    let confidence = 1.5f32;
    let ok = (0.0..=1.0).contains(&confidence);
    assert_eq!(validate_action_plan("Ship feature", 1, ok), Err(PlanDefect::InvalidConfidence));
    assert_eq!(validate_action_plan("  ", 1, true), Err(PlanDefect::EmptyGoal));
    assert_eq!(validate_action_plan("g", 1, true), Ok(()));
}
