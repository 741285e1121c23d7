//! The completion check of planned execution, and plan validation.
use vstd::prelude::*;
use crate::autonomy::{EvidenceKind, GoalRiskClass, PlanVerificationStatus};
use crate::json::{json_shape_of, parse_json_shape, JsonShape, JsonShapeView};
use crate::text::{
    clone_strings, decimal, push_decimal, push_str, string_of, take_chars, take_chars_exec, to_chars,
    trim, trim_str, from_chars,
};

verus! {

/// What the verifier does next.
#[derive(Debug, Clone, Copy, PartialEq, Eq, Structural)]
pub enum VerificationNextAction {
    Complete,
    Replan,
    AskUser,
    GatherEvidence,
    MarkBlocked,
}

/// What one piece of evidence carries besides its summary.
#[derive(Debug, Clone)]
pub enum EvidencePayload {
    /// A JSON document, as text.
    Json(String),
    /// The facts the completion check decided on.
    Checks(VerificationChecks),
    /// Where the completion candidate came from, and whether its summary was cut.
    CompletionCandidate { completion_path: &'static str, truncated: bool },
}

/// One piece of evidence about planned work. Confidences are in thousandths
/// (`800` stands for 0.8).
#[derive(Debug, Clone)]
pub struct Evidence {
    pub kind: EvidenceKind,
    pub source: String,
    pub summary: String,
    pub confidence_milli: u32,
    pub payload: EvidencePayload,
}

/// The facts the completion check decides on.
#[derive(Debug, Clone)]
pub struct VerificationRequest {
    pub completion_path: &'static str,
    pub completion_claimed: bool,
    pub completion_candidate_summary: String,
    pub planned_steps: usize,
    pub executed_steps: usize,
    pub succeeded_steps: usize,
    pub failed_steps: usize,
    /// Each step's outcome, as a JSON text.
    pub step_outcomes: Vec<String>,
    /// The evidence gathered while the plan ran.
    pub base_evidence: Vec<Evidence>,
    /// The acceptance criteria, as a JSON text.
    pub acceptance_criteria: String,
    pub risk_class: GoalRiskClass,
}

/// The record of what the completion check looked at.
#[derive(Debug, Clone)]
pub struct VerificationChecks {
    pub completion_path: &'static str,
    pub planned_steps: usize,
    pub executed_steps: usize,
    pub succeeded_steps: usize,
    pub failed_steps: usize,
    pub all_planned_steps_executed: bool,
    pub completion_claimed: bool,
    pub risk_class: GoalRiskClass,
    pub has_acceptance_criteria: bool,
    pub step_outcomes: Vec<String>,
    pub failure_reasons: Vec<String>,
}

/// The completion check's decision.
#[derive(Debug, Clone)]
pub struct VerificationResult {
    pub status: PlanVerificationStatus,
    pub allow_completion: bool,
    pub next_action: VerificationNextAction,
    pub summary: String,
    pub checks: VerificationChecks,
    /// The base evidence followed by the check's own two observations.
    pub evidence: Vec<Evidence>,
    pub failure_reasons: Vec<String>,
}

/// High and critical goals are high risk.
pub open spec fn is_high_risk(r: GoalRiskClass) -> bool {
    r == GoalRiskClass::High || r == GoalRiskClass::Critical
}

/// Acceptance criteria count when they are a JSON object with at least one member.
pub open spec fn criteria_present(shape: JsonShapeView) -> bool {
    match shape {
        JsonShapeView::Object(members) => members.len() > 0,
        _ => false,
    }
}

/// A code in the list when the condition holds.
pub open spec fn reason_if(cond: bool, code: Seq<char>) -> Seq<Seq<char>> {
    if cond {
        seq![code]
    } else {
        Seq::<Seq<char>>::empty()
    }
}

/// The completion claim conflicts with failed steps.
pub open spec fn contradiction(q: VerificationRequest) -> bool {
    q.completion_claimed && q.failed_steps > 0
}

/// The check asks for more evidence: a clean claimed completion of high-risk
/// work with explicit criteria (`crit`).
pub open spec fn needs_more_evidence(q: VerificationRequest, crit: bool) -> bool {
    q.completion_claimed && !contradiction(q) && is_high_risk(q.risk_class) && crit
        && q.failed_steps == 0
}

/// Why the check did not simply pass, in order.
pub open spec fn failure_reasons_spec(q: VerificationRequest, crit: bool) -> Seq<Seq<char>> {
    reason_if(!q.completion_claimed, "llm_did_not_claim_completion"@) + reason_if(
        q.failed_steps > 0,
        "failed_steps_present"@,
    ) + reason_if(q.executed_steps != q.planned_steps, "not_all_planned_steps_executed"@)
        + reason_if(contradiction(q), "completion_claim_contradicted_by_failed_steps"@) + reason_if(
        needs_more_evidence(q, crit),
        "high_risk_requires_more_evidence"@,
    )
}

/// The check's status, whether completion is allowed, and the next action:
/// no claim fails and replans; a contradicted claim is inconclusive, allowed
/// (and completed) unless the work is high risk (then replanned); high-risk
/// work with explicit criteria gathers more evidence; otherwise it passes.
pub open spec fn decision_spec(q: VerificationRequest, crit: bool) -> (PlanVerificationStatus, bool, VerificationNextAction) {
    if !q.completion_claimed {
        (PlanVerificationStatus::Failed, false, VerificationNextAction::Replan)
    } else if contradiction(q) {
        if is_high_risk(q.risk_class) {
            (PlanVerificationStatus::Inconclusive, false, VerificationNextAction::Replan)
        } else {
            (PlanVerificationStatus::Inconclusive, true, VerificationNextAction::Complete)
        }
    } else if needs_more_evidence(q, crit) {
        (PlanVerificationStatus::Inconclusive, false, VerificationNextAction::GatherEvidence)
    } else {
        (PlanVerificationStatus::Passed, true, VerificationNextAction::Complete)
    }
}

/// The codes joined with `, `.
pub open spec fn join_comma_space(s: Seq<Seq<char>>) -> Seq<char>
    decreases s.len(),
{
    if s.len() == 0 {
        Seq::<char>::empty()
    } else if s.len() == 1 {
        s[0]
    } else {
        join_comma_space(s.drop_last()) + ", "@ + s.last()
    }
}

/// The check's summary line.
pub open spec fn summary_spec(status: PlanVerificationStatus, allow: bool, reasons: Seq<Seq<char>>) -> Seq<char> {
    match status {
        PlanVerificationStatus::Passed => "Verifier passed planned execution completion"@,
        PlanVerificationStatus::Failed => "Verifier rejected completion and requires replan: "@
            + join_comma_space(reasons),
        PlanVerificationStatus::Inconclusive => if allow {
            "Verifier marked completion inconclusive but allowed completion (soft gate): "@
                + join_comma_space(reasons)
        } else {
            "Verifier blocked completion pending additional work/evidence: "@ + join_comma_space(
                reasons,
            )
        },
    }
}

/// The checks record the request's counts and flags, whether the criteria
/// count (`crit`), and the failure reasons.
pub open spec fn checks_of(c: VerificationChecks, q: VerificationRequest, crit: bool) -> bool {
    &&& c.completion_path@ == q.completion_path@
    &&& c.planned_steps == q.planned_steps
    &&& c.executed_steps == q.executed_steps
    &&& c.succeeded_steps == q.succeeded_steps
    &&& c.failed_steps == q.failed_steps
    &&& c.all_planned_steps_executed == (q.executed_steps == q.planned_steps)
    &&& c.completion_claimed == q.completion_claimed
    &&& c.risk_class == q.risk_class
    &&& c.has_acceptance_criteria == crit
    &&& c.step_outcomes.deep_view() == q.step_outcomes.deep_view()
    &&& c.failure_reasons.deep_view() == failure_reasons_spec(q, crit)
}

/// The check's first observation: its decision, at confidence 0.8,
/// carrying the checks.
pub open spec fn is_gate_evidence(e: Evidence, q: VerificationRequest, crit: bool) -> bool {
    &&& e.kind == EvidenceKind::Observation
    &&& e.source@ == "verifier_v1"@
    &&& e.summary@ == "Verifier v1 completion gate decision"@
    &&& e.confidence_milli == 800
    &&& e.payload matches EvidencePayload::Checks(c) && checks_of(c, q, crit)
}

/// The check's second observation: the first 240 characters of the
/// completion candidate, at confidence 0.5, with its path and whether it was cut.
pub open spec fn is_candidate_evidence(e: Evidence, q: VerificationRequest) -> bool {
    &&& e.kind == EvidenceKind::Observation
    &&& e.source@ == "verifier_v1.completion_candidate"@
    &&& e.summary@ == take_chars(q.completion_candidate_summary@, 240)
    &&& e.confidence_milli == 500
    &&& e.payload matches EvidencePayload::CompletionCandidate { completion_path, truncated }
        && completion_path@ == q.completion_path@ && truncated == (
    q.completion_candidate_summary@.len() > 240)
}

/// The whole result of the check on a request, given whether the acceptance
/// criteria count (`crit`).
pub open spec fn verification_of(r: VerificationResult, q: VerificationRequest, crit: bool) -> bool {
    let n = q.base_evidence@.len();
    &&& (r.status, r.allow_completion, r.next_action) == decision_spec(q, crit)
    &&& r.failure_reasons.deep_view() == failure_reasons_spec(q, crit)
    &&& r.summary@ == summary_spec(r.status, r.allow_completion, failure_reasons_spec(q, crit))
    &&& checks_of(r.checks, q, crit)
    &&& r.evidence@.len() == n + 2
    &&& r.evidence@.take(n as int) == q.base_evidence@
    &&& is_gate_evidence(r.evidence@[n as int], q, crit)
    &&& is_candidate_evidence(r.evidence@[n as int + 1], q)
}

/// Whether acceptance criteria, given as JSON text, are a non-empty JSON object.
pub fn acceptance_criteria_present(criteria: &str) -> (b: bool)
    ensures
        b == criteria_present(json_shape_of(criteria@)),
{
    match parse_json_shape(criteria) {
        JsonShape::Object(members) => members.len() > 0,
        _ => false,
    }
}

fn push_reason(v: &mut Vec<String>, cond: bool, code: &str)
    ensures
        final(v).deep_view() == old(v).deep_view() + reason_if(cond, code@),
{
    if cond {
        let ghost before = v.deep_view();
        v.push(string_of(code));
        assert(v.deep_view() =~= before + reason_if(cond, code@));
    } else {
        assert(v.deep_view() =~= old(v).deep_view() + reason_if(cond, code@));
    }
}

fn join_reasons(reasons: &Vec<String>) -> (s: String)
    ensures
        s@ == join_comma_space(reasons.deep_view()),
{
    let mut s = String::new();
    let mut i: usize = 0;
    while i < reasons.len()
        invariant
            i <= reasons@.len(),
            s@ == join_comma_space(reasons.deep_view().take(i as int)),
        decreases reasons@.len() - i,
    {
        if i > 0 {
            push_str(&mut s, ", ");
        }
        push_str(&mut s, reasons[i].as_str());
        proof {
            let t = reasons.deep_view().take(i + 1);
            assert(t.drop_last() =~= reasons.deep_view().take(i as int));
            if i == 0 {
                assert(s@ =~= t[0]);
            }
        }
        i = i + 1;
    }
    assert(reasons.deep_view().take(reasons@.len() as int) =~= reasons.deep_view());
    s
}

fn build_checks(req: &VerificationRequest, crit: bool, reasons: &Vec<String>) -> (c: VerificationChecks)
    requires
        reasons.deep_view() == failure_reasons_spec(*req, crit),
    ensures
        checks_of(c, *req, crit),
{
    VerificationChecks {
        completion_path: req.completion_path,
        planned_steps: req.planned_steps,
        executed_steps: req.executed_steps,
        succeeded_steps: req.succeeded_steps,
        failed_steps: req.failed_steps,
        all_planned_steps_executed: req.executed_steps == req.planned_steps,
        completion_claimed: req.completion_claimed,
        risk_class: req.risk_class,
        has_acceptance_criteria: crit,
        step_outcomes: clone_strings(&req.step_outcomes),
        failure_reasons: clone_strings(reasons),
    }
}

/// The completion check of planned execution.
pub struct VerifierV1;

impl VerifierV1 {
    /// Decides whether a planned execution may complete; the acceptance
    /// criteria count when they parse as a non-empty JSON object.
    pub fn verify_completion(req: VerificationRequest) -> (r: VerificationResult)
        ensures
            verification_of(r, req, criteria_present(json_shape_of(req.acceptance_criteria@))),
    {
        let crit = acceptance_criteria_present(req.acceptance_criteria.as_str());
        Self::verify_completion_with(req, crit)
    }

    /// The completion check, given whether the acceptance criteria count.
    pub fn verify_completion_with(req: VerificationRequest, has_acceptance_criteria: bool) -> (r: VerificationResult)
        ensures
            verification_of(r, req, has_acceptance_criteria),
    {
        let crit = has_acceptance_criteria;
        let high_risk = match req.risk_class {
            GoalRiskClass::High | GoalRiskClass::Critical => true,
            _ => false,
        };
        let contradiction = req.completion_claimed && req.failed_steps > 0;
        let mut reasons: Vec<String> = Vec::new();
        push_reason(&mut reasons, !req.completion_claimed, "llm_did_not_claim_completion");
        push_reason(&mut reasons, req.failed_steps > 0, "failed_steps_present");
        push_reason(&mut reasons, req.executed_steps != req.planned_steps, "not_all_planned_steps_executed");
        push_reason(&mut reasons, contradiction, "completion_claim_contradicted_by_failed_steps");
        let more = req.completion_claimed && !contradiction && high_risk && crit && req.failed_steps == 0;
        push_reason(&mut reasons, more, "high_risk_requires_more_evidence");
        let (status, allow, next) = if !req.completion_claimed {
            (PlanVerificationStatus::Failed, false, VerificationNextAction::Replan)
        } else if contradiction {
            if high_risk {
                (PlanVerificationStatus::Inconclusive, false, VerificationNextAction::Replan)
            } else {
                (PlanVerificationStatus::Inconclusive, true, VerificationNextAction::Complete)
            }
        } else if more {
            (PlanVerificationStatus::Inconclusive, false, VerificationNextAction::GatherEvidence)
        } else {
            (PlanVerificationStatus::Passed, true, VerificationNextAction::Complete)
        };
        let checks = build_checks(&req, crit, &reasons);
        let gate_checks = build_checks(&req, crit, &reasons);
        let cv = to_chars(req.completion_candidate_summary.as_str());
        let excerpt = take_chars_exec(cv.as_slice(), 240);
        let truncated = cv.len() > 240;
        let joined = join_reasons(&reasons);
        let summary = match status {
            PlanVerificationStatus::Passed => string_of("Verifier passed planned execution completion"),
            PlanVerificationStatus::Failed => {
                let mut s = string_of("Verifier rejected completion and requires replan: ");
                push_str(&mut s, joined.as_str());
                s
            },
            PlanVerificationStatus::Inconclusive => {
                let mut s = if allow {
                    string_of("Verifier marked completion inconclusive but allowed completion (soft gate): ")
                } else {
                    string_of("Verifier blocked completion pending additional work/evidence: ")
                };
                push_str(&mut s, joined.as_str());
                s
            },
        };
        let path = req.completion_path;
        let mut evidence = req.base_evidence;
        let ghost base = evidence@;
        evidence.push(Evidence {
            kind: EvidenceKind::Observation,
            source: string_of("verifier_v1"),
            summary: string_of("Verifier v1 completion gate decision"),
            confidence_milli: 800,
            payload: EvidencePayload::Checks(gate_checks),
        });
        evidence.push(Evidence {
            kind: EvidenceKind::Observation,
            source: string_of("verifier_v1.completion_candidate"),
            summary: from_chars(excerpt.as_slice()),
            confidence_milli: 500,
            payload: EvidencePayload::CompletionCandidate { completion_path: path, truncated },
        });
        assert(evidence@.take(base.len() as int) =~= base);
        VerificationResult {
            status,
            allow_completion: allow,
            next_action: next,
            summary,
            checks,
            evidence,
            failure_reasons: reasons,
        }
    }
}

/// Completion is allowed only when the check passes, or when a low-risk
/// claim is contradicted by failed steps (the lenient case); in particular,
/// high-risk work with failed steps never completes.
pub proof fn lemma_completion_decision(q: VerificationRequest, crit: bool)
    ensures
        decision_spec(q, crit).1 <==> (decision_spec(q, crit).0 == PlanVerificationStatus::Passed
            || (contradiction(q) && !is_high_risk(q.risk_class))),
        is_high_risk(q.risk_class) && q.failed_steps > 0 ==> !decision_spec(q, crit).1,
        decision_spec(q, crit).0 == PlanVerificationStatus::Passed ==> failure_reasons_spec(q, crit).len() == (if q.executed_steps != q.planned_steps { 1int } else { 0int }),
{
}

/// What is wrong with a plan.
#[derive(Debug, Clone, Copy, PartialEq, Eq, Structural)]
pub enum PlanDefect {
    EmptyGoal,
    EmptyActionList,
    InvalidConfidence,
}

/// A plan needs a non-blank goal, at least one action, and a confidence in
/// `[0, 1]` (checked by the caller); the first defect found is reported.
pub fn validate_action_plan(goal: &str, action_count: usize, confidence_in_range: bool) -> (r: Result<(), PlanDefect>)
    ensures
        r == (if trim(goal@).len() == 0 {
            Err(PlanDefect::EmptyGoal)
        } else if action_count == 0 {
            Err(PlanDefect::EmptyActionList)
        } else if !confidence_in_range {
            Err(PlanDefect::InvalidConfidence)
        } else {
            Ok(())
        }),
{
    let g = trim_str(goal);
    if g.len() == 0 {
        Err(PlanDefect::EmptyGoal)
    } else if action_count == 0 {
        Err(PlanDefect::EmptyActionList)
    } else if !confidence_in_range {
        Err(PlanDefect::InvalidConfidence)
    } else {
        Ok(())
    }
}

/// One step of a plan as the trace shows it.
#[derive(Debug, Clone)]
pub struct PlanStepLine {
    pub tool_name: String,
    pub reasoning: String,
}

/// The numbered step lines joined by line breaks.
pub open spec fn step_lines(s: Seq<PlanStepLine>) -> Seq<char>
    decreases s.len(),
{
    if s.len() == 0 {
        Seq::<char>::empty()
    } else {
        let line = decimal(s.len()) + ". "@ + s.last().tool_name@ + " - "@ + s.last().reasoning@;
        if s.len() == 1 {
            line
        } else {
            step_lines(s.drop_last()) + "\n"@ + line
        }
    }
}

/// The plan trace shown to the user: the goal and the numbered steps.
pub fn render_plan_trace_summary(goal: &str, actions: &[PlanStepLine]) -> (s: String)
    ensures
        s@ == "I've created a plan to accomplish this goal: "@ + goal@ + "\n\nSteps:\n"@ + step_lines(
            actions@,
        ),
{
    let mut s = string_of("I've created a plan to accomplish this goal: ");
    push_str(&mut s, goal);
    push_str(&mut s, "\n\nSteps:\n");
    let ghost head = s@;
    let n = actions.len();
    let mut i: usize = 0;
    while i < n
        invariant
            n == actions@.len(),
            i <= n,
            s@ == head + step_lines(actions@.take(i as int)),
        decreases n - i,
    {
        let ghost before = s@;
        if i > 0 {
            push_str(&mut s, "\n");
        }
        push_decimal(&mut s, (i + 1) as u64);
        push_str(&mut s, ". ");
        push_str(&mut s, actions[i].tool_name.as_str());
        push_str(&mut s, " - ");
        push_str(&mut s, actions[i].reasoning.as_str());
        proof {
            let t = actions@.take(i + 1);
            assert(t.drop_last() =~= actions@.take(i as int));
            assert(t.last() == actions@[i as int]);
            if i == 0 {
                assert(step_lines(actions@.take(0)) =~= Seq::<char>::empty());
            }
            assert(s@ =~= head + step_lines(t));
        }
        i = i + 1;
    }
    assert(actions@.take(n as int) =~= actions@);
    s
}

} // verus!
