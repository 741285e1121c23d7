//! The decisions of a background job that runs a plan: the step tally and
//! texts, when a failed step asks for a replan, how the end of a plan is
//! judged, and how the bounded replanning loop proceeds.
use vstd::prelude::*;
use crate::autonomy::PlanStatus;
use crate::completion::VerificationNextAction;
use crate::error::Error;
use crate::replanner::{
    replan_code, replan_prompt_text, ReplanBudgets, ReplanReason, ReplanRuntimeState, ReplannerV1,
};
use crate::text::{
    decimal, decimal_int, decimal_i64, push_chars, push_decimal, push_str, string_of, take_chars,
    take_chars_exec, to_chars,
};
use crate::worker::{classify_replan_reason_for_step_error, replan_reason_spec};

verus! {

/// Rounds of the direct tool-selection loop before a job is declared stuck.
pub const MAX_WORKER_ITERATIONS: usize = 50;

/// The question asked once every planned action has run.
pub const PLAN_COMPLETION_QUESTION: &'static str =
    "All planned actions have been executed. Is the job complete? If not, what else needs to be done?";

/// The nudge for a job that keeps answering without tools.
pub const STUCK_NUDGE: &'static str = "Are you stuck? Do you need help completing this job?";

/// Steps of a plan run so far.
#[derive(Debug, Clone, Copy)]
pub struct PlanTally {
    pub executed: usize,
    pub succeeded: usize,
    pub failed: usize,
}

impl PlanTally {
    /// Every executed step either succeeded or failed.
    pub open spec fn wf(self) -> bool {
        self.executed == self.succeeded + self.failed
    }

    /// No step run yet.
    pub fn new() -> (t: Self)
        ensures
            t.wf(),
            t.executed == 0,
            t.succeeded == 0,
            t.failed == 0,
    {
        PlanTally { executed: 0, succeeded: 0, failed: 0 }
    }

    /// Counts one more step.
    pub fn record(&mut self, succeeded: bool)
        requires
            old(self).wf(),
            old(self).executed < usize::MAX,
        ensures
            final(self).wf(),
            final(self).executed == old(self).executed + 1,
            final(self).succeeded == old(self).succeeded + (if succeeded {
                1int
            } else {
                0int
            }),
            final(self).failed == old(self).failed + (if succeeded {
                0int
            } else {
                1int
            }),
    {
        self.executed = self.executed + 1;
        if succeeded {
            self.succeeded = self.succeeded + 1;
        } else {
            self.failed = self.failed + 1;
        }
    }
}

/// `succeeded` or `failed`.
pub open spec fn status_word(succeeded: bool) -> Seq<char> {
    if succeeded {
        "succeeded"@
    } else {
        "failed"@
    }
}

/// The title of the memory record of step `index` (counted from zero).
pub fn step_memory_title(index: usize, succeeded: bool, tool_name: &str) -> (s: String)
    requires
        index < usize::MAX,
    ensures
        s@ == "Planned step "@ + decimal(index as nat + 1) + " "@ + status_word(succeeded) + " ("@
            + tool_name@ + ")"@,
{
    let mut s = String::new();
    push_str(&mut s, "Planned step ");
    push_decimal(&mut s, (index + 1) as u64);
    push_str(&mut s, " ");
    push_str(&mut s, if succeeded { "succeeded" } else { "failed" });
    push_str(&mut s, " (");
    push_str(&mut s, tool_name);
    push_str(&mut s, ")");
    s
}

/// The summary of the memory record of step `index` of `total`: its status,
/// time, and the first 160 characters of its reasoning.
pub fn step_memory_summary(
    index: usize,
    total: usize,
    succeeded: bool,
    elapsed_ms: i64,
    reasoning: &str,
) -> (s: String)
    requires
        index < usize::MAX,
    ensures
        s@ == "Step "@ + decimal(index as nat + 1) + "/"@ + decimal(total as nat) + " "@ + status_word(
            succeeded,
        ) + " in "@ + decimal_int(elapsed_ms as int) + "ms: "@ + take_chars(reasoning@, 160),
{
    let mut s = String::new();
    push_str(&mut s, "Step ");
    push_decimal(&mut s, (index + 1) as u64);
    push_str(&mut s, "/");
    push_decimal(&mut s, total as u64);
    push_str(&mut s, " ");
    push_str(&mut s, if succeeded { "succeeded" } else { "failed" });
    push_str(&mut s, " in ");
    let ms = decimal_i64(elapsed_ms);
    push_chars(&mut s, ms.as_slice());
    push_str(&mut s, "ms: ");
    let rv = to_chars(reasoning);
    let head = take_chars_exec(rv.as_slice(), 160);
    push_chars(&mut s, head.as_slice());
    s
}

/// The summary of a step's evidence, cut to 240 characters.
pub fn step_evidence_summary(succeeded: bool, tool_name: &str, reasoning: &str) -> (s: String)
    ensures
        s@ == take_chars(
            (if succeeded {
                "Succeeded"@
            } else {
                "Failed"@
            }) + " "@ + tool_name@ + " ("@ + reasoning@ + ")"@,
            240,
        ),
{
    let mut full = String::new();
    push_str(&mut full, if succeeded { "Succeeded" } else { "Failed" });
    push_str(&mut full, " ");
    push_str(&mut full, tool_name);
    push_str(&mut full, " (");
    push_str(&mut full, reasoning);
    push_str(&mut full, ")");
    let fv = to_chars(full.as_str());
    let head = take_chars_exec(fv.as_slice(), 240);
    let mut s = String::new();
    push_chars(&mut s, head.as_slice());
    s
}

/// The confidence of a step's evidence, in thousandths: 950 for a success,
/// 800 for a failure.
pub fn step_evidence_confidence_milli(succeeded: bool) -> (c: u32)
    ensures
        c == (if succeeded {
            950u32
        } else {
            800u32
        }),
{
    if succeeded {
        950
    } else {
        800
    }
}

/// The source of step `index`'s evidence.
pub fn step_evidence_source(index: usize) -> (s: String)
    ensures
        s@ == "worker.plan_step."@ + decimal(index as nat),
{
    let mut s = String::new();
    push_str(&mut s, "worker.plan_step.");
    push_decimal(&mut s, index as u64);
    s
}

/// The detail of a replan asked for by failed step `index` of `total`.
pub open spec fn step_replan_detail(index: nat, total: nat, tool: Seq<char>, error_text: Seq<char>) -> Seq<char> {
    "Planned step "@ + decimal(index + 1) + "/"@ + decimal(total) + " ("@ + tool
        + ") failed and requires replanning: "@ + error_text
}

/// A failed step whose error calls for a replan (see
/// `classify_replan_reason_for_step_error`) asks for one, with its reason and
/// a detail naming the step and its error text.
pub fn step_replan_request(
    index: usize,
    total: usize,
    tool_name: &str,
    err: &Error,
    error_text: &str,
) -> (r: Option<(ReplanReason, String)>)
    requires
        index < usize::MAX,
    ensures
        match replan_reason_spec(*err) {
            Some(reason) => r matches Some((rr, d)) && rr == reason && d@ == step_replan_detail(
                index as nat,
                total as nat,
                tool_name@,
                error_text@,
            ),
            None => r is None,
        },
{
    match classify_replan_reason_for_step_error(err) {
        Some(reason) => {
            let mut d = String::new();
            push_str(&mut d, "Planned step ");
            push_decimal(&mut d, (index + 1) as u64);
            push_str(&mut d, "/");
            push_decimal(&mut d, total as u64);
            push_str(&mut d, " (");
            push_str(&mut d, tool_name);
            push_str(&mut d, ") failed and requires replanning: ");
            push_str(&mut d, error_text);
            Some((reason, d))
        },
        None => None,
    }
}

/// What the completion check said, when it ran.
#[derive(Debug)]
pub struct VerifierVerdict {
    pub allow_completion: bool,
    pub next_action: VerificationNextAction,
    pub summary: String,
}

/// How a plan run ends once all its steps have run.
#[derive(Debug)]
pub enum PlanFinish {
    /// The job is done; plan and goal are completed.
    Complete,
    /// A new plan is asked for.
    Replan { reason: ReplanReason, detail: String },
    /// The job is stuck with this reason; plan failed, goal blocked.
    Stuck { reason: String },
}

/// The view of a `PlanFinish`.
pub enum PlanFinishView {
    Complete,
    Replan { reason: ReplanReason, detail: Seq<char> },
    Stuck { reason: Seq<char> },
}

/// The detail of a replan after a plan that ran out without completing.
pub open spec fn exhausted_detail(executed: nat, planned: nat, failed: nat, response: Seq<char>) -> Seq<char> {
    "Planned execution exhausted ("@ + decimal(executed) + "/"@ + decimal(planned)
        + ") but completion check reported remaining work. Failed steps: "@ + decimal(failed)
        + ". Response: "@ + take_chars(response, 280)
}

/// The replan a plan run that did not complete asks for: a blocked claim
/// asks when the check wants a replan or more evidence; an unclaimed
/// completion always asks (a step failure when a step failed).
pub open spec fn finish_replan(
    claimed: bool,
    verdict: Option<(bool, VerificationNextAction, Seq<char>)>,
    executed: nat,
    planned: nat,
    failed: nat,
    response: Seq<char>,
) -> Option<(ReplanReason, Seq<char>)> {
    if claimed {
        match verdict {
            Some(v) => match v.1 {
                VerificationNextAction::Replan => Some(
                    (ReplanReason::VerifierInsufficientEvidence, "Verifier blocked completion (replan): "@ + v.2),
                ),
                VerificationNextAction::GatherEvidence => Some(
                    (
                        ReplanReason::VerifierInsufficientEvidence,
                        "Verifier blocked completion (gather_evidence): "@ + v.2,
                    ),
                ),
                _ => None,
            },
            None => None,
        }
    } else {
        Some(
            (
                if failed > 0 {
                    ReplanReason::StepFailure
                } else {
                    ReplanReason::PlanExhaustedIncomplete
                },
                exhausted_detail(executed, planned, failed, response),
            ),
        )
    }
}

/// The reason a plan run that did not complete is stuck with, when it does
/// not replan: the check's summary for a claim it blocked (prefixed when it
/// asks the user), else a generic reason.
pub open spec fn finish_stuck(claimed: bool, verdict: Option<(bool, VerificationNextAction, Seq<char>)>) -> Seq<char> {
    let default_stuck = "Plan completed but job incomplete - needs re-planning"@;
    if claimed {
        match verdict {
            Some(v) => match v.1 {
                VerificationNextAction::Replan => default_stuck,
                VerificationNextAction::GatherEvidence => default_stuck,
                VerificationNextAction::AskUser => "Verifier blocked completion pending user confirmation: "@
                    + v.2,
                _ => v.2,
            },
            None => default_stuck,
        }
    } else {
        default_stuck
    }
}

/// The end of a plan run. It completes when the model claims completion and
/// the completion check (when it ran) allows it. Otherwise it replans as
/// `finish_replan` says, when the replanner is on and the plan is persisted,
/// and is stuck with `finish_stuck` else.
pub open spec fn plan_finish_spec(
    claimed: bool,
    verdict: Option<(bool, VerificationNextAction, Seq<char>)>,
    replanner_enabled: bool,
    has_persisted_plan: bool,
    executed: nat,
    planned: nat,
    failed: nat,
    response: Seq<char>,
) -> PlanFinishView {
    let allows = match verdict {
        Some(v) => v.0,
        None => claimed,
    };
    if claimed && allows {
        PlanFinishView::Complete
    } else {
        match finish_replan(claimed, verdict, executed, planned, failed, response) {
            Some(rq) => if replanner_enabled && has_persisted_plan {
                PlanFinishView::Replan { reason: rq.0, detail: rq.1 }
            } else {
                PlanFinishView::Stuck { reason: finish_stuck(claimed, verdict) }
            },
            None => PlanFinishView::Stuck { reason: finish_stuck(claimed, verdict) },
        }
    }
}

/// The view of a verdict.
pub open spec fn verdict_view(v: Option<&VerifierVerdict>) -> Option<(bool, VerificationNextAction, Seq<char>)> {
    match v {
        Some(x) => Some((x.allow_completion, x.next_action, x.summary@)),
        None => None,
    }
}

/// The view of a finish.
pub open spec fn finish_view(f: PlanFinish) -> PlanFinishView {
    match f {
        PlanFinish::Complete => PlanFinishView::Complete,
        PlanFinish::Replan { reason, detail } => PlanFinishView::Replan { reason, detail: detail@ },
        PlanFinish::Stuck { reason } => PlanFinishView::Stuck { reason: reason@ },
    }
}

fn verifier_block_detail(label: &str, summary: &str) -> (s: String)
    ensures
        s@ == "Verifier blocked completion ("@ + label@ + "): "@ + summary@,
{
    let mut s = String::new();
    push_str(&mut s, "Verifier blocked completion (");
    push_str(&mut s, label);
    push_str(&mut s, "): ");
    push_str(&mut s, summary);
    s
}

/// How a plan run ends once all its steps have run (see `plan_finish_spec`).
pub fn plan_finish(
    completion_claimed: bool,
    verdict: Option<&VerifierVerdict>,
    replanner_enabled: bool,
    has_persisted_plan: bool,
    tally: PlanTally,
    planned: usize,
    response: &str,
) -> (f: PlanFinish)
    ensures
        finish_view(f) == plan_finish_spec(
            completion_claimed,
            verdict_view(verdict),
            replanner_enabled,
            has_persisted_plan,
            tally.executed as nat,
            planned as nat,
            tally.failed as nat,
            response@,
        ),
{
    let allows = match verdict {
        Some(v) => v.allow_completion,
        None => completion_claimed,
    };
    if completion_claimed && allows {
        return PlanFinish::Complete;
    }
    let mut stuck = string_of("Plan completed but job incomplete - needs re-planning");
    let mut replan: Option<(ReplanReason, String)> = None;
    if completion_claimed {
        match verdict {
            Some(v) => match v.next_action {
                VerificationNextAction::Replan => {
                    let d = verifier_block_detail("replan", v.summary.as_str());
                    proof { reveal_strlit("replan"); }
                    assert(d@ =~= "Verifier blocked completion (replan): "@ + v.summary@) by {
                        reveal_strlit("Verifier blocked completion (");
                        reveal_strlit("): ");
                        reveal_strlit("Verifier blocked completion (replan): ");
                    }
                    replan = Some((ReplanReason::VerifierInsufficientEvidence, d));
                },
                VerificationNextAction::GatherEvidence => {
                    let d = verifier_block_detail("gather_evidence", v.summary.as_str());
                    proof { reveal_strlit("gather_evidence"); }
                    assert(d@ =~= "Verifier blocked completion (gather_evidence): "@ + v.summary@) by {
                        reveal_strlit("Verifier blocked completion (");
                        reveal_strlit("): ");
                        reveal_strlit("Verifier blocked completion (gather_evidence): ");
                    }
                    replan = Some((ReplanReason::VerifierInsufficientEvidence, d));
                },
                VerificationNextAction::AskUser => {
                    let mut s = String::new();
                    push_str(&mut s, "Verifier blocked completion pending user confirmation: ");
                    push_str(&mut s, v.summary.as_str());
                    stuck = s;
                },
                _ => {
                    stuck = string_of(v.summary.as_str());
                },
            },
            None => {},
        }
    } else {
        let reason = if tally.failed > 0 {
            ReplanReason::StepFailure
        } else {
            ReplanReason::PlanExhaustedIncomplete
        };
        let mut d = String::new();
        push_str(&mut d, "Planned execution exhausted (");
        push_decimal(&mut d, tally.executed as u64);
        push_str(&mut d, "/");
        push_decimal(&mut d, planned as u64);
        push_str(&mut d, ") but completion check reported remaining work. Failed steps: ");
        push_decimal(&mut d, tally.failed as u64);
        push_str(&mut d, ". Response: ");
        let rv = to_chars(response);
        let head = take_chars_exec(rv.as_slice(), 280);
        push_chars(&mut d, head.as_slice());
        assert(d@ =~= exhausted_detail(tally.executed as nat, planned as nat, tally.failed as nat, response@));
        replan = Some((reason, d));
    }
    let ghost vv = verdict_view(verdict);
    assert(stuck@ == finish_stuck(completion_claimed, vv));
    assert(match replan {
        Some(rq) => finish_replan(completion_claimed, vv, tally.executed as nat, planned as nat, tally.failed as nat, response@)
            == Some((rq.0, rq.1@)),
        None => finish_replan(completion_claimed, vv, tally.executed as nat, planned as nat, tally.failed as nat, response@) is None,
    });
    match replan {
        Some((reason, detail)) => if replanner_enabled && has_persisted_plan {
            PlanFinish::Replan { reason, detail }
        } else {
            PlanFinish::Stuck { reason: stuck }
        },
        None => PlanFinish::Stuck { reason: stuck },
    }
}

/// A plan run never completes a job without a completion claim, nor over a
/// completion check that refused it.
pub proof fn lemma_plan_completion_needs_claim_and_check(
    claimed: bool,
    verdict: Option<(bool, VerificationNextAction, Seq<char>)>,
    replanner_enabled: bool,
    has_persisted_plan: bool,
    executed: nat,
    planned: nat,
    failed: nat,
    response: Seq<char>,
)
    requires
        plan_finish_spec(
            claimed,
            verdict,
            replanner_enabled,
            has_persisted_plan,
            executed,
            planned,
            failed,
            response,
        ) is Complete,
    ensures
        claimed,
        verdict matches Some(v) ==> v.0,
{
}

/// A step of the bounded replanning loop after a plan asked for a replan.
#[derive(Debug)]
pub enum ReplanStep {
    /// No persisted plan links the job to a goal: the job is stuck, with no
    /// status change.
    NoLinkage { stuck_reason: String },
    /// The replan budget is used up: the prior plan fails, the goal is
    /// blocked, and the job is stuck.
    BudgetExhausted { stuck_reason: String },
    /// A replan is counted; the prior plan takes `prior_plan_status`, the goal
    /// is active again, and the planner gets `prompt`.
    Replan { prior_plan_status: PlanStatus, prompt: String },
}

/// The next step of the replanning loop. The attempt count in `state`
/// grows exactly when a replan is granted.
pub fn replan_step(
    state: &mut ReplanRuntimeState,
    budgets: ReplanBudgets,
    has_persisted_plan: bool,
    reason: ReplanReason,
    detail: &str,
) -> (s: ReplanStep)
    ensures
        !has_persisted_plan ==> (s matches ReplanStep::NoLinkage { stuck_reason } && stuck_reason@
            == "Plan requires replan but autonomy linkage is unavailable: "@ + detail@ && *final(state)
            == *old(state)),
        has_persisted_plan && old(state).replans_attempted >= budgets.max_replans_per_job ==> (s matches ReplanStep::BudgetExhausted { stuck_reason } && stuck_reason@
            == "Automatic replan budget exhausted after "@ + decimal(
            old(state).replans_attempted as nat,
        ) + " attempts (last reason: "@ + replan_code(reason) + " - "@ + detail@ + ")"@
            && *final(state) == *old(state)),
        has_persisted_plan && old(state).replans_attempted < budgets.max_replans_per_job ==> (s matches ReplanStep::Replan { prior_plan_status, prompt } && prior_plan_status == (if reason
            == ReplanReason::PolicyDenied {
            PlanStatus::Paused
        } else {
            PlanStatus::Failed
        }) && prompt@ == replan_prompt_text(reason, detail@) && final(state).replans_attempted
            == old(state).replans_attempted + 1),
{
    if !has_persisted_plan {
        let mut m = String::new();
        push_str(&mut m, "Plan requires replan but autonomy linkage is unavailable: ");
        push_str(&mut m, detail);
        return ReplanStep::NoLinkage { stuck_reason: m };
    }
    if !state.can_replan(budgets) {
        let mut m = String::new();
        push_str(&mut m, "Automatic replan budget exhausted after ");
        push_decimal(&mut m, state.replans_attempted as u64);
        push_str(&mut m, " attempts (last reason: ");
        push_str(&mut m, reason.code());
        push_str(&mut m, " - ");
        push_str(&mut m, detail);
        push_str(&mut m, ")");
        return ReplanStep::BudgetExhausted { stuck_reason: m };
    }
    state.record_replan();
    let prior = match reason {
        ReplanReason::PolicyDenied => PlanStatus::Paused,
        _ => PlanStatus::Failed,
    };
    ReplanStep::Replan { prior_plan_status: prior, prompt: ReplannerV1::replan_prompt(reason, detail) }
}

/// The stuck reason when the planner fails during replanning.
pub fn replanning_failed_reason(attempts: u32, error_text: &str) -> (s: String)
    ensures
        s@ == "Automatic replanning failed after "@ + decimal(attempts as nat) + " attempt(s): "@
            + error_text@,
{
    let mut s = String::new();
    push_str(&mut s, "Automatic replanning failed after ");
    push_decimal(&mut s, attempts as u64);
    push_str(&mut s, " attempt(s): ");
    push_str(&mut s, error_text);
    s
}

/// A round of the direct tool-selection loop past the limit makes the job
/// stuck.
pub fn worker_iterations_exceeded(iteration: usize) -> (b: bool)
    ensures
        b == (iteration > MAX_WORKER_ITERATIONS),
{
    iteration > MAX_WORKER_ITERATIONS
}

/// The stuck reason of a job whose tool-selection loop ran out of rounds.
pub const ITERATIONS_EXCEEDED_REASON: &'static str = "Maximum iterations exceeded";

/// Starting round `iteration` of the direct tool-selection loop: past the
/// limit the job is marked stuck with `ITERATIONS_EXCEEDED_REASON`.
pub fn worker_round_stuck_reason(iteration: usize) -> (r: Option<String>)
    ensures
        iteration > MAX_WORKER_ITERATIONS ==> (r matches Some(m) && m@ == ITERATIONS_EXCEEDED_REASON@),
        iteration <= MAX_WORKER_ITERATIONS ==> r is None,
{
    if worker_iterations_exceeded(iteration) {
        Some(string_of(ITERATIONS_EXCEEDED_REASON))
    } else {
        None
    }
}

/// After a text answer, every fifth round past the third asks whether the
/// job is stuck.
pub fn needs_stuck_nudge(iteration: usize) -> (b: bool)
    ensures
        b == (iteration > 3 && iteration % 5 == 0),
{
    iteration > 3 && iteration % 5 == 0
}

} // verus!
