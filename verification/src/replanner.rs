//! Replan intents, their stable reason codes and the per-job replan budget.
use vstd::prelude::*;
use crate::text::{push_str, string_of};

verus! {

/// Why a running plan must be revised.
#[derive(Debug, Clone, Copy, PartialEq, Eq, Structural)]
pub enum ReplanReason {
    PlanExhaustedIncomplete,
    StepFailure,
    PolicyDenied,
    VerifierInsufficientEvidence,
    BudgetExceeded,
    UserInterruption,
    EnvironmentDrift,
    ToolUnavailable,
}

/// The stable code of a replan reason.
pub open spec fn replan_code(r: ReplanReason) -> Seq<char> {
    match r {
        ReplanReason::PlanExhaustedIncomplete => "plan_exhausted_incomplete"@,
        ReplanReason::StepFailure => "step_failure"@,
        ReplanReason::PolicyDenied => "policy_denied"@,
        ReplanReason::VerifierInsufficientEvidence => "verifier_insufficient_evidence"@,
        ReplanReason::BudgetExceeded => "budget_exceeded"@,
        ReplanReason::UserInterruption => "user_interruption"@,
        ReplanReason::EnvironmentDrift => "environment_drift"@,
        ReplanReason::ToolUnavailable => "tool_unavailable"@,
    }
}

impl ReplanReason {
    /// The stable code of this reason.
    pub fn code(self) -> (s: &'static str)
        ensures
            s@ == replan_code(self),
    {
        match self {
            ReplanReason::PlanExhaustedIncomplete => "plan_exhausted_incomplete",
            ReplanReason::StepFailure => "step_failure",
            ReplanReason::PolicyDenied => "policy_denied",
            ReplanReason::VerifierInsufficientEvidence => "verifier_insufficient_evidence",
            ReplanReason::BudgetExceeded => "budget_exceeded",
            ReplanReason::UserInterruption => "user_interruption",
            ReplanReason::EnvironmentDrift => "environment_drift",
            ReplanReason::ToolUnavailable => "tool_unavailable",
        }
    }
}

/// The replan prompt for a reason and a free-form detail.
pub open spec fn replan_prompt_text(reason: ReplanReason, detail: Seq<char>) -> Seq<char> {
    "The previous plan needs revision. Replan now.\nReason: "@ + replan_code(reason) + ".\nDetail: "@
        + detail
        + "\nProduce a revised multi-step plan that avoids the failure mode and completes the job."@
}

pub struct ReplannerV1;

impl ReplannerV1 {
    /// The prompt that asks the planner for a revised plan.
    pub fn replan_prompt(reason: ReplanReason, detail: &str) -> (s: String)
        ensures
            s@ == replan_prompt_text(reason, detail@),
    {
        let mut s = string_of("The previous plan needs revision. Replan now.\nReason: ");
        push_str(&mut s, reason.code());
        push_str(&mut s, ".\nDetail: ");
        push_str(&mut s, detail);
        push_str(
            &mut s,
            "\nProduce a revised multi-step plan that avoids the failure mode and completes the job.",
        );
        s
    }
}

/// The replan budget of one job.
#[derive(Debug, Clone, Copy, PartialEq, Eq, Structural)]
pub struct ReplanBudgets {
    pub max_replans_per_job: u32,
}

impl ReplanBudgets {
    /// The default budget: two replans per job.
    pub fn default_budgets() -> (b: Self)
        ensures
            b.max_replans_per_job == 2,
    {
        ReplanBudgets { max_replans_per_job: 2 }
    }
}

impl Default for ReplanBudgets {
    fn default() -> (b: Self)
        ensures
            b.max_replans_per_job == 2,
    {
        Self::default_budgets()
    }
}

/// How many replans a job has used so far.
#[derive(Debug, Clone, Copy, PartialEq, Eq, Structural)]
pub struct ReplanRuntimeState {
    pub replans_attempted: u32,
}

impl Default for ReplanRuntimeState {
    fn default() -> (s: Self)
        ensures
            s.replans_attempted == 0,
    {
        ReplanRuntimeState { replans_attempted: 0 }
    }
}

impl ReplanRuntimeState {
    /// Whether another replan fits in the budget.
    pub fn can_replan(&self, budgets: ReplanBudgets) -> (b: bool)
        ensures
            b == (self.replans_attempted < budgets.max_replans_per_job),
    {
        self.replans_attempted < budgets.max_replans_per_job
    }

    /// Counts one more replan (saturating).
    pub fn record_replan(&mut self)
        ensures
            final(self).replans_attempted == if old(self).replans_attempted == u32::MAX {
                u32::MAX as int
            } else {
                old(self).replans_attempted + 1
            },
    {
        if self.replans_attempted < u32::MAX {
            self.replans_attempted = self.replans_attempted + 1;
        }
    }
}

/// A job never gets more replans than its budget: starting from zero, after
/// `n` recorded replans `can_replan` holds exactly while `n` is below the
/// budget, and recording a replan never re-enables a refused one.
pub proof fn lemma_replan_budget_is_respected(
    before: ReplanRuntimeState,
    after: ReplanRuntimeState,
    budgets: ReplanBudgets,
)
    requires
        after.replans_attempted == if before.replans_attempted == u32::MAX {
            u32::MAX as int
        } else {
            before.replans_attempted + 1
        },
    ensures
        !(before.replans_attempted < budgets.max_replans_per_job) ==> !(after.replans_attempted
            < budgets.max_replans_per_job),
        after.replans_attempted >= before.replans_attempted,
        before.replans_attempted < u32::MAX ==> after.replans_attempted == before.replans_attempted
            + 1,
{
}

} // verus!
