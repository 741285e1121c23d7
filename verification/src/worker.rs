//! Worker decisions: how a failed plan step is answered, and what kind of
//! evidence a step leaves.
use vstd::prelude::*;
use crate::autonomy::EvidenceKind;
use crate::error::{Error, ToolError};
use crate::replanner::ReplanReason;
use crate::text::{ascii_lower, contains, contains_str, lower_chars, starts_with, starts_with_str, to_chars};

verus! {

/// The settings a worker runs under.
#[derive(Debug)]
pub struct WorkerDeps {
    pub timeout: std::time::Duration,
    pub use_planning: bool,
    pub autonomy_policy_engine_v1: bool,
    pub autonomy_verifier_v1: bool,
    pub autonomy_replanner_v1: bool,
    pub autonomy_memory_plane_v2: bool,
    pub autonomy_memory_retrieval_v2: bool,
}

/// The replan reason for a failed step, if the failure calls for one.
pub open spec fn replan_reason_spec(err: Error) -> Option<ReplanReason> {
    match err {
        Error::Tool(t) => match t {
            ToolError::AuthRequired { .. } => Some(ReplanReason::PolicyDenied),
            ToolError::ExecutionFailed { reason, .. } => if starts_with(
                reason@,
                "Blocked by hook:"@,
            ) {
                Some(ReplanReason::PolicyDenied)
            } else {
                Some(ReplanReason::StepFailure)
            },
            ToolError::NotFound { .. } => Some(ReplanReason::ToolUnavailable),
            ToolError::Timeout { .. } => Some(ReplanReason::StepFailure),
            _ => None,
        },
        _ => None,
    }
}

/// The replan reason for a failed step: a denied or hook-blocked call is a
/// policy denial, a missing tool is unavailable, a timeout or failed call is
/// a step failure; other errors do not replan.
pub fn classify_replan_reason_for_step_error(err: &Error) -> (r: Option<ReplanReason>)
    ensures
        r == replan_reason_spec(*err),
{
    match err {
        Error::Tool(t) => match t {
            ToolError::AuthRequired { .. } => Some(ReplanReason::PolicyDenied),
            ToolError::ExecutionFailed { reason, .. } => {
                let v = to_chars(reason.as_str());
                if starts_with_str(v.as_slice(), "Blocked by hook:") {
                    Some(ReplanReason::PolicyDenied)
                } else {
                    Some(ReplanReason::StepFailure)
                }
            },
            ToolError::NotFound { .. } => Some(ReplanReason::ToolUnavailable),
            ToolError::Timeout { .. } => Some(ReplanReason::StepFailure),
            _ => None,
        },
        _ => None,
    }
}

/// What kind of evidence a plan step leaves.
#[derive(Debug, Clone, Copy)]
pub struct StepEvidenceClassification {
    pub kind: EvidenceKind,
    pub check_kind: &'static str,
    pub command_hint: Option<&'static str>,
}

/// The step looks like a test run.
pub open spec fn looks_like_test(tool: Seq<char>, cmd: Seq<char>, why: Seq<char>) -> bool {
    contains(tool, "test"@) || contains(cmd, "cargo test"@) || contains(cmd, "pytest"@) || contains(
        cmd,
        "npm test"@,
    ) || contains(cmd, "pnpm test"@) || contains(cmd, "yarn test"@) || contains(why, "test"@)
}

/// The step looks like a lint or compile check.
pub open spec fn looks_like_lint(tool: Seq<char>, cmd: Seq<char>, why: Seq<char>) -> bool {
    contains(tool, "lint"@) || contains(cmd, "cargo clippy"@) || contains(cmd, "cargo check"@)
        || contains(cmd, "eslint"@) || contains(cmd, "ruff"@) || contains(cmd, "golangci-lint"@)
        || contains(why, "lint"@) || contains(why, "compile check"@)
}

/// The step looks like it shows a diff.
pub open spec fn looks_like_diff(tool: Seq<char>, cmd: Seq<char>, why: Seq<char>) -> bool {
    contains(tool, "diff"@) || contains(cmd, "git diff"@) || contains(cmd, "diff --"@) || contains(
        why,
        "diff"@,
    ) || contains(why, "patch"@)
}

/// The step runs a command.
pub open spec fn looks_like_command(tool: Seq<char>) -> bool {
    contains(tool, "shell"@) || contains(tool, "command"@) || contains(tool, "exec"@)
}

/// The classification of a step from its tool name, its `command` parameter
/// (when it is a string) and its reasoning, all compared in ASCII lower case.
pub open spec fn step_evidence_spec(tool: Seq<char>, command: Option<Seq<char>>, why: Seq<char>)
    -> (EvidenceKind, Seq<char>, bool)
{
    let t = ascii_lower(tool);
    let c = match command {
        Some(x) => ascii_lower(x),
        None => Seq::<char>::empty(),
    };
    let w = ascii_lower(why);
    let hint = c.len() > 0;
    if looks_like_test(t, c, w) {
        (EvidenceKind::TestRun, "test"@, hint)
    } else if looks_like_lint(t, c, w) {
        (EvidenceKind::TestRun, "lint_or_check"@, hint)
    } else if looks_like_diff(t, c, w) {
        (EvidenceKind::FileDiff, "diff"@, hint)
    } else if looks_like_command(t) {
        (EvidenceKind::CommandOutput, "command_output"@, hint)
    } else {
        (EvidenceKind::ToolResult, "tool_result"@, false)
    }
}

/// The kind of evidence a plan step leaves: a test run, a lint or compile
/// check, a diff, command output, or a plain tool result, in that order of
/// precedence; `command_hint` names the `command` parameter when it is a
/// non-empty string.
pub fn classify_step_evidence(tool_name: &str, command: Option<&str>, reasoning: &str) -> (r: StepEvidenceClassification)
    ensures
        ({
            let s = step_evidence_spec(
                tool_name@,
                match command {
                    Some(x) => Some(x@),
                    None => None,
                },
                reasoning@,
            );
            &&& r.kind == s.0
            &&& r.check_kind@ == s.1
            &&& match r.command_hint {
                Some(h) => s.2 && h@ == "command"@,
                None => !s.2,
            }
        }),
{
    let tv = to_chars(tool_name);
    let t = lower_chars(tv.as_slice());
    let c = match command {
        Some(x) => {
            let xv = to_chars(x);
            lower_chars(xv.as_slice())
        },
        None => Vec::new(),
    };
    let wv = to_chars(reasoning);
    let w = lower_chars(wv.as_slice());
    let (t, c, w) = (t.as_slice(), c.as_slice(), w.as_slice());
    let hint = if c.len() > 0 {
        Some("command")
    } else {
        None
    };
    if contains_str(t, "test") || contains_str(c, "cargo test") || contains_str(c, "pytest")
        || contains_str(c, "npm test") || contains_str(c, "pnpm test") || contains_str(c, "yarn test")
        || contains_str(w, "test") {
        return StepEvidenceClassification { kind: EvidenceKind::TestRun, check_kind: "test", command_hint: hint };
    }
    if contains_str(t, "lint") || contains_str(c, "cargo clippy") || contains_str(c, "cargo check")
        || contains_str(c, "eslint") || contains_str(c, "ruff") || contains_str(c, "golangci-lint")
        || contains_str(w, "lint") || contains_str(w, "compile check") {
        return StepEvidenceClassification {
            kind: EvidenceKind::TestRun,
            check_kind: "lint_or_check",
            command_hint: hint,
        };
    }
    if contains_str(t, "diff") || contains_str(c, "git diff") || contains_str(c, "diff --")
        || contains_str(w, "diff") || contains_str(w, "patch") {
        return StepEvidenceClassification { kind: EvidenceKind::FileDiff, check_kind: "diff", command_hint: hint };
    }
    if contains_str(t, "shell") || contains_str(t, "command") || contains_str(t, "exec") {
        return StepEvidenceClassification {
            kind: EvidenceKind::CommandOutput,
            check_kind: "command_output",
            command_hint: hint,
        };
    }
    StepEvidenceClassification { kind: EvidenceKind::ToolResult, check_kind: "tool_result", command_hint: None }
}

} // verus!
