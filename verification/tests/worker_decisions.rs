use titanclaw::autonomy::EvidenceKind;
use titanclaw::error::{Error, ToolError};
use titanclaw::replanner::ReplanReason;
use titanclaw::worker::{classify_replan_reason_for_step_error, classify_step_evidence};

#[test]
fn test_classify_replan_reason_for_policy_denial() {
    let err = Error::Tool(ToolError::AuthRequired { name: "shell".to_string() });
    assert_eq!(classify_replan_reason_for_step_error(&err), Some(ReplanReason::PolicyDenied));
}

#[test]
fn test_classify_replan_reason_for_missing_tool() {
    let err = Error::Tool(ToolError::NotFound { name: "missing".to_string() });
    assert_eq!(classify_replan_reason_for_step_error(&err), Some(ReplanReason::ToolUnavailable));
}

#[test]
fn replan_reasons_for_other_failures() {
    let hook = Error::Tool(ToolError::ExecutionFailed {
        name: "shell".to_string(),
        reason: "Blocked by hook: no".to_string(),
    });
    assert_eq!(classify_replan_reason_for_step_error(&hook), Some(ReplanReason::PolicyDenied));
    let failed = Error::Tool(ToolError::ExecutionFailed {
        name: "shell".to_string(),
        reason: "exit 1".to_string(),
    });
    assert_eq!(classify_replan_reason_for_step_error(&failed), Some(ReplanReason::StepFailure));
    let timeout = Error::Tool(ToolError::Timeout { name: "shell".to_string(), timeout_ms: 5 });
    assert_eq!(classify_replan_reason_for_step_error(&timeout), Some(ReplanReason::StepFailure));
    let sandbox = Error::Tool(ToolError::Sandbox { name: "s".to_string(), reason: "r".to_string() });
    assert_eq!(classify_replan_reason_for_step_error(&sandbox), None);
    assert_eq!(classify_replan_reason_for_step_error(&Error::Llm("x".to_string())), None);
}

#[test]
fn test_classify_step_evidence_detects_diff_and_test_commands() {
    let diff = classify_step_evidence("shell", Some("git diff --stat"), "Inspect diff");
    assert_eq!(diff.kind, EvidenceKind::FileDiff);

    let test = classify_step_evidence("shell", Some("cargo test -q"), "Run tests");
    assert_eq!(test.kind, EvidenceKind::TestRun);
}

#[test]
fn step_evidence_precedence_and_hints() {
    let lint = classify_step_evidence("runner", Some("cargo clippy"), "check style");
    assert_eq!(lint.kind, EvidenceKind::TestRun);
    assert_eq!(lint.check_kind, "lint_or_check");
    assert_eq!(lint.command_hint, Some("command"));
    let cmd = classify_step_evidence("Shell", None, "list files");
    assert_eq!(cmd.kind, EvidenceKind::CommandOutput);
    assert_eq!(cmd.command_hint, None);
    let plain = classify_step_evidence("http", Some("GET"), "fetch page");
    assert_eq!(plain.kind, EvidenceKind::ToolResult);
    assert_eq!(plain.check_kind, "tool_result");
    assert_eq!(plain.command_hint, None);
}
