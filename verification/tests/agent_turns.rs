use titanclaw::agent_loop::{
    approval_step, executing_tools_status, hook_step, piped_result, routing_step,
    sends_result_previews, tool_error_content, uses_live_stream, AgenticLoopState, ApprovalStep,
    cost_check, HookStep, LoopStop, RoutingStep, TextResponseAction, TextStep, INTERRUPTED_REASON,
    MAX_TOOL_ITERATIONS, tool_use_nudge_text,
};
use titanclaw::dispatch::ChatToolRoutingDecision;
use titanclaw::error::{Error, ToolError};
use titanclaw::policy::{evaluate_tool_call_hook, ApprovalPolicyOutcome, HookRunResult, HookToolPolicyOutcome};
use titanclaw::threads::{
    interrupt_reply, redo_reply, undo_reply,
    approval_gate, approved_but_blocked_message, approved_but_blocked_turn_error,
    approved_tool_preview, input_validation_message, is_approval_expired,
    normalize_reflex_pattern, reflex_allowed, rejection_message, transform_response,
    user_input_gate, user_input_gate_in_session, auth_token_outcome, auth_token_submission,
    ThreadNotFound, ApprovalGate, AuthAttempt, AuthTokenOutcome, InputGate,
    ThreadState, SAFETY_POLICY_REJECTION,
};
use titanclaw::tool_exec::{
    action_failure_text, chat_tool_preflight, join_validation_issues, tool_run_result,
    worker_approval_gate, worker_hook_gate, worker_run_gate, worker_tool_lookup, ToolRunOutcome,
};

fn codes(v: &[&str]) -> Vec<String> {
    v.iter().map(|s| s.to_string()).collect()
}

#[test]
fn agentic_loop_stops_after_ten_rounds() {
    let mut s = AgenticLoopState::new(false);
    for i in 1..=MAX_TOOL_ITERATIONS {
        assert!(s.begin_iteration().is_ok());
        assert_eq!(s.iteration, i);
    }
    assert_eq!(
        s.begin_iteration(),
        Err("Exceeded maximum tool iterations (10)".to_string())
    );
    assert_eq!(s.iteration, 10);
}

#[test]
fn agentic_loop_nudges_only_early_text_answers() {
    let mut s = AgenticLoopState::new(false);
    s.begin_iteration().unwrap();
    assert_eq!(s.on_text_response(), TextResponseAction::NudgeForTools);
    s.begin_iteration().unwrap();
    assert_eq!(s.on_text_response(), TextResponseAction::NudgeForTools);
    s.begin_iteration().unwrap();
    assert_eq!(s.on_text_response(), TextResponseAction::Respond);

    let mut t = AgenticLoopState::new(false);
    t.begin_iteration().unwrap();
    t.on_tool_calls();
    assert_eq!(t.on_text_response(), TextResponseAction::Respond);

    let resumed = AgenticLoopState::new(true);
    assert_eq!(resumed.on_text_response(), TextResponseAction::Respond);
}

#[test]
fn chat_tool_call_policy_steps() {
    assert_eq!(executing_tools_status(3), "Executing 3 tool(s)...");
    match routing_step(ChatToolRoutingDecision::Deny {
        reason_codes: codes(&["circuit_breaker_open"]),
        detail: "tool 'shell' is unavailable".to_string(),
    }) {
        RoutingStep::Blocked { tool_result, reason_codes } => {
            assert_eq!(
                tool_result,
                "Tool call blocked by reliability policy: tool 'shell' is unavailable"
            );
            assert_eq!(reason_codes, codes(&["circuit_breaker_open"]));
        }
        other => panic!("unexpected {:?}", other),
    }
    match routing_step(ChatToolRoutingDecision::Use {
        tool_name: "read_file".to_string(),
        routed_from: Some("shell".to_string()),
        reason_codes: codes(&["tool_routing_v2_fallback"]),
    }) {
        RoutingStep::Run { tool_name, switched_preview, .. } => {
            assert_eq!(tool_name, "read_file");
            assert_eq!(
                switched_preview.as_deref(),
                Some("[routing] switched to fallback tool 'read_file'")
            );
        }
        other => panic!("unexpected {:?}", other),
    }
    match approval_step(ApprovalPolicyOutcome::RequireApproval { reason_codes: codes(&["x"]) }) {
        ApprovalStep::AskUser { reason_codes } => assert_eq!(reason_codes, codes(&["x"])),
        other => panic!("unexpected {:?}", other),
    }
    assert!(matches!(
        approval_step(ApprovalPolicyOutcome::NoApprovalRequired),
        ApprovalStep::Run { auto_approved_codes: None }
    ));
    match hook_step(HookToolPolicyOutcome::Deny {
        reason: "nope".to_string(),
        reason_codes: codes(&["hook_rejected"]),
    }) {
        HookStep::Blocked { tool_result, .. } => {
            assert_eq!(tool_result, "Tool call blocked by hook policy: nope")
        }
        other => panic!("unexpected {:?}", other),
    }
    match hook_step(HookToolPolicyOutcome::Continue { parameters: "{}".to_string() }) {
        HookStep::Run { parameters, modified_codes } => {
            assert_eq!(parameters, "{}");
            assert!(modified_codes.is_none());
        }
        other => panic!("unexpected {:?}", other),
    }
    assert!(uses_live_stream("shell"));
    assert!(!uses_live_stream("http"));
    assert_eq!(piped_result("shell", Ok("out".to_string())), Ok("out".to_string()));
    assert_eq!(
        piped_result("shell", Err("boom".to_string())),
        Err(Error::Tool(ToolError::ExecutionFailed {
            name: "shell".to_string(),
            reason: "boom".to_string()
        }))
    );
    assert_eq!(tool_error_content("bad"), "Error: bad");
    assert!(sends_result_previews(false, true));
    assert!(!sends_result_previews(true, true));
    assert!(!sends_result_previews(false, false));
}

#[test]
fn tool_call_hook_verdicts() {
    match evaluate_tool_call_hook("{\"a\":1}", HookRunResult::Rejected { reason: "r".to_string() }) {
        HookToolPolicyOutcome::Deny { reason, reason_codes } => {
            assert_eq!(reason, "r");
            assert_eq!(reason_codes, codes(&["hook_rejected"]));
        }
        other => panic!("unexpected {:?}", other),
    }
    match evaluate_tool_call_hook("{}", HookRunResult::Failed { message: "timeout".to_string() }) {
        HookToolPolicyOutcome::Deny { reason, reason_codes } => {
            assert_eq!(reason, "Hook policy error: timeout");
            assert_eq!(reason_codes, codes(&["hook_policy_error"]));
        }
        other => panic!("unexpected {:?}", other),
    }
    match evaluate_tool_call_hook(
        "{}",
        HookRunResult::Continue { modified: Some("{\"command\":\"ls\"}".to_string()) },
    ) {
        HookToolPolicyOutcome::Modified { parameters, reason_codes } => {
            assert_eq!(parameters, "{\"command\":\"ls\"}");
            assert_eq!(reason_codes, codes(&["hook_modified_parameters"]));
        }
        other => panic!("unexpected {:?}", other),
    }
    match evaluate_tool_call_hook("{}", HookRunResult::Continue { modified: Some("not json".to_string()) }) {
        HookToolPolicyOutcome::Continue { parameters } => assert_eq!(parameters, "{}"),
        other => panic!("unexpected {:?}", other),
    }
    match evaluate_tool_call_hook("{}", HookRunResult::Continue { modified: None }) {
        HookToolPolicyOutcome::Continue { parameters } => assert_eq!(parameters, "{}"),
        other => panic!("unexpected {:?}", other),
    }
}

#[test]
fn tool_run_checks_and_results() {
    let issues = vec![
        ("command".to_string(), "missing".to_string()),
        ("timeout".to_string(), "too large".to_string()),
    ];
    assert_eq!(join_validation_issues(&issues), "command: missing; timeout: too large");
    assert_eq!(join_validation_issues(&vec![]), "");
    assert_eq!(
        chat_tool_preflight("shell", false, false, true, &vec![]),
        Err(Error::Tool(ToolError::NotFound { name: "shell".to_string() }))
    );
    assert_eq!(
        chat_tool_preflight("shell", true, true, false, &issues),
        Err(Error::Tool(ToolError::ExecutionFailed {
            name: "shell".to_string(),
            reason: "Blocked by reliability circuit breaker".to_string()
        }))
    );
    assert_eq!(
        chat_tool_preflight("shell", true, false, false, &issues),
        Err(Error::Tool(ToolError::InvalidParameters {
            name: "shell".to_string(),
            reason: "Invalid tool parameters: command: missing; timeout: too large".to_string()
        }))
    );
    assert_eq!(chat_tool_preflight("shell", true, false, true, &vec![]), Ok(()));

    assert_eq!(
        tool_run_result("http", ToolRunOutcome::Output("{}".to_string()), 5000),
        Ok("{}".to_string())
    );
    assert_eq!(
        tool_run_result("http", ToolRunOutcome::TimedOut, 5000),
        Err(Error::Tool(ToolError::Timeout { name: "http".to_string(), timeout_ms: 5000 }))
    );
    assert_eq!(
        tool_run_result("http", ToolRunOutcome::Failed("503".to_string()), 5000),
        Err(Error::Tool(ToolError::ExecutionFailed {
            name: "http".to_string(),
            reason: "503".to_string()
        }))
    );
    assert_eq!(
        tool_run_result("http", ToolRunOutcome::SerializeFailed("nan".to_string()), 5000),
        Err(Error::Tool(ToolError::ExecutionFailed {
            name: "http".to_string(),
            reason: "Failed to serialize result: nan".to_string()
        }))
    );
    assert_eq!(
        action_failure_text(&ToolRunOutcome::TimedOut),
        Some("Execution timeout".to_string())
    );
    assert_eq!(action_failure_text(&ToolRunOutcome::Output("x".to_string())), None);
}

#[test]
fn worker_tool_gates() {
    assert!(worker_tool_lookup("t", true).is_ok());
    assert_eq!(
        worker_approval_gate(
            "approval_tool",
            &ApprovalPolicyOutcome::RequireApproval { reason_codes: codes(&["tool_requires_approval"]) }
        ),
        Err(Error::Tool(ToolError::AuthRequired { name: "approval_tool".to_string() }))
    );
    assert!(worker_approval_gate("t", &ApprovalPolicyOutcome::NoApprovalRequired).is_ok());
    assert_eq!(
        worker_hook_gate(
            "t",
            HookToolPolicyOutcome::Deny { reason: "no".to_string(), reason_codes: vec![] }
        ),
        Err(Error::Tool(ToolError::ExecutionFailed {
            name: "t".to_string(),
            reason: "Blocked by hook: no".to_string()
        }))
    );
    assert_eq!(
        worker_hook_gate(
            "t",
            HookToolPolicyOutcome::Modified { parameters: "{\"x\":1}".to_string(), reason_codes: vec![] }
        ),
        Ok("{\"x\":1}".to_string())
    );
    assert_eq!(
        worker_run_gate("t", true, true, &vec![]),
        Err(Error::Tool(ToolError::ExecutionFailed {
            name: "t".to_string(),
            reason: "Job is cancelled".to_string()
        }))
    );
    assert!(worker_run_gate("t", false, true, &vec![]).is_ok());
}

#[test]
fn user_input_is_gated_by_thread_state() {
    assert!(matches!(user_input_gate(ThreadState::Idle, false), InputGate::Proceed));
    assert!(matches!(user_input_gate(ThreadState::Interrupted, true), InputGate::Proceed));
    match user_input_gate(ThreadState::Processing, false) {
        InputGate::Refuse { message } => {
            assert_eq!(message, "Turn in progress. Use /interrupt to cancel.")
        }
        other => panic!("unexpected {:?}", other),
    }
    match user_input_gate(ThreadState::AwaitingApproval, false) {
        InputGate::Refuse { message } => {
            assert_eq!(message, "Waiting for approval. Use /interrupt to cancel.")
        }
        other => panic!("unexpected {:?}", other),
    }
    match user_input_gate(ThreadState::AwaitingApproval, true) {
        InputGate::ExpireApproval { message } => assert_eq!(
            message,
            "Approval request expired. The pending tool execution was canceled."
        ),
        other => panic!("unexpected {:?}", other),
    }
    match user_input_gate(ThreadState::Completed, false) {
        InputGate::Refuse { message } => assert_eq!(message, "Thread completed. Use /thread new."),
        other => panic!("unexpected {:?}", other),
    }
    assert!(is_approval_expired(0, 3_600_001));
    assert!(!is_approval_expired(0, 3_600_000));
    assert_eq!(
        input_validation_message(&vec![("content".to_string(), "too long".to_string())]),
        "Input rejected by safety validation: content: too long"
    );
    assert_eq!(SAFETY_POLICY_REJECTION, "Input rejected by safety policy.");
    assert_eq!(normalize_reflex_pattern("  Check   DISK\tusage "), "check disk usage");
    assert!(!reflex_allowed(&ApprovalPolicyOutcome::RequireApproval { reason_codes: vec![] }));
    assert!(reflex_allowed(&ApprovalPolicyOutcome::NoApprovalRequired));
}

#[test]
fn response_hooks_rewrite_or_filter() {
    assert_eq!(
        transform_response("hi", HookRunResult::Rejected { reason: "pii".to_string() }),
        "[Response filtered: pii]"
    );
    assert_eq!(
        transform_response("hi", HookRunResult::Failed { message: "down".to_string() }),
        "[Response blocked by hook policy: down]"
    );
    assert_eq!(
        transform_response("hi", HookRunResult::Continue { modified: Some("bye".to_string()) }),
        "bye"
    );
    assert_eq!(transform_response("hi", HookRunResult::Continue { modified: None }), "hi");
}

#[test]
fn approval_answers() {
    match approval_gate(ThreadState::Idle, false, Some(7), None, true, false) {
        ApprovalGate::NoPending { message } => assert_eq!(message, "No pending approval request."),
        other => panic!("unexpected {:?}", other),
    }
    match approval_gate(ThreadState::AwaitingApproval, true, Some(7), None, true, false) {
        ApprovalGate::Expired { message } => assert_eq!(
            message,
            "Approval request expired. Ask again to retry the operation."
        ),
        other => panic!("unexpected {:?}", other),
    }
    match approval_gate(ThreadState::AwaitingApproval, false, Some(7), Some(8), true, false) {
        ApprovalGate::Mismatch { message } => {
            assert_eq!(message, "Request ID mismatch. Use the correct request ID.")
        }
        other => panic!("unexpected {:?}", other),
    }
    match approval_gate(ThreadState::AwaitingApproval, false, Some(7), Some(7), true, true) {
        ApprovalGate::Approve { always, reason_code } => {
            assert!(always);
            assert_eq!(reason_code, "user_approved_tool_and_enabled_auto_approval");
        }
        other => panic!("unexpected {:?}", other),
    }
    match approval_gate(ThreadState::AwaitingApproval, false, Some(7), None, true, false) {
        ApprovalGate::Approve { reason_code, .. } => assert_eq!(reason_code, "user_approved_tool"),
        other => panic!("unexpected {:?}", other),
    }
    match approval_gate(ThreadState::AwaitingApproval, false, Some(7), None, false, false) {
        ApprovalGate::Reject { reason_code } => assert_eq!(reason_code, "user_rejected_tool"),
        other => panic!("unexpected {:?}", other),
    }
    match approval_gate(ThreadState::AwaitingApproval, false, None, None, true, false) {
        ApprovalGate::NoPending { .. } => {}
        other => panic!("unexpected {:?}", other),
    }
}

#[test]
fn approval_hook_block_and_rejection_texts() {
    let msg = approved_but_blocked_message("shell", "blocked by test hook");
    assert_eq!(
        msg,
        "Tool 'shell' was approved, but a policy hook blocked execution: blocked by test hook"
    );
    assert!(msg.contains("policy hook blocked execution"));
    assert!(approved_but_blocked_turn_error("blocked by test hook")
        .contains("blocked by hook after approval"));
    assert_eq!(
        rejection_message("http"),
        "Tool 'http' was rejected. The agent will not execute this tool.\n\nYou can continue the conversation or try a different approach."
    );
    assert_eq!(
        approved_tool_preview("http", &Ok("body".to_string())),
        Some("body".to_string())
    );
    assert_eq!(approved_tool_preview("shell", &Ok("body".to_string())), None);
    assert_eq!(approved_tool_preview("http", &Ok(String::new())), None);
    assert_eq!(
        approved_tool_preview("http", &Err(Error::Other("x".to_string()))),
        None
    );
}

#[test]
fn submitted_token_outcomes() {
    match auth_token_outcome("slack", AuthAttempt::NoManager) {
        AuthTokenOutcome::Reply { message } => assert_eq!(message, "Extension manager not available."),
        other => panic!("unexpected {:?}", other),
    }
    match auth_token_outcome(
        "slack",
        AuthAttempt::Authenticated {
            activation: Ok(vec!["slack_post_message".to_string(), "slack_read".to_string()]),
        },
    ) {
        AuthTokenOutcome::Completed { success, message } => {
            assert!(success);
            assert_eq!(
                message,
                "slack authenticated and activated (2 tools loaded).\n\nTools: slack_post_message, slack_read"
            );
        }
        other => panic!("unexpected {:?}", other),
    }
    match auth_token_outcome("slack", AuthAttempt::Authenticated { activation: Ok(vec![]) }) {
        AuthTokenOutcome::Completed { message, .. } => {
            assert_eq!(message, "slack authenticated and activated (0 tools loaded).")
        }
        other => panic!("unexpected {:?}", other),
    }
    match auth_token_outcome("slack", AuthAttempt::Authenticated { activation: Err("boom".to_string()) }) {
        AuthTokenOutcome::Completed { success, message } => {
            assert!(success);
            assert_eq!(
                message,
                "slack authenticated successfully, but activation failed: boom. Try activating manually."
            );
        }
        other => panic!("unexpected {:?}", other),
    }
    match auth_token_outcome("slack", AuthAttempt::NotAuthenticated { instructions: None }) {
        AuthTokenOutcome::AskAgain { message } => assert_eq!(message, "Invalid token. Please try again."),
        other => panic!("unexpected {:?}", other),
    }
    match auth_token_outcome("slack", AuthAttempt::Failed { error: "network".to_string() }) {
        AuthTokenOutcome::Completed { success, message } => {
            assert!(!success);
            assert_eq!(message, "Authentication failed for slack: network");
        }
        other => panic!("unexpected {:?}", other),
    }
}

#[test]
fn interrupt_undo_redo_replies() {
    assert_eq!(
        interrupt_reply(ThreadState::Processing, 2),
        (true, "Interrupted. Requested cancellation for 2 active job(s).".to_string())
    );
    assert_eq!(interrupt_reply(ThreadState::AwaitingApproval, 0), (true, "Interrupted.".to_string()));
    assert_eq!(interrupt_reply(ThreadState::Idle, 3), (false, "Nothing to interrupt.".to_string()));
    assert_eq!(undo_reply(false, None), "Nothing to undo.");
    assert_eq!(undo_reply(true, Some((4, 2))), "Undone to turn 4. 2 undo(s) remaining.");
    assert_eq!(undo_reply(true, None), "Undo failed.");
    assert_eq!(redo_reply(false, None), "Nothing to redo.");
    assert_eq!(redo_reply(true, Some(5)), "Redone to turn 5.");
    assert_eq!(redo_reply(true, None), "Redo failed.");
}

#[test]
fn chat_round_stops_in_order_limit_interrupt_cost() {
    let mut s = AgenticLoopState::new(false);
    assert_eq!(s.begin_round(true), Err(LoopStop::Interrupted { reason: "Interrupted".to_string() }));
    assert_eq!(INTERRUPTED_REASON, "Interrupted");
    assert_eq!(s.begin_round(false), Ok(()));
    assert_eq!(
        cost_check(Some("Daily budget exceeded".to_string())),
        Err(LoopStop::CostLimit { reason: "Daily budget exceeded".to_string() })
    );
    assert_eq!(cost_check(None), Ok(()));
    assert_eq!(s.iteration, 2);
    let mut full = AgenticLoopState::new(false);
    for _ in 0..MAX_TOOL_ITERATIONS {
        assert_eq!(full.begin_round(false), Ok(()));
    }
    assert_eq!(
        full.begin_round(true),
        Err(LoopStop::IterationLimit { reason: "Exceeded maximum tool iterations (10)".to_string() })
    );
}

fn nudge_text() -> String {
    ["Please proceed and use the available tools to complete this", "task."].join(" ")
}

#[test]
fn text_answers_are_nudged_then_returned() {
    let mut s = AgenticLoopState::new(false);
    s.begin_round(false).unwrap();
    assert_eq!(
        s.text_step("I will look".to_string()),
        TextStep::Nudge { assistant: "I will look".to_string(), nudge: nudge_text() }
    );
    assert_eq!(tool_use_nudge_text(), nudge_text());
    s.begin_round(false).unwrap();
    assert!(matches!(s.text_step("a".to_string()), TextStep::Nudge { .. }));
    s.begin_round(false).unwrap();
    assert_eq!(s.text_step("done".to_string()), TextStep::Respond("done".to_string()));
    let mut resumed = AgenticLoopState::new(true);
    resumed.begin_round(false).unwrap();
    assert_eq!(resumed.text_step("t".to_string()), TextStep::Respond("t".to_string()));
}

#[test]
fn input_on_a_missing_thread_is_not_found() {
    assert_eq!(
        user_input_gate_in_session(42, None).unwrap_err(),
        ThreadNotFound { id: 42 }
    );
    match user_input_gate_in_session(42, Some((ThreadState::Completed, false))) {
        Ok(InputGate::Refuse { message }) => assert_eq!(message, "Thread completed. Use /thread new."),
        other => panic!("unexpected {other:?}"),
    }
    assert!(matches!(user_input_gate_in_session(7, Some((ThreadState::Idle, false))), Ok(InputGate::Proceed)));
}

#[test]
fn auth_token_is_trimmed_and_auth_mode_reentered_only_on_refusal() {
    assert_eq!(auth_token_submission("  tok-123 \n"), "tok-123");
    let again = auth_token_outcome("gmail", AuthAttempt::NotAuthenticated { instructions: None });
    assert_eq!(again.pending_auth_after("gmail"), Some("gmail".to_string()));
    let done = auth_token_outcome(
        "gmail",
        AuthAttempt::Authenticated { activation: Ok(vec!["send".to_string()]) },
    );
    assert_eq!(done.pending_auth_after("gmail"), None);
    let failed = auth_token_outcome("gmail", AuthAttempt::Failed { error: "boom".to_string() });
    assert_eq!(failed.pending_auth_after("gmail"), None);
    assert_eq!(auth_token_outcome("gmail", AuthAttempt::NoManager).pending_auth_after("gmail"), None);
}
