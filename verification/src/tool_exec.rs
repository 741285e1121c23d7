//! The checks around running one tool, in chat and in background jobs, and
//! how the end of a run becomes the tool's result or error.
use vstd::prelude::*;
use crate::error::{Error, ToolError};
use crate::policy::{ApprovalPolicyOutcome, HookToolPolicyOutcome};
use crate::text::{push_str, string_of};

verus! {

/// The validation failures of a tool's parameters or a user's input, each
/// as `field: message`, separated by `; `.
pub open spec fn issues_text(issues: Seq<(Seq<char>, Seq<char>)>) -> Seq<char>
    decreases issues.len(),
{
    if issues.len() == 0 {
        Seq::<char>::empty()
    } else if issues.len() == 1 {
        issues[0].0 + ": "@ + issues[0].1
    } else {
        issues_text(issues.drop_last()) + "; "@ + issues.last().0 + ": "@ + issues.last().1
    }
}

/// Joins validation failures as `field: message`, separated by `; `.
pub fn join_validation_issues(issues: &Vec<(String, String)>) -> (s: String)
    ensures
        s@ == issues_text(issues.deep_view()),
{
    let ghost all = issues.deep_view();
    let mut s = String::new();
    let mut i: usize = 0;
    while i < issues.len()
        invariant
            i <= issues@.len(),
            all == issues.deep_view(),
            s@ == issues_text(all.take(i as int)),
        decreases issues@.len() - i,
    {
        assert(all.take(i + 1).drop_last() =~= all.take(i as int));
        if i > 0 {
            push_str(&mut s, "; ");
        } else {
            assert(s@ =~= Seq::<char>::empty());
        }
        push_str(&mut s, issues[i].0.as_str());
        push_str(&mut s, ": ");
        push_str(&mut s, issues[i].1.as_str());
        i = i + 1;
    }
    assert(all.take(issues@.len() as int) =~= all);
    s
}

/// The reason of an invalid-parameters error.
pub open spec fn invalid_parameters_reason(issues: Seq<(Seq<char>, Seq<char>)>) -> Seq<char> {
    "Invalid tool parameters: "@ + issues_text(issues)
}

fn invalid_parameters(tool_name: &str, issues: &Vec<(String, String)>) -> (e: Error)
    ensures
        e matches Error::Tool(ToolError::InvalidParameters { name, reason }) && name@ == tool_name@
            && reason@ == invalid_parameters_reason(issues.deep_view()),
{
    let mut reason = String::new();
    push_str(&mut reason, "Invalid tool parameters: ");
    let joined = join_validation_issues(issues);
    push_str(&mut reason, joined.as_str());
    Error::Tool(ToolError::InvalidParameters { name: string_of(tool_name), reason })
}

/// The checks before a chat tool runs, in order: the tool exists, its
/// reliability breaker is not open (when reliability routing is on), and
/// its parameters are valid.
pub fn chat_tool_preflight(
    tool_name: &str,
    tool_found: bool,
    breaker_open: bool,
    params_valid: bool,
    issues: &Vec<(String, String)>,
) -> (r: Result<(), Error>)
    ensures
        !tool_found ==> (r matches Err(Error::Tool(ToolError::NotFound { name })) && name@
            == tool_name@),
        tool_found && breaker_open ==> (r matches Err(
            Error::Tool(ToolError::ExecutionFailed { name, reason }),
        ) && name@ == tool_name@ && reason@ == "Blocked by reliability circuit breaker"@),
        tool_found && !breaker_open && !params_valid ==> (r matches Err(
            Error::Tool(ToolError::InvalidParameters { name, reason }),
        ) && name@ == tool_name@ && reason@ == invalid_parameters_reason(issues.deep_view())),
        tool_found && !breaker_open && params_valid ==> r is Ok,
{
    if !tool_found {
        return Err(Error::Tool(ToolError::NotFound { name: string_of(tool_name) }));
    }
    if breaker_open {
        return Err(
            Error::Tool(
                ToolError::ExecutionFailed {
                    name: string_of(tool_name),
                    reason: string_of("Blocked by reliability circuit breaker"),
                },
            ),
        );
    }
    if !params_valid {
        return Err(invalid_parameters(tool_name, issues));
    }
    Ok(())
}

/// How a tool run ended: its result pretty-printed as JSON, a result that
/// would not serialize (with the serializer's message), a failure (with its
/// message), or the timeout.
#[derive(Debug)]
pub enum ToolRunOutcome {
    Output(String),
    SerializeFailed(String),
    Failed(String),
    TimedOut,
}

/// The result of a tool run: the output, or the matching tool error.
pub fn tool_run_result(tool_name: &str, outcome: ToolRunOutcome, timeout_ms: u64) -> (r: Result<String, Error>)
    ensures
        match outcome {
            ToolRunOutcome::Output(o) => r matches Ok(x) && x@ == o@,
            ToolRunOutcome::SerializeFailed(m) => r matches Err(
                Error::Tool(ToolError::ExecutionFailed { name, reason }),
            ) && name@ == tool_name@ && reason@ == "Failed to serialize result: "@ + m@,
            ToolRunOutcome::Failed(m) => r matches Err(
                Error::Tool(ToolError::ExecutionFailed { name, reason }),
            ) && name@ == tool_name@ && reason@ == m@,
            ToolRunOutcome::TimedOut => r matches Err(
                Error::Tool(ToolError::Timeout { name, timeout_ms: t }),
            ) && name@ == tool_name@ && t == timeout_ms,
        },
{
    match outcome {
        ToolRunOutcome::Output(o) => Ok(o),
        ToolRunOutcome::SerializeFailed(m) => {
            let mut reason = String::new();
            push_str(&mut reason, "Failed to serialize result: ");
            push_str(&mut reason, m.as_str());
            Err(Error::Tool(ToolError::ExecutionFailed { name: string_of(tool_name), reason }))
        },
        ToolRunOutcome::Failed(m) => Err(
            Error::Tool(ToolError::ExecutionFailed { name: string_of(tool_name), reason: m }),
        ),
        ToolRunOutcome::TimedOut => Err(
            Error::Tool(ToolError::Timeout { name: string_of(tool_name), timeout_ms }),
        ),
    }
}

/// The failure recorded in a job's action memory for a run that did not
/// produce output: its message, or that it timed out.
pub fn action_failure_text(outcome: &ToolRunOutcome) -> (r: Option<String>)
    ensures
        match *outcome {
            ToolRunOutcome::Failed(m) => r matches Some(t) && t@ == m@,
            ToolRunOutcome::TimedOut => r matches Some(t) && t@ == "Execution timeout"@,
            _ => r is None,
        },
{
    match outcome {
        ToolRunOutcome::Failed(m) => Some(string_of(m.as_str())),
        ToolRunOutcome::TimedOut => Some(string_of("Execution timeout")),
        _ => None,
    }
}

/// A job tool must exist.
pub fn worker_tool_lookup(tool_name: &str, tool_found: bool) -> (r: Result<(), Error>)
    ensures
        tool_found ==> r is Ok,
        !tool_found ==> (r matches Err(Error::Tool(ToolError::NotFound { name })) && name@
            == tool_name@),
{
    if tool_found {
        Ok(())
    } else {
        Err(Error::Tool(ToolError::NotFound { name: string_of(tool_name) }))
    }
}

/// Background jobs cannot run a tool that needs approval: it fails as
/// needing authorization.
pub fn worker_approval_gate(tool_name: &str, outcome: &ApprovalPolicyOutcome) -> (r: Result<(), Error>)
    ensures
        (*outcome is RequireApproval) ==> (r matches Err(Error::Tool(ToolError::AuthRequired { name })) && name@
            == tool_name@),
        !(*outcome is RequireApproval) ==> r is Ok,
{
    match outcome {
        ApprovalPolicyOutcome::RequireApproval { .. } => Err(
            Error::Tool(ToolError::AuthRequired { name: string_of(tool_name) }),
        ),
        _ => Ok(()),
    }
}

/// A hook denial fails a job's tool call with the hook's reason; otherwise
/// the call goes on with the hook's parameters.
pub fn worker_hook_gate(tool_name: &str, outcome: HookToolPolicyOutcome) -> (r: Result<String, Error>)
    ensures
        match outcome {
            HookToolPolicyOutcome::Deny { reason, .. } => r matches Err(
                Error::Tool(ToolError::ExecutionFailed { name, reason: why }),
            ) && name@ == tool_name@ && why@ == "Blocked by hook: "@ + reason@,
            HookToolPolicyOutcome::Modified { parameters, .. } => r matches Ok(p) && p@ == parameters@,
            HookToolPolicyOutcome::Continue { parameters } => r matches Ok(p) && p@ == parameters@,
        },
{
    match outcome {
        HookToolPolicyOutcome::Deny { reason, .. } => {
            let mut why = String::new();
            push_str(&mut why, "Blocked by hook: ");
            push_str(&mut why, reason.as_str());
            Err(Error::Tool(ToolError::ExecutionFailed { name: string_of(tool_name), reason: why }))
        },
        HookToolPolicyOutcome::Modified { parameters, .. } => Ok(parameters),
        HookToolPolicyOutcome::Continue { parameters } => Ok(parameters),
    }
}

/// The last checks before a job's tool runs, in order: the job is not
/// cancelled and the parameters are valid.
pub fn worker_run_gate(
    tool_name: &str,
    job_cancelled: bool,
    params_valid: bool,
    issues: &Vec<(String, String)>,
) -> (r: Result<(), Error>)
    ensures
        job_cancelled ==> (r matches Err(Error::Tool(ToolError::ExecutionFailed { name, reason }))
            && name@ == tool_name@ && reason@ == "Job is cancelled"@),
        !job_cancelled && !params_valid ==> (r matches Err(
            Error::Tool(ToolError::InvalidParameters { name, reason }),
        ) && name@ == tool_name@ && reason@ == invalid_parameters_reason(issues.deep_view())),
        !job_cancelled && params_valid ==> r is Ok,
{
    if job_cancelled {
        return Err(
            Error::Tool(
                ToolError::ExecutionFailed {
                    name: string_of(tool_name),
                    reason: string_of("Job is cancelled"),
                },
            ),
        );
    }
    if !params_valid {
        return Err(invalid_parameters(tool_name, issues));
    }
    Ok(())
}

} // verus!
