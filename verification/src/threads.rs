//! The decisions of a conversation thread: whether user input may start a
//! turn, how hooks may rewrite a response, and how an approval answer is
//! handled.
use vstd::prelude::*;
use crate::error::Error;
use crate::policy::{ApprovalPolicyOutcome, HookRunResult};
use crate::shadow::{normalize, prompt_key};
use crate::text::{
    chars_eq_str, decimal, from_chars, push_decimal, push_str, string_of, to_chars, trim, trim_str,
};
use crate::tool_exec::{issues_text, join_validation_issues};

verus! {

/// Seconds a pending approval stays valid.
pub const APPROVAL_TIMEOUT_SECS: i64 = 3600;

/// Where a thread is in its turn.
#[derive(Debug, Clone, Copy, PartialEq, Eq, Structural)]
pub enum ThreadState {
    Idle,
    Processing,
    AwaitingApproval,
    Completed,
    Interrupted,
}

/// A pending approval expires once its thread has not changed for the
/// approval timeout (times in milliseconds).
pub open spec fn approval_expired_spec(updated_at_ms: int, now_ms: int) -> bool {
    updated_at_ms < now_ms - APPROVAL_TIMEOUT_SECS * 1000
}

/// Whether a pending approval last touched at `updated_at_ms` has expired at
/// `now_ms`.
pub fn is_approval_expired(updated_at_ms: i64, now_ms: i64) -> (b: bool)
    ensures
        b == approval_expired_spec(updated_at_ms as int, now_ms as int),
{
    (updated_at_ms as i128) < (now_ms as i128) - (APPROVAL_TIMEOUT_SECS as i128) * 1000
}

/// What happens to new user input, given the thread's state.
#[derive(Debug)]
pub enum InputGate {
    /// The input starts a turn.
    Proceed,
    /// The pending approval has expired: it is cleared, the turn's tool call
    /// fails with `approval timeout`, and the user is told.
    ExpireApproval { message: String },
    /// The input is refused with a message.
    Refuse { message: String },
}

/// What happens to input on a thread in `state`: refused while a turn runs,
/// while an approval is pending (an expired one is cleared instead), and on
/// a completed thread; otherwise the input starts a turn.
pub open spec fn input_gate_spec(g: InputGate, state: ThreadState, approval_expired: bool) -> bool {
    match state {
        ThreadState::AwaitingApproval => if approval_expired {
            g matches InputGate::ExpireApproval { message } && message@
                == "Approval request expired. The pending tool execution was canceled."@
        } else {
            g matches InputGate::Refuse { message } && message@
                == "Waiting for approval. Use /interrupt to cancel."@
        },
        ThreadState::Processing => g matches InputGate::Refuse { message } && message@
            == "Turn in progress. Use /interrupt to cancel."@,
        ThreadState::Completed => g matches InputGate::Refuse { message } && message@
            == "Thread completed. Use /thread new."@,
        ThreadState::Idle | ThreadState::Interrupted => g is Proceed,
    }
}

/// The session holds no thread with the requested id.
#[derive(Debug, Clone, Copy, PartialEq, Eq)]
pub struct ThreadNotFound {
    pub id: u128,
}

/// What happens to new input on thread `thread_id`, given what the session
/// holds for it (its state and whether its pending approval has expired):
/// a thread the session does not hold is an error naming its id.
pub fn user_input_gate_in_session(thread_id: u128, found: Option<(ThreadState, bool)>) -> (r: Result<InputGate, ThreadNotFound>)
    ensures
        match found {
            None => r == Err::<InputGate, ThreadNotFound>(ThreadNotFound { id: thread_id }),
            Some((state, expired)) => r matches Ok(g) && input_gate_spec(g, state, expired),
        },
{
    match found {
        None => Err(ThreadNotFound { id: thread_id }),
        Some((state, expired)) => Ok(user_input_gate(state, expired)),
    }
}

/// Input is refused while a turn runs, while an approval is pending (an
/// expired one is cleared instead), and on a completed thread.
pub fn user_input_gate(state: ThreadState, approval_expired: bool) -> (g: InputGate)
    ensures
        input_gate_spec(g, state, approval_expired),
{
    match state {
        ThreadState::AwaitingApproval => if approval_expired {
            InputGate::ExpireApproval {
                message: string_of("Approval request expired. The pending tool execution was canceled."),
            }
        } else {
            InputGate::Refuse { message: string_of("Waiting for approval. Use /interrupt to cancel.") }
        },
        ThreadState::Processing => InputGate::Refuse {
            message: string_of("Turn in progress. Use /interrupt to cancel."),
        },
        ThreadState::Completed => InputGate::Refuse { message: string_of("Thread completed. Use /thread new.") },
        ThreadState::Idle | ThreadState::Interrupted => InputGate::Proceed,
    }
}

/// The message for input that failed safety validation.
pub fn input_validation_message(issues: &Vec<(String, String)>) -> (s: String)
    ensures
        s@ == "Input rejected by safety validation: "@ + issues_text(issues.deep_view()),
{
    let mut s = String::new();
    push_str(&mut s, "Input rejected by safety validation: ");
    let joined = join_validation_issues(issues);
    push_str(&mut s, joined.as_str());
    s
}

/// The message for input that a safety policy blocks.
pub const SAFETY_POLICY_REJECTION: &'static str = "Input rejected by safety policy.";

/// The final response after the response hooks: a rejection or a failure
/// replaces it with a bracketed notice, a rewrite replaces it, anything else
/// keeps it.
pub fn transform_response(response: &str, run: HookRunResult) -> (r: String)
    ensures
        match run {
            HookRunResult::Rejected { reason } => r@ == "[Response filtered: "@ + reason@ + "]"@,
            HookRunResult::Failed { message } => r@ == "[Response blocked by hook policy: "@ + message@
                + "]"@,
            HookRunResult::Continue { modified: Some(m) } => r@ == m@,
            HookRunResult::Continue { modified: None } => r@ == response@,
        },
{
    match run {
        HookRunResult::Rejected { reason } => {
            let mut r = String::new();
            push_str(&mut r, "[Response filtered: ");
            push_str(&mut r, reason.as_str());
            push_str(&mut r, "]");
            r
        },
        HookRunResult::Failed { message } => {
            let mut r = String::new();
            push_str(&mut r, "[Response blocked by hook policy: ");
            push_str(&mut r, message.as_str());
            push_str(&mut r, "]");
            r
        },
        HookRunResult::Continue { modified: Some(m) } => m,
        HookRunResult::Continue { modified: None } => string_of(response),
    }
}

/// The key under which a reflex pattern is stored: lower-cased, with
/// whitespace collapsed to single spaces.
pub fn normalize_reflex_pattern(input: &str) -> (k: String)
    ensures
        k@ == prompt_key(input@),
{
    normalize(input)
}

/// A reflex shortcut runs its tool only when no approval is required.
pub fn reflex_allowed(outcome: &ApprovalPolicyOutcome) -> (b: bool)
    ensures
        b == !(*outcome is RequireApproval),
{
    match outcome {
        ApprovalPolicyOutcome::RequireApproval { .. } => false,
        _ => true,
    }
}

/// What an approval answer does.
#[derive(Debug)]
pub enum ApprovalGate {
    /// Nothing is pending; the user is told.
    NoPending { message: String },
    /// The pending approval expired: it is cleared, the turn's tool call
    /// fails with `approval timeout`, and the user is told.
    Expired { message: String },
    /// The answer names another request: the pending one is kept.
    Mismatch { message: String },
    /// The tool runs; with `always`, it is auto-approved from now on. The
    /// decision is recorded with `reason_code`.
    Approve { always: bool, reason_code: String },
    /// The tool does not run; the decision is recorded with `reason_code`.
    Reject { reason_code: String },
}

/// The code recorded for an approval.
pub open spec fn approval_code(always: bool) -> Seq<char> {
    if always {
        "user_approved_tool_and_enabled_auto_approval"@
    } else {
        "user_approved_tool"@
    }
}

/// An answer needs a thread awaiting approval with a pending request that
/// has not expired; a request id, when given, must be the pending one.
/// Then the answer approves or rejects.
pub fn approval_gate(
    state: ThreadState,
    expired: bool,
    pending_request_id: Option<u128>,
    answered_request_id: Option<u128>,
    approved: bool,
    always: bool,
) -> (g: ApprovalGate)
    ensures
        state != ThreadState::AwaitingApproval ==> (g matches ApprovalGate::NoPending { message } && message@
            == "No pending approval request."@),
        state == ThreadState::AwaitingApproval && expired ==> (g matches ApprovalGate::Expired {
            message,
        } && message@ == "Approval request expired. Ask again to retry the operation."@),
        state == ThreadState::AwaitingApproval && !expired && pending_request_id is None ==> (g matches ApprovalGate::NoPending { message } && message@
            == "No pending approval request."@),
        state == ThreadState::AwaitingApproval && !expired && pending_request_id is Some && (answered_request_id matches Some(a) && a != pending_request_id->0) ==> (g matches ApprovalGate::Mismatch { message } && message@
            == "Request ID mismatch. Use the correct request ID."@),
        state == ThreadState::AwaitingApproval && !expired && pending_request_id is Some && !(answered_request_id matches Some(a) && a != pending_request_id->0) ==> if approved {
            g matches ApprovalGate::Approve { always: al, reason_code } && al == always
                && reason_code@ == approval_code(always)
        } else {
            g matches ApprovalGate::Reject { reason_code } && reason_code@ == "user_rejected_tool"@
        },
{
    if state != ThreadState::AwaitingApproval {
        return ApprovalGate::NoPending { message: string_of("No pending approval request.") };
    }
    if expired {
        return ApprovalGate::Expired {
            message: string_of("Approval request expired. Ask again to retry the operation."),
        };
    }
    let pending = match pending_request_id {
        Some(p) => p,
        None => return ApprovalGate::NoPending { message: string_of("No pending approval request.") },
    };
    match answered_request_id {
        Some(a) => if a != pending {
            return ApprovalGate::Mismatch {
                message: string_of("Request ID mismatch. Use the correct request ID."),
            };
        },
        None => {},
    }
    if approved {
        let code = if always {
            string_of("user_approved_tool_and_enabled_auto_approval")
        } else {
            string_of("user_approved_tool")
        };
        ApprovalGate::Approve { always, reason_code: code }
    } else {
        ApprovalGate::Reject { reason_code: string_of("user_rejected_tool") }
    }
}

/// The response when a hook blocks an approved tool.
pub fn approved_but_blocked_message(tool_name: &str, reason: &str) -> (s: String)
    ensures
        s@ == "Tool '"@ + tool_name@ + "' was approved, but a policy hook blocked execution: "@
            + reason@,
{
    let mut s = String::new();
    push_str(&mut s, "Tool '");
    push_str(&mut s, tool_name);
    push_str(&mut s, "' was approved, but a policy hook blocked execution: ");
    push_str(&mut s, reason);
    s
}

/// The tool error recorded on the turn when a hook blocks an approved tool.
pub fn approved_but_blocked_turn_error(reason: &str) -> (s: String)
    ensures
        s@ == "blocked by hook after approval: "@ + reason@,
{
    let mut s = String::new();
    push_str(&mut s, "blocked by hook after approval: ");
    push_str(&mut s, reason);
    s
}

/// The response when the user rejects a tool.
pub fn rejection_message(tool_name: &str) -> (s: String)
    ensures
        s@ == "Tool '"@ + tool_name@
            + "' was rejected. The agent will not execute this tool.\n\nYou can continue the conversation or try a different approach."@,
{
    let mut s = String::new();
    push_str(&mut s, "Tool '");
    push_str(&mut s, tool_name);
    push_str(
        &mut s,
        "' was rejected. The agent will not execute this tool.\n\nYou can continue the conversation or try a different approach.",
    );
    s
}

/// The preview shown after an approved tool ran: its non-empty output,
/// except for shell, whose output was streamed.
pub fn approved_tool_preview(tool_name: &str, result: &Result<String, Error>) -> (r: Option<String>)
    ensures
        match result {
            Ok(o) => if tool_name@ != "shell"@ && o@.len() > 0 {
                r matches Some(p) && p@ == o@
            } else {
                r is None
            },
            Err(_) => r is None,
        },
{
    let tv = to_chars(tool_name);
    if chars_eq_str(tv.as_slice(), "shell") {
        return None;
    }
    match result {
        Ok(o) => {
            let ov = to_chars(o.as_str());
            if ov.len() > 0 {
                Some(string_of(o.as_str()))
            } else {
                None
            }
        },
        Err(_) => None,
    }
}

/// The texts joined with a separator.
pub open spec fn joined(items: Seq<Seq<char>>, sep: Seq<char>) -> Seq<char>
    decreases items.len(),
{
    if items.len() == 0 {
        Seq::<char>::empty()
    } else if items.len() == 1 {
        items[0]
    } else {
        joined(items.drop_last(), sep) + sep + items.last()
    }
}

fn join_texts(items: &Vec<String>, sep: &str) -> (s: String)
    ensures
        s@ == joined(items.deep_view(), sep@),
{
    let ghost all = items.deep_view();
    let mut s = String::new();
    let mut i: usize = 0;
    while i < items.len()
        invariant
            i <= items@.len(),
            all == items.deep_view(),
            s@ == joined(all.take(i as int), sep@),
        decreases items@.len() - i,
    {
        assert(all.take(i + 1).drop_last() =~= all.take(i as int));
        if i > 0 {
            push_str(&mut s, sep);
        } else {
            assert(s@ =~= Seq::<char>::empty());
        }
        push_str(&mut s, items[i].as_str());
        i = i + 1;
    }
    assert(all.take(items@.len() as int) =~= all);
    s
}

/// What the extension manager answered to a submitted token.
#[derive(Debug)]
pub enum AuthAttempt {
    /// No extension manager is configured.
    NoManager,
    /// The token was accepted; activating the extension then loaded these
    /// tools, or failed with this message.
    Authenticated { activation: Result<Vec<String>, String> },
    /// The token was not accepted; the extension may say what to do.
    NotAuthenticated { instructions: Option<String> },
    /// The attempt failed with this message.
    Failed { error: String },
}

/// What the thread does after a token was submitted.
#[derive(Debug)]
pub enum AuthTokenOutcome {
    /// Tell the user, with no status event.
    Reply { message: String },
    /// Authentication is over, successfully or not.
    Completed { success: bool, message: String },
    /// Ask for the token again, staying in auth mode.
    AskAgain { message: String },
}

/// The message after a successful authentication and activation.
pub open spec fn activated_text(ext: Seq<char>, tools: Seq<Seq<char>>) -> Seq<char> {
    ext + " authenticated and activated ("@ + decimal(tools.len()) + " tools loaded)."@ + (if tools.len()
        == 0 {
        Seq::<char>::empty()
    } else {
        "\n\nTools: "@ + joined(tools, ", "@)
    })
}

/// How a submitted token ends: a missing manager is reported; an accepted
/// token completes successfully (saying which tools were loaded, or that
/// activation failed); a refused token asks again with the extension's
/// instructions; a failed attempt completes unsuccessfully.
pub fn auth_token_outcome(extension_name: &str, attempt: AuthAttempt) -> (o: AuthTokenOutcome)
    ensures
        match attempt {
            AuthAttempt::NoManager => o matches AuthTokenOutcome::Reply { message } && message@
                == "Extension manager not available."@,
            AuthAttempt::Authenticated { activation: Ok(tools) } => o matches AuthTokenOutcome::Completed {
                success: true,
                message,
            } && message@ == activated_text(extension_name@, tools.deep_view()),
            AuthAttempt::Authenticated { activation: Err(e) } => o matches AuthTokenOutcome::Completed {
                success: true,
                message,
            } && message@ == extension_name@ + " authenticated successfully, but activation failed: "@
                + e@ + ". Try activating manually."@,
            AuthAttempt::NotAuthenticated { instructions } => o matches AuthTokenOutcome::AskAgain {
                message,
            } && message@ == (match instructions {
                Some(i) => i@,
                None => "Invalid token. Please try again."@,
            }),
            AuthAttempt::Failed { error } => o matches AuthTokenOutcome::Completed {
                success: false,
                message,
            } && message@ == "Authentication failed for "@ + extension_name@ + ": "@ + error@,
        },
{
    match attempt {
        AuthAttempt::NoManager => AuthTokenOutcome::Reply { message: string_of("Extension manager not available.") },
        AuthAttempt::Authenticated { activation: Ok(tools) } => {
            let mut m = string_of(extension_name);
            push_str(&mut m, " authenticated and activated (");
            push_decimal(&mut m, tools.len() as u64);
            push_str(&mut m, " tools loaded).");
            if tools.len() > 0 {
                push_str(&mut m, "\n\nTools: ");
                let j = join_texts(&tools, ", ");
                push_str(&mut m, j.as_str());
            }
            AuthTokenOutcome::Completed { success: true, message: m }
        },
        AuthAttempt::Authenticated { activation: Err(e) } => {
            let mut m = string_of(extension_name);
            push_str(&mut m, " authenticated successfully, but activation failed: ");
            push_str(&mut m, e.as_str());
            push_str(&mut m, ". Try activating manually.");
            AuthTokenOutcome::Completed { success: true, message: m }
        },
        AuthAttempt::NotAuthenticated { instructions } => AuthTokenOutcome::AskAgain {
            message: match instructions {
                Some(i) => i,
                None => string_of("Invalid token. Please try again."),
            },
        },
        AuthAttempt::Failed { error } => {
            let mut m = string_of("Authentication failed for ");
            push_str(&mut m, extension_name);
            push_str(&mut m, ": ");
            push_str(&mut m, error.as_str());
            AuthTokenOutcome::Completed { success: false, message: m }
        },
    }
}

/// The token handed to the extension manager: the submitted text, trimmed.
pub fn auth_token_submission(token: &str) -> (s: String)
    ensures
        s@ == trim(token@),
{
    let t = trim_str(token);
    from_chars(t.as_slice())
}

impl AuthTokenOutcome {
    /// The thread's pending authentication once the token was handled: it is
    /// cleared, except that a refused token enters auth mode again for the
    /// same extension.
    pub fn pending_auth_after(&self, extension_name: &str) -> (p: Option<String>)
        ensures
            match *self {
                AuthTokenOutcome::AskAgain { .. } => p matches Some(e) && e@ == extension_name@,
                _ => p is None,
            },
    {
        match self {
            AuthTokenOutcome::AskAgain { .. } => Some(string_of(extension_name)),
            _ => None,
        }
    }
}

/// The reply to `/interrupt`: a running turn or a pending approval is
/// interrupted, reporting how many job cancellations were requested; an idle
/// thread has nothing to interrupt.
pub fn interrupt_reply(state: ThreadState, canceled_jobs: usize) -> (r: (bool, String))
    ensures
        r.0 == (state == ThreadState::Processing || state == ThreadState::AwaitingApproval),
        r.0 && canceled_jobs > 0 ==> r.1@ == "Interrupted. Requested cancellation for "@ + decimal(
            canceled_jobs as nat,
        ) + " active job(s)."@,
        r.0 && canceled_jobs == 0 ==> r.1@ == "Interrupted."@,
        !r.0 ==> r.1@ == "Nothing to interrupt."@,
{
    match state {
        ThreadState::Processing | ThreadState::AwaitingApproval => {
            if canceled_jobs > 0 {
                let mut m = string_of("Interrupted. Requested cancellation for ");
                push_decimal(&mut m, canceled_jobs as u64);
                push_str(&mut m, " active job(s).");
                (true, m)
            } else {
                (true, string_of("Interrupted."))
            }
        },
        _ => (false, string_of("Nothing to interrupt.")),
    }
}

/// The reply to `/undo`: nothing to undo, the turn restored and the undos
/// left, or a failed restore.
pub fn undo_reply(can_undo: bool, restored: Option<(u64, u64)>) -> (r: String)
    ensures
        !can_undo ==> r@ == "Nothing to undo."@,
        can_undo ==> r@ == (match restored {
            Some((turn, left)) => "Undone to turn "@ + decimal(turn as nat) + ". "@ + decimal(left as nat)
                + " undo(s) remaining."@,
            None => "Undo failed."@,
        }),
{
    if !can_undo {
        return string_of("Nothing to undo.");
    }
    match restored {
        Some((turn, left)) => {
            let mut m = string_of("Undone to turn ");
            push_decimal(&mut m, turn);
            push_str(&mut m, ". ");
            push_decimal(&mut m, left);
            push_str(&mut m, " undo(s) remaining.");
            m
        },
        None => string_of("Undo failed."),
    }
}

/// The reply to `/redo`: nothing to redo, the turn restored, or a failed
/// restore.
pub fn redo_reply(can_redo: bool, restored_turn: Option<u64>) -> (r: String)
    ensures
        !can_redo ==> r@ == "Nothing to redo."@,
        can_redo ==> r@ == (match restored_turn {
            Some(turn) => "Redone to turn "@ + decimal(turn as nat) + "."@,
            None => "Redo failed."@,
        }),
{
    if !can_redo {
        return string_of("Nothing to redo.");
    }
    match restored_turn {
        Some(turn) => {
            let mut m = string_of("Redone to turn ");
            push_decimal(&mut m, turn);
            push_str(&mut m, ".");
            m
        },
        None => string_of("Redo failed."),
    }
}

} // verus!
