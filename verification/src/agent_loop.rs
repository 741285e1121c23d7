//! The decisions of the chat agent's tool loop: how many LLM rounds a turn
//! may take, when a text answer is sent back for another try, and what each
//! policy verdict on a tool call does to the conversation.
use vstd::prelude::*;
use crate::dispatch::ChatToolRoutingDecision;
use crate::error::{Error, ToolError};
use crate::policy::{ApprovalPolicyOutcome, HookToolPolicyOutcome};
use crate::text::{chars_eq_str, push_decimal, push_str, string_of, to_chars, decimal};

verus! {

/// LLM rounds a chat turn may take.
pub const MAX_TOOL_ITERATIONS: usize = 10;

/// The round counter of a chat turn and whether a tool has run in it.
#[derive(Debug, Clone, Copy)]
pub struct AgenticLoopState {
    pub iteration: usize,
    pub tools_executed: bool,
}

/// What to do with a text answer of the model.
#[derive(Debug, Clone, Copy, PartialEq, Eq, Structural)]
pub enum TextResponseAction {
    /// Keep the answer in the context, add a user message that asks for
    /// tool use, and go round again.
    NudgeForTools,
    /// The answer is the turn's response.
    Respond,
}

/// The user message that sends a text answer back for tool use.
pub open spec fn tool_use_nudge() -> Seq<char> {
    "Please proceed and use the available tools to complete this "@ + "task."@
}

/// The user message that sends a text answer back for tool use.
pub fn tool_use_nudge_text() -> (s: String)
    ensures
        s@ == tool_use_nudge(),
{
    let mut s = string_of("Please proceed and use the available tools to complete this ");
    push_str(&mut s, "task.");
    s
}

/// The reason given when the thread was interrupted during a turn.
pub const INTERRUPTED_REASON: &'static str = "Interrupted";

/// Why a chat turn stops before its next LLM round.
#[derive(Debug, Clone, PartialEq, Eq)]
pub enum LoopStop {
    /// The turn has used all its rounds; the reason is the limit message.
    IterationLimit { reason: String },
    /// The thread was interrupted; the reason is `INTERRUPTED_REASON`.
    Interrupted { reason: String },
    /// The cost guard refused another LLM call, for the reason it gave.
    CostLimit { reason: String },
}

/// The cost guard's answer before an LLM call: a refusal stops the turn
/// with the guard's reason; no refusal lets the call go ahead.
pub fn cost_check(cost_refusal: Option<String>) -> (r: Result<(), LoopStop>)
    ensures
        match cost_refusal {
            Some(m) => r matches Err(LoopStop::CostLimit { reason }) && reason@ == m@,
            None => r is Ok,
        },
{
    match cost_refusal {
        Some(reason) => Err(LoopStop::CostLimit { reason }),
        None => Ok(()),
    }
}

/// What a text answer of the model does to the conversation.
#[derive(Debug, Clone, PartialEq, Eq)]
pub enum TextStep {
    /// The answer joins the context as the assistant's message, followed by
    /// the user message `nudge`, and the turn goes round again.
    Nudge { assistant: String, nudge: String },
    /// The answer is the turn's response.
    Respond(String),
}

/// The message of a turn that ran out of rounds.
pub open spec fn iteration_limit_message() -> Seq<char> {
    "Exceeded maximum tool iterations ("@ + decimal(MAX_TOOL_ITERATIONS as nat) + ")"@
}

impl AgenticLoopState {
    /// The counter never passes the limit.
    pub open spec fn wf(self) -> bool {
        self.iteration <= MAX_TOOL_ITERATIONS
    }

    /// A fresh turn; a turn resumed after an approved tool counts as having
    /// run one.
    pub fn new(resume_after_tool: bool) -> (s: Self)
        ensures
            s.wf(),
            s.iteration == 0,
            s.tools_executed == resume_after_tool,
    {
        AgenticLoopState { iteration: 0, tools_executed: resume_after_tool }
    }

    /// Starts the next round: fails with the limit message once
    /// `MAX_TOOL_ITERATIONS` rounds have started.
    pub fn begin_iteration(&mut self) -> (r: Result<(), String>)
        requires
            old(self).wf(),
        ensures
            final(self).wf(),
            final(self).tools_executed == old(self).tools_executed,
            old(self).iteration < MAX_TOOL_ITERATIONS ==> (r is Ok && final(self).iteration
                == old(self).iteration + 1),
            old(self).iteration >= MAX_TOOL_ITERATIONS ==> (r matches Err(m) && m@
                == iteration_limit_message() && final(self).iteration == old(self).iteration),
    {
        if self.iteration >= MAX_TOOL_ITERATIONS {
            let mut m = String::new();
            push_str(&mut m, "Exceeded maximum tool iterations (");
            push_decimal(&mut m, MAX_TOOL_ITERATIONS as u64);
            push_str(&mut m, ")");
            return Err(m);
        }
        self.iteration = self.iteration + 1;
        Ok(())
    }

    /// A text answer before any tool ran is sent back with a nudge in the
    /// first two rounds; otherwise it is the response.
    pub fn on_text_response(&self) -> (a: TextResponseAction)
        ensures
            a == (if !self.tools_executed && self.iteration < 3 {
                TextResponseAction::NudgeForTools
            } else {
                TextResponseAction::Respond
            }),
    {
        if !self.tools_executed && self.iteration < 3 {
            TextResponseAction::NudgeForTools
        } else {
            TextResponseAction::Respond
        }
    }

    /// A text answer is sent back with a nudge.
    pub open spec fn nudges(self) -> bool {
        !self.tools_executed && self.iteration < 3
    }

    /// Starts the next LLM round. Once `MAX_TOOL_ITERATIONS` rounds have
    /// started the turn stops with the limit message; otherwise the counter
    /// moves, and an interrupted thread stops the turn with
    /// `INTERRUPTED_REASON`. Only a round that passes both checks goes on to
    /// ask the cost guard (`cost_check`).
    pub fn begin_round(&mut self, thread_interrupted: bool) -> (r: Result<(), LoopStop>)
        requires
            old(self).wf(),
        ensures
            final(self).wf(),
            final(self).tools_executed == old(self).tools_executed,
            old(self).iteration >= MAX_TOOL_ITERATIONS ==> (r matches Err(LoopStop::IterationLimit { reason })
                && reason@ == iteration_limit_message()),
            old(self).iteration < MAX_TOOL_ITERATIONS && thread_interrupted ==> (r matches Err(LoopStop::Interrupted { reason })
                && reason@ == INTERRUPTED_REASON@),
            old(self).iteration < MAX_TOOL_ITERATIONS && !thread_interrupted ==> r is Ok,
            old(self).iteration < MAX_TOOL_ITERATIONS ==> final(self).iteration == old(self).iteration + 1,
            old(self).iteration >= MAX_TOOL_ITERATIONS ==> final(self).iteration == old(self).iteration,
    {
        match self.begin_iteration() {
            Err(m) => return Err(LoopStop::IterationLimit { reason: m }),
            Ok(()) => {},
        }
        if thread_interrupted {
            return Err(LoopStop::Interrupted { reason: string_of(INTERRUPTED_REASON) });
        }
        Ok(())
    }

    /// What a text answer does: before any tool ran and in the first two
    /// rounds it goes back into the context followed by the nudge message;
    /// otherwise it is the response.
    pub fn text_step(&self, text: String) -> (s: TextStep)
        ensures
            self.nudges() ==> (s matches TextStep::Nudge { assistant, nudge } && assistant@ == text@
                && nudge@ == tool_use_nudge()),
            !self.nudges() ==> (s matches TextStep::Respond(t) && t@ == text@),
    {
        match self.on_text_response() {
            TextResponseAction::NudgeForTools => TextStep::Nudge {
                assistant: text,
                nudge: tool_use_nudge_text(),
            },
            TextResponseAction::Respond => TextStep::Respond(text),
        }
    }

    /// The model asked for tools: from now on a text answer is final.
    pub fn on_tool_calls(&mut self)
        ensures
            final(self).iteration == old(self).iteration,
            final(self).tools_executed,
    {
        self.tools_executed = true;
    }
}

/// Each state follows the one before by a started round in which the
/// model answered with text only: one more round, no tool run.
pub open spec fn text_only_rounds(states: Seq<AgenticLoopState>) -> bool {
    forall|i: int| 0 <= i < states.len() - 1 ==> {
        &&& (#[trigger] states[i + 1]).iteration == states[i].iteration + 1
        &&& states[i + 1].tools_executed == states[i].tools_executed
    }
}

proof fn lemma_text_only_rounds(states: Seq<AgenticLoopState>, resume_after_tool: bool, k: int)
    requires
        states.len() >= 1,
        states[0] == (AgenticLoopState { iteration: 0, tools_executed: resume_after_tool }),
        text_only_rounds(states),
        0 <= k < states.len(),
    ensures
        states[k].iteration == k,
        states[k].tools_executed == resume_after_tool,
    decreases k,
{
    if k > 0 {
        lemma_text_only_rounds(states, resume_after_tool, k - 1);
        assert(states[k] == states[(k - 1) + 1]);
    }
}

/// In a turn in which the model only answers with text, the answer of a
/// turn resumed after a tool is the response at once; otherwise the answers
/// of the first two rounds go back with the nudge message and the answer of
/// the third round is the response.
pub proof fn law_text_only_turn(states: Seq<AgenticLoopState>, resume_after_tool: bool)
    requires
        states.len() >= 1,
        states[0] == (AgenticLoopState { iteration: 0, tools_executed: resume_after_tool }),
        text_only_rounds(states),
    ensures
        forall|k: int| 1 <= k < states.len() ==> ((#[trigger] states[k]).nudges() <==> (!resume_after_tool
            && k < 3)),
        resume_after_tool && states.len() > 1 ==> !states[1].nudges(),
        !resume_after_tool && states.len() > 3 ==> states[1].nudges() && states[2].nudges()
            && !states[3].nudges(),
{
    assert forall|k: int| 1 <= k < states.len() implies ((#[trigger] states[k]).nudges() <==> (
    !resume_after_tool && k < 3)) by {
        lemma_text_only_rounds(states, resume_after_tool, k);
    }
}

/// The status shown while a batch of tool calls runs.
pub fn executing_tools_status(count: usize) -> (s: String)
    ensures
        s@ == "Executing "@ + decimal(count as nat) + " tool(s)..."@,
{
    let mut s = String::new();
    push_str(&mut s, "Executing ");
    push_decimal(&mut s, count as u64);
    push_str(&mut s, " tool(s)...");
    s
}

/// What the routing verdict does to a tool call.
#[derive(Debug)]
pub enum RoutingStep {
    /// The call is not run; the tool result tells the model why.
    Blocked { tool_result: String, reason_codes: Vec<String> },
    /// The call runs as `tool_name`; a switch to a fallback is announced
    /// with `switched_preview` and recorded with its reason codes.
    Run { tool_name: String, switched_preview: Option<String>, reason_codes: Vec<String> },
}

/// The tool result of a call that the reliability policy blocked.
pub open spec fn routing_blocked_text(detail: Seq<char>) -> Seq<char> {
    "Tool call blocked by reliability policy: "@ + detail
}

/// The preview announcing a switch to a fallback tool.
pub open spec fn routing_switched_text(tool: Seq<char>) -> Seq<char> {
    "[routing] switched to fallback tool '"@ + tool + "'"@
}

/// A denied call is blocked with the denial's detail; an allowed one runs
/// under the routed name, announced when it was routed away from the
/// requested tool.
pub fn routing_step(decision: ChatToolRoutingDecision) -> (s: RoutingStep)
    ensures
        match decision {
            ChatToolRoutingDecision::Deny { reason_codes, detail } => s matches RoutingStep::Blocked {
                tool_result,
                reason_codes: codes,
            } && tool_result@ == routing_blocked_text(detail@) && codes.deep_view()
                == reason_codes.deep_view(),
            ChatToolRoutingDecision::Use { tool_name, routed_from, reason_codes } => s matches RoutingStep::Run {
                tool_name: t,
                switched_preview,
                reason_codes: codes,
            } && t@ == tool_name@ && codes.deep_view() == reason_codes.deep_view()
                && switched_preview.deep_view() == (if routed_from is Some {
                Some(routing_switched_text(tool_name@))
            } else {
                None
            }),
        },
{
    match decision {
        ChatToolRoutingDecision::Deny { reason_codes, detail } => {
            let mut m = String::new();
            push_str(&mut m, "Tool call blocked by reliability policy: ");
            push_str(&mut m, detail.as_str());
            RoutingStep::Blocked { tool_result: m, reason_codes }
        },
        ChatToolRoutingDecision::Use { tool_name, routed_from, reason_codes } => {
            let switched = match routed_from {
                Some(_) => {
                    let mut m = String::new();
                    push_str(&mut m, "[routing] switched to fallback tool '");
                    push_str(&mut m, tool_name.as_str());
                    push_str(&mut m, "'");
                    Some(m)
                },
                None => None,
            };
            RoutingStep::Run { tool_name, switched_preview: switched, reason_codes }
        },
    }
}

/// What the approval preflight does to a chat tool call.
#[derive(Debug)]
pub enum ApprovalStep {
    /// The turn stops and asks the user; the decision is recorded with
    /// these codes, not auto-approved.
    AskUser { reason_codes: Vec<String> },
    /// The call runs; an auto-approval is recorded with its codes.
    Run { auto_approved_codes: Option<Vec<String>> },
}

/// Approval required stops the turn; an auto-approval is recorded; no
/// approval needed changes nothing.
pub fn approval_step(outcome: ApprovalPolicyOutcome) -> (s: ApprovalStep)
    ensures
        match outcome {
            ApprovalPolicyOutcome::RequireApproval { reason_codes } => s matches ApprovalStep::AskUser {
                reason_codes: c,
            } && c.deep_view() == reason_codes.deep_view(),
            ApprovalPolicyOutcome::AllowAutoApproved { reason_codes } => s matches ApprovalStep::Run {
                auto_approved_codes: Some(c),
            } && c.deep_view() == reason_codes.deep_view(),
            ApprovalPolicyOutcome::NoApprovalRequired => s matches ApprovalStep::Run {
                auto_approved_codes: None,
            },
        },
{
    match outcome {
        ApprovalPolicyOutcome::RequireApproval { reason_codes } => ApprovalStep::AskUser { reason_codes },
        ApprovalPolicyOutcome::AllowAutoApproved { reason_codes } => ApprovalStep::Run {
            auto_approved_codes: Some(reason_codes),
        },
        ApprovalPolicyOutcome::NoApprovalRequired => ApprovalStep::Run { auto_approved_codes: None },
    }
}

/// What the tool-call hook does to a chat tool call.
#[derive(Debug)]
pub enum HookStep {
    /// The call is not run; the tool result tells the model why.
    Blocked { tool_result: String, reason_codes: Vec<String> },
    /// The call runs with these parameters; a modification is recorded with
    /// its codes.
    Run { parameters: String, modified_codes: Option<Vec<String>> },
}

/// The tool result of a call that a hook blocked.
pub open spec fn hook_blocked_text(reason: Seq<char>) -> Seq<char> {
    "Tool call blocked by hook policy: "@ + reason
}

/// A denial blocks the call with the hook's reason; otherwise the call runs
/// with the parameters the hook returned.
pub fn hook_step(outcome: HookToolPolicyOutcome) -> (s: HookStep)
    ensures
        match outcome {
            HookToolPolicyOutcome::Deny { reason, reason_codes } => s matches HookStep::Blocked {
                tool_result,
                reason_codes: c,
            } && tool_result@ == hook_blocked_text(reason@) && c.deep_view() == reason_codes.deep_view(),
            HookToolPolicyOutcome::Modified { parameters, reason_codes } => s matches HookStep::Run {
                parameters: p,
                modified_codes: Some(c),
            } && p@ == parameters@ && c.deep_view() == reason_codes.deep_view(),
            HookToolPolicyOutcome::Continue { parameters } => s matches HookStep::Run {
                parameters: p,
                modified_codes: None,
            } && p@ == parameters@,
        },
{
    match outcome {
        HookToolPolicyOutcome::Deny { reason, reason_codes } => {
            let mut m = String::new();
            push_str(&mut m, "Tool call blocked by hook policy: ");
            push_str(&mut m, reason.as_str());
            HookStep::Blocked { tool_result: m, reason_codes }
        },
        HookToolPolicyOutcome::Modified { parameters, reason_codes } => HookStep::Run {
            parameters,
            modified_codes: Some(reason_codes),
        },
        HookToolPolicyOutcome::Continue { parameters } => HookStep::Run { parameters, modified_codes: None },
    }
}

/// Shell calls stream their output live.
pub fn uses_live_stream(tool_name: &str) -> (b: bool)
    ensures
        b == (tool_name@ == "shell"@),
{
    let v = to_chars(tool_name);
    chars_eq_str(v.as_slice(), "shell")
}

/// The result of a shell call that already ran while the response streamed:
/// its output, or its failure as an execution error of the tool.
pub fn piped_result(tool_name: &str, cached: Result<String, String>) -> (r: Result<String, Error>)
    ensures
        match cached {
            Ok(o) => r matches Ok(x) && x@ == o@,
            Err(reason) => r matches Err(Error::Tool(ToolError::ExecutionFailed { name, reason: why }))
                && name@ == tool_name@ && why@ == reason@,
        },
{
    match cached {
        Ok(o) => Ok(o),
        Err(reason) => Err(Error::Tool(ToolError::ExecutionFailed { name: string_of(tool_name), reason })),
    }
}

/// The tool result shown to the model for a failed call.
pub fn tool_error_content(error_text: &str) -> (s: String)
    ensures
        s@ == "Error: "@ + error_text@,
{
    let mut s = String::new();
    push_str(&mut s, "Error: ");
    push_str(&mut s, error_text);
    s
}

/// Chunked previews are sent for successful calls whose output was not
/// streamed live.
pub fn sends_result_previews(live_stream: bool, succeeded: bool) -> (b: bool)
    ensures
        b == (!live_stream && succeeded),
{
    !live_stream && succeeded
}

} // verus!
