//! Policy engine: approval preflight for tool calls.
use vstd::prelude::*;
use crate::json::{
    flag_member, is_json, json_shape_of, json_text_field, parse_json_shape, shape_field,
    text_member, JsonLeafView,
};
use crate::text::{
    ascii_lower, chars_eq_str, lower_chars, push_str, sort_dedup, sorted_unique_of, string_of,
    trim, trim_str,
};

verus! {

/// How far a tool's side effects reach.
#[derive(Debug, Clone, Copy, PartialEq, Eq, Structural)]
pub enum ToolSideEffectLevel {
    ReadOnly,
    WorkspaceWrite,
    SystemMutation,
    ExternalMutation,
    Financial,
    Credential,
}

/// Whether a tool can run without real effects.
#[derive(Debug, Clone, Copy, PartialEq, Eq, Structural)]
pub enum ToolDryRunSupport {
    /// No dry-run mode.
    Unsupported,
    Native,
    Simulated,
}

/// Whether a failed call may safely be retried.
#[derive(Debug, Clone, Copy, PartialEq, Eq, Structural)]
pub enum ToolIdempotency {
    SafeRetry,
    Unknown,
    UnsafeRetry,
}

/// Where a tool contract came from.
#[derive(Debug, Clone, Copy, PartialEq, Eq, Structural)]
pub enum ToolContractSource {
    Inferred,
    ManualOverride,
}

/// The version-2 contract of a tool, as far as routing and policy read it.
#[derive(Debug, Clone)]
pub struct ToolContractV2Descriptor {
    pub tool_name: String,
    pub version: u32,
    pub domain: String,
    pub side_effect_level: ToolSideEffectLevel,
    pub idempotency: ToolIdempotency,
    pub dry_run_support: ToolDryRunSupport,
    pub requires_approval_default: bool,
    pub timeout_ms_hint: Option<u64>,
    pub fallback_candidates: Vec<String>,
    pub risk_tags: Vec<String>,
    pub source: ToolContractSource,
}

/// The dry-run related fields of a tool call's parameters: each boolean field
/// holds the parameter's value when it is a JSON boolean, and `mode` holds the
/// value of the `mode` parameter when it is a JSON string.
#[derive(Debug, Clone)]
pub struct DryRunHints {
    pub dry_run: Option<bool>,
    pub simulate: Option<bool>,
    pub simulation: Option<bool>,
    pub preview_only: Option<bool>,
    pub mode: Option<String>,
}

/// The boolean member of a JSON text with the given key.
pub open spec fn json_flag(text: Seq<char>, key: Seq<char>) -> Option<bool> {
    match shape_field(json_shape_of(text), key) {
        Some(JsonLeafView::Flag(b)) => Some(b),
        _ => None,
    }
}

/// The dry-run hints of a tool call's JSON parameters: its boolean
/// `dry_run`, `simulate`, `simulation` and `preview_only` members and its
/// string `mode`; each is absent when the parameters are not an object or
/// the member is missing or of another type.
pub fn dry_run_hints_from_json(params_json: &str) -> (h: DryRunHints)
    ensures
        h.dry_run == json_flag(params_json@, "dry_run"@),
        h.simulate == json_flag(params_json@, "simulate"@),
        h.simulation == json_flag(params_json@, "simulation"@),
        h.preview_only == json_flag(params_json@, "preview_only"@),
        h.mode.deep_view() == json_text_field(params_json@, "mode"@),
{
    let shape = parse_json_shape(params_json);
    DryRunHints {
        dry_run: flag_member(&shape, "dry_run"),
        simulate: flag_member(&shape, "simulate"),
        simulation: flag_member(&shape, "simulation"),
        preview_only: flag_member(&shape, "preview_only"),
        mode: text_member(&shape, "mode"),
    }
}

/// The outcome of the approval preflight.
#[derive(Debug, Clone)]
pub enum ApprovalPolicyOutcome {
    NoApprovalRequired,
    RequireApproval { reason_codes: Vec<String> },
    AllowAutoApproved { reason_codes: Vec<String> },
}

/// The parameters ask for a dry run / simulation.
pub open spec fn dry_run_requested(h: DryRunHints) -> bool {
    ||| h.dry_run == Some(true)
    ||| h.simulate == Some(true)
    ||| h.simulation == Some(true)
    ||| h.preview_only == Some(true)
    ||| match h.mode {
        Some(m) => {
            let t = ascii_lower(trim(m@));
            t == "dry_run"@ || t == "simulate"@
        },
        None => false,
    }
}

/// A call asks for a dry run exactly when one of its `dry_run`, `simulate`,
/// `simulation` or `preview_only` flags is true, or its `mode`, trimmed and
/// in ASCII lower case, is `dry_run` or `simulate`.
pub proof fn law_dry_run_requests(h: DryRunHints)
    ensures
        dry_run_requested(h) <==> (h.dry_run == Some(true) || h.simulate == Some(true) || h.simulation
            == Some(true) || h.preview_only == Some(true) || (h.mode matches Some(m) && set![
            "dry_run"@,
            "simulate"@,
        ].contains(ascii_lower(trim(m@))))),
{
}

/// Whether the parameters ask for a dry run / simulation.
pub fn params_request_dry_run(params: &DryRunHints) -> (b: bool)
    ensures
        b == dry_run_requested(*params),
{
    if params.dry_run == Some(true) {
        return true;
    }
    if params.simulate == Some(true) {
        return true;
    }
    if params.simulation == Some(true) {
        return true;
    }
    if params.preview_only == Some(true) {
        return true;
    }
    match &params.mode {
        Some(m) => {
            let t = trim_str(m.as_str());
            let l = lower_chars(t.as_slice());
            chars_eq_str(l.as_slice(), "dry_run") || chars_eq_str(l.as_slice(), "simulate")
        },
        None => false,
    }
}

/// The side-effect levels whose effects reach beyond the workspace.
pub open spec fn is_mutating_level(l: ToolSideEffectLevel) -> bool {
    l == ToolSideEffectLevel::SystemMutation || l == ToolSideEffectLevel::ExternalMutation
}

/// The approval reason codes a contract raises, in the order they are found.
pub open spec fn contract_reason_codes(c: Option<ToolContractV2Descriptor>, dry: bool) -> Seq<
    Seq<char>,
> {
    match c {
        None => seq![],
        Some(c) => {
            let no_sim = c.dry_run_support == ToolDryRunSupport::Unsupported;
            let a: Seq<Seq<char>> = if c.requires_approval_default {
                seq!["contract_v2_requires_approval_default"@]
            } else {
                seq![]
            };
            let b: Seq<Seq<char>> = match c.side_effect_level {
                ToolSideEffectLevel::SystemMutation => if !dry || no_sim {
                    seq!["contract_v2_system_mutation"@]
                } else {
                    seq![]
                },
                ToolSideEffectLevel::ExternalMutation => if !dry || no_sim {
                    seq!["contract_v2_external_mutation"@]
                } else {
                    seq![]
                },
                ToolSideEffectLevel::Financial => seq!["contract_v2_financial"@],
                ToolSideEffectLevel::Credential => seq!["contract_v2_credential"@],
                _ => seq![],
            };
            let d: Seq<Seq<char>> = if is_mutating_level(c.side_effect_level) {
                if no_sim {
                    seq!["contract_v2_non_simulatable_high_impact"@]
                } else if !dry {
                    seq!["contract_v2_dry_run_not_requested"@]
                } else {
                    seq![]
                }
            } else {
                seq![]
            };
            a + b + d
        },
    }
}

proof fn lemma_concat_contains(a: Seq<Seq<char>>, b: Seq<Seq<char>>, x: Seq<char>)
    ensures
        a.contains(x) ==> (a + b).contains(x),
        b.contains(x) ==> (a + b).contains(x),
{
    if a.contains(x) {
        let i = choose|i: int| 0 <= i < a.len() && a[i] == x;
        assert((a + b)[i] == x);
    }
    if b.contains(x) {
        let i = choose|i: int| 0 <= i < b.len() && b[i] == x;
        assert((a + b)[a.len() + i] == x);
    }
}

/// What a tool contract asks of approval, whether or not a dry run was
/// requested (`dry`): a default-approval contract always raises
/// `contract_v2_requires_approval_default`; a credential tool always raises
/// `contract_v2_credential` and a financial one `contract_v2_financial`; a
/// system or external mutation raises its own code unless a dry run was
/// requested of a tool that can simulate, and then also a high-impact code
/// (non-simulatable, or dry run not requested). A contract raises nothing
/// exactly when it does not require approval by default and is read-only,
/// writes only the workspace, or is a mutation run as a requested dry run
/// of a tool that can simulate; no contract raises nothing.
pub proof fn law_contract_approval_codes(c: ToolContractV2Descriptor, dry: bool)
    ensures
        ({
            let codes = contract_reason_codes(Some(c), dry);
            let no_sim = c.dry_run_support == ToolDryRunSupport::Unsupported;
            let mutating = c.side_effect_level == ToolSideEffectLevel::SystemMutation
                || c.side_effect_level == ToolSideEffectLevel::ExternalMutation;
            &&& c.requires_approval_default ==> codes.contains("contract_v2_requires_approval_default"@)
            &&& c.side_effect_level == ToolSideEffectLevel::Credential ==> codes.contains(
                "contract_v2_credential"@,
            )
            &&& c.side_effect_level == ToolSideEffectLevel::Financial ==> codes.contains(
                "contract_v2_financial"@,
            )
            &&& c.side_effect_level == ToolSideEffectLevel::SystemMutation && (!dry || no_sim)
                ==> codes.contains("contract_v2_system_mutation"@)
            &&& c.side_effect_level == ToolSideEffectLevel::ExternalMutation && (!dry || no_sim)
                ==> codes.contains("contract_v2_external_mutation"@)
            &&& mutating && no_sim ==> codes.contains("contract_v2_non_simulatable_high_impact"@)
            &&& mutating && !no_sim && !dry ==> codes.contains("contract_v2_dry_run_not_requested"@)
            &&& codes.len() == 0 <==> (!c.requires_approval_default && (c.side_effect_level
                == ToolSideEffectLevel::ReadOnly || c.side_effect_level
                == ToolSideEffectLevel::WorkspaceWrite || (mutating && dry && !no_sim)))
        }),
        contract_reason_codes(None, dry).len() == 0,
{
    let codes = contract_reason_codes(Some(c), dry);
    let no_sim = c.dry_run_support == ToolDryRunSupport::Unsupported;
    let a: Seq<Seq<char>> = if c.requires_approval_default {
        seq!["contract_v2_requires_approval_default"@]
    } else {
        seq![]
    };
    let b: Seq<Seq<char>> = match c.side_effect_level {
        ToolSideEffectLevel::SystemMutation => if !dry || no_sim {
            seq!["contract_v2_system_mutation"@]
        } else {
            seq![]
        },
        ToolSideEffectLevel::ExternalMutation => if !dry || no_sim {
            seq!["contract_v2_external_mutation"@]
        } else {
            seq![]
        },
        ToolSideEffectLevel::Financial => seq!["contract_v2_financial"@],
        ToolSideEffectLevel::Credential => seq!["contract_v2_credential"@],
        _ => seq![],
    };
    let d: Seq<Seq<char>> = if is_mutating_level(c.side_effect_level) {
        if no_sim {
            seq!["contract_v2_non_simulatable_high_impact"@]
        } else if !dry {
            seq!["contract_v2_dry_run_not_requested"@]
        } else {
            seq![]
        }
    } else {
        seq![]
    };
    assert(codes == a + b + d);
    if a.len() > 0 {
        assert(a[0] == "contract_v2_requires_approval_default"@);
        assert((a + b + d)[0] == a[0]);
    }
    if b.len() > 0 {
        assert((a + b + d)[a.len() as int] == b[0]);
    }
    if d.len() > 0 {
        assert((a + b + d)[(a.len() + b.len()) as int] == d[0]);
    }
}

/// One reason code, or none.
pub open spec fn code_if(cond: bool, code: Seq<char>) -> Seq<Seq<char>> {
    if cond {
        seq![code]
    } else {
        seq![]
    }
}

fn push_code(v: &mut Vec<String>, code: &str)
    ensures
        final(v).deep_view() == old(v).deep_view().push(code@),
{
    v.push(string_of(code));
    assert(v.deep_view() =~= old(v).deep_view().push(code@));
}

fn push_code_if(v: &mut Vec<String>, cond: bool, code: &str)
    ensures
        final(v).deep_view() == old(v).deep_view() + code_if(cond, code@),
{
    if cond {
        push_code(v, code);
    } else {
        assert(v.deep_view() =~= old(v).deep_view() + code_if(cond, code@));
    }
}

fn contract_requires_approval_reason_codes(
    contract_v2: Option<&ToolContractV2Descriptor>,
    params: &DryRunHints,
) -> (codes: Vec<String>)
    ensures
        codes.deep_view() == contract_reason_codes(
            match contract_v2 {
                Some(c) => Some(*c),
                None => None,
            },
            dry_run_requested(*params),
        ),
{
    let mut codes: Vec<String> = Vec::new();
    match contract_v2 {
        None => {
            assert(codes.deep_view() =~= Seq::<Seq<char>>::empty());
            codes
        },
        Some(contract) => {
            let dry = params_request_dry_run(params);
            let no_sim = contract.dry_run_support == ToolDryRunSupport::Unsupported;
            push_code_if(
                &mut codes,
                contract.requires_approval_default,
                "contract_v2_requires_approval_default",
            );
            let ghost a = codes.deep_view();
            match contract.side_effect_level {
                ToolSideEffectLevel::SystemMutation => {
                    push_code_if(&mut codes, !dry || no_sim, "contract_v2_system_mutation");
                },
                ToolSideEffectLevel::ExternalMutation => {
                    push_code_if(&mut codes, !dry || no_sim, "contract_v2_external_mutation");
                },
                ToolSideEffectLevel::Financial => {
                    push_code(&mut codes, "contract_v2_financial");
                },
                ToolSideEffectLevel::Credential => {
                    push_code(&mut codes, "contract_v2_credential");
                },
                _ => {},
            }
            let ghost b = codes.deep_view();
            let mutating = contract.side_effect_level == ToolSideEffectLevel::SystemMutation
                || contract.side_effect_level == ToolSideEffectLevel::ExternalMutation;
            if mutating {
                if no_sim {
                    push_code(&mut codes, "contract_v2_non_simulatable_high_impact");
                } else if !dry {
                    push_code(&mut codes, "contract_v2_dry_run_not_requested");
                }
            }
            assert(codes.deep_view() =~= contract_reason_codes(Some(*contract), dry));
            codes
        },
    }
}

/// The raw (unsorted) reason codes of a dispatcher approval that is required.
pub open spec fn dispatcher_raw_codes(
    tool_requires_approval: bool,
    tool_requires_approval_for_params: bool,
    session_auto_approved: bool,
    contract_codes: Seq<Seq<char>>,
) -> Seq<Seq<char>> {
    code_if(tool_requires_approval, "tool_requires_approval"@) + contract_codes + code_if(
        session_auto_approved && tool_requires_approval_for_params,
        "destructive_params_override_auto_approval"@,
    ) + code_if(
        session_auto_approved && contract_codes.len() > 0,
        "contract_v2_override_auto_approval"@,
    )
}

/// Approval preflight for interactive (chat) tool calls.
///
/// `tool_requires_approval` and `tool_requires_approval_for_params` are the
/// tool's own answers for this call.
pub fn evaluate_dispatcher_tool_approval(
    tool_requires_approval: bool,
    tool_requires_approval_for_params: bool,
    params: &DryRunHints,
    session_auto_approved: bool,
    contract_v2: Option<&ToolContractV2Descriptor>,
) -> (out: ApprovalPolicyOutcome)
    ensures
        ({
            let cc = contract_reason_codes(
                match contract_v2 {
                    Some(c) => Some(*c),
                    None => None,
                },
                dry_run_requested(*params),
            );
            if !tool_requires_approval && cc.len() == 0 {
                out is NoApprovalRequired
            } else if session_auto_approved && !tool_requires_approval_for_params && cc.len()
                == 0 {
                out matches ApprovalPolicyOutcome::AllowAutoApproved { reason_codes }
                    && reason_codes.deep_view() == seq!["session_auto_approval"@]
            } else {
                out matches ApprovalPolicyOutcome::RequireApproval { reason_codes }
                    && sorted_unique_of(
                    dispatcher_raw_codes(
                        tool_requires_approval,
                        tool_requires_approval_for_params,
                        session_auto_approved,
                        cc,
                    ),
                    reason_codes.deep_view(),
                )
            }
        }),
        contract_v2 matches Some(c) && c.side_effect_level == ToolSideEffectLevel::Credential ==> (
        out matches ApprovalPolicyOutcome::RequireApproval { reason_codes }
            && reason_codes.deep_view().contains("contract_v2_credential"@)),
{
    let contract_codes = contract_requires_approval_reason_codes(contract_v2, params);
    proof {
        if let Some(c) = contract_v2 {
            law_contract_approval_codes(*c, dry_run_requested(*params));
        }
    }
    let contract_requires_approval = contract_codes.len() > 0;
    if !tool_requires_approval && !contract_requires_approval {
        return ApprovalPolicyOutcome::NoApprovalRequired;
    }
    if session_auto_approved && !tool_requires_approval_for_params && !contract_requires_approval {
        let mut codes: Vec<String> = Vec::new();
        push_code(&mut codes, "session_auto_approval");
        assert(codes.deep_view() =~= seq!["session_auto_approval"@]);
        return ApprovalPolicyOutcome::AllowAutoApproved { reason_codes: codes };
    }
    let ghost cc = contract_codes.deep_view();
    let mut codes: Vec<String> = Vec::new();
    push_code_if(&mut codes, tool_requires_approval, "tool_requires_approval");
    let mut i: usize = 0;
    let ghost base = codes.deep_view();
    while i < contract_codes.len()
        invariant
            i <= contract_codes.len(),
            cc == contract_codes.deep_view(),
            codes.deep_view() == base + cc.take(i as int),
        decreases contract_codes.len() - i,
    {
        let c = contract_codes[i].clone();
        assert(c@ == cc[i as int]);
        let ghost before = codes.deep_view();
        codes.push(c);
        assert(codes.deep_view() =~= before.push(cc[i as int]));
        i = i + 1;
        assert(codes.deep_view() =~= base + cc.take(i as int));
    }
    assert(cc.take(cc.len() as int) =~= cc);
    push_code_if(
        &mut codes,
        session_auto_approved && tool_requires_approval_for_params,
        "destructive_params_override_auto_approval",
    );
    push_code_if(
        &mut codes,
        session_auto_approved && contract_requires_approval,
        "contract_v2_override_auto_approval",
    );
    proof {
        let cred = "contract_v2_credential"@;
        let raw = codes.deep_view();
        let t0 = code_if(tool_requires_approval, "tool_requires_approval"@);
        let t2 = code_if(
            session_auto_approved && tool_requires_approval_for_params,
            "destructive_params_override_auto_approval"@,
        );
        let t3 = code_if(session_auto_approved && contract_requires_approval, "contract_v2_override_auto_approval"@);
        lemma_concat_contains(t0, cc, cred);
        lemma_concat_contains(t0 + cc, t2, cred);
        lemma_concat_contains(t0 + cc + t2, t3, cred);
    }
    let sorted = sort_dedup(codes);
    ApprovalPolicyOutcome::RequireApproval { reason_codes: sorted }
}

/// Approval preflight for background (worker) tool calls.
pub fn evaluate_worker_tool_approval(
    tool_requires_approval: bool,
    params: &DryRunHints,
    contract_v2: Option<&ToolContractV2Descriptor>,
) -> (out: ApprovalPolicyOutcome)
    ensures
        ({
            let raw = code_if(tool_requires_approval, "tool_requires_approval"@)
                + contract_reason_codes(
                match contract_v2 {
                    Some(c) => Some(*c),
                    None => None,
                },
                dry_run_requested(*params),
            );
            if raw.len() == 0 {
                out is NoApprovalRequired
            } else {
                out matches ApprovalPolicyOutcome::RequireApproval { reason_codes }
                    && sorted_unique_of(raw, reason_codes.deep_view())
            }
        }),
        contract_v2 matches Some(c) && c.side_effect_level == ToolSideEffectLevel::Credential ==> (
        out matches ApprovalPolicyOutcome::RequireApproval { reason_codes }
            && reason_codes.deep_view().contains("contract_v2_credential"@)),
{
    let mut codes: Vec<String> = Vec::new();
    push_code_if(&mut codes, tool_requires_approval, "tool_requires_approval");
    let contract_codes = contract_requires_approval_reason_codes(contract_v2, params);
    proof {
        if let Some(c) = contract_v2 {
            law_contract_approval_codes(*c, dry_run_requested(*params));
        }
    }
    let ghost cc = contract_codes.deep_view();
    let ghost base = codes.deep_view();
    let mut i: usize = 0;
    while i < contract_codes.len()
        invariant
            i <= contract_codes.len(),
            cc == contract_codes.deep_view(),
            codes.deep_view() == base + cc.take(i as int),
        decreases contract_codes.len() - i,
    {
        let c = contract_codes[i].clone();
        assert(c@ == cc[i as int]);
        let ghost before = codes.deep_view();
        codes.push(c);
        assert(codes.deep_view() =~= before.push(cc[i as int]));
        i = i + 1;
        assert(codes.deep_view() =~= base + cc.take(i as int));
    }
    assert(cc.take(cc.len() as int) =~= cc);
    if codes.len() == 0 {
        ApprovalPolicyOutcome::NoApprovalRequired
    } else {
        let sorted = sort_dedup(codes);
        proof {
            let raw = codes.deep_view();
            assert(raw.contains(raw[0]));
            assert(sorted.deep_view().contains(raw[0]));
            lemma_concat_contains(
                code_if(tool_requires_approval, "tool_requires_approval"@),
                cc,
                "contract_v2_credential"@,
            );
        }
        ApprovalPolicyOutcome::RequireApproval { reason_codes: sorted }
    }
}

/// What running the tool-call hooks gave: a rejection with its reason, a
/// failure with its message, or a go-ahead, with the parameters rewritten
/// as JSON text when a hook changed them.
#[derive(Debug)]
pub enum HookRunResult {
    Rejected { reason: String },
    Failed { message: String },
    Continue { modified: Option<String> },
}

/// The policy verdict of the tool-call hooks; parameters are JSON text.
#[derive(Debug)]
pub enum HookToolPolicyOutcome {
    Continue { parameters: String },
    Modified { parameters: String, reason_codes: Vec<String> },
    Deny { reason: String, reason_codes: Vec<String> },
}

/// The hook verdict on a tool call: a rejection or a failure denies it; a
/// rewrite that is JSON replaces the parameters; anything else keeps them.
pub fn evaluate_tool_call_hook(parameters: &str, run: HookRunResult) -> (r: HookToolPolicyOutcome)
    ensures
        match run {
            HookRunResult::Rejected { reason } => r matches HookToolPolicyOutcome::Deny {
                reason: why,
                reason_codes,
            } && why@ == reason@ && reason_codes.deep_view() == seq!["hook_rejected"@],
            HookRunResult::Failed { message } => r matches HookToolPolicyOutcome::Deny {
                reason: why,
                reason_codes,
            } && why@ == "Hook policy error: "@ + message@ && reason_codes.deep_view() == seq![
                "hook_policy_error"@,
            ],
            HookRunResult::Continue { modified: Some(m) } => if json_shape_of(m@) is Invalid {
                r matches HookToolPolicyOutcome::Continue { parameters: p } && p@ == parameters@
            } else {
                r matches HookToolPolicyOutcome::Modified { parameters: p, reason_codes }
                    && p@ == m@ && reason_codes.deep_view() == seq!["hook_modified_parameters"@]
            },
            HookRunResult::Continue { modified: None } => r matches HookToolPolicyOutcome::Continue {
                parameters: p,
            } && p@ == parameters@,
        },
{
    match run {
        HookRunResult::Rejected { reason } => {
            let mut codes: Vec<String> = Vec::new();
            codes.push(string_of("hook_rejected"));
            HookToolPolicyOutcome::Deny { reason, reason_codes: codes }
        },
        HookRunResult::Failed { message } => {
            let mut why = String::new();
            push_str(&mut why, "Hook policy error: ");
            push_str(&mut why, message.as_str());
            let mut codes: Vec<String> = Vec::new();
            codes.push(string_of("hook_policy_error"));
            HookToolPolicyOutcome::Deny { reason: why, reason_codes: codes }
        },
        HookRunResult::Continue { modified: Some(m) } => {
            if is_json(m.as_str()) {
                let mut codes: Vec<String> = Vec::new();
                codes.push(string_of("hook_modified_parameters"));
                HookToolPolicyOutcome::Modified { parameters: m, reason_codes: codes }
            } else {
                HookToolPolicyOutcome::Continue { parameters: string_of(parameters) }
            }
        },
        HookRunResult::Continue { modified: None } => HookToolPolicyOutcome::Continue {
            parameters: string_of(parameters),
        },
    }
}

} // verus!
