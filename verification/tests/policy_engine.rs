use titanclaw::policy::{
    evaluate_dispatcher_tool_approval, evaluate_worker_tool_approval, params_request_dry_run,
    ApprovalPolicyOutcome, DryRunHints, ToolContractSource, ToolContractV2Descriptor,
    ToolDryRunSupport, ToolIdempotency, ToolSideEffectLevel,
};

fn no_hints() -> DryRunHints {
    DryRunHints {
        dry_run: None,
        simulate: None,
        simulation: None,
        preview_only: None,
        mode: None,
    }
}

fn contract(
    name: &str,
    level: ToolSideEffectLevel,
    idempotency: ToolIdempotency,
    dry: ToolDryRunSupport,
    requires_approval_default: bool,
    tag: &str,
    timeout: u64,
    source: ToolContractSource,
) -> ToolContractV2Descriptor {
    ToolContractV2Descriptor {
        tool_name: name.to_string(),
        version: 2,
        domain: "orchestrator".to_string(),
        side_effect_level: level,
        idempotency,
        dry_run_support: dry,
        requires_approval_default,
        timeout_ms_hint: Some(timeout),
        fallback_candidates: Vec::new(),
        risk_tags: vec![tag.to_string()],
        source,
    }
}

#[test]
fn test_dispatcher_approval_auto_approved() {
    let out = evaluate_dispatcher_tool_approval(true, false, &no_hints(), true, None);
    match out {
        ApprovalPolicyOutcome::AllowAutoApproved { reason_codes } => {
            assert_eq!(reason_codes, vec!["session_auto_approval"]);
        }
        _ => panic!("unexpected outcome"),
    }
}

#[test]
fn test_dispatcher_approval_requires_explicit_on_destructive_override() {
    let out = evaluate_dispatcher_tool_approval(true, true, &no_hints(), true, None);
    match out {
        ApprovalPolicyOutcome::RequireApproval { reason_codes } => {
            assert!(reason_codes.contains(&"destructive_params_override_auto_approval".to_string()));
            assert_eq!(
                reason_codes,
                vec![
                    "destructive_params_override_auto_approval".to_string(),
                    "tool_requires_approval".to_string()
                ]
            );
        }
        _ => panic!("unexpected outcome"),
    }
}

#[test]
fn test_worker_approval_requires_approval() {
    match evaluate_worker_tool_approval(true, &no_hints(), None) {
        ApprovalPolicyOutcome::RequireApproval { reason_codes } => {
            assert_eq!(reason_codes, vec!["tool_requires_approval"]);
        }
        _ => panic!("unexpected outcome"),
    }
}

#[test]
fn test_dispatcher_contract_v2_requires_explicit_approval_and_blocks_auto_approval() {
    let c = contract(
        "http",
        ToolSideEffectLevel::ExternalMutation,
        ToolIdempotency::Unknown,
        ToolDryRunSupport::Simulated,
        false,
        "external_mutation",
        30_000,
        ToolContractSource::Inferred,
    );
    match evaluate_dispatcher_tool_approval(false, false, &no_hints(), true, Some(&c)) {
        ApprovalPolicyOutcome::RequireApproval { reason_codes } => {
            assert!(reason_codes.contains(&"contract_v2_external_mutation".to_string()));
            assert!(reason_codes.contains(&"contract_v2_override_auto_approval".to_string()));
        }
        _ => panic!("unexpected outcome"),
    }
}

#[test]
fn test_worker_contract_v2_requires_approval() {
    let c = contract(
        "bank_transfer",
        ToolSideEffectLevel::Financial,
        ToolIdempotency::UnsafeRetry,
        ToolDryRunSupport::Unsupported,
        true,
        "financial",
        10_000,
        ToolContractSource::ManualOverride,
    );
    match evaluate_worker_tool_approval(false, &no_hints(), Some(&c)) {
        ApprovalPolicyOutcome::RequireApproval { reason_codes } => {
            assert!(reason_codes.contains(&"contract_v2_financial".to_string()));
            assert!(reason_codes.contains(&"contract_v2_requires_approval_default".to_string()));
        }
        _ => panic!("unexpected outcome"),
    }
}

#[test]
fn test_dispatcher_contract_v2_allows_dry_run_for_simulatable_external_mutation() {
    let c = contract(
        "http",
        ToolSideEffectLevel::ExternalMutation,
        ToolIdempotency::Unknown,
        ToolDryRunSupport::Simulated,
        false,
        "external_mutation",
        30_000,
        ToolContractSource::Inferred,
    );
    let mut hints = no_hints();
    hints.dry_run = Some(true);
    match evaluate_dispatcher_tool_approval(false, false, &hints, false, Some(&c)) {
        ApprovalPolicyOutcome::NoApprovalRequired => {}
        _ => panic!("expected dry-run external mutation to pass preflight without approval"),
    }
}

#[test]
fn test_dispatcher_contract_v2_flags_non_simulatable_high_impact() {
    let c = contract(
        "system_tool",
        ToolSideEffectLevel::SystemMutation,
        ToolIdempotency::Unknown,
        ToolDryRunSupport::Unsupported,
        false,
        "system_mutation",
        30_000,
        ToolContractSource::Inferred,
    );
    match evaluate_dispatcher_tool_approval(false, false, &no_hints(), false, Some(&c)) {
        ApprovalPolicyOutcome::RequireApproval { reason_codes } => {
            assert!(reason_codes.contains(&"contract_v2_system_mutation".to_string()));
            assert!(reason_codes.contains(&"contract_v2_non_simulatable_high_impact".to_string()));
        }
        _ => panic!("unexpected outcome"),
    }
}

#[test]
fn dry_run_mode_is_trimmed_and_case_insensitive() {
    let mut hints = no_hints();
    hints.mode = Some("  SIMULATE ".to_string());
    assert!(params_request_dry_run(&hints));
    hints.mode = Some("live".to_string());
    assert!(!params_request_dry_run(&hints));
    hints.preview_only = Some(true);
    assert!(params_request_dry_run(&hints));
    assert!(!params_request_dry_run(&no_hints()));
}

#[test]
fn no_approval_for_plain_read_only_tool() {
    let c = contract(
        "read_file",
        ToolSideEffectLevel::ReadOnly,
        ToolIdempotency::SafeRetry,
        ToolDryRunSupport::Unsupported,
        false,
        "read_only",
        5_000,
        ToolContractSource::Inferred,
    );
    assert!(matches!(
        evaluate_dispatcher_tool_approval(false, true, &no_hints(), true, Some(&c)),
        ApprovalPolicyOutcome::NoApprovalRequired
    ));
    assert!(matches!(
        evaluate_worker_tool_approval(false, &no_hints(), Some(&c)),
        ApprovalPolicyOutcome::NoApprovalRequired
    ));
}

#[test]
fn dry_run_hints_read_from_json_parameters() {
    let h = titanclaw::policy::dry_run_hints_from_json(
        r#"{"dry_run":true,"simulate":"yes","mode":" Simulate ","preview_only":false}"#,
    );
    assert_eq!(h.dry_run, Some(true));
    assert_eq!(h.simulate, None);
    assert_eq!(h.simulation, None);
    assert_eq!(h.preview_only, Some(false));
    assert_eq!(h.mode.as_deref(), Some(" Simulate "));
    assert!(titanclaw::policy::params_request_dry_run(&h));
    let none = titanclaw::policy::dry_run_hints_from_json("[1,2]");
    assert!(none.dry_run.is_none() && none.mode.is_none());
    assert!(!titanclaw::policy::params_request_dry_run(&none));
    let mode_only = titanclaw::policy::dry_run_hints_from_json(r#"{"mode":"DRY_RUN"}"#);
    assert!(titanclaw::policy::params_request_dry_run(&mode_only));
}
