use titanclaw::memory::{
    has_required_provenance, record_expiry_ms, MemoryRecordStatus, MemorySourceKind, MemoryType,
    MemoryWriteCandidate, MemoryWriteIntent, MemoryWritePolicyEngine,
};

fn base_candidate(intent: MemoryWriteIntent) -> MemoryWriteCandidate {
    MemoryWriteCandidate {
        source_kind: MemorySourceKind::ToolMemoryWrite,
        category: "test".to_string(),
        title: "title".to_string(),
        summary: "summary".to_string(),
        payload_text: "{\"ok\":true}".to_string(),
        provenance_keys: Some(vec![]),
        desired_memory_type: None,
        confidence_hint_milli: None,
        sensitivity_hint: None,
        ttl_secs_hint: None,
        high_impact: false,
        intent,
    }
}

#[test]
fn classifies_worker_step_success_as_episodic() {
    let engine = MemoryWritePolicyEngine::default_engine();
    let candidate = base_candidate(MemoryWriteIntent::WorkerStepOutcome { success: true });
    let decision = engine.classify(&candidate);

    assert!(decision.allow);
    assert_eq!(decision.memory_type, MemoryType::Episodic);
    assert_eq!(decision.status, MemoryRecordStatus::Active);
    assert_eq!(decision.confidence_milli, 900);
    assert_eq!(decision.ttl_secs, Some(30 * 24 * 60 * 60));
}

#[test]
fn maps_daily_log_tool_writes_to_episodic_with_ttl() {
    let engine = MemoryWritePolicyEngine::default_engine();
    let mut candidate = base_candidate(MemoryWriteIntent::ToolMemoryWrite {
        target: "daily_log".to_string(),
    });
    candidate.source_kind = MemorySourceKind::ToolMemoryWrite;
    let decision = engine.classify(&candidate);

    assert!(decision.allow);
    assert_eq!(decision.memory_type, MemoryType::Episodic);
    assert_eq!(decision.confidence_milli, 800);
    assert_eq!(decision.ttl_secs, Some(30 * 24 * 60 * 60));
}

#[test]
fn classifies_heartbeat_runbook_as_procedural() {
    let engine = MemoryWritePolicyEngine::default_engine();
    let mut candidate = base_candidate(MemoryWriteIntent::ToolMemoryWrite {
        target: "heartbeat".to_string(),
    });
    candidate.summary = "Runbook checklist for service restart".to_string();
    let decision = engine.classify(&candidate);

    assert!(decision.allow);
    assert_eq!(decision.memory_type, MemoryType::Procedural);
    assert_eq!(decision.ttl_secs, None);
}

#[test]
fn rejects_low_confidence_high_impact_semantic_candidate() {
    let engine = MemoryWritePolicyEngine::default_engine();
    let mut candidate = base_candidate(MemoryWriteIntent::ToolMemoryWrite {
        target: "memory".to_string(),
    });
    candidate.high_impact = true;
    candidate.desired_memory_type = Some(MemoryType::Semantic);
    candidate.confidence_hint_milli = Some(400);
    let decision = engine.classify(&candidate);

    assert!(!decision.allow);
    assert_eq!(decision.status, MemoryRecordStatus::Rejected);
    assert!(decision
        .reason_codes
        .iter()
        .any(|r| r == "low_confidence_high_impact_rejected"));
}

#[test]
fn semantic_candidates_require_provenance_fields() {
    let engine = MemoryWritePolicyEngine::default_engine();
    let mut candidate = base_candidate(MemoryWriteIntent::ToolMemoryWrite {
        target: "memory".to_string(),
    });
    candidate.desired_memory_type = Some(MemoryType::Semantic);
    let decision = engine.classify(&candidate);

    assert_eq!(decision.memory_type, MemoryType::Semantic);
    assert_eq!(
        decision.required_provenance_fields,
        vec!["source".to_string(), "timestamp".to_string()]
    );
    assert!(decision
        .reason_codes
        .iter()
        .any(|r| r == "missing_provenance_fields"));
}

#[test]
fn provenance_with_source_and_timestamp_is_complete() {
    let full = Some(vec!["timestamp".to_string(), "source".to_string()]);
    assert!(has_required_provenance(&full));
    let partial = Some(vec!["source".to_string()]);
    assert!(!has_required_provenance(&partial));
    assert!(!has_required_provenance(&None));
}

#[test]
fn semantic_candidate_with_provenance_has_no_missing_fields_reason() {
    let engine = MemoryWritePolicyEngine::default_engine();
    let mut candidate = base_candidate(MemoryWriteIntent::ToolMemoryWrite {
        target: "memory".to_string(),
    });
    candidate.desired_memory_type = Some(MemoryType::Semantic);
    candidate.provenance_keys = Some(vec!["source".to_string(), "timestamp".to_string()]);
    let decision = engine.classify(&candidate);
    assert!(decision.allow);
    assert!(!decision
        .reason_codes
        .iter()
        .any(|r| r == "missing_provenance_fields"));
}

#[test]
fn expiry_adds_ttl_in_milliseconds() {
    assert_eq!(record_expiry_ms(Some(60), 1_000), Some(61_000));
    assert_eq!(record_expiry_ms(None, 1_000), None);
}
