use titanclaw::incident::{
    fingerprint_hex, policy_denial_signature, severity_for_policy_denial,
    severity_for_tool_failure_class, tool_failure_signature,
};

#[test]
fn test_fingerprint_is_deterministic() {
    let a = fingerprint_hex(&["tool_failure", "u1", "worker", "shell", "worker"]);
    let b = fingerprint_hex(&["tool_failure", "u1", "worker", "shell", "worker"]);
    let c = fingerprint_hex(&["tool_failure", "u1", "worker", "shell", "web"]);
    assert_eq!(a, b);
    assert_ne!(a, c);
}

#[test]
fn test_tool_failure_severity_mapping() {
    assert_eq!(severity_for_tool_failure_class(Some("tool_timeout")), "medium");
    assert_eq!(severity_for_tool_failure_class(Some("tool_not_found")), "high");
    assert_eq!(severity_for_tool_failure_class(None), "medium");
}

#[test]
fn test_policy_denial_severity_mapping() {
    assert_eq!(severity_for_policy_denial(&["hook_rejected".to_string()]), "high");
    assert_eq!(severity_for_policy_denial(&["user_rejected_tool".to_string()]), "medium");
}

#[test]
fn fingerprint_matches_blake3_of_zero_separated_parts() {
    let expected = blake3::hash(b"a\0bc\0").to_hex().to_string();
    assert_eq!(fingerprint_hex(&["a", "bc"]), expected);
    // Moving a byte across the separator changes the fingerprint.
    assert_ne!(fingerprint_hex(&["ab", "c"]), expected);
    assert_eq!(fingerprint_hex(&[]).len(), 64);
}

#[test]
fn signatures_fill_in_none_and_sort_reason_codes() {
    let t = tool_failure_signature("u1", "worker", "shell", None, Some("safety"));
    assert_eq!(
        t.fingerprint,
        fingerprint_hex(&["tool_failure", "u1", "worker", "shell", "none", "safety"])
    );
    assert_eq!(t.severity, "high");

    let p = policy_denial_signature(
        "u1",
        "dispatcher",
        None,
        "tool_call",
        vec!["b_code".to_string(), "a_code".to_string(), "b_code".to_string()],
    );
    assert_eq!(
        p.fingerprint,
        fingerprint_hex(&["policy_denial", "u1", "dispatcher", "none", "tool_call", "a_code,b_code,b_code"])
    );
    assert_eq!(p.severity, "medium");
    let empty = policy_denial_signature("u1", "d", Some("shell"), "k", vec![]);
    assert_eq!(empty.fingerprint, fingerprint_hex(&["policy_denial", "u1", "d", "shell", "k", "none"]));
}
