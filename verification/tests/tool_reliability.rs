use titanclaw::autonomy::{ExecutionAttemptStatus, PolicyDecisionKind};
use titanclaw::reliability::{
    compute_reliability_counts, failure_class_weighted_transient, percentile,
    profile_breaker_is_open, sort_i64, AttemptFacts, CircuitBreakerState, IncidentFacts,
    PolicyFacts, ToolReliabilityConfig,
};

fn ts(sec: i64) -> i64 {
    sec * 1000
}

fn attempt(
    tool_name: &str,
    started_at_ms: i64,
    status: ExecutionAttemptStatus,
    failure_class: Option<&str>,
    elapsed_ms: Option<i64>,
) -> AttemptFacts {
    AttemptFacts {
        tool_name: tool_name.to_string(),
        status,
        failure_class: failure_class.map(ToString::to_string),
        started_at_ms,
        elapsed_ms,
    }
}

#[test]
fn computes_profile_counts_and_percentiles() {
    let now = ts(10_000);
    let attempts = vec![
        attempt("shell", ts(9_900), ExecutionAttemptStatus::Succeeded, None, Some(100)),
        attempt("shell", ts(9_910), ExecutionAttemptStatus::Failed, Some("tool_execution"), Some(200)),
        attempt("shell", ts(9_920), ExecutionAttemptStatus::Timeout, Some("tool_timeout"), Some(300)),
        attempt("other", ts(9_930), ExecutionAttemptStatus::Succeeded, None, Some(50)),
    ];
    let policies = vec![PolicyFacts {
        tool_name: Some("shell".to_string()),
        decision: PolicyDecisionKind::RequireApproval,
        created_at_ms: ts(9_940),
    }];
    let incidents = vec![IncidentFacts {
        tool_name: Some("shell".to_string()),
        status: "open".to_string(),
        last_seen_at_ms: Some(ts(9_950)),
        first_seen_at_ms: Some(ts(9_950)),
        created_at_ms: ts(9_950),
    }];
    let config = ToolReliabilityConfig::default();

    let profile =
        compute_reliability_counts("shell", now, &attempts, &policies, &incidents, None, 0, &config)
            .unwrap();

    assert_eq!(profile.sample_count, 3);
    assert_eq!(profile.success_count, 1);
    assert_eq!(profile.failure_count, 2);
    assert_eq!(profile.timeout_count, 1);
    assert_eq!(profile.blocked_count, 0);
    assert_eq!(profile.p50_latency_ms, Some(200));
    assert_eq!(profile.p95_latency_ms, Some(300));
    assert_eq!(profile.recent_incident_count, 1);
    assert_eq!((profile.policy_total, profile.policy_approval_like, profile.policy_deny_like), (1, 1, 0));
    assert_eq!(profile.last_success_at_ms, Some(ts(9_900)));
    assert_eq!(profile.last_failure_at_ms, Some(ts(9_920)));
    assert_eq!(profile.breaker_state, CircuitBreakerState::Closed);
}

#[test]
fn opens_breaker_on_repeated_transient_failures() {
    let now = ts(20_000);
    let minute = 60_000;
    let attempts = vec![
        attempt("http", now - minute, ExecutionAttemptStatus::Timeout, Some("tool_timeout"), Some(1_000)),
        attempt("http", now - 2 * minute, ExecutionAttemptStatus::Failed, Some("tool_execution"), Some(800)),
        attempt("http", now - 3 * minute, ExecutionAttemptStatus::Failed, Some("channel"), Some(600)),
    ];
    let config = ToolReliabilityConfig::default();

    let profile =
        compute_reliability_counts("http", now, &attempts, &vec![], &vec![], None, 0, &config).unwrap();

    assert_eq!(profile.breaker_state, CircuitBreakerState::Open);
    assert_eq!(profile.cooldown_until_ms, Some(now + 300_000));
    assert_eq!(profile.transient_failures_recent, 3);
}

#[test]
fn moves_open_breaker_to_half_open_after_cooldown_without_new_failures() {
    let now = ts(30_000);
    let attempts = vec![attempt("shell", now - 30 * 60_000, ExecutionAttemptStatus::Succeeded, None, Some(20))];
    let config = ToolReliabilityConfig::default();
    let previous = Some((CircuitBreakerState::Open, Some(now - 1_000)));

    let profile =
        compute_reliability_counts("shell", now, &attempts, &vec![], &vec![], previous, 0, &config)
            .unwrap();
    assert_eq!(profile.breaker_state, CircuitBreakerState::HalfOpen);
}

#[test]
fn no_profile_without_attempts_or_legacy_failures() {
    let config = ToolReliabilityConfig::default();
    assert!(compute_reliability_counts("x", 0, &vec![], &vec![], &vec![], None, 0, &config).is_none());
    let with_legacy = compute_reliability_counts("x", 0, &vec![], &vec![], &vec![], None, 2, &config).unwrap();
    assert_eq!(with_legacy.sample_count, 0);
    assert_eq!(with_legacy.p50_latency_ms, None);
}

#[test]
fn success_after_failures_keeps_breaker_closed() {
    let now = ts(50_000);
    let attempts = vec![
        attempt("t", now - 4_000, ExecutionAttemptStatus::Failed, Some("worker"), None),
        attempt("t", now - 3_000, ExecutionAttemptStatus::Timeout, None, None),
        attempt("t", now - 2_000, ExecutionAttemptStatus::Blocked, Some("database"), None),
        attempt("t", now - 1_000, ExecutionAttemptStatus::Succeeded, None, None),
    ];
    let config = ToolReliabilityConfig::default();
    let p = compute_reliability_counts("t", now, &attempts, &vec![], &vec![], None, 0, &config).unwrap();
    assert_eq!(p.transient_failures_recent, 3);
    assert_eq!(p.breaker_state, CircuitBreakerState::Closed);
}

#[test]
fn test_profile_breaker_is_open() {
    let now = ts(1_000);
    assert!(profile_breaker_is_open(CircuitBreakerState::Open, Some(now + 300_000), now));
    assert!(!profile_breaker_is_open(CircuitBreakerState::Open, Some(now), now));
    assert!(profile_breaker_is_open(CircuitBreakerState::Open, None, now));
    assert!(!profile_breaker_is_open(CircuitBreakerState::HalfOpen, None, now));
}

#[test]
fn percentiles_and_transient_classes() {
    let sorted = sort_i64(vec![30, 10, 20, 40]);
    assert_eq!(sorted, vec![10, 20, 30, 40]);
    assert_eq!(percentile(&sorted, 50), Some(30));
    assert_eq!(percentile(&sorted, 95), Some(40));
    assert_eq!(percentile(&[], 50), None);
    for n in 1..500usize {
        let v: Vec<i64> = (0..n as i64).collect();
        let idx = ((n - 1) as f64 * 0.95).round() as usize;
        assert_eq!(percentile(&v, 95), Some(v[idx]));
        let idx = ((n - 1) as f64 * 0.50).round() as usize;
        assert_eq!(percentile(&v, 50), Some(v[idx]));
    }
    assert!(failure_class_weighted_transient(Some("orchestrator")));
    assert!(!failure_class_weighted_transient(Some("safety")));
    assert!(!failure_class_weighted_transient(None));
}

#[test]
fn common_failure_modes_are_counted_and_ranked() {
    let attempts = vec![
        attempt("shell", ts(1), ExecutionAttemptStatus::Failed, Some("tool_timeout"), Some(10)),
        attempt("shell", ts(2), ExecutionAttemptStatus::Failed, Some("tool_execution"), Some(10)),
        attempt("shell", ts(3), ExecutionAttemptStatus::Timeout, None, Some(10)),
        attempt("shell", ts(4), ExecutionAttemptStatus::Failed, Some("tool_timeout"), Some(10)),
        attempt("shell", ts(5), ExecutionAttemptStatus::Succeeded, None, Some(10)),
        attempt("shell", ts(6), ExecutionAttemptStatus::Blocked, Some("policy"), None),
        attempt("shell", ts(7), ExecutionAttemptStatus::Failed, Some("a_class"), None),
        attempt("shell", ts(8), ExecutionAttemptStatus::Failed, Some("z_class"), None),
    ];
    let modes = titanclaw::reliability::common_failure_modes(&attempts);
    assert_eq!(
        modes,
        vec![
            ("tool_timeout".to_string(), 2),
            ("a_class".to_string(), 1),
            ("policy".to_string(), 1),
            ("tool_execution".to_string(), 1),
            ("unknown".to_string(), 1),
        ]
    );
    assert!(titanclaw::reliability::common_failure_modes(&vec![]).is_empty());
}

#[test]
fn profile_counts_never_exceed_samples() {
    let now = ts(10_000);
    let attempts = vec![
        attempt("shell", ts(9_900), ExecutionAttemptStatus::Succeeded, None, None),
        attempt("shell", ts(9_901), ExecutionAttemptStatus::Running, None, None),
        attempt("shell", ts(9_902), ExecutionAttemptStatus::Blocked, None, None),
        attempt("shell", ts(9_903), ExecutionAttemptStatus::Failed, Some("tool_timeout"), None),
        attempt("shell", ts(9_904), ExecutionAttemptStatus::Timeout, None, None),
    ];
    let config = ToolReliabilityConfig::default();
    let p = compute_reliability_counts("shell", now, &attempts, &vec![], &vec![], None, 0, &config).unwrap();
    assert_eq!(p.sample_count, 5);
    assert_eq!((p.success_count, p.failure_count, p.blocked_count, p.timeout_count), (1, 2, 1, 2));
    assert!(p.success_count + p.failure_count + p.blocked_count <= p.sample_count);
    assert!(p.timeout_count <= p.failure_count);
    assert_eq!(p.window_start_ms, now - config.window_ms);
    assert_eq!(p.cooldown_until_ms.is_some(), p.breaker_state == CircuitBreakerState::Open);
}
