use std::time::Duration;

use titanclaw::kernel::{
    generated_patch_stub, DeployCheck, KernelMonitor, KernelOrchestrator,
    KernelOrchestratorConfig, PatchProposal, PatchStatus, ToolPerfStats, DEFAULT_SPEEDUP_BITS,
};

const MS: u128 = 1_000_000;

#[test]
fn test_record_and_detect_bottleneck() {
    let mut monitor = KernelMonitor::new().with_threshold(100);

    for i in 0..15u128 {
        monitor.record_execution("slow_tool", 500 * MS, true, i);
    }
    for i in 0..15u128 {
        monitor.record_execution("fast_tool", 10 * MS, true, 100 + i);
    }

    let bottlenecks = monitor.detect_bottlenecks();
    assert_eq!(bottlenecks.len(), 1);
    assert_eq!(bottlenecks[0].tool_name, "slow_tool");
}

fn sample_patch(id: u128) -> PatchProposal {
    PatchProposal {
        id,
        tool_name: "slow_tool".to_string(),
        reason: "Avg latency 500ms".to_string(),
        proposed_rust_code: "fn faster() {}".to_string(),
        expected_speedup_bits: 10.0f64.to_bits(),
        status: PatchStatus::PendingApproval,
    }
}

#[test]
fn test_patch_approval_workflow() {
    let mut monitor = KernelMonitor::new();

    let patch = sample_patch(uuid::Uuid::new_v4().as_u128());
    let patch_id = patch.id;

    monitor.propose_patch(patch);
    assert_eq!(monitor.list_pending_patches().len(), 1);

    monitor.approve_patch(patch_id);
    assert_eq!(monitor.list_pending_patches().len(), 0);
    assert_eq!(monitor.get_approved_patches().len(), 1);

    monitor.mark_deployed(patch_id);
    assert_eq!(monitor.get_approved_patches().len(), 0);
}

#[test]
fn too_few_samples_are_not_a_bottleneck() {
    let mut monitor = KernelMonitor::new().with_threshold(100);
    for i in 0..9u128 {
        monitor.record_execution("slow_tool", 500 * MS, true, i);
    }
    assert!(monitor.detect_bottlenecks().is_empty());
    monitor.record_execution("slow_tool", 500 * MS, true, 9);
    assert_eq!(monitor.detect_bottlenecks().len(), 1);
}

#[test]
fn stats_count_failures_and_maxima() {
    let mut monitor = KernelMonitor::new();
    monitor.record_execution("t", 10 * MS, true, 0);
    monitor.record_execution("t", 30 * MS, false, 1);
    monitor.record_execution("t", 20 * MS, true, 2);
    let stats = monitor.compute_stats();
    assert_eq!(stats.len(), 1);
    assert_eq!(stats[0].total_executions, 3);
    assert_eq!(stats[0].total_failures, 1);
    assert_eq!(stats[0].total_duration_nanos, 60 * MS);
    assert_eq!(stats[0].max_duration_nanos, 30 * MS);
    // p95 index of 3 samples is floor(3 * 0.95) = 2, the largest.
    assert_eq!(stats[0].p95_duration_nanos, 30 * MS);
}

#[test]
fn window_keeps_newest_hundred_samples() {
    let mut monitor = KernelMonitor::new();
    for i in 0..120u128 {
        monitor.record_execution("t", i * MS, true, i);
    }
    let stats = monitor.compute_stats();
    assert_eq!(stats[0].total_executions, 100);
    let expected: u128 = (20..120u128).map(|i| i * MS).sum();
    assert_eq!(stats[0].total_duration_nanos, expected);
}

#[test]
fn rejecting_and_failing_patches() {
    let mut monitor = KernelMonitor::new();
    monitor.propose_patch(sample_patch(1));
    monitor.propose_patch(sample_patch(2));
    assert!(monitor.has_open_proposal_for_tool("slow_tool"));
    assert!(monitor.reject_patch(1));
    assert!(monitor.approve_patch(2));
    assert!(monitor.mark_failed(2, "boom".to_string()));
    assert!(!monitor.has_open_proposal_for_tool("slow_tool"));
    assert!(!monitor.approve_patch(3));
    assert_eq!(monitor.get_patch(2).unwrap().status, PatchStatus::Failed("boom".to_string()));
    assert_eq!(monitor.all_patches().len(), 2);
    assert!(monitor.get_patch(7).is_none());
}

fn config(enabled: bool, auto_approve: bool, auto_deploy: bool) -> KernelOrchestratorConfig {
    KernelOrchestratorConfig {
        enabled,
        interval: Duration::from_secs(60),
        auto_approve,
        auto_deploy,
    }
}

#[test]
fn generated_stub_names_the_tool_twice() {
    let stub = generated_patch_stub("slow_tool");
    assert!(stub.contains("log_info(\"kernel patch probe for slow_tool\");"));
    assert!(stub.contains("\"tool\": \"slow_tool\","));
    assert!(stub.starts_with("\nfn run_inner(input_ptr: *const u8, input_len: usize)"));
    assert!(stub.ends_with("}).to_string())\n}\n"));
}

#[test]
fn orchestrator_cycle_proposes_approves_and_deploys() {
    let mut monitor = KernelMonitor::new().with_threshold(100);
    for i in 0..12u128 {
        monitor.record_execution("slow_tool", 500 * MS, true, i);
    }
    let mut orch = KernelOrchestrator::new(config(true, true, true), monitor);
    assert!(orch.enabled());
    assert_eq!(orch.interval(), Duration::from_secs(60));

    let candidates = orch.tick_candidates();
    assert_eq!(candidates.len(), 1);
    let proposal = KernelOrchestrator::make_proposal(&candidates[0], "slow".to_string());
    assert_eq!(proposal.status, PatchStatus::PendingApproval);
    assert_eq!(proposal.expected_speedup_bits, DEFAULT_SPEEDUP_BITS);
    assert_eq!(f64::from_bits(proposal.expected_speedup_bits), 1.15);
    assert_eq!(proposal.proposed_rust_code, generated_patch_stub("slow_tool"));
    let id = proposal.id;

    let to_deploy = orch.tick_apply(vec![proposal]);
    assert_eq!(to_deploy.len(), 1);
    assert_eq!(to_deploy[0].id, id);
    assert!(matches!(orch.check_deployable(id), DeployCheck::Ready(_)));

    // An open proposal stops a second one for the same tool.
    assert!(orch.tick_candidates().is_empty());

    assert!(orch.finish_deploy(id, Ok(())));
    assert_eq!(orch.monitor.get_patch(id).unwrap().status, PatchStatus::Deployed);
    assert!(matches!(
        orch.check_deployable(id),
        DeployCheck::NotApproved(PatchStatus::Deployed)
    ));
    assert!(matches!(orch.check_deployable(id + 1), DeployCheck::NotFound));
}

#[test]
fn disabled_orchestrator_records_nothing() {
    let mut orch = KernelOrchestrator::new(config(false, true, true), KernelMonitor::new());
    orch.record_tool_execution("t", 5 * MS, true, 0);
    assert!(orch.monitor.compute_stats().is_empty());
    assert!(orch.tick_candidates().is_empty());
}

#[test]
fn manual_mode_keeps_proposals_pending() {
    let mut orch = KernelOrchestrator::new(config(true, false, false), KernelMonitor::new());
    let stats = ToolPerfStats {
        tool_name: "t".to_string(),
        total_executions: 10,
        total_failures: 0,
        total_duration_nanos: 0,
        p95_duration_nanos: 0,
        max_duration_nanos: 0,
    };
    let p = KernelOrchestrator::proposal_with_id(&stats, 42, "r".to_string());
    let to_deploy = orch.tick_apply(vec![p]);
    assert!(to_deploy.is_empty());
    assert_eq!(orch.monitor.list_pending_patches().len(), 1);
    assert!(orch.finish_deploy(42, Err("jit failed".to_string())));
    assert_eq!(
        orch.monitor.get_patch(42).unwrap().status,
        PatchStatus::Failed("jit failed".to_string())
    );
}

#[test]
fn candidates_are_distinct_and_slowest_first() {
    let mut monitor = KernelMonitor::new().with_threshold(100);
    for i in 0..12u128 {
        monitor.record_execution("medium_tool", 300 * MS, true, i);
        monitor.record_execution("slowest_tool", 900 * MS, true, 100 + i);
        monitor.record_execution("quick_tool", 5 * MS, true, 200 + i);
    }
    let orch = KernelOrchestrator::new(config(true, false, false), monitor);
    let candidates = orch.tick_candidates();
    let names: Vec<&str> = candidates.iter().map(|c| c.tool_name.as_str()).collect();
    assert_eq!(names, vec!["slowest_tool", "medium_tool"]);
}
