use std::time::Duration;

use titanclaw::consolidation::{
    add_source_id, consolidated_title, plan_for_category, playbook_identity, ConsolidationTally,
    MemoryConsolidator, MemoryConsolidatorConfig,
};
use titanclaw::memory::{ConsolidationAction, ConsolidationRunStatus, MemoryRecordStatus};

#[test]
fn consolidator_settings() {
    let c = MemoryConsolidator::new(MemoryConsolidatorConfig {
        enabled: true,
        interval: Duration::from_secs(3600),
        batch_size: 10,
    });
    assert!(c.enabled());
    assert_eq!(c.interval(), Duration::from_secs(3600));
}

#[test]
fn plans_by_category() {
    let p = plan_for_category("routine_playbook_candidate");
    assert_eq!(p.action, ConsolidationAction::GeneratePlaybook);
    assert!(p.promoted && p.archived);
    let s = plan_for_category("routine_run_summary");
    assert_eq!(s.action, ConsolidationAction::PromoteSemantic);
    assert_eq!(s.new_status, MemoryRecordStatus::Archived);
    let d = plan_for_category("other");
    assert_eq!(d.action, ConsolidationAction::Demote);
    assert_eq!(d.new_status, MemoryRecordStatus::Demoted);
    assert!(!d.promoted && !d.archived);
    assert_eq!(consolidated_title("Routine cleanup ok"), "Consolidated: Routine cleanup ok");
}

#[test]
fn playbook_naming_and_sources() {
    assert_eq!(
        playbook_identity(None, Some("cleanup"), "t"),
        ("Routine: cleanup".to_string(), "routine_automation".to_string())
    );
    assert_eq!(
        playbook_identity(Some("ops"), None, "Title"),
        ("Routine: Title".to_string(), "ops".to_string())
    );
    let mut ids = vec![1u128, 2];
    add_source_id(&mut ids, 2);
    assert_eq!(ids, vec![1, 2]);
    add_source_id(&mut ids, 3);
    assert_eq!(ids, vec![1, 2, 3]);
}

#[test]
fn run_tally_and_status() {
    let mut t = ConsolidationTally::new();
    assert_eq!(t.finish(), (ConsolidationRunStatus::Completed, Some("No pending episodic records".to_string())));
    t.record_success(plan_for_category("routine_playbook_candidate"), true, "c1".to_string());
    t.record_success(plan_for_category("misc"), false, "c2".to_string());
    assert_eq!((t.processed_count, t.promoted_count, t.playbooks_created_count, t.archived_count), (2, 1, 1, 1));
    assert_eq!(t.checkpoint_cursor.as_deref(), Some("c2"));
    assert_eq!(t.finish(), (ConsolidationRunStatus::Completed, None));
    t.record_error();
    assert_eq!(t.finish().0, ConsolidationRunStatus::Partial);
    let mut only_errors = ConsolidationTally::new();
    only_errors.record_error();
    assert_eq!(only_errors.finish(), (ConsolidationRunStatus::Failed, None));
}

#[test]
fn a_run_counts_every_listed_record_once() {
    let mut t = ConsolidationTally::new();
    let candidate = plan_for_category("routine_playbook_candidate");
    let summary = plan_for_category("routine_run_summary");
    let other = plan_for_category("chat_note");
    t.record_success(candidate, true, "c1".to_string());
    t.record_error();
    t.record_success(summary, false, "c2".to_string());
    t.record_success(other, false, "c3".to_string());
    assert_eq!(t.processed_count + t.error_count, 4);
    assert_eq!(t.error_count, 1);
    assert_eq!(t.promoted_count, 2);
    assert_eq!(t.archived_count, t.promoted_count);
    assert_eq!(t.playbooks_created_count, 1);
    assert_eq!(t.checkpoint_cursor.as_deref(), Some("c3"));
    assert_eq!(t.finish(), (ConsolidationRunStatus::Partial, None));
}
