use titanclaw::memory::{MemoryType, ProceduralPlaybookStatus};
use titanclaw::retrieval::{
    planner_retrieval, render_prompt_context_block, score_playbook, score_record, select_ranked, truncate_chars,
    Limits, MemoryRetrievalComposer, PlaybookLine, RecordLine, RecordRank, RecordScoreInput,
    RetrievalFocus, RetrievalTaskClass,
};

#[test]
fn infer_task_class_prefers_routine_signals() {
    let class = MemoryRetrievalComposer::infer_task_class(
        Some("maintenance_routine"),
        "Nightly cleanup",
        "Scheduled cron cleanup run",
    );
    assert_eq!(class, RetrievalTaskClass::RoutineAutomation);
}

#[test]
fn task_class_precedence() {
    assert_eq!(
        MemoryRetrievalComposer::infer_task_class(None, "Fix ERROR in build", "rust compile"),
        RetrievalTaskClass::Troubleshooting
    );
    assert_eq!(
        MemoryRetrievalComposer::infer_task_class(Some("Dev"), "Refactor", "module"),
        RetrievalTaskClass::Coding
    );
    assert_eq!(
        MemoryRetrievalComposer::infer_task_class(None, "Hello", "world"),
        RetrievalTaskClass::General
    );
}

fn float_limits(class: RetrievalTaskClass, budget: usize) -> (usize, usize, usize, usize) {
    let base = match class {
        RetrievalTaskClass::Coding => (2, 4, 4, 2),
        RetrievalTaskClass::Troubleshooting => (2, 5, 2, 3),
        RetrievalTaskClass::RoutineAutomation => (2, 4, 2, 4),
        RetrievalTaskClass::Research => (1, 2, 5, 1),
        RetrievalTaskClass::SystemAdmin => (2, 4, 3, 3),
        RetrievalTaskClass::General => (2, 3, 3, 2),
    };
    let budget = budget.clamp(4, 20);
    let total: usize = base.0 + base.1 + base.2 + base.3;
    if total <= budget {
        return base;
    }
    let scale = budget as f32 / total as f32;
    let f = |x: usize| ((x as f32 * scale).round() as usize).max(1);
    (f(base.0), f(base.1), f(base.2), f(base.3))
}

#[test]
fn limits_agree_with_float_scaling_for_every_budget() {
    for class in [
        RetrievalTaskClass::Coding,
        RetrievalTaskClass::Troubleshooting,
        RetrievalTaskClass::Research,
        RetrievalTaskClass::RoutineAutomation,
        RetrievalTaskClass::SystemAdmin,
        RetrievalTaskClass::General,
    ] {
        for budget in 0..30usize {
            let l = Limits::for_task(class, budget);
            assert_eq!((l.working, l.episodic, l.semantic, l.playbooks), float_limits(class, budget));
        }
    }
    let l = Limits::for_task(RetrievalTaskClass::Research, 4);
    assert_eq!((l.working, l.episodic, l.semantic, l.playbooks), (1, 1, 2, 1));
}

#[test]
fn record_and_playbook_scores() {
    let rec = RecordScoreInput {
        goal_id: Some(7),
        plan_id: None,
        job_id: Some(3),
        confidence_tenths: 8,
        category: "routine_run_summary".to_string(),
        title: "Cleanup".to_string(),
        summary: "Routine completed".to_string(),
    };
    let focus = RetrievalFocus {
        goal_id: Some(7),
        plan_id: None,
        job_id: Some(4),
        task_class: RetrievalTaskClass::RoutineAutomation,
    };
    assert_eq!(score_record(&rec, &focus, MemoryType::Episodic), 20 + 8 + 25 + 15);
    assert_eq!(score_record(&rec, &focus, MemoryType::Semantic), 20 + 8 + 25);
    assert_eq!(
        score_playbook(3, 7, ProceduralPlaybookStatus::Active, "Routine_Automation", RetrievalTaskClass::RoutineAutomation),
        15 + 7 + 10 + 25
    );
    assert_eq!(truncate_chars("abcdef", 3), "abc…");
}

fn rank(memory_type: MemoryType, score: i64, at_ms: i64) -> RecordRank {
    RecordRank { memory_type, score, at_ms }
}

#[test]
fn selection_keeps_best_ranked_and_lists_latest_first() {
    let rs = vec![
        rank(MemoryType::Episodic, 10, 100),
        rank(MemoryType::Semantic, 99, 500),
        rank(MemoryType::Episodic, 30, 50),
        rank(MemoryType::Episodic, 30, 70),
        rank(MemoryType::Episodic, 5, 900),
    ];
    let sel = select_ranked(&rs, MemoryType::Episodic, 2, true);
    assert_eq!(sel, vec![3, 2]);
    let ranked = select_ranked(&rs, MemoryType::Episodic, 3, false);
    assert_eq!(ranked, vec![3, 2, 0]);
    let listed = select_ranked(&rs, MemoryType::Episodic, 3, true);
    assert_eq!(listed, vec![0, 3, 2]);
    assert!(select_ranked(&rs, MemoryType::Episodic, 0, true).is_empty());
    let ties = vec![rank(MemoryType::Episodic, 1, 1), rank(MemoryType::Episodic, 1, 1)];
    assert_eq!(select_ranked(&ties, MemoryType::Episodic, 1, true), vec![0]);
}

#[test]
fn prompt_context_lists_playbooks_and_records() {
    let empty: Vec<RecordLine> = vec![];
    assert_eq!(
        render_prompt_context_block(RetrievalTaskClass::General, "q", &empty, &empty, &empty, &vec![]),
        ""
    );
    let episodic = vec![RecordLine {
        category: "routine_run_summary".to_string(),
        title: "Cleanup completed".to_string(),
        summary: "Routine completed successfully".to_string(),
        confidence_text: "0.80".to_string(),
        at_text: "2024-01-02T03:04Z".to_string(),
    }];
    let playbooks = vec![PlaybookLine {
        name: "Routine: cleanup".to_string(),
        task_class: "routine_automation".to_string(),
        success_count: 3,
        confidence_text: "0.90".to_string(),
        status: ProceduralPlaybookStatus::Active,
    }];
    let block = render_prompt_context_block(
        RetrievalTaskClass::RoutineAutomation,
        "Nightly cleanup routine failed yesterday; retry with safe steps",
        &empty,
        &episodic,
        &empty,
        &playbooks,
    );
    assert_eq!(
        block,
        "Memory Retrieval Context (Phase 2, best-effort; verify before high-impact actions)\n\
Task class: RoutineAutomation\n\
Query: Nightly cleanup routine failed yesterday; retry with safe steps\n\
\nProcedural Playbooks:\n\
- Routine: cleanup [routine_automation] success=3 conf=0.90 status=Active\n\
\nEpisodic Memory:\n\
- [routine_run_summary] Cleanup completed :: Routine completed successfully (conf=0.80, at=2024-01-02T03:04Z)\n"
    );
    assert!(block.contains("Procedural Playbooks"));
    assert!(block.contains("Task class: RoutineAutomation"));
    assert!(!block.contains("Working Memory"));
}

#[test]
fn planner_retrieval_prefers_hints_and_job_description() {
    let r = planner_retrieval(
        None,
        "Fix login",
        "stored description",
        Some("  Users cannot log in  "),
        Some(7),
        None,
        Some(1),
        Some(2),
        99,
    );
    assert_eq!(r.focus.task_class, RetrievalTaskClass::Coding);
    assert_eq!(r.focus.goal_id, Some(7));
    assert_eq!(r.focus.plan_id, Some(2));
    assert_eq!(r.focus.job_id, Some(99));
    assert_eq!(r.query, "Fix login\nUsers cannot log in");
    assert_eq!(r.limit_budget, 12);
    let blank = planner_retrieval(Some("maintenance_routine"), "Nightly", "Scheduled cron cleanup", Some("   "), None, None, None, None, 1);
    assert_eq!(blank.focus.task_class, RetrievalTaskClass::RoutineAutomation);
    assert_eq!(blank.query, "Nightly\nScheduled cron cleanup");
}
