use titanclaw::routine::{
    cooldown_elapsed, event_routine_fires, interpret_lightweight_reply, notification_text,
    playbook_candidate_due, runtime_after_run, should_notify, status_icon, truncate, NotifyConfig,
    RunStatus,
};

#[test]
fn test_notification_gating() {
    let config = NotifyConfig { on_success: false, on_failure: true, on_attention: true, ..Default::default() };

    // on_success = false means Ok status should not notify
    assert!(!config.on_success);
    assert!(config.on_failure);
    assert!(config.on_attention);
    assert!(!should_notify(&config, RunStatus::Success));
    assert!(should_notify(&config, RunStatus::Failed));
    assert!(!should_notify(&config, RunStatus::Running));
}

#[test]
fn test_run_status_icons() {
    // Just verify the mapping doesn't panic
    for status in [RunStatus::Success, RunStatus::Attention, RunStatus::Failed, RunStatus::Running] {
        let _ = status.to_string();
        let _ = status_icon(status);
    }
}

#[test]
fn notification_layout() {
    assert_eq!(
        notification_text("cleanup", RunStatus::Failed, Some("disk full")),
        "❌ *Routine 'cleanup'*: failed\n\ndisk full"
    );
    assert_eq!(notification_text("c", RunStatus::Success, None), "✅ *Routine 'c'*: ok");
}

#[test]
fn truncate_cuts_on_char_boundaries() {
    assert_eq!(truncate("hello", 10), "hello");
    assert_eq!(truncate("hello", 3), "hel...");
    // 'é' takes two bytes: it does not fit in the last byte.
    assert_eq!(truncate("aé", 2), "a...");
    assert_eq!(truncate("aé", 3), "aé");
}

#[test]
fn run_bookkeeping() {
    assert!(cooldown_elapsed(None, 0, 300_000));
    assert!(!cooldown_elapsed(Some(1_000), 2_000, 300_000));
    assert!(cooldown_elapsed(Some(1_000), 301_000, 300_000));
    assert_eq!(runtime_after_run(RunStatus::Failed, 4, 2), (5, 3));
    assert_eq!(runtime_after_run(RunStatus::Attention, 4, 2), (5, 0));
    assert!(playbook_candidate_due(RunStatus::Success, 2, 3));
    assert!(!playbook_candidate_due(RunStatus::Attention, 9, 3));
}

#[test]
fn lightweight_replies() {
    assert_eq!(
        interpret_lightweight_reply("  ", true),
        Err("LLM response truncated (finish_reason=length) with no content. Model may have exhausted token budget on reasoning.".to_string())
    );
    assert_eq!(interpret_lightweight_reply("", false), Err("LLM returned empty content.".to_string()));
    assert_eq!(interpret_lightweight_reply("all good ROUTINE_OK", false), Ok((RunStatus::Success, None)));
    assert_eq!(
        interpret_lightweight_reply(" disk at 95% ", false),
        Ok((RunStatus::Attention, Some("disk at 95%".to_string())))
    );
}

#[test]
fn event_routine_filtering() {
    assert!(event_routine_fires(None, "web", "dep(loy|ly)", "please deploy", true, true, 0, 4));
    assert!(!event_routine_fires(Some("cli"), "web", "deploy", "deploy", true, true, 0, 4));
    assert!(!event_routine_fires(None, "web", "(", "deploy", true, true, 0, 4));
    assert!(!event_routine_fires(None, "web", "deploy", "deploy", true, true, 4, 4));
}

#[test]
fn manual_fire_and_concurrency_gates() {
    assert_eq!(
        titanclaw::routine::manual_fire_gate("cleanup", false, true),
        Err("routine 'cleanup' is disabled".to_string())
    );
    assert_eq!(
        titanclaw::routine::manual_fire_gate("cleanup", true, false),
        Err("routine 'cleanup' already at max concurrent runs".to_string())
    );
    assert_eq!(titanclaw::routine::manual_fire_gate("cleanup", true, true), Ok(()));
    assert!(titanclaw::routine::concurrent_ok(0, 1));
    assert!(!titanclaw::routine::concurrent_ok(1, 1));
}
