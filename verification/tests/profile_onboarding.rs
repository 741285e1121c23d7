use titanclaw::onboarding::{
    build_doc_sections, completion_message, core_question_ids, defer_message,
    find_question_index, managed_begin_marker, md, offers_onboarding, onboarding_command,
    question_prompt, render_review_summary, render_with_managed_section, status_text,
    truncate_line, AnswerStep, OnboardingCommand, OnboardingMode, ProfileOnboardingManager,
    ProfileOnboardingState, MANAGED_END_MARKER, PATH_USER,
};

#[test]
fn test_render_with_managed_section_insert_replace() {
    let initial = "# Title\n\nManual";
    let path = PATH_USER;
    let a = render_with_managed_section(initial, path, "A").unwrap();
    assert!(a.contains("Manual"));
    assert!(a.contains("A"));
    let b = render_with_managed_section(&a, path, "B").unwrap();
    assert!(b.contains("Manual"));
    assert!(b.contains("B"));
    assert!(!b.contains("\nA\n"));
}

#[test]
fn managed_section_exact_layout() {
    let a = render_with_managed_section("# Title\n\nManual  \n", "USER.md", "  body \n").unwrap();
    let expected = format!(
        "# Title\n\nManual\n\n{}\nbody\n{}",
        managed_begin_marker("USER.md"),
        MANAGED_END_MARKER
    );
    assert_eq!(a, expected);
    let blank = render_with_managed_section(" \n ", "USER.md", "x").unwrap();
    assert_eq!(
        blank,
        format!("{}\nx\n{}", managed_begin_marker("USER.md"), MANAGED_END_MARKER)
    );
}

#[test]
fn managed_section_replacement_keeps_surrounding_text() {
    let begin = managed_begin_marker("SOUL.md");
    let doc = format!("head{}\nold\n{}tail", begin, MANAGED_END_MARKER);
    let out = render_with_managed_section(&doc, "SOUL.md", "new").unwrap();
    assert_eq!(out, format!("head\n{}\nnew\n{}tail", begin, MANAGED_END_MARKER));
}

#[test]
fn managed_section_errors() {
    let begin = managed_begin_marker("USER.md");
    let two_starts = format!("{}\n{}\n{}", begin, begin, MANAGED_END_MARKER);
    assert_eq!(
        render_with_managed_section(&two_starts, "USER.md", "x"),
        Err("Multiple onboarding managed section starts found in USER.md".to_string())
    );
    let no_end = format!("{}\nbody", begin);
    assert_eq!(
        render_with_managed_section(&no_end, "USER.md", "x"),
        Err("Managed onboarding end marker missing in USER.md".to_string())
    );
    let two_ends = format!("{}\n{}", MANAGED_END_MARKER, MANAGED_END_MARKER);
    assert_eq!(
        render_with_managed_section(&two_ends, "USER.md", "x"),
        Err("Multiple onboarding managed section ends found in USER.md".to_string())
    );
}

#[test]
fn prompts_and_small_helpers() {
    assert_eq!(
        question_prompt("primary_goals"),
        "What should I mainly help you with most of the time?"
    );
    assert_eq!(question_prompt("done"), "Tell me anything important I should know.");
    assert_eq!(md(""), "(not provided)");
    assert_eq!(md("x"), "x");
    assert_eq!(truncate_line("abcdef", 3), "abc...");
    assert_eq!(truncate_line("abc", 3), "abc");
    assert_eq!(core_question_ids().len(), 8);
    assert_eq!(core_question_ids()[2], "primary_goals");
    let q = core_question_ids();
    assert_eq!(find_question_index(&q, "  Primary Goals "), Some(2));
    assert_eq!(find_question_index(&q, "tooling_preferences"), Some(7));
    assert_eq!(find_question_index(&q, "nothing"), None);
    assert_eq!(
        defer_message("2030-01-01T00:00:00+00:00"),
        "Profile onboarding deferred until 2030-01-01T00:00:00+00:00.\nUse `/onboard profile` anytime to continue."
    );
}

fn save(step: AnswerStep) -> (ProfileOnboardingState, String) {
    match step {
        AnswerStep::Save(s, m) => (s, m),
        other => panic!("unexpected step {:?}", other),
    }
}

#[test]
fn interview_walks_through_questions_and_followups() {
    let mgr = ProfileOnboardingManager::new();
    assert_eq!(mgr.version, 1);
    let (state, first) = mgr.start(Some("build me a site"), "t0");
    assert!(first.contains("Profile Onboarding 1/8"));
    assert!(first.starts_with("Before we start"));

    let (state, msg) = save(mgr.handle_answer(Some(state), "Ava", "t1").unwrap());
    assert!(msg.contains("Profile Onboarding 2/8"));
    let (state, _) = save(mgr.handle_answer(Some(state), "Sam", "t2").unwrap());
    // A short goal adds the stack follow-up right after it.
    let (state, msg) = save(mgr.handle_answer(Some(state), "coding", "t3").unwrap());
    assert_eq!(state.queue.len(), 9);
    assert_eq!(state.queue[3], "followup_primary_goals_stack");
    assert_eq!(state.followups_used, 1);
    assert!(msg.contains("Profile Onboarding 4/9"));
    assert!(msg.contains("What stack/languages/frameworks"));
    assert_eq!(state.updated_at, "t3");

    let mut st = state;
    for i in 0..6 {
        let (s, _) = save(mgr.handle_answer(Some(st), "a fairly long answer here", "t").unwrap());
        st = s;
        assert_eq!(st.current_index, 4 + i);
    }
    assert_eq!(st.mode, OnboardingMode::Reviewing);
    let summary = render_review_summary(&st);
    assert!(summary.starts_with("Profile Onboarding Review\n\n- Assistant identity: Ava\n"));
    assert!(summary.contains("- Stack/languages: a fairly long answer here\n"));

    let edit = mgr.handle_answer(Some(st), "edit user identity", "t9").unwrap();
    let (st, msg) = save(edit);
    assert_eq!(st.mode, OnboardingMode::Asking);
    assert_eq!(st.current_index, 1);
    assert!(msg.starts_with("Editing `user_identity`."));

    match mgr.handle_answer(Some(st), "defer", "t10").unwrap() {
        AnswerStep::Defer => {}
        other => panic!("unexpected step {:?}", other),
    }
}

#[test]
fn review_mode_replies() {
    let mgr = ProfileOnboardingManager::new();
    let (mut st, _) = mgr.start(None, "t0");
    st.mode = OnboardingMode::Reviewing;
    match mgr.handle_answer(Some(st), "  CONFIRM ", "t1").unwrap() {
        AnswerStep::Confirm(s) => {
            let docs = build_doc_sections("user-1", &s, "2024-01-01 00:00:00 UTC");
            assert_eq!(docs.len(), 5);
            assert_eq!(docs[0].0, "AGENTS.md");
            assert_eq!(docs[3].0, "USER.md");
            assert!(docs[3].1.contains("- User ID: `user-1`\n- What to call them: (not provided)\n"));
            assert!(docs[4].1.starts_with("## Profile Onboarding Snapshot (Managed)\n_Updated: 2024-01-01 00:00:00 UTC_\n\n"));
        }
        other => panic!("unexpected step {:?}", other),
    }
    let (mut st, _) = mgr.start(None, "t0");
    st.mode = OnboardingMode::Reviewing;
    match mgr.handle_answer(Some(st), "what now", "t1").unwrap() {
        AnswerStep::Reply(m) => assert_eq!(
            m,
            "Review mode: reply with `confirm`, `defer`, `skip`, or `edit <question_id>`."
        ),
        other => panic!("unexpected step {:?}", other),
    }
    assert_eq!(
        mgr.handle_answer(None, "x", "t").unwrap_err(),
        "No active profile onboarding session. Use `/onboard profile`."
    );
}

#[test]
fn completion_status_and_commands() {
    let m = completion_message(Some("do the thing"));
    assert!(m.contains("\n\nYour earlier request was paused during onboarding:\n> do the thing"));
    assert_eq!(
        status_text(true, false, false, None),
        "Profile onboarding status:\n- completed: true\n- in_progress: false\n- deferred: false\n- version: 1\n- last_completed_at: never"
    );
    assert_eq!(onboarding_command(&[]), OnboardingCommand::Usage);
    assert_eq!(onboarding_command(&["Profile".to_string()]), OnboardingCommand::Start);
    assert_eq!(
        onboarding_command(&["profile".to_string(), "RESET".to_string()]),
        OnboardingCommand::Reset
    );
    assert_eq!(onboarding_command(&["other".to_string()]), OnboardingCommand::Unknown);
    assert!(offers_onboarding(true, true, true));
    assert!(!offers_onboarding(false, true, false));
    assert!(!offers_onboarding(false, false, true));
    assert!(offers_onboarding(false, false, false));
}

#[test]
fn onboarding_section_rewrite_keeps_surrounding_text() {
    for content in ["", "# Title\n\nManual", "head\n"] {
        let once = render_with_managed_section(content, PATH_USER, "A").unwrap();
        let twice = render_with_managed_section(&once, PATH_USER, "B\n").unwrap();
        assert_eq!(twice, render_with_managed_section(content, PATH_USER, "B").unwrap());
    }
}
