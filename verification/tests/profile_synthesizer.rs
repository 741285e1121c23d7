use titanclaw::synthesis::{
    apply_observations_to_state, build_section, extract_managed_section, extract_observations,
    managed_body_for, normalize_statement_key, parse_llm_section_json, render_with_managed_section,
    should_include, Observation, ProfileState, StatementRecord, SynthesisEvent, SYNTH_END_MARKER,
};

#[test]
fn test_managed_block_insert_and_replace() {
    let path = "USER.md";
    let initial = "# User Context\n\nManual notes.";
    let rendered = render_with_managed_section(initial, path, "## Synth\n- A").unwrap();
    assert!(rendered.contains(SYNTH_END_MARKER));
    assert!(rendered.contains("Manual notes."));

    let replaced = render_with_managed_section(&rendered, path, "## Synth\n- B").unwrap();
    assert!(replaced.contains("- B"));
    assert!(!replaced.contains("- A"));
    assert!(replaced.contains("Manual notes."));
}

#[test]
fn test_extract_observations_basic() {
    let evt = SynthesisEvent {
        user_id: "u".into(),
        thread_id: "t".into(),
        user_input: "Please keep docs synced and don't break onboarding".into(),
        assistant_response: "Implemented the fix.".into(),
        timestamp: "2024-01-01T00:00:00+00:00".into(),
    };
    let obs = extract_observations(&evt);
    assert!(!obs.is_empty());
    assert!(obs.iter().any(|o| o.target_doc == "AGENTS.md"));
}

#[test]
fn extraction_follows_rule_order() {
    let evt = SynthesisEvent {
        user_id: "u".into(),
        thread_id: "t".into(),
        user_input: "  Please keep docs synced and don't break onboarding ".into(),
        assistant_response: "Implemented the fix.".into(),
        timestamp: "ts".into(),
    };
    let obs = extract_observations(&evt);
    let docs: Vec<(&str, &str, u32)> = obs
        .iter()
        .map(|o| (o.target_doc.as_str(), o.category.as_str(), o.confidence))
        .collect();
    assert_eq!(
        docs,
        vec![
            ("USER.md", "user_pref", 90),
            ("MEMORY.md", "product_goal", 75),
            ("AGENTS.md", "operator_rule", 96),
            ("MEMORY.md", "assistant_summary", 55),
        ]
    );
    assert_eq!(obs[0].statement, "Please keep docs synced and don't break onboarding");
    assert_eq!(obs[0].id, "ts:USER.md:Please keep docs synced ");
    assert!(obs[0].explicit);
    assert_eq!(obs[3].id, "ts:assistant:t");
    assert!(!obs[3].explicit);
    assert_eq!(obs[3].statement, "Implemented the fix.");
}

#[test]
fn statement_keys_collapse_case_and_spaces() {
    assert_eq!(normalize_statement_key("USER.md", "  I  Prefer\tRust \n"), "USER.md::i prefer rust");
    assert_eq!(normalize_statement_key("A", ""), "A::");
}

fn obs(doc: &str, statement: &str, confidence: u32, explicit: bool, ts: &str) -> Observation {
    Observation {
        id: String::new(),
        timestamp: ts.to_string(),
        thread_id: "t".to_string(),
        category: "c".to_string(),
        target_doc: doc.to_string(),
        statement: statement.to_string(),
        confidence,
        explicit,
        evidence_excerpt: String::new(),
    }
}

#[test]
fn observations_fold_into_records_and_sections() {
    let mut state = ProfileState { statements: vec![] };
    apply_observations_to_state(
        &mut state,
        &[
            obs("AGENTS.md", "Never  push", 80, false, "t1"),
            obs("AGENTS.md", "never push", 93, true, "t2"),
            obs("AGENTS.md", "Keep docs", 96, true, "t3"),
            obs("MEMORY.md", "fact", 55, false, "t4"),
        ],
    );
    assert_eq!(state.statements.len(), 3);
    let first = &state.statements[0];
    assert_eq!(first.key, "AGENTS.md::never push");
    assert_eq!(first.count, 2);
    assert_eq!(first.confidence, 93);
    assert!(first.explicit);
    assert_eq!(first.last_seen, "t2");
    assert_eq!(first.statement, "Never  push");
    assert!(should_include(first));
    assert!(!should_include(&state.statements[2]));

    let agents = build_section(&state, "AGENTS.md", "2024-01-01 00:00:00").unwrap();
    assert_eq!(
        agents,
        "## Synthesized Profile (Managed)\n_Updated: 2024-01-01 00:00:00 UTC_\n\n- Keep docs _(confidence 0.96, seen 1x)_\n- Never  push _(confidence 0.93, seen 2x)_"
    );
    assert!(build_section(&state, "MEMORY.md", "x").is_none());
}

#[test]
fn include_rules_per_document() {
    let rec = |doc: &str, confidence: u32, count: u32, explicit: bool| StatementRecord {
        key: String::new(),
        target_doc: doc.to_string(),
        category: String::new(),
        statement: String::new(),
        count,
        confidence,
        explicit,
        last_seen: String::new(),
    };
    assert!(should_include(&rec("AGENTS.md", 50, 2, true)));
    assert!(!should_include(&rec("AGENTS.md", 95, 5, false)));
    assert!(should_include(&rec("SOUL.md", 80, 1, true)));
    assert!(!should_include(&rec("SOUL.md", 79, 3, true)));
    assert!(should_include(&rec("IDENTITY.md", 70, 1, false)));
    assert!(!should_include(&rec("USER.md", 74, 1, true)));
    assert!(should_include(&rec("MEMORY.md", 60, 1, false)));
    assert!(!should_include(&rec("OTHER.md", 100, 9, true)));
}

#[test]
fn extract_section_body_and_errors() {
    let rendered = render_with_managed_section("x", "SOUL.md", "  body  ").unwrap();
    assert_eq!(extract_managed_section(&rendered, "SOUL.md").unwrap(), "body");
    assert_eq!(extract_managed_section("plain", "SOUL.md").unwrap(), "");
    let broken = rendered.replace(SYNTH_END_MARKER, "");
    assert_eq!(
        extract_managed_section(&broken, "SOUL.md"),
        Err("Managed section start found but end marker missing in SOUL.md".to_string())
    );
    let doubled = format!("{}\n{}", rendered, rendered);
    assert_eq!(
        render_with_managed_section(&doubled, "SOUL.md", "y"),
        Err("Multiple managed section starts found in SOUL.md".to_string())
    );
}

#[test]
fn llm_sections_and_fallbacks() {
    let mut v = parse_llm_section_json("noise {\"USER.md\": \"hi\"} trailing").unwrap();
    v.sort();
    assert_eq!(v, vec![("USER.md".to_string(), "hi".to_string())]);
    assert_eq!(
        parse_llm_section_json("no json here"),
        Err("No JSON object found in LLM response".to_string())
    );
    assert_eq!(
        parse_llm_section_json("{ open only"),
        Err("No JSON object end found in LLM response".to_string())
    );
    assert_eq!(managed_body_for(Some("det".to_string()), Some("  ")), "det");
    assert_eq!(managed_body_for(Some("det".to_string()), Some("llm")), "llm");
    assert_eq!(managed_body_for(None, None), "_No synthesized updates yet._");
}

#[test]
fn llm_sections_adjacent_inverted_braces_give_the_empty_span_error() {
    let r = parse_llm_section_json("}{");
    let e = r.unwrap_err();
    assert!(e.contains("EOF"), "{e}");
}

#[test]
fn managed_section_reads_back_and_rewrites() {
    let path = "USER.md";
    for content in ["", "# User Context\n\nManual notes.\n\n", "Intro\nmore text"] {
        let once = render_with_managed_section(content, path, "  ## Synth\n- A \n").unwrap();
        assert_eq!(extract_managed_section(&once, path).unwrap(), "## Synth\n- A");
        let twice = render_with_managed_section(&once, path, "- B").unwrap();
        assert_eq!(twice, render_with_managed_section(content, path, "- B").unwrap());
        assert_eq!(extract_managed_section(&twice, path).unwrap(), "- B");
    }
}
