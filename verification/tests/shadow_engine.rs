use titanclaw::shadow::{normalize, normalize_pattern, parse_predictions, ShadowEngine};

#[test]
fn normalized_keys() {
    assert_eq!(normalize("  How  DO I\tdeploy?\n"), "how do i deploy?");
    assert_eq!(normalize_pattern("Nightly   Cleanup"), "nightly cleanup");
}

#[test]
fn cache_hits_expire_and_prune() {
    let mut e = ShadowEngine::new(true, 100, 0, 5, 0);
    assert!(e.enabled());
    assert_eq!(e.max_parallel(), 1);
    assert_eq!(e.prediction_budget(), 1);
    let key = e.speculation_key("  How do I deploy?  ").unwrap();
    assert_eq!(key, "how do i deploy?");
    e.store(key, "Run the script.".to_string(), 1_000);
    assert_eq!(e.speculation_key("how do i   DEPLOY?"), None);
    assert_eq!(e.try_get("How do I deploy?", 1_050), Some("Run the script.".to_string()));
    // Stale: dropped on lookup.
    assert_eq!(e.try_get("How do I deploy?", 1_200), None);
    assert_eq!(e.try_get("How do I deploy?", 1_050), None);

    e.store("a".to_string(), "x".to_string(), 0);
    e.store("b".to_string(), "y".to_string(), 500);
    e.prune_expired(550);
    assert_eq!(e.try_get("a", 550), None);
    assert_eq!(e.try_get("b", 550), Some("y".to_string()));
    assert!(e.should_speculate("hello"));
    assert!(!e.should_speculate("hey"));
    assert_eq!(e.speculation_key("   "), None);
}

#[test]
fn disabled_engine_never_answers() {
    let mut e = ShadowEngine::new(false, 100, 3, 0, 4);
    e.store("k".to_string(), "v".to_string(), 0);
    assert_eq!(e.try_get("k", 0), None);
    assert!(!e.should_speculate("anything at all"));
    assert_eq!(e.prediction_budget(), 3);
    assert_eq!(e.max_parallel(), 4);
}

#[test]
fn predictions_from_json_or_bullets() {
    assert_eq!(parse_predictions(" [\"a\", \"b\"] "), vec!["a".to_string(), "b".to_string()]);
    assert_eq!(
        parse_predictions("- first\r\n* second\n\n  -- third  \n-"),
        vec!["first".to_string(), "second".to_string(), "third".to_string()]
    );
    assert!(parse_predictions("").is_empty());
}

#[test]
fn reflex_requests_skip_known_tools() {
    let known = vec!["backup".to_string()];
    assert_eq!(titanclaw::shadow::reflex_build_request("backup", &known, "0123456789abcdef"), None);
    assert_eq!(
        titanclaw::shadow::reflex_build_request("Clean temp files", &known, "0123456789abcdef"),
        Some((
            "reflex_01234567".to_string(),
            "A specialized tool to handle: Clean temp files".to_string()
        ))
    );
    assert_eq!(titanclaw::shadow::normalize_pattern("  Clean   TEMP files "), "clean temp files");
}
