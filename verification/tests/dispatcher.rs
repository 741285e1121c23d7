use titanclaw::dispatch::{
    chunk_tool_result_preview, contract_routing_bias, merge_fallback_candidates,
    parse_contract_fallback_tools, parse_profile_fallback_tools, routing_decision,
    detect_auth_awaiting, parse_auth_result, shell_preview_from_args, shell_preview_from_command,
    tool_stream_payload, truncate_preview_chars, ChatToolRoutingDecision, FallbackValue,
    StreamedToolCallState, TOOL_RESULT_CHUNK_CHARS, TOOL_STREAM_EVENT_PREFIX,
};
use titanclaw::error::{Error, ToolError};
use titanclaw::policy::{
    ToolContractSource, ToolContractV2Descriptor, ToolDryRunSupport, ToolIdempotency,
    ToolSideEffectLevel,
};

#[test]
fn test_chunk_tool_result_preview_empty() {
    assert!(chunk_tool_result_preview("").is_empty());
}

#[test]
fn test_chunk_tool_result_preview_small_single_chunk() {
    let result = chunk_tool_result_preview("hello");
    assert_eq!(result.len(), 1);
    assert_eq!(result[0], "hello");
}

#[test]
fn test_chunk_tool_result_preview_large_is_numbered() {
    let input = "x".repeat(TOOL_RESULT_CHUNK_CHARS + 10);
    let result = chunk_tool_result_preview(&input);
    assert!(result.len() >= 2);
    assert!(result[0].starts_with("[1/"));
}

#[test]
fn chunk_preview_exact_numbering_and_cut() {
    let input = "y".repeat(710);
    let result = chunk_tool_result_preview(&input);
    assert_eq!(result, vec![format!("[1/2] {}", "y".repeat(700)), "[2/2] yyyyyyyyyy".to_string()]);
    let big = "z".repeat(9000);
    let result = chunk_tool_result_preview(&big);
    assert_eq!(result.len(), 12);
    assert_eq!(result[11], format!("[12/12] {}…", "z".repeat(700)));
    let exactly = "w".repeat(700);
    assert_eq!(chunk_tool_result_preview(&exactly), vec![exactly.clone()]);
}

#[test]
fn test_shell_preview_from_args() {
    let args = r#"{"command":"echo hello world"}"#;
    let preview = shell_preview_from_args(args).expect("preview");
    assert!(preview.contains("echo hello world"));
}

#[test]
fn shell_preview_edges() {
    assert_eq!(shell_preview_from_command(Some("   ")), None);
    assert_eq!(shell_preview_from_command(None), None);
    let long = "a".repeat(300);
    assert_eq!(
        shell_preview_from_command(Some(&long)).unwrap(),
        format!("{}…", "a".repeat(240))
    );
    assert_eq!(shell_preview_from_args(r#"{"command":"  ls -la  "}"#), Some("ls -la".to_string()));
    assert_eq!(shell_preview_from_args(r#"{"command":7}"#), None);
    assert_eq!(shell_preview_from_args(r#"["command"]"#), None);
    assert_eq!(shell_preview_from_args(r#"{"command":"echo"#), None);
}

fn ok_json(text: &str) -> Result<String, Error> {
    Ok(text.to_string())
}

#[test]
fn test_detect_auth_awaiting_positive() {
    let result = ok_json(
        r#"{"name":"telegram","kind":"WasmTool","awaiting_token":true,"status":"awaiting_token","instructions":"Please provide your Telegram Bot API token."}"#,
    );
    let detected = detect_auth_awaiting("tool_auth", &result);
    assert!(detected.is_some());
    let (name, instructions) = detected.unwrap();
    assert_eq!(name, "telegram");
    assert!(instructions.contains("Telegram Bot API"));
}

#[test]
fn test_detect_auth_awaiting_not_awaiting() {
    let result = ok_json(
        r#"{"name":"telegram","kind":"WasmTool","awaiting_token":false,"status":"authenticated"}"#,
    );
    assert!(detect_auth_awaiting("tool_auth", &result).is_none());
}

#[test]
fn test_detect_auth_awaiting_wrong_tool() {
    let result = ok_json(r#"{"name":"telegram","awaiting_token":true}"#);
    assert!(detect_auth_awaiting("tool_list", &result).is_none());
}

#[test]
fn test_detect_auth_awaiting_error_result() {
    let result: Result<String, Error> =
        Err(Error::Tool(ToolError::NotFound { name: "x".into() }));
    assert!(detect_auth_awaiting("tool_auth", &result).is_none());
}

#[test]
fn test_detect_auth_awaiting_default_instructions() {
    let result = ok_json(r#"{"name":"custom_tool","awaiting_token":true,"status":"awaiting_token"}"#);
    let (_, instructions) = detect_auth_awaiting("tool_auth", &result).unwrap();
    assert_eq!(instructions, "Please provide your API token/key.");
}

#[test]
fn test_detect_auth_awaiting_tool_activate() {
    let result = ok_json(
        r#"{"name":"slack","kind":"McpServer","awaiting_token":true,"status":"awaiting_token","instructions":"Provide your Slack Bot token."}"#,
    );
    let detected = detect_auth_awaiting("tool_activate", &result);
    assert!(detected.is_some());
    let (name, instructions) = detected.unwrap();
    assert_eq!(name, "slack");
    assert!(instructions.contains("Slack Bot"));
}

#[test]
fn test_detect_auth_awaiting_tool_activate_not_awaiting() {
    let result = ok_json(
        r#"{"name":"slack","tools_loaded":["slack_post_message"],"message":"Activated"}"#,
    );
    assert!(detect_auth_awaiting("tool_activate", &result).is_none());
}

#[test]
fn auth_awaiting_needs_string_name_and_object() {
    assert!(detect_auth_awaiting("tool_auth", &ok_json(r#"{"name":3,"awaiting_token":true}"#)).is_none());
    assert!(detect_auth_awaiting("tool_auth", &ok_json("not json")).is_none());
    assert!(detect_auth_awaiting("tool_auth", &ok_json(r#"{"name":"x","awaiting_token":"true"}"#)).is_none());
}

#[test]
fn auth_result_links() {
    let r = parse_auth_result(&ok_json(r#"{"auth_url":"https://a.example/x","setup_url":5}"#));
    assert_eq!(r.auth_url.as_deref(), Some("https://a.example/x"));
    assert_eq!(r.setup_url, None);
    let e: Result<String, Error> = Err(Error::Other("boom".into()));
    let r = parse_auth_result(&e);
    assert!(r.auth_url.is_none() && r.setup_url.is_none());
}

#[test]
fn streamed_tool_call_starts_shell_early_once() {
    let mut s = StreamedToolCallState::new();
    let step = s.apply_tool_call("c1", "shell", r#"{"command":"echo hi"}"#, true);
    assert_eq!(step.draft_preview.as_deref(), Some("[draft] echo hi"));
    assert_eq!(
        step.start_early,
        Some(("c1".to_string(), r#"{"command":"echo hi"}"#.to_string()))
    );
    assert!(s.early_started);
    let again = s.apply_tool_call("c1", "shell", r#"{"command":"echo hi"}"#, true);
    assert!(again.start_early.is_none());
    assert_eq!(again.draft_preview.as_deref(), Some("[draft] echo hi"));

    let mut other = StreamedToolCallState::new();
    let step = other.apply_tool_call("c2", "http", r#"{"command":"x"}"#, true);
    assert!(step.draft_preview.is_none() && step.start_early.is_none());
    let mut off = StreamedToolCallState::new();
    let step = off.apply_tool_call("c3", "shell", r#"{"command":"ls"}"#, false);
    assert!(step.start_early.is_none());
    assert_eq!(step.draft_preview.as_deref(), Some("[draft] ls"));
}

#[test]
fn streamed_deltas_build_arguments_and_dedupe_previews() {
    let mut s = StreamedToolCallState::new();
    let step = s.apply_delta("p1", "name", "shell", true);
    assert!(step.draft_preview.is_none() && step.start_early.is_none());
    let step = s.apply_delta("p1", "arguments", r#"{"command":"#, true);
    assert!(step.draft_preview.is_none() && step.start_early.is_none());
    let step = s.apply_delta("p1", "arguments", r#""ls"}"#, true);
    assert_eq!(step.draft_preview.as_deref(), Some("[draft] ls"));
    assert_eq!(step.start_early, Some(("p1".to_string(), r#"{"command":"ls"}"#.to_string())));
    assert_eq!(s.args_buffer, r#"{"command":"ls"}"#);
    let step = s.apply_delta("p1", "arguments", " ", true);
    assert!(step.draft_preview.is_none());
    assert!(step.start_early.is_none());
}

#[test]
fn test_parse_profile_fallback_tools() {
    let from_array = parse_profile_fallback_tools(&FallbackValue::List(vec![
        Some("shell".to_string()),
        Some(" read_file ".to_string()),
        None,
    ]));
    assert_eq!(from_array, vec!["shell".to_string(), "read_file".to_string()]);

    let from_object = parse_profile_fallback_tools(&FallbackValue::Object {
        tools: None,
        fallback_tools: Some(vec![Some("http".to_string()), Some("memory_search".to_string())]),
        safe_tools: None,
    });
    assert_eq!(from_object, vec!["http".to_string(), "memory_search".to_string()]);
    assert!(parse_profile_fallback_tools(&FallbackValue::Other).is_empty());
}

fn contract(
    name: &str,
    side: ToolSideEffectLevel,
    idem: ToolIdempotency,
    fallbacks: Vec<String>,
) -> ToolContractV2Descriptor {
    ToolContractV2Descriptor {
        tool_name: name.to_string(),
        version: 2,
        domain: "orchestrator".to_string(),
        side_effect_level: side,
        idempotency: idem,
        dry_run_support: ToolDryRunSupport::Simulated,
        requires_approval_default: false,
        timeout_ms_hint: Some(10_000),
        fallback_candidates: fallbacks,
        risk_tags: vec!["read_only".to_string()],
        source: ToolContractSource::Inferred,
    }
}

#[test]
fn test_parse_contract_fallback_tools_and_merge_candidates() {
    let c = contract(
        "shell",
        ToolSideEffectLevel::ReadOnly,
        ToolIdempotency::SafeRetry,
        vec!["read_file".to_string(), "memory_search".to_string(), "read_file".to_string()],
    );
    let contract_fallbacks = parse_contract_fallback_tools(Some(&c));
    assert_eq!(
        contract_fallbacks,
        vec!["read_file".to_string(), "memory_search".to_string(), "read_file".to_string()]
    );
    let merged = merge_fallback_candidates(
        "shell",
        &vec!["http".to_string(), "read_file".to_string()],
        &contract_fallbacks,
    );
    assert_eq!(
        merged,
        vec!["http".to_string(), "read_file".to_string(), "memory_search".to_string()]
    );
    let no_primary = merge_fallback_candidates("shell", &["shell".to_string()], &[]);
    assert!(no_primary.is_empty());
}

#[test]
fn test_contract_routing_bonus_prefers_safer_contracts() {
    let safe = contract("read_file", ToolSideEffectLevel::ReadOnly, ToolIdempotency::SafeRetry, vec![]);
    let risky = contract("payment", ToolSideEffectLevel::Financial, ToolIdempotency::UnsafeRetry, vec![]);
    let (a, b) = contract_routing_bias(Some(&safe));
    assert!(a + b > 0);
    assert_eq!((a, b), (4, 3));
    let (c, d) = contract_routing_bias(Some(&risky));
    assert!(c + d < 0);
    assert_eq!((c, d), (-10, -3));
    assert_eq!(contract_routing_bias(None), (0, 0));
}

#[test]
fn stream_payload_and_previews() {
    let chunk = format!("{}{{\"t\":\"x\"}}", TOOL_STREAM_EVENT_PREFIX);
    assert_eq!(tool_stream_payload(&chunk), Some("{\"t\":\"x\"}".to_string()));
    assert_eq!(tool_stream_payload("plain text"), None);
    assert_eq!(truncate_preview_chars("héllo", 2), "hé…");
    assert_eq!(truncate_preview_chars("hi", 2), "hi");
    let s = StreamedToolCallState::new();
    assert!(s.name.is_none() && s.args_buffer.is_empty() && !s.early_started);
}

#[test]
fn routing_decisions() {
    match routing_decision("shell", true, Some("read_file"), false, false) {
        ChatToolRoutingDecision::Use { tool_name, routed_from, reason_codes } => {
            assert_eq!(tool_name, "read_file");
            assert_eq!(routed_from.as_deref(), Some("shell"));
            assert_eq!(reason_codes, vec!["circuit_breaker_open", "tool_routing_v2_fallback"]);
        }
        other => panic!("unexpected {:?}", other),
    }
    match routing_decision("shell", false, Some("http"), true, true) {
        ChatToolRoutingDecision::Use { reason_codes, .. } => assert_eq!(
            reason_codes,
            vec!["tool_routing_v2_prefer_reliable_fallback", "circuit_breaker_half_open"]
        ),
        other => panic!("unexpected {:?}", other),
    }
    match routing_decision("shell", true, None, false, false) {
        ChatToolRoutingDecision::Deny { reason_codes, detail } => {
            assert_eq!(reason_codes, vec!["circuit_breaker_open"]);
            assert_eq!(detail, "tool 'shell' is temporarily blocked by reliability circuit breaker");
        }
        other => panic!("unexpected {:?}", other),
    }
    match routing_decision("shell", false, Some("http"), false, false) {
        ChatToolRoutingDecision::Use { tool_name, routed_from, reason_codes } => {
            assert_eq!(tool_name, "shell");
            assert!(routed_from.is_none() && reason_codes.is_empty());
        }
        other => panic!("unexpected {:?}", other),
    }
}
