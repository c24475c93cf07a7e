//! Executors, identity, configuration and the smaller decision helpers.

use oneclaw_node::config::{
    apply_env_overrides, default_port, trim_chars, ArtifactsConfig, ChannelsConfig,
    ControlPlaneConfig, DiscordChannelConfig, ExecutorsConfig, HttpChannelConfig, HttpConfig,
    IdentityConfig, LlmConfig, LoggingConfig, MemoryConfig, Node, NodeConfig, SecurityConfig,
    StoreConfig,
};
use oneclaw_node::receipt::config_snapshot_hash;
use oneclaw_node::executor::{
    gmail_plan, gmail_outcome, harness_outcome, harness_plan, host_allowed, http_plan,
    http_verb_of, transport_error, ExecutorKind, ExecutorResult, GmailPlan, HarnessPlan, HttpPlan,
    HttpVerb, Registry,
};
use oneclaw_node::heartbeat::{heartbeat_verdict, is_effectively_empty, HeartbeatVerdict};
use oneclaw_node::identity::{generate_link_code, parse_link_code, resolve_decision, ResolveDecision};
use oneclaw_node::json::Json;
use oneclaw_node::json_text::to_text;
use oneclaw_node::llm::{
    extract_assistant_content, llm_prepare, swap_model, LlmAction, LlmSession,
};
use oneclaw_node::conversation::{build_llm_messages, conversation_stats, messages_to_llm_format};
use oneclaw_node::daemon::{extract_content, format_tools, llm_timeout_secs};
use oneclaw_node::integration::{generate_oauth_url, get_integrations_list};
use oneclaw_node::monitor::{classify_log_line, MonitorAction, MonitorConfig};
use oneclaw_node::oauth_config::validate_oauth_credentials;
use oneclaw_node::receipt::{receipt_text, DebugInfo, StepReceipt, WorkflowReceipt};
use oneclaw_node::runner::fresh_run_id;
use oneclaw_node::agent_os::AgentOS;
use oneclaw_node::channels::{clean_content, should_respond, ChannelType};
use oneclaw_node::heartbeat::{build_heartbeat_prompt, heartbeat_config_from_env};
use oneclaw_node::identity::link_decision;
use oneclaw_node::store::{store_type_of, StoreType};

fn obj(fields: Vec<(&str, Json)>) -> Json {
    Json::Obj(fields.into_iter().map(|(k, v)| (k.to_string(), v)).collect())
}

fn jstr(s: &str) -> Json {
    Json::Str(s.to_string())
}

fn http_config(domains: Vec<&str>) -> HttpConfig {
    HttpConfig { allowed_domains: domains.into_iter().map(|s| s.to_string()).collect() }
}

#[test]
fn test_link_code_format() {
    // Link codes should be parseable
    let code = "LINK-USER_ABC1-XYZ12345";
    assert!(code.starts_with("LINK-"));
}

#[test]
fn link_codes_round_through_parsing() {
    let code = generate_link_code("user_abcdefgh");
    assert!(code.starts_with("LINK-user_abc"));
    assert_eq!(code.len(), 22);
    assert_eq!(
        parse_link_code("LINK-USER_ABC1-XYZ12345").unwrap(),
        "user_user_abc1"
    );
    assert!(parse_link_code("NOPE-USER_ABC1-XYZ12345").is_none());
    assert!(parse_link_code("LINK-TOO-MANY-PARTS").is_none());
}

#[test]
fn resolve_decisions() {
    match resolve_decision(Some("user_1".to_string()), true) {
        ResolveDecision::Found { user_id } => assert_eq!(user_id, "user_1"),
        _ => panic!("expected the existing user"),
    }
    match resolve_decision(None, true) {
        ResolveDecision::CreateAndLink { user_id } => {
            assert!(user_id.starts_with("user_"));
            assert_eq!(user_id.len(), 17);
        }
        _ => panic!("expected auto-creation"),
    }
    match resolve_decision(None, false) {
        ResolveDecision::Refuse { error } => {
            assert_eq!(error, "Identity not found and auto_create is disabled")
        }
        _ => panic!("expected a refusal"),
    }
}

#[test]
fn heartbeat_emptiness_and_verdicts() {
    assert!(is_effectively_empty(""));
    assert!(is_effectively_empty("# Title\n\n## Section\n   \n"));
    assert!(!is_effectively_empty("# Title\ncheck the backups"));
    assert!(matches!(heartbeat_verdict("HEARTBEAT_OK"), HeartbeatVerdict::Quiet));
    assert!(matches!(
        heartbeat_verdict("  HEARTBEAT_OK all fine  "),
        HeartbeatVerdict::Quiet
    ));
    match heartbeat_verdict("disk almost full") {
        HeartbeatVerdict::Alert { message } => assert_eq!(message, "disk almost full"),
        _ => panic!("expected an alert"),
    }
}

#[test]
fn domain_patterns() {
    let wild = http_config(vec!["*"]);
    assert!(host_allowed(&wild, "anything.example"));
    let exact = http_config(vec!["api.example.com"]);
    assert!(host_allowed(&exact, "api.example.com"));
    assert!(!host_allowed(&exact, "example.com"));
    let suffix = http_config(vec!["*.example.com"]);
    assert!(host_allowed(&suffix, "api.example.com"));
    assert!(host_allowed(&suffix, "deep.api.example.com"));
    assert!(!host_allowed(&suffix, "example.org"));
    assert!(!host_allowed(&suffix, "example.com"));
}

#[test]
fn registry_knows_its_executors() {
    let registry = Registry::load("http://localhost:9000".to_string());
    assert!(matches!(registry.get("http.request"), Some(ExecutorKind::HttpRequest)));
    assert!(matches!(registry.get("llm.chat"), Some(ExecutorKind::LlmChat)));
    assert!(registry.get("shell.exec").is_none());
    let manifests = registry.list();
    assert_eq!(manifests.len(), 4);
    assert_eq!(manifests[0].id, "http.request");
    assert_eq!(manifests[0].version, "0.1.0");
}

#[test]
fn llm_prepare_validates_and_shapes() {
    let llm = LlmConfig {
        provider: "anthropic".to_string(),
        api_key_env: "ANTHROPIC_API_KEY".to_string(),
        model: "m-large".to_string(),
    };
    let no_messages = obj(vec![]);
    match llm_prepare(&no_messages, &llm, Some("k".to_string())) {
        Err(e) => assert_eq!(e, "messages required"),
        Ok(_) => panic!("expected a refusal"),
    }
    let input = obj(vec![("messages", Json::Arr(vec![]))]);
    match llm_prepare(&input, &llm, None) {
        Err(e) => assert_eq!(e, "API key not found in env: ANTHROPIC_API_KEY"),
        Ok(_) => panic!("expected a refusal"),
    }
    let req = match llm_prepare(&input, &llm, Some("sekrit".to_string())) {
        Ok(r) => r,
        Err(e) => panic!("unexpected refusal: {}", e),
    };
    assert_eq!(req.url, "https://api.anthropic.com/v1/messages");
    assert!(req.anthropic_auth);
    assert_eq!(req.auth_header, "sekrit");
    assert_eq!(
        to_text(&req.body),
        "{\"model\":\"m-large\",\"messages\":[],\"max_tokens\":4096}"
    );
    let odd = LlmConfig {
        provider: "mystery".to_string(),
        api_key_env: "K".to_string(),
        model: "m".to_string(),
    };
    match llm_prepare(&input, &odd, Some("k".to_string())) {
        Err(e) => assert_eq!(e, "Unknown provider: mystery"),
        Ok(_) => panic!("expected a refusal"),
    }
}

#[test]
fn llm_session_retries_then_reports_attempts() {
    let mut session = LlmSession::new("openai".to_string(), "gpt-test".to_string(), None);
    match session.on_response(503, "overloaded", 1) {
        LlmAction::Retry { delay_ms } => assert_eq!(delay_ms, 400),
        _ => panic!("expected a retry"),
    }
    match session.on_response(503, "overloaded", 2) {
        LlmAction::Retry { delay_ms } => assert_eq!(delay_ms, 800),
        _ => panic!("expected a second retry"),
    }
    match session.on_response(503, "overloaded", 3) {
        LlmAction::Finish { result } => match result {
            ExecutorResult::Error { error } => {
                assert_eq!(error, "LLM API error 503 after 3 attempts: overloaded")
            }
            _ => panic!("expected an error result"),
        },
        _ => panic!("expected the session to give up"),
    }
}

#[test]
fn llm_session_switches_to_fallback_once() {
    let mut session = LlmSession::new(
        "openai".to_string(),
        "gpt-main".to_string(),
        Some("gpt-backup".to_string()),
    );
    assert!(matches!(session.on_response(500, "", 1), LlmAction::Retry { .. }));
    assert!(matches!(session.on_response(500, "", 2), LlmAction::Retry { .. }));
    match session.on_response(500, "", 3) {
        LlmAction::Fallback { model } => assert_eq!(model, "gpt-backup"),
        _ => panic!("expected the fallback"),
    }
    let body = obj(vec![("model", jstr("gpt-main")), ("messages", Json::Arr(vec![]))]);
    let swapped = swap_model(body, "gpt-backup");
    assert_eq!(
        to_text(&swapped),
        "{\"model\":\"gpt-backup\",\"messages\":[]}"
    );
    match session.on_response(502, "still down", 4) {
        LlmAction::Finish { result } => match result {
            ExecutorResult::Error { error } => {
                assert_eq!(error, "LLM API error 502 (fallback model gpt-backup): still down")
            }
            _ => panic!("expected an error result"),
        },
        _ => panic!("expected the session to give up after the fallback"),
    }
}

#[test]
fn llm_session_success_extracts_content() {
    let mut session = LlmSession::new("openai".to_string(), "gpt-test".to_string(), None);
    let body = "{\"choices\": [{\"message\": {\"content\": \"hello there\"}}]}";
    match session.on_response(200, body, 42) {
        LlmAction::Finish { result } => match result {
            ExecutorResult::Executed { output, duration_ms } => {
                assert_eq!(duration_ms, 42);
                assert_eq!(to_text(output.get("content").unwrap()), "\"hello there\"");
                assert_eq!(to_text(output.get("model").unwrap()), "\"gpt-test\"");
                assert_eq!(to_text(output.get("provider").unwrap()), "\"openai\"");
                assert!(output.get("raw").is_some());
            }
            _ => panic!("expected an executed result"),
        },
        _ => panic!("expected the session to finish"),
    }
}

#[test]
fn extraction_cascade() {
    let anthropic = obj(vec![(
        "content",
        Json::Arr(vec![obj(vec![("text", jstr("first"))]), obj(vec![("text", jstr("second"))])]),
    )]);
    assert_eq!(extract_assistant_content(&anthropic, "anthropic"), "first\nsecond");
    let openai = obj(vec![(
        "choices",
        Json::Arr(vec![obj(vec![("message", obj(vec![("content", jstr("reply"))]))])]),
    )]);
    assert_eq!(extract_assistant_content(&openai, "openai"), "reply");
    let named = obj(vec![("answer", jstr("42"))]);
    assert_eq!(extract_assistant_content(&named, "openai"), "42");
    let deep = obj(vec![(
        "odd",
        obj(vec![("nested", Json::Arr(vec![jstr("short"), jstr("a much longer string here")]))]),
    )]);
    assert_eq!(
        extract_assistant_content(&deep, "openai"),
        "a much longer string here"
    );
    let nothing = obj(vec![("n", Json::Int(5))]);
    assert_eq!(extract_assistant_content(&nothing, "openai"), "");
}

#[test]
fn harness_plans_and_outcomes() {
    let missing = obj(vec![]);
    match harness_plan(&missing, "http://h:9000") {
        HarnessPlan::Invalid { error } => assert_eq!(error, "executor required"),
        _ => panic!("expected a refusal"),
    }
    let input = obj(vec![("executor", jstr("browse.web")), ("params", obj(vec![("q", jstr("x"))]))]);
    match harness_plan(&input, "http://h:9000") {
        HarnessPlan::Request { url, payload } => {
            assert_eq!(url, "http://h:9000/execute");
            assert_eq!(
                to_text(&payload),
                "{\"workflowId\":\"browse.web\",\"input\":{\"q\":\"x\"},\"tenantId\":\"default\",\"tier\":\"pro\"}"
            );
        }
        _ => panic!("expected a request"),
    }
    match harness_outcome(500, "boom".to_string(), 1) {
        ExecutorResult::Error { error } => assert_eq!(error, "Harness error 500: boom"),
        _ => panic!("expected an error"),
    }
    match harness_outcome(200, "{\"error\": \"remote failed\"}".to_string(), 1) {
        ExecutorResult::Error { error } => assert_eq!(error, "remote failed"),
        _ => panic!("expected the in-band error"),
    }
    match harness_outcome(200, "{\"ok\": true}".to_string(), 9) {
        ExecutorResult::Executed { output, duration_ms } => {
            assert_eq!(duration_ms, 9);
            assert_eq!(to_text(&output), "{\"ok\":true}");
        }
        _ => panic!("expected success"),
    }
    match harness_outcome(200, "not json".to_string(), 9) {
        ExecutorResult::Executed { output, .. } => {
            assert_eq!(to_text(&output), "{\"raw\":\"not json\"}")
        }
        _ => panic!("expected the raw wrapper"),
    }
}

#[test]
fn gmail_plans_and_outcomes() {
    let cp = oneclaw_node::config::ControlPlaneConfig {
        url: Some("http://cp:3000".to_string()),
        token: None,
    };
    let missing = obj(vec![("to", jstr("a@b.c"))]);
    match gmail_plan(&missing, &cp) {
        GmailPlan::Invalid { error } => assert_eq!(error, "user_id required"),
        _ => panic!("expected a refusal"),
    }
    let input = obj(vec![
        ("user_id", jstr("u1")),
        ("to", jstr("a@b.c")),
        ("body", jstr("hello")),
    ]);
    let unconfigured = oneclaw_node::config::ControlPlaneConfig { url: None, token: None };
    match gmail_plan(&input, &unconfigured) {
        GmailPlan::Invalid { error } => assert_eq!(error, "control_plane.url not configured"),
        _ => panic!("expected a refusal"),
    }
    match gmail_plan(&input, &cp) {
        GmailPlan::Request { url, payload, to, subject } => {
            assert_eq!(url, "http://cp:3000/api/v1/oauth/google/send");
            assert_eq!(to, "a@b.c");
            assert_eq!(subject, "(No Subject)");
            assert_eq!(
                to_text(&payload),
                "{\"user_id\":\"u1\",\"to\":\"a@b.c\",\"subject\":\"(No Subject)\",\"body\":\"hello\"}"
            );
        }
        _ => panic!("expected a request"),
    }
    match gmail_outcome(
        200,
        "{\"gmail_message_id\": \"m-9\"}".to_string(),
        "a@b.c".to_string(),
        "(No Subject)".to_string(),
        3,
    ) {
        ExecutorResult::Executed { output, .. } => {
            assert_eq!(to_text(output.get("success").unwrap()), "true");
            assert_eq!(to_text(output.get("gmail_message_id").unwrap()), "\"m-9\"");
            assert_eq!(to_text(output.get("sent_at").unwrap()), "null");
        }
        _ => panic!("expected success"),
    }
    match gmail_outcome(403, "nope".to_string(), "a".to_string(), "s".to_string(), 3) {
        ExecutorResult::Error { error } => assert_eq!(error, "Gmail API error 403: nope"),
        _ => panic!("expected an error"),
    }
}

#[test]
fn transport_errors_carry_their_message() {
    match transport_error("connection refused".to_string()) {
        ExecutorResult::Error { error } => assert_eq!(error, "connection refused"),
        _ => panic!("expected an error"),
    }
}

#[test]
fn env_overrides_follow_precedence() {
    let base = LlmConfig {
        provider: "anthropic".to_string(),
        api_key_env: "CUSTOM_KEY".to_string(),
        model: "m-base".to_string(),
    };
    let r = apply_env_overrides(base, Some("openai".to_string()), None, None, None, None, None);
    assert_eq!(r.provider, "openai");
    assert_eq!(r.api_key_env, "OPENAI_API_KEY");
    assert_eq!(r.model, "m-base");
    let base2 = LlmConfig {
        provider: "openai".to_string(),
        api_key_env: "OPENAI_API_KEY".to_string(),
        model: "gpt-base".to_string(),
    };
    let r2 = apply_env_overrides(
        base2,
        None,
        Some("MY_KEY".to_string()),
        Some("  gpt-override  ".to_string()),
        None,
        None,
        Some("gpt-provider-specific".to_string()),
    );
    assert_eq!(r2.api_key_env, "MY_KEY");
    assert_eq!(r2.model, "gpt-override");
    let base3 = LlmConfig {
        provider: "openai".to_string(),
        api_key_env: "OPENAI_API_KEY".to_string(),
        model: "gpt-base".to_string(),
    };
    let r3 = apply_env_overrides(base3, None, None, None, None, None, Some("gpt-next".to_string()));
    assert_eq!(r3.model, "gpt-next");
}

#[test]
fn trimming_removes_unicode_whitespace() {
    assert_eq!(trim_chars("  hello \t\n"), "hello");
    assert_eq!(trim_chars("   "), "");
    assert_eq!(trim_chars(""), "");
    assert_eq!(trim_chars("solid"), "solid");
    assert_eq!(trim_chars("\u{a0}\u{2003}wide\u{3000}"), "wide");
    assert_eq!(trim_chars("\u{2028}\u{85}"), "");
}

#[test]
fn config_digest_is_a_real_hash() {
    let a = engine_test_config("one");
    let b = engine_test_config("two");
    let da = config_snapshot_hash(&a);
    assert_eq!(da.len(), 32);
    assert!(da.chars().all(|c| c.is_ascii_hexdigit()));
    assert_ne!(da, config_snapshot_hash(&b));
    assert_eq!(da, config_snapshot_hash(&engine_test_config("one")));
}

fn engine_test_config(node_id: &str) -> NodeConfig {
    NodeConfig {
        node: Node {
            id: node_id.to_string(),
            name: "n".to_string(),
            environment: "private".to_string(),
        },
        llm: LlmConfig {
            provider: "openai".to_string(),
            api_key_env: "OPENAI_API_KEY".to_string(),
            model: "m".to_string(),
        },
        security: SecurityConfig { mode: "strict".to_string(), allowed_executors: vec![] },
        http: HttpConfig { allowed_domains: vec![] },
        executors: ExecutorsConfig { enabled: vec![] },
        memory: MemoryConfig { session_max_messages: 1, preferences_path: "p".to_string() },
        artifacts: ArtifactsConfig { storage: "local".to_string(), path: "a".to_string() },
        logging: LoggingConfig { level: "info".to_string(), path: "l".to_string() },
        control_plane: ControlPlaneConfig { url: None, token: None },
        channels: ChannelsConfig::default(),
        store: StoreConfig::default(),
        identity: IdentityConfig::default(),
    }
}

#[test]
fn oauth_credentials_are_shape_checked() {
    assert_eq!(
        validate_oauth_credentials("bad", "GOCSPX-x").unwrap(),
        "Invalid client ID format"
    );
    assert_eq!(
        validate_oauth_credentials("app.apps.googleusercontent.com", "nope").unwrap(),
        "Invalid client secret format"
    );
    assert!(validate_oauth_credentials("app.apps.googleusercontent.com", "GOCSPX-x").is_none());
}

#[test]
fn monitor_log_classification() {
    let config = MonitorConfig::default();
    match classify_log_line("HTTP 429 from upstream", "http 429 from upstream", 0, &config) {
        Some(MonitorAction::Retry { delay_ms, .. }) => assert_eq!(delay_ms, 5_000),
        _ => panic!("expected a backoff"),
    }
    match classify_log_line("HTTP 429 from upstream", "http 429 from upstream", 3, &config) {
        Some(MonitorAction::SwitchMethod { new_method, .. }) => {
            assert_eq!(new_method, "sequential")
        }
        _ => panic!("expected a method switch"),
    }
    match classify_log_line("request Blocked", "request blocked", 0, &config) {
        Some(MonitorAction::SwitchMethod { new_method, .. }) => assert_eq!(new_method, "stealth"),
        _ => panic!("expected stealth"),
    }
    match classify_log_line("CAPTCHA ahead", "captcha ahead", 0, &config) {
        Some(MonitorAction::Abort { .. }) => {}
        _ => panic!("expected an abort"),
    }
    assert!(classify_log_line("all good", "all good", 0, &config).is_none());
}

#[test]
fn integrations_catalog_and_oauth_url() {
    let list = get_integrations_list(true, Some("ada@example.com".to_string()), None);
    assert_eq!(list.len(), 3);
    assert_eq!(list[0].id, "gmail");
    assert!(list[0].connected);
    assert!(!list[1].connected);
    assert_eq!(
        generate_oauth_url("gmail", "u1", "http://cp:3000").unwrap(),
        "http://cp:3000/oauth/google?user=u1&source=node"
    );
    assert!(generate_oauth_url("slack", "u1", "http://cp:3000").is_none());
}

#[test]
fn daemon_helpers() {
    assert_eq!(llm_timeout_secs(None), 65);
    assert_eq!(llm_timeout_secs(Some(2)), 65);
    assert_eq!(llm_timeout_secs(Some(120)), 120);
    assert_eq!(format_tools(&vec![]), "No tools available.");
    assert_eq!(
        format_tools(&vec![("a.b".to_string(), "does things".to_string())]),
        "- a.b: does things\n"
    );
    match transport_error("x".to_string()) {
        e @ ExecutorResult::Error { .. } => {
            assert_eq!(extract_content(&e), "Error: x")
        }
        _ => unreachable!(),
    }
    let executed = ExecutorResult::Executed {
        output: obj(vec![("content", jstr("hi"))]),
        duration_ms: 1,
    };
    assert_eq!(extract_content(&executed), "hi");
}

#[test]
fn receipt_document_shape() {
    let receipt = WorkflowReceipt {
        run_id: "r1".to_string(),
        workflow_id: "wf".to_string(),
        node_id: "n1".to_string(),
        started_at: "t0".to_string(),
        completed_at: "t1".to_string(),
        status: "success".to_string(),
        mode: "private".to_string(),
        steps: vec![StepReceipt {
            step_id: "s1".to_string(),
            executor: "http.request".to_string(),
            status: "executed".to_string(),
            request: Json::Null,
            response: obj(vec![("status", Json::Int(200))]),
            denial_reason: None,
            error: None,
            duration_ms: 7,
        }],
        inputs: obj(vec![]),
        outputs: Json::Null,
        debug: DebugInfo {
            config_snapshot: "d41d8cd98f00b204e9800998ecf8427e".to_string(),
            executor_versions: vec![("http.request".to_string(), "0.1.0".to_string())],
            total_duration_ms: 7,
        },
    };
    let text = receipt_text(&receipt);
    assert_eq!(
        text,
        "{\"run_id\":\"r1\",\"workflow_id\":\"wf\",\"node_id\":\"n1\",\"started_at\":\"t0\",\"completed_at\":\"t1\",\"status\":\"success\",\"mode\":\"private\",\"steps\":[{\"step_id\":\"s1\",\"executor\":\"http.request\",\"status\":\"executed\",\"request\":null,\"response\":{\"status\":200},\"denial_reason\":null,\"error\":null,\"duration_ms\":7}],\"inputs\":{},\"outputs\":null,\"debug\":{\"config_snapshot\":\"d41d8cd98f00b204e9800998ecf8427e\",\"executor_versions\":{\"http.request\":\"0.1.0\"},\"total_duration_ms\":7}}"
    );
}

#[test]
fn run_ids_are_url_safe() {
    let id = fresh_run_id();
    assert_eq!(id.len(), 21);
    assert!(id.chars().all(|c| c.is_ascii_alphanumeric() || c == '_' || c == '-'));
    assert_ne!(fresh_run_id(), fresh_run_id());
}

#[test]
fn conversation_stats_count_and_dedup() {
    let history = vec![
        ("user".to_string(), "http".to_string()),
        ("assistant".to_string(), "http".to_string()),
        ("user".to_string(), "discord".to_string()),
        ("tool".to_string(), "http".to_string()),
    ];
    let stats = conversation_stats(&history);
    assert_eq!(stats.total_messages, 4);
    assert_eq!(stats.user_messages, 2);
    assert_eq!(stats.assistant_messages, 1);
    assert_eq!(stats.tool_messages, 1);
    assert_eq!(stats.channels_used, vec!["http".to_string(), "discord".to_string()]);
}

#[test]
fn url_hosts_drive_the_domain_gate() {
    let cfg = http_config(vec!["x"]);
    let input = obj(vec![("url", jstr("https://x/path"))]);
    assert!(matches!(http_plan(&input, &cfg), HttpPlan::Request { .. }));
    let other = obj(vec![("url", jstr("https://y/path"))]);
    assert!(matches!(http_plan(&other, &cfg), HttpPlan::Denied { .. }));
    let unparsable = obj(vec![("url", jstr("not a url"))]);
    match http_plan(&unparsable, &cfg) {
        HttpPlan::Request { url, .. } => assert_eq!(url, "not a url"),
        _ => panic!("an unparsable URL skips the domain check"),
    }
}

#[test]
fn llm_session_transport_failures_retry_then_give_up() {
    let mut session = LlmSession::new("openai".to_string(), "gpt-test".to_string(), None);
    assert!(matches!(
        session.on_transport_failure("connection refused"),
        LlmAction::Retry { delay_ms: 400 }
    ));
    assert!(matches!(
        session.on_transport_failure("connection refused"),
        LlmAction::Retry { delay_ms: 800 }
    ));
    match session.on_transport_failure("connection refused") {
        LlmAction::Finish { result } => match result {
            ExecutorResult::Error { error } => {
                assert_eq!(error, "LLM request failed on attempt 3: connection refused")
            }
            _ => panic!("expected an error result"),
        },
        _ => panic!("expected the session to give up"),
    }
}

#[test]
fn channel_names_and_store_kinds() {
    assert_eq!(ChannelType::Discord.name(), "discord");
    assert_eq!(ChannelType::Http.name(), "http");
    assert!(matches!(store_type_of("hosted"), StoreType::Hosted));
    assert!(matches!(store_type_of("sqlite"), StoreType::Sqlite));
    assert!(matches!(store_type_of("anything else"), StoreType::Sqlite));
}

#[test]
fn agent_record_and_heartbeat_prompt() {
    let agent = AgentOS::load(
        "soul".to_string(),
        "identity".to_string(),
        "skills".to_string(),
        "playbooks".to_string(),
        "memory".to_string(),
    );
    assert_eq!(agent.soul, "soul");
    assert_eq!(agent.memory, "memory");
    let prompt = build_heartbeat_prompt("- check disks", "- a.tool: fetches");
    assert!(prompt.contains("# HEARTBEAT CHECKLIST\n- check disks"));
    assert!(prompt.contains("# AVAILABLE TOOLS\n- a.tool: fetches"));
    assert!(prompt.contains("HEARTBEAT_OK"));
}

#[test]
fn channel_defaults_mirror_the_spec() {
    let d = DiscordChannelConfig::default();
    assert!(!d.enabled);
    assert_eq!(d.token_env, "DISCORD_BOT_TOKEN");
    assert_eq!(d.trigger, "mention");
    assert_eq!(d.listen_guilds, vec!["*".to_string()]);
    let h = HttpChannelConfig::default();
    assert!(h.enabled);
    assert_eq!(h.port, default_port());
    let st = StoreConfig::default();
    assert_eq!(st.store_type, "sqlite");
    let id = IdentityConfig::default();
    assert!(id.auto_create);
    assert_eq!(id.link_timeout_minutes, 15);
}

#[test]
fn heartbeat_config_defaults() {
    let c = heartbeat_config_from_env(None, None, None);
    assert!(c.enabled);
    assert_eq!(c.interval_secs, 1800);
    assert_eq!(c.target_channel, "last");
    let c = heartbeat_config_from_env(Some(false), Some(60), Some("discord".to_string()));
    assert!(!c.enabled);
    assert_eq!(c.interval_secs, 60);
    assert_eq!(c.target_channel, "discord");
}

#[test]
fn link_decisions() {
    match link_decision(false, None, "user_1", "discord", "42") {
        Err(e) => assert_eq!(e, "User not found: user_1"),
        Ok(_) => panic!("expected a refusal"),
    }
    match link_decision(true, Some("user_2".to_string()), "user_1", "discord", "42") {
        Err(e) => assert_eq!(e, "Identity discord:42 is already linked to user user_2"),
        Ok(_) => panic!("expected a conflict"),
    }
    assert_eq!(
        link_decision(true, Some("user_1".to_string()), "user_1", "discord", "42"),
        Ok(false)
    );
    assert_eq!(link_decision(true, None, "user_1", "discord", "42"), Ok(true));
}

#[test]
fn llm_session_client_errors_fail_at_once() {
    let mut session = LlmSession::new("openai".to_string(), "gpt-test".to_string(), None);
    match session.on_response(401, "bad key", 1) {
        LlmAction::Finish { result } => match result {
            ExecutorResult::Error { error } => assert_eq!(error, "LLM API error 401: bad key"),
            _ => panic!("expected an error result"),
        },
        _ => panic!("expected the session to stop"),
    }
}

#[test]
fn llm_session_skips_a_fallback_equal_to_the_primary() {
    let mut session = LlmSession::new(
        "openai".to_string(),
        "gpt-main".to_string(),
        Some("gpt-main".to_string()),
    );
    assert!(matches!(session.on_response(500, "", 1), LlmAction::Retry { .. }));
    assert!(matches!(session.on_response(500, "", 2), LlmAction::Retry { .. }));
    match session.on_response(500, "down", 3) {
        LlmAction::Finish { result } => match result {
            ExecutorResult::Error { error } => {
                assert_eq!(error, "LLM API error 500 after 3 attempts: down")
            }
            _ => panic!("expected an error result"),
        },
        _ => panic!("expected the session to give up"),
    }
}

#[test]
fn chat_triggers_follow_the_configured_mode() {
    assert!(!should_respond("all", true, false, false, "hi", "77"));
    assert!(should_respond("all", false, false, false, "hi", "77"));
    assert!(should_respond("dm_only", false, true, false, "hi", "77"));
    assert!(!should_respond("dm_only", false, false, false, "hi", "77"));
    assert!(should_respond("mention", false, false, true, "hi", "77"));
    assert!(should_respond("mention", false, false, false, "hey <@77> hello", "77"));
    assert!(should_respond("mention", false, false, false, "hey <@!77> hello", "77"));
    assert!(!should_respond("mention", false, false, false, "hey <@78> hello", "77"));
    assert_eq!(clean_content("  <@77> do the thing <@!77> ", "77"), "do the thing");
}

#[test]
fn chat_messages_take_the_wire_shape() {
    let history = vec![
        ("user".to_string(), "hello".to_string()),
        ("assistant".to_string(), "hi".to_string()),
    ];
    let formatted = messages_to_llm_format(&history);
    assert_eq!(
        to_text(&formatted),
        "[{\"role\":\"user\",\"content\":\"hello\"},{\"role\":\"assistant\",\"content\":\"hi\"}]"
    );
    let with_system = build_llm_messages("be helpful", &history);
    assert_eq!(
        to_text(&with_system),
        "[{\"role\":\"system\",\"content\":\"be helpful\"},{\"role\":\"user\",\"content\":\"hello\"},{\"role\":\"assistant\",\"content\":\"hi\"}]"
    );
}

#[test]
fn http_verbs_map_like_the_executor() {
    assert!(matches!(http_verb_of("POST"), HttpVerb::Post));
    assert!(matches!(http_verb_of("PUT"), HttpVerb::Put));
    assert!(matches!(http_verb_of("DELETE"), HttpVerb::Delete));
    assert!(matches!(http_verb_of("GET"), HttpVerb::Get));
    assert!(matches!(http_verb_of("patch"), HttpVerb::Get));
}

#[test]
fn link_code_suffix_stays_in_its_alphabet() {
    let code = generate_link_code("user_abcdefgh");
    assert_eq!(code.as_bytes()[13], b'-');
    for c in code[14..].chars() {
        assert!(c.is_ascii_uppercase() || c.is_ascii_digit() || c == '_' || c == '-');
    }
}
