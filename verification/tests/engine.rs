//! The workflow engine end to end: merging, planning, running, receipts.

use oneclaw_node::config::{
    ArtifactsConfig, ChannelsConfig, ControlPlaneConfig, ExecutorsConfig, HttpConfig,
    IdentityConfig, LlmConfig, LoggingConfig, MemoryConfig, Node, NodeConfig, SecurityConfig,
    StoreConfig,
};
use oneclaw_node::context::Context;
use oneclaw_node::executor::{http_outcome, http_plan, DenialReason, ExecutorResult, HttpPlan};
use oneclaw_node::json::Json;
use oneclaw_node::json_text::to_text;
use oneclaw_node::receipt::{overall_status, StepReceipt};
use oneclaw_node::resolve::{evaluate_condition, resolve_variables};
use oneclaw_node::runner::{
    merge_inputs, plan_step, InputDef, Step, StepPlan, WorkflowRun, WorkflowSpec,
};

fn obj(fields: Vec<(&str, Json)>) -> Json {
    Json::Obj(fields.into_iter().map(|(k, v)| (k.to_string(), v)).collect())
}

fn jstr(s: &str) -> Json {
    Json::Str(s.to_string())
}

fn test_config(allowed_executors: Vec<&str>, allowed_domains: Vec<&str>) -> NodeConfig {
    NodeConfig {
        node: Node {
            id: "node-1".to_string(),
            name: "Test Node".to_string(),
            environment: "private".to_string(),
        },
        llm: LlmConfig {
            provider: "openai".to_string(),
            api_key_env: "OPENAI_API_KEY".to_string(),
            model: "gpt-test".to_string(),
        },
        security: SecurityConfig {
            mode: "strict".to_string(),
            allowed_executors: allowed_executors.into_iter().map(|s| s.to_string()).collect(),
        },
        http: HttpConfig {
            allowed_domains: allowed_domains.into_iter().map(|s| s.to_string()).collect(),
        },
        executors: ExecutorsConfig { enabled: vec!["http.request".to_string()] },
        memory: MemoryConfig {
            session_max_messages: 50,
            preferences_path: "~/.oneclaw/memory/preferences.yaml".to_string(),
        },
        artifacts: ArtifactsConfig {
            storage: "local".to_string(),
            path: "~/.oneclaw/artifacts".to_string(),
        },
        logging: LoggingConfig { level: "info".to_string(), path: "~/.oneclaw/logs".to_string() },
        control_plane: ControlPlaneConfig { url: None, token: None },
        channels: ChannelsConfig::default(),
        store: StoreConfig::default(),
        identity: IdentityConfig::default(),
    }
}

fn step(id: &str, executor: &str, input: Json) -> Step {
    Step {
        id: id.to_string(),
        executor: executor.to_string(),
        input,
        uses: vec![],
        foreach: None,
        batch_size: None,
        checkpoint: false,
        timeout: None,
        condition: None,
    }
}

fn spec_of(steps: Vec<Step>) -> WorkflowSpec {
    WorkflowSpec {
        version: "1".to_string(),
        id: "wf-test".to_string(),
        name: "Test Workflow".to_string(),
        description: None,
        inputs: vec![],
        steps,
        outputs: vec![],
    }
}

#[test]
fn merge_seeds_defaults_and_caller_wins() {
    let mut spec = spec_of(vec![]);
    spec.inputs = vec![
        (
            "city".to_string(),
            InputDef {
                input_type: "string".to_string(),
                required: false,
                default: Some(jstr("Lisbon")),
            },
        ),
        (
            "name".to_string(),
            InputDef { input_type: "string".to_string(), required: true, default: None },
        ),
    ];
    let provided = obj(vec![("name", jstr("Ada")), ("extra", Json::Int(5))]);
    let merged = merge_inputs(&spec, &provided);
    assert_eq!(
        to_text(&merged),
        "{\"city\":\"Lisbon\",\"name\":\"Ada\",\"extra\":5}"
    );
    let overridden = merge_inputs(&spec, &obj(vec![("city", jstr("Porto"))]));
    assert_eq!(to_text(&overridden), "{\"city\":\"Porto\"}");
}

#[test]
fn merge_is_idempotent_under_remerging() {
    let mut spec = spec_of(vec![]);
    spec.inputs = vec![(
        "city".to_string(),
        InputDef {
            input_type: "string".to_string(),
            required: false,
            default: Some(jstr("Lisbon")),
        },
    )];
    let provided = obj(vec![("who", jstr("Ada"))]);
    let once = merge_inputs(&spec, &provided);
    let twice = merge_inputs(&spec, &once);
    assert_eq!(to_text(&once), to_text(&twice));
}

#[test]
fn status_classification() {
    fn rc(status: &str) -> StepReceipt {
        StepReceipt {
            step_id: "s".to_string(),
            executor: "e".to_string(),
            status: status.to_string(),
            request: Json::Null,
            response: Json::Null,
            denial_reason: None,
            error: None,
            duration_ms: 0,
        }
    }
    assert_eq!(overall_status(&vec![rc("executed"), rc("skipped")]), "success");
    assert_eq!(overall_status(&vec![rc("executed"), rc("error")]), "partial");
    assert_eq!(overall_status(&vec![rc("executed"), rc("denied")]), "partial");
    assert_eq!(overall_status(&vec![rc("denied"), rc("error")]), "failed");
    assert_eq!(overall_status(&vec![]), "success");
    assert_eq!(overall_status(&vec![rc("skipped")]), "success");
}

#[test]
fn gate_denies_unlisted_executor() {
    let config = test_config(vec!["http.request"], vec!["*"]);
    let st = step("s1", "shell.exec", obj(vec![("cmd", jstr("ls"))]));
    let ctx = Context::new(obj(vec![]), vec![]);
    match plan_step(&st, &ctx, &config) {
        StepPlan::Deny { denial_reason, .. } => {
            assert_eq!(denial_reason.rule, "security.allowed_executors");
            assert_eq!(denial_reason.attempted, "shell.exec");
            assert_eq!(
                denial_reason.policy,
                "Executor 'shell.exec' is not in allowed_executors list"
            );
        }
        _ => panic!("expected a denial"),
    }
}

#[test]
fn scenario_http_step_executes() {
    let config = test_config(vec!["http.request"], vec!["*"]);
    let spec = spec_of(vec![step("s1", "http.request", obj(vec![("url", jstr("https://x/y"))]))]);
    let mut run = WorkflowRun::new(spec, config, &obj(vec![]), vec![]);
    let (kind, input) = run.advance().expect("step should dispatch");
    assert!(matches!(kind, oneclaw_node::executor::ExecutorKind::HttpRequest));
    let result = match http_plan(&input, &run.config.http) {
        HttpPlan::Request { method, url, .. } => {
            assert_eq!(method, "GET");
            assert_eq!(url, "https://x/y");
            http_outcome(200, "hello".to_string(), 12)
        }
        _ => panic!("expected a request"),
    };
    run.record(result);
    assert!(run.advance().is_none());
    let receipt = run.finish(
        "run-1".to_string(),
        "2024-01-01T00:00:00Z".to_string(),
        "2024-01-01T00:00:01Z".to_string(),
        1000,
    );
    assert_eq!(receipt.steps.len(), 1);
    assert_eq!(receipt.status, "success");
    let step_rc = &receipt.steps[0];
    assert_eq!(step_rc.status, "executed");
    assert_eq!(to_text(step_rc.response.get("status").unwrap()), "200");
    assert_eq!(to_text(step_rc.response.get("body").unwrap()), "\"hello\"");
    assert_eq!(step_rc.duration_ms, 12);
}

#[test]
fn scenario_http_step_denied_by_domain() {
    let config = test_config(vec!["http.request"], vec!["other.com"]);
    let spec = spec_of(vec![step("s1", "http.request", obj(vec![("url", jstr("https://x/y"))]))]);
    let mut run = WorkflowRun::new(spec, config, &obj(vec![]), vec![]);
    let (_kind, input) = run.advance().expect("step should dispatch");
    let result = match http_plan(&input, &run.config.http) {
        HttpPlan::Denied { denial_reason } => {
            assert_eq!(denial_reason.rule, "http.allowed_domains");
            assert_eq!(denial_reason.attempted, "x");
            ExecutorResult::Denied { denial_reason }
        }
        _ => panic!("expected a domain denial"),
    };
    run.record(result);
    assert!(run.advance().is_none());
    let receipt = run.finish(
        "run-2".to_string(),
        "t0".to_string(),
        "t1".to_string(),
        5,
    );
    assert_eq!(receipt.status, "failed");
    assert_eq!(receipt.steps[0].status, "denied");
    assert_eq!(
        receipt.steps[0].denial_reason.as_ref().unwrap().rule,
        "http.allowed_domains"
    );
}

#[test]
fn scenario_unresolved_reference_stays_literal() {
    let config = test_config(vec!["http.request"], vec!["*"]);
    let spec = spec_of(vec![
        step("s1", "shell.exec", obj(vec![])),
        step(
            "s2",
            "http.request",
            obj(vec![("url", jstr("https://x/${steps.s1.body}"))]),
        ),
    ]);
    let mut run = WorkflowRun::new(spec, config, &obj(vec![]), vec![]);
    let (_kind, input) = run.advance().expect("second step should dispatch");
    assert_eq!(
        to_text(&input),
        "{\"url\":\"https://x/${steps.s1.body}\"}"
    );
    let receipt_status = {
        run.record(ExecutorResult::Error { error: "unreachable host".to_string() });
        assert!(run.advance().is_none());
        let receipt = run.finish("run-3".to_string(), "t0".to_string(), "t1".to_string(), 1);
        assert_eq!(receipt.steps[0].status, "denied");
        assert_eq!(receipt.steps[1].status, "error");
        receipt.status
    };
    assert_eq!(receipt_status, "failed");
}

#[test]
fn scenario_substitution_can_break_the_document() {
    let mut ctx = Context::new(obj(vec![]), vec![]);
    ctx.set_step_output("s1", obj(vec![("body", jstr("he said \"hi\""))]));
    let template = obj(vec![("x", jstr("${steps.s1.body}"))]);
    let uses: Vec<(String, String)> = vec![];
    match resolve_variables(&template, &uses, &ctx) {
        Err(e) => assert_eq!(e, "substituted step input is not valid JSON"),
        Ok(v) => panic!("expected a parse failure, got {}", to_text(&v)),
    }
}

#[test]
fn scenario_condition_false_skips() {
    let config = test_config(vec!["http.request"], vec!["*"]);
    let mut st = step("s1", "http.request", obj(vec![("url", jstr("https://x/y"))]));
    st.condition = Some("inputs.flag".to_string());
    let spec = {
        let mut sp = spec_of(vec![st]);
        sp.inputs = vec![];
        sp
    };
    let provided = obj(vec![("flag", Json::Bool(false))]);
    let mut run = WorkflowRun::new(spec, config, &provided, vec![]);
    assert!(run.advance().is_none());
    let receipt = run.finish("run-4".to_string(), "t0".to_string(), "t1".to_string(), 2);
    let rc = &receipt.steps[0];
    assert_eq!(rc.status, "skipped");
    assert_eq!(rc.duration_ms, 0);
    assert_eq!(to_text(&rc.request), "null");
    assert_eq!(to_text(&rc.response), "null");
    assert_eq!(receipt.status, "success");
}

#[test]
fn missing_executor_is_an_error_not_a_denial() {
    let config = test_config(vec!["made.up"], vec!["*"]);
    let spec = spec_of(vec![step("s1", "made.up", obj(vec![]))]);
    let mut run = WorkflowRun::new(spec, config, &obj(vec![]), vec![]);
    assert!(run.advance().is_none());
    let receipt = run.finish("run-5".to_string(), "t0".to_string(), "t1".to_string(), 1);
    assert_eq!(receipt.steps[0].status, "error");
    assert_eq!(
        receipt.steps[0].error.as_ref().unwrap(),
        "Executor not found: made.up"
    );
}

#[test]
fn context_paths_resolve_in_three_namespaces() {
    let mut ctx = Context::new(
        obj(vec![("city", jstr("Lisbon")), ("deep", obj(vec![("k", Json::Int(3))]))]),
        vec![("HOME_DIR".to_string(), "/home/ada".to_string())],
    );
    ctx.set_step_output("s1", obj(vec![("body", jstr("ok"))]));
    assert_eq!(to_text(&ctx.get("inputs.city").unwrap()), "\"Lisbon\"");
    assert_eq!(to_text(&ctx.get("inputs.deep.k").unwrap()), "3");
    assert_eq!(to_text(&ctx.get("steps.s1.body").unwrap()), "\"ok\"");
    assert_eq!(to_text(&ctx.get("env.HOME_DIR").unwrap()), "\"/home/ada\"");
    assert!(ctx.get("inputs.missing").is_none());
    assert!(ctx.get("steps.s2.body").is_none());
    assert!(ctx.get("env.NOPE").is_none());
    assert!(ctx.get("other.city").is_none());
}

#[test]
fn conditions_reduce_to_truthiness() {
    let ctx = Context::new(
        obj(vec![
            ("yes", Json::Bool(true)),
            ("no", Json::Bool(false)),
            ("zero", Json::Int(0)),
            ("empty", jstr("")),
            ("word", jstr("go")),
        ]),
        vec![],
    );
    assert!(evaluate_condition("inputs.yes", &ctx));
    assert!(!evaluate_condition("inputs.no", &ctx));
    assert!(!evaluate_condition("inputs.zero", &ctx));
    assert!(!evaluate_condition("inputs.empty", &ctx));
    assert!(evaluate_condition("inputs.word", &ctx));
    assert!(!evaluate_condition("inputs.missing", &ctx));
}

#[test]
fn uses_bindings_substitute_in_second_pass() {
    let mut ctx = Context::new(obj(vec![("who", jstr("Ada"))]), vec![]);
    ctx.set_step_output("s1", obj(vec![("n", Json::Int(7))]));
    let template = obj(vec![("greeting", jstr("hi ${name}, n=${count}"))]);
    let uses = vec![
        ("name".to_string(), "inputs.who".to_string()),
        ("count".to_string(), "steps.s1.n".to_string()),
    ];
    let resolved = resolve_variables(&template, &uses, &ctx).unwrap();
    assert_eq!(to_text(&resolved), "{\"greeting\":\"hi Ada, n=7\"}");
}

#[test]
fn non_string_values_substitute_as_compact_json() {
    let ctx = Context::new(
        obj(vec![("items", Json::Arr(vec![Json::Int(1), Json::Int(2)]))]),
        vec![],
    );
    let template = obj(vec![("msg", jstr("got ${inputs.items}"))]);
    let resolved = resolve_variables(&template, &vec![], &ctx).unwrap();
    assert_eq!(to_text(&resolved), "{\"msg\":\"got [1,2]\"}");
}

#[test]
fn denial_reason_fields_survive_the_receipt() {
    let rc = StepReceipt::from_result(
        "s1",
        "http.request",
        Json::Null,
        ExecutorResult::Denied {
            denial_reason: DenialReason {
                rule: "http.allowed_domains".to_string(),
                attempted: "evil.example".to_string(),
                policy: "Domain 'evil.example' not allowed".to_string(),
            },
        },
    );
    assert_eq!(rc.status, "denied");
    assert_eq!(rc.duration_ms, 0);
    assert_eq!(rc.denial_reason.unwrap().attempted, "evil.example");
    assert!(rc.error.is_none());
}

#[test]
fn merge_ignores_a_non_object_caller_value() {
    let mut spec = spec_of(vec![]);
    spec.inputs = vec![(
        "city".to_string(),
        InputDef {
            input_type: "string".to_string(),
            required: false,
            default: Some(jstr("Lisbon")),
        },
    )];
    let merged = merge_inputs(&spec, &Json::Int(5));
    assert_eq!(to_text(&merged), "{\"city\":\"Lisbon\"}");
}

#[test]
fn env_namespace_reads_flat_variables() {
    let ctx = Context::new(
        obj(vec![]),
        vec![("API_BASE".to_string(), "https://api".to_string())],
    );
    assert_eq!(to_text(&ctx.get("env.API_BASE").unwrap()), "\"https://api\"");
    // trailing parts are ignored: the environment holds flat strings
    assert_eq!(to_text(&ctx.get("env.API_BASE.extra").unwrap()), "\"https://api\"");
    let template = obj(vec![("base", jstr("${env.API_BASE}/v1"))]);
    let resolved = resolve_variables(&template, &vec![], &ctx).unwrap();
    assert_eq!(to_text(&resolved), "{\"base\":\"https://api/v1\"}");
}

#[test]
fn substitution_reaches_nested_positions() {
    let ctx = Context::new(obj(vec![("n", Json::Int(3))]), vec![]);
    let template = obj(vec![(
        "outer",
        Json::Arr(vec![jstr("a ${inputs.n}"), obj(vec![("inner", jstr("${inputs.n}"))])]),
    )]);
    let resolved = resolve_variables(&template, &vec![], &ctx).unwrap();
    assert_eq!(
        to_text(&resolved),
        "{\"outer\":[\"a 3\",{\"inner\":\"3\"}]}"
    );
}
