use mink::config::limits::{validate_runtime_limits, RuntimeLimits};
use mink::config::models::{select_model, ModelAlias, ModelResolver};
use mink::config::policy::{EditMode, SignalPolicy, ToolApprovalMode};
use mink::config::resolved::{api_url, model_resolver, validate_runtime_config, ResolvedConfig};
use mink::config::sandbox::{SandboxConfig, SandboxPythonConfig};
use mink::context::{FlushClock, ToolConfig};
use mink::json::{Json, JsonField};

#[test]
fn max_turns_must_be_positive() {
    let mut cfg = ResolvedConfig { max_turns: 0, ..ResolvedConfig::default() };
    assert!(
        validate_runtime_config(&cfg)
            .unwrap_err()
            .contains("max_turns must be greater than 0")
    );
    cfg.max_turns = -3;
    assert!(validate_runtime_config(&cfg).is_err());
}

#[test]
fn combined_compaction_budget_must_fit_window() {
    let mut cfg = ResolvedConfig {
        max_context_tokens: 200_000,
        context_reserve_tokens: 190_000,
        max_tokens: 180_000,
        context_compact_tail_tokens: 10_000,
        context_compact_max_output_tokens: 150_000,
        ..ResolvedConfig::default()
    };
    let err = validate_runtime_config(&cfg).unwrap_err();
    assert!(
        err.contains("compaction budget exceeds the context window"),
        "{err}"
    );

    cfg.context_compact_max_output_tokens = 9_000;
    assert!(validate_runtime_config(&cfg).is_ok());
}

#[test]
fn zero_max_context_disables_window_checks() {
    let cfg = ResolvedConfig {
        max_context_tokens: 0,
        context_reserve_tokens: usize::MAX,
        ..ResolvedConfig::default()
    };
    assert!(validate_runtime_config(&cfg).is_ok());
}

fn limits() -> RuntimeLimits {
    RuntimeLimits {
        edit_fuzzy_threshold_bits: 0.95f64.to_bits(),
        max_tokens: 1000,
        max_turns: 40,
        context_compact_pct: 94,
        context_reserve_tokens: 2000,
        context_compact_tail_tokens: 3000,
        context_compact_max_output_tokens: 500,
        max_context_tokens: 10_000,
    }
}

fn fault(limits: RuntimeLimits) -> String {
    validate_runtime_limits(&limits).unwrap_err()
}

#[test]
fn limits_are_looked_at_one_by_one() {
    assert!(validate_runtime_limits(&limits()).is_ok());
    for wrong in [f64::NAN, f64::INFINITY, -0.1, 1.5] {
        assert_eq!(
            fault(RuntimeLimits { edit_fuzzy_threshold_bits: wrong.to_bits(), ..limits() }),
            "edit_fuzzy_threshold must be a finite number in 0.0..=1.0"
        );
    }
    for right in [0.0f64, -0.0, 0.5, 1.0] {
        let limits = RuntimeLimits { edit_fuzzy_threshold_bits: right.to_bits(), ..limits() };
        assert!(validate_runtime_limits(&limits).is_ok());
    }
    assert_eq!(
        fault(RuntimeLimits { max_tokens: 0, ..limits() }),
        "max_tokens must be greater than 0"
    );
    assert_eq!(
        fault(RuntimeLimits { context_compact_pct: 101, ..limits() }),
        "context_compact_pct must be between 1 and 100"
    );
    assert_eq!(
        fault(RuntimeLimits { context_reserve_tokens: 0, ..limits() }),
        "context_reserve_tokens must be greater than 0"
    );
    assert_eq!(
        fault(RuntimeLimits { context_compact_tail_tokens: 0, ..limits() }),
        "context_compact_tail_tokens must be greater than 0"
    );
    assert_eq!(
        fault(RuntimeLimits { context_compact_max_output_tokens: -1, ..limits() }),
        "context_compact_max_output_tokens must be greater than 0"
    );
}

#[test]
fn limits_are_held_against_the_window() {
    assert_eq!(
        fault(RuntimeLimits { context_reserve_tokens: 10_000, ..limits() }),
        "context_reserve_tokens (10000) must be less than max_context (10000)"
    );
    assert_eq!(
        fault(RuntimeLimits { context_compact_max_output_tokens: 10_000, ..limits() }),
        "context_compact_max_output_tokens (10000) must be less than max_context (10000)"
    );
    assert_eq!(
        fault(RuntimeLimits { context_compact_tail_tokens: 9_000, ..limits() }),
        "context_compact_tail_tokens (9000) must be less than the request input budget \
         (9000 = max_context 10000 - response budget 1000)"
    );
    assert_eq!(
        fault(RuntimeLimits {
            context_compact_tail_tokens: 8_000,
            context_compact_max_output_tokens: 2_000,
            ..limits()
        }),
        "compaction budget exceeds the context window: context_compact_max_output_tokens (2000) \
         + context_compact_tail_tokens (8000) + response budget (1000) = 11000 > max_context (10000)"
    );
}

#[test]
fn words_of_the_settings_are_read() {
    assert_eq!(EditMode::parse(" HashLine "), Ok(EditMode::Hashline));
    assert_eq!(EditMode::parse("replace"), Ok(EditMode::Replace));
    assert_eq!(
        EditMode::parse("di\"ff"),
        Err("invalid edit_mode \"di\\\"ff\"; expected 'hashline' or 'replace'".to_string())
    );
    assert_eq!(EditMode::default().as_str(), "hashline");
    assert_eq!(SignalPolicy::parse("state-ops"), Ok(SignalPolicy::StateOps));
    assert_eq!(SignalPolicy::parse("STATE_OPS"), Ok(SignalPolicy::StateOps));
    assert!(SignalPolicy::parse("loud").unwrap_err().contains("\"loud\""));
    assert_eq!(ToolApprovalMode::parse("always-ask"), Ok(ToolApprovalMode::AlwaysAsk));
    assert_eq!(
        ToolApprovalMode::parse("Yolo"),
        Err("unknown approval mode: Yolo. Use always-ask, write, or yolo".to_string())
    );
}

#[test]
fn each_policy_allows_what_the_ones_before_it_allow() {
    assert!(!SignalPolicy::Off.enabled());
    assert!(SignalPolicy::Evidence.enabled());
    assert!(!SignalPolicy::Evidence.allows_state_ops());
    assert!(SignalPolicy::StateOps.allows_state_ops());
    assert!(!SignalPolicy::StateOps.allows_restart());
    assert!(SignalPolicy::Restart.allows_restart());
    assert!(!SignalPolicy::Restart.allows_handover());
    assert!(SignalPolicy::Full.allows_handover());
    assert!(SignalPolicy::default().allows_state_ops());
}

#[test]
fn models_are_resolved() {
    let resolver = ModelResolver::new(&vec![
        ModelAlias { alias: " big ".into(), model: " some-model ".into() },
        ModelAlias { alias: "pro".into(), model: "other-pro".into() },
        ModelAlias { alias: "  ".into(), model: "nothing".into() },
        ModelAlias { alias: "big".into(), model: "  ".into() },
    ]);
    let blank = resolver.resolve("  ");
    assert_eq!(blank.requested, "flash");
    assert_eq!(blank.actual, "deepseek-v4-flash");
    assert_eq!(blank.alias.as_deref(), Some("flash"));
    assert_eq!(resolver.resolve("big").actual, "some-model");
    assert_eq!(resolver.resolve("pro").actual, "other-pro");
    let unknown = resolver.resolve(" deepseek-chat ");
    assert_eq!(unknown.actual, "deepseek-chat");
    assert_eq!(unknown.label, "deepseek-chat");
    assert_eq!(unknown.alias, None);
    assert_eq!(model_resolver(&ResolvedConfig::default()).resolve("pro").actual, "deepseek-v4-pro");
}

#[test]
fn address_of_the_service() {
    let mut cfg = ResolvedConfig::default();
    assert_eq!(api_url(&cfg), "https://api.deepseek.com/v1/chat/completions");
    cfg.base_url = "http://localhost:8080/v1//".into();
    assert_eq!(api_url(&cfg), "http://localhost:8080/v1/chat/completions");
}

#[test]
fn sandbox_is_off_unless_asked_for() {
    let mut sandbox = SandboxConfig::default();
    assert!(!sandbox.is_active());
    sandbox.enabled = true;
    assert!(sandbox.is_active());
    sandbox.backend = "off".into();
    assert!(!sandbox.is_active());
    let python = SandboxPythonConfig::default();
    assert_eq!(python.clone().wasm_path, "cpython-wasi/python.wasm");
    assert_eq!(python.timeout, 30);
}

#[test]
fn tools_are_told_their_settings() {
    let mut cfg = ResolvedConfig::default();
    cfg.enabled_tools = Some(vec!["Read".into()]);
    let tools = ToolConfig::from_config(&cfg);
    assert_eq!(tools.enabled_tools, Some(vec!["Read".to_string()]));
    assert_eq!(tools.tool_timeout_secs, 600);
    assert_eq!(tools.sandbox_python.stdlib_dir, "cpython-wasi");
}

fn event(kind: &str) -> Json {
    Json::Object(vec![JsonField { name: "type".into(), value: Json::Text(kind.into()) }])
}

#[test]
fn text_waits_and_results_do_not() {
    let mut clock = FlushClock::new();
    assert!(clock.should_flush_stream_event(&event("text"), 0));
    assert!(!clock.should_flush_stream_event(&event("text"), 79_999_999));
    assert!(clock.should_flush_stream_event(&event("tool_result"), 79_999_999));
    assert!(!clock.should_flush_stream_event(&event("text"), 80_000_000));
    assert!(clock.should_flush_stream_event(&event("text"), 159_999_999));
    assert!(!clock.should_flush_stream_event(&event("thinking"), 999_999_999));
}

#[test]
fn sub_agent_uses_the_model_of_its_agent() {
    for name in ["pro", " big ", "", "deepseek-chat"] {
        let custom = || vec![ModelAlias { alias: "big".into(), model: " some-model ".into() }];
        let active = ModelResolver::new(&custom()).resolve(name);
        let selected = select_model(custom(), active.actual.clone(), active.alias.clone());
        let child = ModelResolver::new(&selected.aliases).resolve(&selected.model);
        assert_eq!(child.actual, active.actual);
        assert_eq!(child.alias, active.alias);
    }
}

#[test]
fn accepted_limits_leave_room_for_the_answer() {
    let limits = RuntimeLimits {
        context_compact_tail_tokens: 8_000,
        context_compact_max_output_tokens: 1_000,
        ..limits()
    };
    assert!(validate_runtime_limits(&limits).is_ok());
    assert_eq!(1_000 + 8_000 + 1_000, limits.max_context_tokens);
    let limits = RuntimeLimits { context_compact_max_output_tokens: 1_001, ..limits };
    assert!(validate_runtime_limits(&limits).is_err());
}
