//! All settings of a session.

use crate::config::limits::{limits_fault, validate_runtime_limits, RuntimeLimits};
use crate::config::models::{
    alias_table, alias_views, chat_url, chat_url_of, ModelAlias, ModelResolver,
};
use crate::config::policy::{
    EditMode, OutputFormat, SignalPolicy, ToolApprovalMode, ToolApprovalPolicy,
};
use crate::config::sandbox::{
    is_default_python, is_default_sandbox, SandboxConfig, SandboxPythonConfig,
};
use crate::json::{Json, JsonField};
use crate::llm::options::TokenParamKind;
use crate::text::opt_view;
use vstd::prelude::*;

verus! {

/// The bits of the threshold 0.95.
pub const DEFAULT_FUZZY_THRESHOLD_BITS: u64 = 0x3FEE_6666_6666_6666;

/// Whether a tool needs the consent of the user.
#[derive(Clone, Debug)]
pub struct ToolApproval {
    pub tool: String,
    pub policy: ToolApprovalPolicy,
}

/// Counts that bound how signals are handled.
#[derive(Clone, Copy, Debug, PartialEq, Eq, Structural)]
pub struct SignalLimits {
    pub window_size: usize,
    pub seq_window: usize,
    pub evidence_max_chars: usize,
    pub evidence_dedup_window: usize,
    pub guard_max_blocks: usize,
    pub cooldown_turns: usize,
    pub replan_max_turns: i32,
    pub replan_token_budget: i32,
}

/// The counts that are used unless others are set.
pub open spec fn default_signal_limits() -> SignalLimits {
    SignalLimits {
        window_size: 16,
        seq_window: 6,
        evidence_max_chars: 4_000,
        evidence_dedup_window: 6,
        guard_max_blocks: 3,
        cooldown_turns: 3,
        replan_max_turns: 12,
        replan_token_budget: 24_000,
    }
}

impl Default for SignalLimits {
    fn default() -> (r: Self)
        ensures
            r == default_signal_limits(),
    {
        SignalLimits {
            window_size: 16,
            seq_window: 6,
            evidence_max_chars: 4_000,
            evidence_dedup_window: 6,
            guard_max_blocks: 3,
            cooldown_turns: 3,
            replan_max_turns: 12,
            replan_token_budget: 24_000,
        }
    }
}

/// All settings of a session.
#[derive(Debug)]
pub struct ResolvedConfig {
    pub model: String,
    pub model_aliases: Vec<ModelAlias>,
    pub openai_reasoning_effort: Option<String>,
    pub openai_include_usage: bool,
    pub openai_token_param: TokenParamKind,
    pub openai_tool_choice: Option<Json>,
    pub openai_extra_body: Vec<JsonField>,
    pub max_tokens: i32,
    pub tool_timeout_secs: i32,
    pub sub_agent_timeout_secs: i32,
    pub llm_first_event_timeout_secs: i32,
    pub llm_idle_timeout_secs: i32,
    pub llm_wait_heartbeat_secs: i32,
    pub tool_result_max_bytes: usize,
    pub file_write_max_bytes: usize,
    pub edit_mode: EditMode,
    pub edit_fuzzy_match: bool,
    /// The bits of the threshold, a double-precision number of IEEE 754.
    pub edit_fuzzy_threshold_bits: u64,
    pub edit_enforce_seen_lines: bool,
    pub max_search_files: usize,
    pub max_search_results: usize,
    pub output_format: OutputFormat,
    pub verbose: bool,
    pub api_key: String,
    pub base_url: String,
    pub prompt: String,
    pub max_turns: i32,
    pub max_context_tokens: usize,
    pub context_compact_pct: u8,
    pub context_reserve_tokens: usize,
    pub context_compact_tail_tokens: usize,
    pub context_compact_max_output_tokens: i32,
    pub context_compact_input_reduction: bool,
    /// Whether the plan is the last message of a request, and not among the first.
    pub plan_projection_tail: bool,
    pub skills: Vec<String>,
    pub interactive: bool,
    pub session_id: String,
    pub continue_session: bool,
    pub log_events: bool,
    pub sandbox: SandboxConfig,
    pub sandbox_python: SandboxPythonConfig,
    /// A file with a system prompt of the user's own.
    pub mission_file: Option<String>,
    /// A system prompt of the user's own.
    pub mission_content: Option<String>,
    /// The tools that may be used: the usual ones where this is `None`.
    pub enabled_tools: Option<Vec<String>>,
    pub tool_approval_mode: ToolApprovalMode,
    pub tool_approval: Vec<ToolApproval>,
    pub signal_policy: SignalPolicy,
    pub signal: SignalLimits,
}

impl Default for ResolvedConfig {
    fn default() -> (r: Self)
        ensures
            r.model@.len() == 0,
            r.model_aliases@.len() == 0,
            opt_view(r.openai_reasoning_effort) == Some("max"@),
            r.openai_include_usage,
            r.openai_token_param == TokenParamKind::MaxTokens,
            r.openai_tool_choice is None,
            r.openai_extra_body@.len() == 0,
            r.max_tokens == 81920,
            r.tool_timeout_secs == 600,
            r.sub_agent_timeout_secs == 300,
            r.llm_first_event_timeout_secs == 60,
            r.llm_idle_timeout_secs == 90,
            r.llm_wait_heartbeat_secs == 30,
            r.tool_result_max_bytes == 100_000,
            r.file_write_max_bytes == 1_048_576,
            r.edit_mode == EditMode::Hashline,
            r.edit_fuzzy_match,
            r.edit_fuzzy_threshold_bits == DEFAULT_FUZZY_THRESHOLD_BITS,
            !r.edit_enforce_seen_lines,
            r.max_search_files == 5000,
            r.max_search_results == 1000,
            r.output_format == OutputFormat::Human,
            !r.verbose,
            r.api_key@.len() == 0,
            r.base_url@.len() == 0,
            r.prompt@.len() == 0,
            r.max_turns == 40,
            r.max_context_tokens == 1_000_000,
            r.context_compact_pct == 94,
            r.context_reserve_tokens == 64_000,
            r.context_compact_tail_tokens == 256_000,
            r.context_compact_max_output_tokens == 8_192,
            !r.context_compact_input_reduction,
            r.plan_projection_tail,
            r.skills@.len() == 0,
            !r.interactive,
            r.session_id@.len() == 0,
            !r.continue_session,
            r.log_events,
            is_default_sandbox(r.sandbox),
            is_default_python(r.sandbox_python@),
            r.mission_file is None,
            r.mission_content is None,
            r.enabled_tools is None,
            r.tool_approval_mode == ToolApprovalMode::Yolo,
            r.tool_approval@.len() == 0,
            r.signal_policy == SignalPolicy::Full,
            r.signal == default_signal_limits(),
            limits_fault(runtime_limits(r)) is None,
    {
        ResolvedConfig {
            model: String::new(),
            model_aliases: Vec::new(),
            openai_reasoning_effort: Some("max".to_owned()),
            openai_include_usage: true,
            openai_token_param: TokenParamKind::MaxTokens,
            openai_tool_choice: None,
            openai_extra_body: Vec::new(),
            max_tokens: 81920,
            tool_timeout_secs: 600,
            sub_agent_timeout_secs: 300,
            llm_first_event_timeout_secs: 60,
            llm_idle_timeout_secs: 90,
            llm_wait_heartbeat_secs: 30,
            tool_result_max_bytes: 100_000,
            file_write_max_bytes: 1_048_576,
            edit_mode: EditMode::Hashline,
            edit_fuzzy_match: true,
            edit_fuzzy_threshold_bits: DEFAULT_FUZZY_THRESHOLD_BITS,
            edit_enforce_seen_lines: false,
            max_search_files: 5000,
            max_search_results: 1000,
            output_format: OutputFormat::Human,
            verbose: false,
            api_key: String::new(),
            base_url: String::new(),
            prompt: String::new(),
            max_turns: 40,
            max_context_tokens: 1_000_000,
            context_compact_pct: 94,
            context_reserve_tokens: 64_000,
            context_compact_tail_tokens: 256_000,
            context_compact_max_output_tokens: 8_192,
            context_compact_input_reduction: false,
            plan_projection_tail: true,
            skills: Vec::new(),
            interactive: false,
            session_id: String::new(),
            continue_session: false,
            log_events: true,
            sandbox: SandboxConfig::default(),
            sandbox_python: SandboxPythonConfig::default(),
            mission_file: None,
            mission_content: None,
            enabled_tools: None,
            tool_approval_mode: ToolApprovalMode::Yolo,
            tool_approval: Vec::new(),
            signal_policy: SignalPolicy::Full,
            signal: SignalLimits::default(),
        }
    }
}

/// The limits among the settings.
pub open spec fn runtime_limits(cfg: ResolvedConfig) -> RuntimeLimits {
    RuntimeLimits {
        edit_fuzzy_threshold_bits: cfg.edit_fuzzy_threshold_bits,
        max_tokens: cfg.max_tokens,
        max_turns: cfg.max_turns,
        context_compact_pct: cfg.context_compact_pct,
        context_reserve_tokens: cfg.context_reserve_tokens,
        context_compact_tail_tokens: cfg.context_compact_tail_tokens,
        context_compact_max_output_tokens: cfg.context_compact_max_output_tokens,
        max_context_tokens: cfg.max_context_tokens,
    }
}

/// Whether the limits among the settings fit together, or what is wrong with them.
pub fn validate_runtime_config(cfg: &ResolvedConfig) -> (r: Result<(), String>)
    ensures
        match r {
            Ok(_) => limits_fault(runtime_limits(*cfg)) is None,
            Err(e) => limits_fault(runtime_limits(*cfg)) == Some(e@),
        },
{
    let limits: RuntimeLimits = RuntimeLimits {
        edit_fuzzy_threshold_bits: cfg.edit_fuzzy_threshold_bits,
        max_tokens: cfg.max_tokens,
        max_turns: cfg.max_turns,
        context_compact_pct: cfg.context_compact_pct,
        context_reserve_tokens: cfg.context_reserve_tokens,
        context_compact_tail_tokens: cfg.context_compact_tail_tokens,
        context_compact_max_output_tokens: cfg.context_compact_max_output_tokens,
        max_context_tokens: cfg.max_context_tokens,
    };
    validate_runtime_limits(&limits)
}

/// Where requests are sent to.
pub fn api_url(cfg: &ResolvedConfig) -> (r: String)
    ensures
        r@ == chat_url(cfg.base_url@),
{
    chat_url_of(cfg.base_url.as_str())
}

/// Knows the short names of models in the settings.
pub fn model_resolver(cfg: &ResolvedConfig) -> (r: ModelResolver)
    ensures
        r@ == alias_table(alias_views(cfg.model_aliases@), cfg.model_aliases@.len()),
{
    ModelResolver::new(&cfg.model_aliases)
}

} // verus!
