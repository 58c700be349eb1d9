//! Entries of the log.

use crate::json::{json_views, Json, JsonView};
use crate::protocol::UsageEvent;
use crate::text::{opt_view, views};
use vstd::prelude::*;

verus! {

/// An entry of the log. A number with a fraction is kept as it is written.
#[derive(Debug)]
pub enum EventLog {
    /// The user said something.
    UserInput {
        version: Option<u8>,
        content: String,
    },
    /// The model reasoned.
    Thinking {
        version: Option<u8>,
        content: String,
    },
    /// The model said something.
    Text {
        version: Option<u8>,
        content: String,
    },
    /// The model called a tool.
    ToolCall {
        version: Option<u8>,
        name: String,
        id: String,
        input: Json,
    },
    /// A tool gave a result.
    ToolResult {
        version: Option<u8>,
        tool_use_id: String,
        name: String,
        content: String,
        status: Json,
        exit_code: Option<i32>,
        result_kind: Json,
        presentation: Json,
        artifacts: Vec<Json>,
    },
    /// A request took tokens.
    Usage {
        version: Option<u8>,
        input_tokens: i64,
        output_tokens: i64,
        cache_read_input_tokens: i64,
        cache_creation_input_tokens: i64,
        context_tokens: Option<u64>,
        max_context: Option<u64>,
        kind: String,
    },
    /// Something points to a turn that has gone astray.
    Signal {
        version: Option<u8>,
        signal_kind: String,
        severity: String,
        source_tool: String,
        exit_code: Option<i32>,
        matched_pattern: Option<String>,
        message: String,
    },
    /// The conversation was compacted.
    Compact {
        version: Option<u8>,
        trigger: String,
        result: String,
    },
    /// A session began.
    SessionStart {
        session_id: String,
    },
    /// A turn began.
    TurnStart {
        model: String,
        model_alias: Option<String>,
        belief: String,
        forced_model: Option<String>,
    },
    /// A turn ended.
    TurnTracking {
        version: Option<u8>,
        decision: String,
        tool_call_count: u32,
        tool_error_count: u32,
        belief: String,
        model: String,
    },
    /// A turn failed.
    TurnError {
        error: String,
        category: String,
        severity: Option<String>,
        belief: Option<String>,
        model: Option<String>,
        elapsed_ms: Option<u64>,
        idle_ms: Option<u64>,
    },
    /// A sub-agent ended.
    SubAgent {
        session_id: String,
        status: String,
        input_tokens: Option<u64>,
        output_tokens: Option<u64>,
    },
    /// A turn was handed over to the user.
    SignalHandover {
        belief: String,
        edited_paths: Vec<String>,
        evidence: String,
        options: Vec<String>,
    },
    /// The workflows of the prompt were chosen.
    PromptWorkflowResolution {
        active_workflows: Vec<String>,
        workflow_fingerprint: String,
    },
    /// The part of a request that stays the same was built: from this it can be built again.
    PrefixSnapshot {
        version: Option<u8>,
        fingerprint: String,
        dependency_fingerprint: String,
        system_prompt: String,
        tools_json: Vec<Json>,
    },
    /// The model stopped.
    Stop {
        reason: String,
    },
    /// Something went wrong.
    Error {
        version: Option<u8>,
        message: String,
    },
    /// A request is sent again.
    Retry,
}

/// What an [`EventLog`] says.
pub enum EventView {
    UserInput {
        version: Option<u8>,
        content: Seq<char>,
    },
    Thinking {
        version: Option<u8>,
        content: Seq<char>,
    },
    Text {
        version: Option<u8>,
        content: Seq<char>,
    },
    ToolCall {
        version: Option<u8>,
        name: Seq<char>,
        id: Seq<char>,
        input: JsonView,
    },
    ToolResult {
        version: Option<u8>,
        tool_use_id: Seq<char>,
        name: Seq<char>,
        content: Seq<char>,
        status: JsonView,
        exit_code: Option<i32>,
        result_kind: JsonView,
        presentation: JsonView,
        artifacts: Seq<JsonView>,
    },
    Usage {
        version: Option<u8>,
        input_tokens: i64,
        output_tokens: i64,
        cache_read_input_tokens: i64,
        cache_creation_input_tokens: i64,
        context_tokens: Option<u64>,
        max_context: Option<u64>,
        kind: Seq<char>,
    },
    Signal {
        version: Option<u8>,
        signal_kind: Seq<char>,
        severity: Seq<char>,
        source_tool: Seq<char>,
        exit_code: Option<i32>,
        matched_pattern: Option<Seq<char>>,
        message: Seq<char>,
    },
    Compact {
        version: Option<u8>,
        trigger: Seq<char>,
        result: Seq<char>,
    },
    SessionStart {
        session_id: Seq<char>,
    },
    TurnStart {
        model: Seq<char>,
        model_alias: Option<Seq<char>>,
        belief: Seq<char>,
        forced_model: Option<Seq<char>>,
    },
    TurnTracking {
        version: Option<u8>,
        decision: Seq<char>,
        tool_call_count: u32,
        tool_error_count: u32,
        belief: Seq<char>,
        model: Seq<char>,
    },
    TurnError {
        error: Seq<char>,
        category: Seq<char>,
        severity: Option<Seq<char>>,
        belief: Option<Seq<char>>,
        model: Option<Seq<char>>,
        elapsed_ms: Option<u64>,
        idle_ms: Option<u64>,
    },
    SubAgent {
        session_id: Seq<char>,
        status: Seq<char>,
        input_tokens: Option<u64>,
        output_tokens: Option<u64>,
    },
    SignalHandover {
        belief: Seq<char>,
        edited_paths: Seq<Seq<char>>,
        evidence: Seq<char>,
        options: Seq<Seq<char>>,
    },
    PromptWorkflowResolution {
        active_workflows: Seq<Seq<char>>,
        workflow_fingerprint: Seq<char>,
    },
    PrefixSnapshot {
        version: Option<u8>,
        fingerprint: Seq<char>,
        dependency_fingerprint: Seq<char>,
        system_prompt: Seq<char>,
        tools_json: Seq<JsonView>,
    },
    Stop {
        reason: Seq<char>,
    },
    Error {
        version: Option<u8>,
        message: Seq<char>,
    },
    Retry,
}

impl View for EventLog {
    type V = EventView;

    open spec fn view(&self) -> EventView {
        match self {
            EventLog::UserInput { version, content } => EventView::UserInput {
                version: *version,
                content: content@,
            },
            EventLog::Thinking { version, content } => EventView::Thinking {
                version: *version,
                content: content@,
            },
            EventLog::Text { version, content } => EventView::Text {
                version: *version,
                content: content@,
            },
            EventLog::ToolCall { version, name, id, input } => EventView::ToolCall {
                version: *version,
                name: name@,
                id: id@,
                input: input@,
            },
            EventLog::ToolResult {
                version,
                tool_use_id,
                name,
                content,
                status,
                exit_code,
                result_kind,
                presentation,
                artifacts,
            } => EventView::ToolResult {
                version: *version,
                tool_use_id: tool_use_id@,
                name: name@,
                content: content@,
                status: status@,
                exit_code: *exit_code,
                result_kind: result_kind@,
                presentation: presentation@,
                artifacts: json_views(artifacts@),
            },
            EventLog::Usage {
                version,
                input_tokens,
                output_tokens,
                cache_read_input_tokens,
                cache_creation_input_tokens,
                context_tokens,
                max_context,
                kind,
            } => EventView::Usage {
                version: *version,
                input_tokens: *input_tokens,
                output_tokens: *output_tokens,
                cache_read_input_tokens: *cache_read_input_tokens,
                cache_creation_input_tokens: *cache_creation_input_tokens,
                context_tokens: *context_tokens,
                max_context: *max_context,
                kind: kind@,
            },
            EventLog::Signal {
                version,
                signal_kind,
                severity,
                source_tool,
                exit_code,
                matched_pattern,
                message,
            } => EventView::Signal {
                version: *version,
                signal_kind: signal_kind@,
                severity: severity@,
                source_tool: source_tool@,
                exit_code: *exit_code,
                matched_pattern: opt_view(*matched_pattern),
                message: message@,
            },
            EventLog::Compact { version, trigger, result } => EventView::Compact {
                version: *version,
                trigger: trigger@,
                result: result@,
            },
            EventLog::SessionStart { session_id } => EventView::SessionStart {
                session_id: session_id@,
            },
            EventLog::TurnStart {
                model,
                model_alias,
                belief,
                forced_model,
            } => EventView::TurnStart {
                model: model@,
                model_alias: opt_view(*model_alias),
                belief: belief@,
                forced_model: opt_view(*forced_model),
            },
            EventLog::TurnTracking {
                version,
                decision,
                tool_call_count,
                tool_error_count,
                belief,
                model,
            } => EventView::TurnTracking {
                version: *version,
                decision: decision@,
                tool_call_count: *tool_call_count,
                tool_error_count: *tool_error_count,
                belief: belief@,
                model: model@,
            },
            EventLog::TurnError {
                error,
                category,
                severity,
                belief,
                model,
                elapsed_ms,
                idle_ms,
            } => EventView::TurnError {
                error: error@,
                category: category@,
                severity: opt_view(*severity),
                belief: opt_view(*belief),
                model: opt_view(*model),
                elapsed_ms: *elapsed_ms,
                idle_ms: *idle_ms,
            },
            EventLog::SubAgent {
                session_id,
                status,
                input_tokens,
                output_tokens,
            } => EventView::SubAgent {
                session_id: session_id@,
                status: status@,
                input_tokens: *input_tokens,
                output_tokens: *output_tokens,
            },
            EventLog::SignalHandover {
                belief,
                edited_paths,
                evidence,
                options,
            } => EventView::SignalHandover {
                belief: belief@,
                edited_paths: views(edited_paths@),
                evidence: evidence@,
                options: views(options@),
            },
            EventLog::PromptWorkflowResolution {
                active_workflows,
                workflow_fingerprint,
            } => EventView::PromptWorkflowResolution {
                active_workflows: views(active_workflows@),
                workflow_fingerprint: workflow_fingerprint@,
            },
            EventLog::PrefixSnapshot {
                version,
                fingerprint,
                dependency_fingerprint,
                system_prompt,
                tools_json,
            } => EventView::PrefixSnapshot {
                version: *version,
                fingerprint: fingerprint@,
                dependency_fingerprint: dependency_fingerprint@,
                system_prompt: system_prompt@,
                tools_json: json_views(tools_json@),
            },
            EventLog::Stop { reason } => EventView::Stop {
                reason: reason@,
            },
            EventLog::Error { version, message } => EventView::Error {
                version: *version,
                message: message@,
            },
            EventLog::Retry => EventView::Retry,
        }
    }
}

/// What an entry says, where there is one.
pub open spec fn event_views(event: Option<EventLog>) -> Option<EventView> {
    match event {
        Some(e) => Some(e@),
        None => None,
    }
}

impl EventLog {
    /// The entry for the tokens that a request took.
    pub fn usage(version: Option<u8>, usage: &UsageEvent, kind: &str) -> (r: EventLog)
        ensures
            r@ == (EventView::Usage {
                version,
                input_tokens: usage.input_tokens,
                output_tokens: usage.output_tokens,
                cache_read_input_tokens: usage.cache_read_input_tokens,
                cache_creation_input_tokens: usage.cache_creation_input_tokens,
                context_tokens: None,
                max_context: None,
                kind: kind@,
            }),
    {
        EventLog::Usage {
            version,
            input_tokens: usage.input_tokens,
            output_tokens: usage.output_tokens,
            cache_read_input_tokens: usage.cache_read_input_tokens,
            cache_creation_input_tokens: usage.cache_creation_input_tokens,
            context_tokens: None,
            max_context: None,
            kind: kind.to_owned(),
        }
    }
}

} // verus!
