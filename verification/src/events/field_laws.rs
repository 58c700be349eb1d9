//! Under which names the parts of an entry of the log are written.

use crate::events::entry::EventView;
use crate::events::laws::{lemma_put, lemma_started};
use crate::events::model::{
    event_json, int_text, lemma_name_codes, opt_int_i32, opt_int_u64, opt_int_u8,
};
use crate::json::{field_of, JsonView};
use crate::text::{decimal, digits_value, is_digits};
use crate::text_laws::decimal_stands_for_its_number;
use vstd::prelude::*;

verus! {

/// Whether the field holds the text, and is missing without one.
pub open spec fn may_hold_text(json: JsonView, name: Seq<char>, text: Option<Seq<char>>) -> bool {
    match text {
        Some(t) => field_of(json, name) == Some(JsonView::Text(t)),
        None => field_of(json, name) is None,
    }
}

/// Whether the field holds the number with these digits, and is missing without one.
pub open spec fn may_hold_digits(json: JsonView, name: Seq<char>, digits: Option<Seq<char>>) -> bool {
    match digits {
        Some(d) => field_of(json, name) == Some(JsonView::Number(d)),
        None => field_of(json, name) is None,
    }
}

/// Whether the field holds the number, and is missing without one.
pub open spec fn may_hold_number(json: JsonView, name: Seq<char>, n: Option<int>) -> bool {
    match n {
        Some(n) => field_of(json, name) == Some(JsonView::Number(int_text(n))),
        None => field_of(json, name) is None,
    }
}

/// Whether the field holds the text, and is null without one.
pub open spec fn holds_or_null_text(
    json: JsonView,
    name: Seq<char>,
    text: Option<Seq<char>>,
) -> bool {
    match text {
        Some(t) => field_of(json, name) == Some(JsonView::Text(t)),
        None => field_of(json, name) == Some(JsonView::Null),
    }
}

/// Whether the field holds the number, and is null without one.
pub open spec fn holds_or_null_number(json: JsonView, name: Seq<char>, n: Option<int>) -> bool {
    match n {
        Some(n) => field_of(json, name) == Some(JsonView::Number(int_text(n))),
        None => field_of(json, name) == Some(JsonView::Null),
    }
}

/// Whether the field holds these texts in this order.
pub open spec fn holds_texts(json: JsonView, name: Seq<char>, texts: Seq<Seq<char>>) -> bool {
    match field_of(json, name) {
        Some(JsonView::Array(items)) => items.len() == texts.len() && forall|i: int|
            0 <= i < items.len() ==> #[trigger] items[i] == JsonView::Text(texts[i]),
        _ => false,
    }
}

/// A whole number is written in decimal, with a sign in front where it is below zero.
pub proof fn number_is_written_in_decimal(n: int)
    ensures
        n >= 0 ==> is_digits(int_text(n)) && digits_value(int_text(n)) == n,
        n < 0 ==> int_text(n)[0] == '-' && is_digits(int_text(n).skip(1)) && digits_value(
            int_text(n).skip(1),
        ) == -n,
{
    reveal_strlit("-");
    if n >= 0 {
        decimal_stands_for_its_number(n as nat);
    } else {
        decimal_stands_for_its_number((-n) as nat);
        assert(int_text(n).skip(1) =~= decimal((-n) as nat));
    }
}

/// What the user said is written with each part under its own name.
pub proof fn said_by_the_user_is_written(
    version: Option<u8>,
    content: Seq<char>,
)
    ensures
        ({
            let json = event_json(EventView::UserInput { version, content });
            &&& field_of(json, "type"@) == Some(JsonView::Text("user_input"@))
            &&& may_hold_number(json, "version"@, opt_int_u8(version))
            &&& field_of(json, "content"@) == Some(JsonView::Text(content))
        }),
{
    broadcast use {lemma_put, lemma_started};

    lemma_name_codes();
}

/// What the model thought is written with each part under its own name.
pub proof fn thought_is_written(
    version: Option<u8>,
    content: Seq<char>,
)
    ensures
        ({
            let json = event_json(EventView::Thinking { version, content });
            &&& field_of(json, "type"@) == Some(JsonView::Text("thinking"@))
            &&& may_hold_number(json, "version"@, opt_int_u8(version))
            &&& field_of(json, "content"@) == Some(JsonView::Text(content))
        }),
{
    broadcast use {lemma_put, lemma_started};

    lemma_name_codes();
}

/// What the model said is written with each part under its own name.
pub proof fn said_by_the_model_is_written(
    version: Option<u8>,
    content: Seq<char>,
)
    ensures
        ({
            let json = event_json(EventView::Text { version, content });
            &&& field_of(json, "type"@) == Some(JsonView::Text("text"@))
            &&& may_hold_number(json, "version"@, opt_int_u8(version))
            &&& field_of(json, "content"@) == Some(JsonView::Text(content))
        }),
{
    broadcast use {lemma_put, lemma_started};

    lemma_name_codes();
}

/// A call of a tool is written with each part under its own name.
pub proof fn tool_call_is_written(
    version: Option<u8>,
    name: Seq<char>,
    id: Seq<char>,
    input: JsonView,
)
    ensures
        ({
            let json = event_json(EventView::ToolCall { version, name, id, input });
            &&& field_of(json, "type"@) == Some(JsonView::Text("tool_call"@))
            &&& may_hold_number(json, "version"@, opt_int_u8(version))
            &&& field_of(json, "name"@) == Some(JsonView::Text(name))
            &&& field_of(json, "id"@) == Some(JsonView::Text(id))
            &&& field_of(json, "input"@) == Some(input)
        }),
{
    broadcast use {lemma_put, lemma_started};

    lemma_name_codes();
}

/// The result of a tool is written with each part under its own name.
pub proof fn tool_result_is_written(
    version: Option<u8>,
    tool_use_id: Seq<char>,
    name: Seq<char>,
    content: Seq<char>,
    status: JsonView,
    exit_code: Option<i32>,
    result_kind: JsonView,
    presentation: JsonView,
    artifacts: Seq<JsonView>,
)
    ensures
        ({
            let json = event_json(
                EventView::ToolResult {
                    version,
                    tool_use_id,
                    name,
                    content,
                    status,
                    exit_code,
                    result_kind,
                    presentation,
                    artifacts,
                },
            );
            &&& field_of(json, "type"@) == Some(JsonView::Text("tool_result"@))
            &&& may_hold_number(json, "version"@, opt_int_u8(version))
            &&& field_of(json, "tool_use_id"@) == Some(JsonView::Text(tool_use_id))
            &&& field_of(json, "name"@) == Some(JsonView::Text(name))
            &&& field_of(json, "content"@) == Some(JsonView::Text(content))
            &&& field_of(json, "status"@) == Some(status)
            &&& may_hold_number(json, "exit_code"@, opt_int_i32(exit_code))
            &&& field_of(json, "result_kind"@) == Some(result_kind)
            &&& field_of(json, "presentation"@) == Some(presentation)
            &&& field_of(json, "artifacts"@) == Some(JsonView::Array(artifacts))
        }),
{
    broadcast use {lemma_put, lemma_started};

    lemma_name_codes();
}

/// What a request took in tokens is written with each part under its own name.
pub proof fn usage_is_written(
    version: Option<u8>,
    input_tokens: i64,
    output_tokens: i64,
    cache_read_input_tokens: i64,
    cache_creation_input_tokens: i64,
    context_tokens: Option<u64>,
    max_context: Option<u64>,
    kind: Seq<char>,
)
    ensures
        ({
            let json = event_json(
                EventView::Usage {
                    version,
                    input_tokens,
                    output_tokens,
                    cache_read_input_tokens,
                    cache_creation_input_tokens,
                    context_tokens,
                    max_context,
                    kind,
                },
            );
            &&& field_of(json, "type"@) == Some(JsonView::Text("usage"@))
            &&& may_hold_number(json, "version"@, opt_int_u8(version))
            &&& field_of(json, "input_tokens"@) == Some(
                JsonView::Number(int_text(input_tokens as int)),
            )
            &&& field_of(json, "output_tokens"@) == Some(
                JsonView::Number(int_text(output_tokens as int)),
            )
            &&& field_of(json, "cache_read_input_tokens"@) == Some(
                JsonView::Number(int_text(cache_read_input_tokens as int)),
            )
            &&& field_of(json, "cache_creation_input_tokens"@) == Some(
                JsonView::Number(int_text(cache_creation_input_tokens as int)),
            )
            &&& may_hold_number(json, "context_tokens"@, opt_int_u64(context_tokens))
            &&& may_hold_number(json, "max_context"@, opt_int_u64(max_context))
            &&& field_of(json, "kind"@) == Some(JsonView::Text(kind))
        }),
{
    broadcast use {lemma_put, lemma_started};

    lemma_name_codes();
}

/// A signal is written with each part under its own name.
pub proof fn signal_is_written(
    version: Option<u8>,
    signal_kind: Seq<char>,
    severity: Seq<char>,
    source_tool: Seq<char>,
    exit_code: Option<i32>,
    matched_pattern: Option<Seq<char>>,
    message: Seq<char>,
)
    ensures
        ({
            let json = event_json(
                EventView::Signal {
                    version,
                    signal_kind,
                    severity,
                    source_tool,
                    exit_code,
                    matched_pattern,
                    message,
                },
            );
            &&& field_of(json, "type"@) == Some(JsonView::Text("signal"@))
            &&& may_hold_number(json, "version"@, opt_int_u8(version))
            &&& field_of(json, "signal_kind"@) == Some(JsonView::Text(signal_kind))
            &&& field_of(json, "severity"@) == Some(JsonView::Number(severity))
            &&& field_of(json, "source_tool"@) == Some(JsonView::Text(source_tool))
            &&& holds_or_null_number(json, "exit_code"@, opt_int_i32(exit_code))
            &&& holds_or_null_text(json, "matched_pattern"@, matched_pattern)
            &&& field_of(json, "message"@) == Some(JsonView::Text(message))
        }),
{
    broadcast use {lemma_put, lemma_started};

    lemma_name_codes();
}

/// A compaction is written with each part under its own name.
pub proof fn compaction_is_written(
    version: Option<u8>,
    trigger: Seq<char>,
    result: Seq<char>,
)
    ensures
        ({
            let json = event_json(EventView::Compact { version, trigger, result });
            &&& field_of(json, "type"@) == Some(JsonView::Text("compact"@))
            &&& may_hold_number(json, "version"@, opt_int_u8(version))
            &&& field_of(json, "trigger"@) == Some(JsonView::Text(trigger))
            &&& field_of(json, "result"@) == Some(JsonView::Text(result))
        }),
{
    broadcast use {lemma_put, lemma_started};

    lemma_name_codes();
}

/// The beginning of a session is written with each part under its own name.
pub proof fn session_is_written(
    session_id: Seq<char>,
)
    ensures
        ({
            let json = event_json(EventView::SessionStart { session_id });
            &&& field_of(json, "type"@) == Some(JsonView::Text("session_start"@))
            &&& field_of(json, "session_id"@) == Some(JsonView::Text(session_id))
        }),
{
    broadcast use {lemma_put, lemma_started};

    lemma_name_codes();
}

/// The beginning of a turn is written with each part under its own name.
pub proof fn turn_is_written(
    model: Seq<char>,
    model_alias: Option<Seq<char>>,
    belief: Seq<char>,
    forced_model: Option<Seq<char>>,
)
    ensures
        ({
            let json = event_json(
                EventView::TurnStart {
                    model,
                    model_alias,
                    belief,
                    forced_model,
                },
            );
            &&& field_of(json, "type"@) == Some(JsonView::Text("turn_start"@))
            &&& field_of(json, "model"@) == Some(JsonView::Text(model))
            &&& may_hold_text(json, "model_alias"@, model_alias)
            &&& field_of(json, "belief"@) == Some(JsonView::Number(belief))
            &&& may_hold_text(json, "forced_model"@, forced_model)
        }),
{
    broadcast use {lemma_put, lemma_started};

    lemma_name_codes();
}

/// The end of a turn is written with each part under its own name.
pub proof fn end_of_a_turn_is_written(
    version: Option<u8>,
    decision: Seq<char>,
    tool_call_count: u32,
    tool_error_count: u32,
    belief: Seq<char>,
    model: Seq<char>,
)
    ensures
        ({
            let json = event_json(
                EventView::TurnTracking {
                    version,
                    decision,
                    tool_call_count,
                    tool_error_count,
                    belief,
                    model,
                },
            );
            &&& field_of(json, "type"@) == Some(JsonView::Text("turn_tracking"@))
            &&& may_hold_number(json, "version"@, opt_int_u8(version))
            &&& field_of(json, "decision"@) == Some(JsonView::Text(decision))
            &&& field_of(json, "tool_call_count"@) == Some(
                JsonView::Number(decimal(tool_call_count as nat)),
            )
            &&& field_of(json, "tool_error_count"@) == Some(
                JsonView::Number(decimal(tool_error_count as nat)),
            )
            &&& field_of(json, "belief"@) == Some(JsonView::Number(belief))
            &&& field_of(json, "model"@) == Some(JsonView::Text(model))
        }),
{
    broadcast use {lemma_put, lemma_started};

    lemma_name_codes();
}

/// A turn that failed is written with each part under its own name.
pub proof fn failed_turn_is_written(
    error: Seq<char>,
    category: Seq<char>,
    severity: Option<Seq<char>>,
    belief: Option<Seq<char>>,
    model: Option<Seq<char>>,
    elapsed_ms: Option<u64>,
    idle_ms: Option<u64>,
)
    ensures
        ({
            let json = event_json(
                EventView::TurnError {
                    error,
                    category,
                    severity,
                    belief,
                    model,
                    elapsed_ms,
                    idle_ms,
                },
            );
            &&& field_of(json, "type"@) == Some(JsonView::Text("turn_error"@))
            &&& field_of(json, "error"@) == Some(JsonView::Text(error))
            &&& field_of(json, "category"@) == Some(JsonView::Text(category))
            &&& may_hold_text(json, "severity"@, severity)
            &&& may_hold_digits(json, "belief"@, belief)
            &&& may_hold_text(json, "model"@, model)
            &&& may_hold_number(json, "elapsed_ms"@, opt_int_u64(elapsed_ms))
            &&& may_hold_number(json, "idle_ms"@, opt_int_u64(idle_ms))
        }),
{
    broadcast use {lemma_put, lemma_started};

    lemma_name_codes();
}

/// The end of a sub-agent is written with each part under its own name.
pub proof fn sub_agent_is_written(
    session_id: Seq<char>,
    status: Seq<char>,
    input_tokens: Option<u64>,
    output_tokens: Option<u64>,
)
    ensures
        ({
            let json = event_json(
                EventView::SubAgent {
                    session_id,
                    status,
                    input_tokens,
                    output_tokens,
                },
            );
            &&& field_of(json, "type"@) == Some(JsonView::Text("sub_agent"@))
            &&& field_of(json, "session_id"@) == Some(JsonView::Text(session_id))
            &&& field_of(json, "status"@) == Some(JsonView::Text(status))
            &&& may_hold_number(json, "input_tokens"@, opt_int_u64(input_tokens))
            &&& may_hold_number(json, "output_tokens"@, opt_int_u64(output_tokens))
        }),
{
    broadcast use {lemma_put, lemma_started};

    lemma_name_codes();
}

/// A turn that is handed over is written with each part under its own name.
pub proof fn handover_is_written(
    belief: Seq<char>,
    edited_paths: Seq<Seq<char>>,
    evidence: Seq<char>,
    options: Seq<Seq<char>>,
)
    ensures
        ({
            let json = event_json(
                EventView::SignalHandover {
                    belief,
                    edited_paths,
                    evidence,
                    options,
                },
            );
            &&& field_of(json, "type"@) == Some(JsonView::Text("signal_handover"@))
            &&& field_of(json, "belief"@) == Some(JsonView::Number(belief))
            &&& holds_texts(json, "edited_paths"@, edited_paths)
            &&& field_of(json, "evidence"@) == Some(JsonView::Text(evidence))
            &&& holds_texts(json, "options"@, options)
        }),
{
    broadcast use {lemma_put, lemma_started};

    lemma_name_codes();
}

/// The choice of workflows is written with each part under its own name.
pub proof fn workflows_is_written(
    active_workflows: Seq<Seq<char>>,
    workflow_fingerprint: Seq<char>,
)
    ensures
        ({
            let json = event_json(
                EventView::PromptWorkflowResolution {
                    active_workflows,
                    workflow_fingerprint,
                },
            );
            &&& field_of(json, "type"@) == Some(JsonView::Text("prompt_workflow_resolution"@))
            &&& holds_texts(json, "active_workflows"@, active_workflows)
            &&& field_of(json, "workflow_fingerprint"@) == Some(
                JsonView::Text(workflow_fingerprint),
            )
        }),
{
    broadcast use {lemma_put, lemma_started};

    lemma_name_codes();
}

/// The part of a request that stays the same is written with each part under its own name.
pub proof fn prefix_is_written(
    version: Option<u8>,
    fingerprint: Seq<char>,
    dependency_fingerprint: Seq<char>,
    system_prompt: Seq<char>,
    tools_json: Seq<JsonView>,
)
    ensures
        ({
            let json = event_json(
                EventView::PrefixSnapshot {
                    version,
                    fingerprint,
                    dependency_fingerprint,
                    system_prompt,
                    tools_json,
                },
            );
            &&& field_of(json, "type"@) == Some(JsonView::Text("prefix_snapshot"@))
            &&& may_hold_number(json, "version"@, opt_int_u8(version))
            &&& field_of(json, "fingerprint"@) == Some(JsonView::Text(fingerprint))
            &&& field_of(json, "dependency_fingerprint"@) == Some(
                JsonView::Text(dependency_fingerprint),
            )
            &&& field_of(json, "system_prompt"@) == Some(JsonView::Text(system_prompt))
            &&& field_of(json, "tools_json"@) == Some(JsonView::Array(tools_json))
        }),
{
    broadcast use {lemma_put, lemma_started};

    lemma_name_codes();
}

/// That the model stopped is written with each part under its own name.
pub proof fn stop_is_written(
    reason: Seq<char>,
)
    ensures
        ({
            let json = event_json(EventView::Stop { reason });
            &&& field_of(json, "type"@) == Some(JsonView::Text("stop"@))
            &&& field_of(json, "reason"@) == Some(JsonView::Text(reason))
        }),
{
    broadcast use {lemma_put, lemma_started};

    lemma_name_codes();
}

/// An error is written with each part under its own name.
pub proof fn error_is_written(
    version: Option<u8>,
    message: Seq<char>,
)
    ensures
        ({
            let json = event_json(EventView::Error { version, message });
            &&& field_of(json, "type"@) == Some(JsonView::Text("error"@))
            &&& may_hold_number(json, "version"@, opt_int_u8(version))
            &&& field_of(json, "message"@) == Some(JsonView::Text(message))
        }),
{
    broadcast use {lemma_put, lemma_started};

    lemma_name_codes();
}

} // verus!
