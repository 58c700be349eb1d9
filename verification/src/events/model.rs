//! How an entry is written, and which entry is read.

use crate::events::entry::EventView;
use crate::json::{field_of, field_text, with_field, FieldView, JsonView};
use crate::text::{decimal, digits_value, is_digits};
use vstd::prelude::*;

verus! {

/// A number that may be missing.
pub open spec fn opt_int_u8(n: Option<u8>) -> Option<int> {
    match n {
        Some(n) => Some(n as int),
        None => None,
    }
}

/// A number that may be missing.
pub open spec fn opt_int_i32(n: Option<i32>) -> Option<int> {
    match n {
        Some(n) => Some(n as int),
        None => None,
    }
}

/// A number that may be missing.
pub open spec fn opt_int_u64(n: Option<u64>) -> Option<int> {
    match n {
        Some(n) => Some(n as int),
        None => None,
    }
}

/// A whole number in decimal.
pub open spec fn int_text(n: int) -> Seq<char> {
    if n < 0 {
        "-"@ + decimal((-n) as nat)
    } else {
        decimal(n as nat)
    }
}

/// The whole number that a text stands for. Its size is bounded. A zero stands neither behind a
/// sign nor before other digits.
pub open spec fn int_of_text(text: Seq<char>) -> Option<int> {
    if text.len() > 0 && text[0] == '-' {
        let digits = text.drop_first();
        if is_digits(digits) && digits[0] != '0' && digits_value(digits) <= u64::MAX {
            Some(-digits_value(digits))
        } else {
            None
        }
    } else if is_digits(text) && (text[0] != '0' || text.len() == 1) && digits_value(text)
        <= u64::MAX {
        Some(digits_value(text) as int)
    } else {
        None
    }
}

/// How a whole number is written, where it is there.
pub open spec fn int_value(n: Option<int>) -> Option<JsonView> {
    match n {
        Some(n) => Some(JsonView::Number(int_text(n))),
        None => None,
    }
}

/// How a text is written, where it is there.
pub open spec fn text_value(text: Option<Seq<char>>) -> Option<JsonView> {
    match text {
        Some(t) => Some(JsonView::Text(t)),
        None => None,
    }
}

/// How a number is written, where it is there.
pub open spec fn number_value(number: Option<Seq<char>>) -> Option<JsonView> {
    match number {
        Some(n) => Some(JsonView::Number(n)),
        None => None,
    }
}

/// A value, or null where there is none.
pub open spec fn or_null(value: Option<JsonView>) -> JsonView {
    match value {
        Some(v) => v,
        None => JsonView::Null,
    }
}

/// How texts are written.
pub open spec fn texts_value(texts: Seq<Seq<char>>) -> JsonView {
    JsonView::Array(texts.map_values(|t: Seq<char>| JsonView::Text(t)))
}

/// `fields` with the field `name`, where it has a value.
pub open spec fn put(fields: Seq<FieldView>, name: Seq<char>, value: Option<JsonView>) -> Seq<
    FieldView,
> {
    match value {
        Some(v) => with_field(fields, name, v),
        None => fields,
    }
}

/// The fields of an entry of this kind, before any other is put in.
pub open spec fn started(kind: Seq<char>) -> Seq<FieldView> {
    seq![FieldView { name: "type"@, value: JsonView::Text(kind) }]
}

/// The fields of an entry.
pub open spec fn event_fields(event: EventView) -> Seq<FieldView> {
    match event {
        EventView::UserInput { version, content } => {
            let fields = started("user_input"@);
            let fields = put(fields, "version"@, int_value(opt_int_u8(version)));
            put(fields, "content"@, Some(JsonView::Text(content)))
        },
        EventView::Thinking { version, content } => {
            let fields = started("thinking"@);
            let fields = put(fields, "version"@, int_value(opt_int_u8(version)));
            put(fields, "content"@, Some(JsonView::Text(content)))
        },
        EventView::Text { version, content } => {
            let fields = started("text"@);
            let fields = put(fields, "version"@, int_value(opt_int_u8(version)));
            put(fields, "content"@, Some(JsonView::Text(content)))
        },
        EventView::ToolCall { version, name, id, input } => {
            let fields = started("tool_call"@);
            let fields = put(fields, "version"@, int_value(opt_int_u8(version)));
            let fields = put(fields, "name"@, Some(JsonView::Text(name)));
            let fields = put(fields, "id"@, Some(JsonView::Text(id)));
            put(fields, "input"@, Some(input))
        },
        EventView::ToolResult {
            version,
            tool_use_id,
            name,
            content,
            status,
            exit_code,
            result_kind,
            presentation,
            artifacts,
        } => {
            let fields = started("tool_result"@);
            let fields = put(fields, "version"@, int_value(opt_int_u8(version)));
            let fields = put(fields, "tool_use_id"@, Some(JsonView::Text(tool_use_id)));
            let fields = put(fields, "name"@, Some(JsonView::Text(name)));
            let fields = put(fields, "content"@, Some(JsonView::Text(content)));
            let fields = put(fields, "status"@, Some(status));
            let fields = put(fields, "exit_code"@, int_value(opt_int_i32(exit_code)));
            let fields = put(fields, "result_kind"@, Some(result_kind));
            let fields = put(fields, "presentation"@, Some(presentation));
            put(fields, "artifacts"@, Some(JsonView::Array(artifacts)))
        },
        EventView::Usage {
            version,
            input_tokens,
            output_tokens,
            cache_read_input_tokens,
            cache_creation_input_tokens,
            context_tokens,
            max_context,
            kind,
        } => {
            let fields = started("usage"@);
            let fields = put(fields, "version"@, int_value(opt_int_u8(version)));
            let fields = put(fields, "input_tokens"@, int_value(Some(input_tokens as int)));
            let fields = put(fields, "output_tokens"@, int_value(Some(output_tokens as int)));
            let fields = put(
                fields,
                "cache_read_input_tokens"@,
                int_value(Some(cache_read_input_tokens as int)),
            );
            let fields = put(
                fields,
                "cache_creation_input_tokens"@,
                int_value(Some(cache_creation_input_tokens as int)),
            );
            let fields = put(fields, "context_tokens"@, int_value(opt_int_u64(context_tokens)));
            let fields = put(fields, "max_context"@, int_value(opt_int_u64(max_context)));
            put(fields, "kind"@, Some(JsonView::Text(kind)))
        },
        EventView::Signal {
            version,
            signal_kind,
            severity,
            source_tool,
            exit_code,
            matched_pattern,
            message,
        } => {
            let fields = started("signal"@);
            let fields = put(fields, "version"@, int_value(opt_int_u8(version)));
            let fields = put(fields, "signal_kind"@, Some(JsonView::Text(signal_kind)));
            let fields = put(fields, "severity"@, Some(JsonView::Number(severity)));
            let fields = put(fields, "source_tool"@, Some(JsonView::Text(source_tool)));
            let exit_code = or_null(int_value(opt_int_i32(exit_code)));
            let fields = put(fields, "exit_code"@, Some(exit_code));
            let fields = put(fields, "matched_pattern"@, Some(or_null(text_value(matched_pattern))));
            put(fields, "message"@, Some(JsonView::Text(message)))
        },
        EventView::Compact { version, trigger, result } => {
            let fields = started("compact"@);
            let fields = put(fields, "version"@, int_value(opt_int_u8(version)));
            let fields = put(fields, "trigger"@, Some(JsonView::Text(trigger)));
            put(fields, "result"@, Some(JsonView::Text(result)))
        },
        EventView::SessionStart { session_id } => {
            let fields = started("session_start"@);
            put(fields, "session_id"@, Some(JsonView::Text(session_id)))
        },
        EventView::TurnStart { model, model_alias, belief, forced_model } => {
            let fields = started("turn_start"@);
            let fields = put(fields, "model"@, Some(JsonView::Text(model)));
            let fields = put(fields, "model_alias"@, text_value(model_alias));
            let fields = put(fields, "belief"@, Some(JsonView::Number(belief)));
            put(fields, "forced_model"@, text_value(forced_model))
        },
        EventView::TurnTracking {
            version,
            decision,
            tool_call_count,
            tool_error_count,
            belief,
            model,
        } => {
            let fields = started("turn_tracking"@);
            let fields = put(fields, "version"@, int_value(opt_int_u8(version)));
            let fields = put(fields, "decision"@, Some(JsonView::Text(decision)));
            let fields = put(fields, "tool_call_count"@, int_value(Some(tool_call_count as int)));
            let fields = put(fields, "tool_error_count"@, int_value(Some(tool_error_count as int)));
            let fields = put(fields, "belief"@, Some(JsonView::Number(belief)));
            put(fields, "model"@, Some(JsonView::Text(model)))
        },
        EventView::TurnError { error, category, severity, belief, model, elapsed_ms, idle_ms } => {
            let fields = started("turn_error"@);
            let fields = put(fields, "error"@, Some(JsonView::Text(error)));
            let fields = put(fields, "category"@, Some(JsonView::Text(category)));
            let fields = put(fields, "severity"@, text_value(severity));
            let fields = put(fields, "belief"@, number_value(belief));
            let fields = put(fields, "model"@, text_value(model));
            let fields = put(fields, "elapsed_ms"@, int_value(opt_int_u64(elapsed_ms)));
            put(fields, "idle_ms"@, int_value(opt_int_u64(idle_ms)))
        },
        EventView::SubAgent { session_id, status, input_tokens, output_tokens } => {
            let fields = started("sub_agent"@);
            let fields = put(fields, "session_id"@, Some(JsonView::Text(session_id)));
            let fields = put(fields, "status"@, Some(JsonView::Text(status)));
            let fields = put(fields, "input_tokens"@, int_value(opt_int_u64(input_tokens)));
            put(fields, "output_tokens"@, int_value(opt_int_u64(output_tokens)))
        },
        EventView::SignalHandover { belief, edited_paths, evidence, options } => {
            let fields = started("signal_handover"@);
            let fields = put(fields, "belief"@, Some(JsonView::Number(belief)));
            let fields = put(fields, "edited_paths"@, Some(texts_value(edited_paths)));
            let fields = put(fields, "evidence"@, Some(JsonView::Text(evidence)));
            put(fields, "options"@, Some(texts_value(options)))
        },
        EventView::PromptWorkflowResolution { active_workflows, workflow_fingerprint } => {
            let fields = started("prompt_workflow_resolution"@);
            let fields = put(fields, "active_workflows"@, Some(texts_value(active_workflows)));
            put(fields, "workflow_fingerprint"@, Some(JsonView::Text(workflow_fingerprint)))
        },
        EventView::PrefixSnapshot {
            version,
            fingerprint,
            dependency_fingerprint,
            system_prompt,
            tools_json,
        } => {
            let fields = started("prefix_snapshot"@);
            let fields = put(fields, "version"@, int_value(opt_int_u8(version)));
            let fields = put(fields, "fingerprint"@, Some(JsonView::Text(fingerprint)));
            let fields = put(
                fields,
                "dependency_fingerprint"@,
                Some(JsonView::Text(dependency_fingerprint)),
            );
            let fields = put(fields, "system_prompt"@, Some(JsonView::Text(system_prompt)));
            put(fields, "tools_json"@, Some(JsonView::Array(tools_json)))
        },
        EventView::Stop { reason } => {
            let fields = started("stop"@);
            put(fields, "reason"@, Some(JsonView::Text(reason)))
        },
        EventView::Error { version, message } => {
            let fields = started("error"@);
            let fields = put(fields, "version"@, int_value(opt_int_u8(version)));
            put(fields, "message"@, Some(JsonView::Text(message)))
        },
        EventView::Retry => started("retry"@),
    }
}

/// How an entry is written.
pub open spec fn event_json(event: EventView) -> JsonView {
    JsonView::Object(event_fields(event))
}

/// The text in a field.
pub open spec fn read_text(json: JsonView, name: Seq<char>) -> Option<Seq<char>> {
    match field_of(json, name) {
        Some(JsonView::Text(t)) => Some(t),
        _ => None,
    }
}

/// The number in a field.
pub open spec fn read_number(json: JsonView, name: Seq<char>) -> Option<Seq<char>> {
    match field_of(json, name) {
        Some(JsonView::Number(n)) => Some(n),
        _ => None,
    }
}

/// The text in a field, where there is one: `None` where it is something else.
pub open spec fn read_opt_text(json: JsonView, name: Seq<char>) -> Option<Option<Seq<char>>> {
    match field_of(json, name) {
        Some(JsonView::Text(t)) => Some(Some(t)),
        Some(JsonView::Null) => Some(None),
        None => Some(None),
        _ => None,
    }
}

/// The number in a field, where there is one: `None` where it is something else.
pub open spec fn read_opt_number(json: JsonView, name: Seq<char>) -> Option<Option<Seq<char>>> {
    match field_of(json, name) {
        Some(JsonView::Number(n)) => Some(Some(n)),
        Some(JsonView::Null) => Some(None),
        None => Some(None),
        _ => None,
    }
}

/// The whole number from `low` to `high` in a field.
pub open spec fn read_int(json: JsonView, name: Seq<char>, low: int, high: int) -> Option<int> {
    match field_of(json, name) {
        Some(JsonView::Number(text)) => match int_of_text(text) {
            Some(n) if low <= n <= high => Some(n),
            _ => None,
        },
        _ => None,
    }
}

/// The whole number from `low` to `high` in a field, where there is one: `None` where it is
/// something else.
pub open spec fn read_opt_int(json: JsonView, name: Seq<char>, low: int, high: int) -> Option<
    Option<int>,
> {
    match field_of(json, name) {
        Some(JsonView::Null) => Some(None),
        None => Some(None),
        _ => match read_int(json, name, low, high) {
            Some(n) => Some(Some(n)),
            None => None,
        },
    }
}

/// The number in a field.
pub open spec fn read_i64(json: JsonView, name: Seq<char>) -> Option<i64> {
    match read_int(json, name, i64::MIN as int, i64::MAX as int) {
        Some(n) => Some(n as i64),
        None => None,
    }
}

/// The number in a field.
pub open spec fn read_u32(json: JsonView, name: Seq<char>) -> Option<u32> {
    match read_int(json, name, 0, u32::MAX as int) {
        Some(n) => Some(n as u32),
        None => None,
    }
}

/// The number in a field, where there is one.
pub open spec fn read_opt_u8(json: JsonView, name: Seq<char>) -> Option<Option<u8>> {
    match read_opt_int(json, name, 0, u8::MAX as int) {
        Some(Some(n)) => Some(Some(n as u8)),
        Some(None) => Some(None),
        None => None,
    }
}

/// The number in a field, where there is one.
pub open spec fn read_opt_i32(json: JsonView, name: Seq<char>) -> Option<Option<i32>> {
    match read_opt_int(json, name, i32::MIN as int, i32::MAX as int) {
        Some(Some(n)) => Some(Some(n as i32)),
        Some(None) => Some(None),
        None => None,
    }
}

/// The number in a field, where there is one.
pub open spec fn read_opt_u64(json: JsonView, name: Seq<char>) -> Option<Option<u64>> {
    match read_opt_int(json, name, 0, u64::MAX as int) {
        Some(Some(n)) => Some(Some(n as u64)),
        Some(None) => Some(None),
        None => None,
    }
}

/// The value of a field, or null where there is none.
pub open spec fn read_or_null(json: JsonView, name: Seq<char>) -> JsonView {
    match field_of(json, name) {
        Some(v) => v,
        None => JsonView::Null,
    }
}

/// The items in a field.
pub open spec fn read_items(json: JsonView, name: Seq<char>) -> Option<Seq<JsonView>> {
    match field_of(json, name) {
        Some(JsonView::Array(items)) => Some(items),
        _ => None,
    }
}

/// The items in a field: none where there is no field, and `None` where it is something else.
pub open spec fn read_items_or_none(json: JsonView, name: Seq<char>) -> Option<Seq<JsonView>> {
    match field_of(json, name) {
        Some(JsonView::Array(items)) => Some(items),
        None => Some(seq![]),
        _ => None,
    }
}

/// Whether all items are texts.
pub open spec fn all_texts(items: Seq<JsonView>) -> bool {
    forall|i: int| 0 <= i < items.len() ==> (#[trigger] items[i]) is Text
}

/// The texts in a field.
pub open spec fn read_texts(json: JsonView, name: Seq<char>) -> Option<Seq<Seq<char>>> {
    match field_of(json, name) {
        Some(JsonView::Array(items)) if all_texts(items) => Some(
            items.map_values(|v: JsonView| v->Text_0),
        ),
        _ => None,
    }
}

/// The entry that a value is, where it is one.
pub open spec fn event_of(json: JsonView) -> Option<EventView> {
    let kind = field_text(json, "type"@);
    if kind == "user_input"@ {
        match (
            read_opt_u8(json, "version"@),
            read_text(json, "content"@),
        ) {
            (Some(version), Some(content)) => Some(
                EventView::UserInput { version, content },
            ),
            _ => None,
        }
    } else if kind == "thinking"@ {
        match (
            read_opt_u8(json, "version"@),
            read_text(json, "content"@),
        ) {
            (Some(version), Some(content)) => Some(
                EventView::Thinking { version, content },
            ),
            _ => None,
        }
    } else if kind == "text"@ {
        match (
            read_opt_u8(json, "version"@),
            read_text(json, "content"@),
        ) {
            (Some(version), Some(content)) => Some(
                EventView::Text { version, content },
            ),
            _ => None,
        }
    } else if kind == "tool_call"@ {
        match (
            read_opt_u8(json, "version"@),
            read_text(json, "name"@),
            read_text(json, "id"@),
            field_of(json, "input"@),
        ) {
            (Some(version), Some(name), Some(id), Some(input)) => Some(
                EventView::ToolCall { version, name, id, input },
            ),
            _ => None,
        }
    } else if kind == "tool_result"@ {
        match (
            read_opt_u8(json, "version"@),
            read_text(json, "tool_use_id"@),
            read_text(json, "name"@),
            read_text(json, "content"@),
            Some(read_or_null(json, "status"@)),
            read_opt_i32(json, "exit_code"@),
            Some(read_or_null(json, "result_kind"@)),
            Some(read_or_null(json, "presentation"@)),
            read_items_or_none(json, "artifacts"@),
        ) {
            (
                Some(version),
                Some(tool_use_id),
                Some(name),
                Some(content),
                Some(status),
                Some(exit_code),
                Some(result_kind),
                Some(presentation),
                Some(artifacts),
            ) => Some(
                EventView::ToolResult {
                    version,
                    tool_use_id,
                    name,
                    content,
                    status,
                    exit_code,
                    result_kind,
                    presentation,
                    artifacts,
                },
            ),
            _ => None,
        }
    } else if kind == "usage"@ {
        match (
            read_opt_u8(json, "version"@),
            read_i64(json, "input_tokens"@),
            read_i64(json, "output_tokens"@),
            read_i64(json, "cache_read_input_tokens"@),
            read_i64(json, "cache_creation_input_tokens"@),
            read_opt_u64(json, "context_tokens"@),
            read_opt_u64(json, "max_context"@),
            read_text(json, "kind"@),
        ) {
            (
                Some(version),
                Some(input_tokens),
                Some(output_tokens),
                Some(cache_read_input_tokens),
                Some(cache_creation_input_tokens),
                Some(context_tokens),
                Some(max_context),
                Some(kind),
            ) => Some(
                EventView::Usage {
                    version,
                    input_tokens,
                    output_tokens,
                    cache_read_input_tokens,
                    cache_creation_input_tokens,
                    context_tokens,
                    max_context,
                    kind,
                },
            ),
            _ => None,
        }
    } else if kind == "signal"@ {
        match (
            read_opt_u8(json, "version"@),
            read_text(json, "signal_kind"@),
            read_number(json, "severity"@),
            read_text(json, "source_tool"@),
            read_opt_i32(json, "exit_code"@),
            read_opt_text(json, "matched_pattern"@),
            read_text(json, "message"@),
        ) {
            (
                Some(version),
                Some(signal_kind),
                Some(severity),
                Some(source_tool),
                Some(exit_code),
                Some(matched_pattern),
                Some(message),
            ) => Some(
                EventView::Signal {
                    version,
                    signal_kind,
                    severity,
                    source_tool,
                    exit_code,
                    matched_pattern,
                    message,
                },
            ),
            _ => None,
        }
    } else if kind == "compact"@ {
        match (
            read_opt_u8(json, "version"@),
            read_text(json, "trigger"@),
            read_text(json, "result"@),
        ) {
            (Some(version), Some(trigger), Some(result)) => Some(
                EventView::Compact { version, trigger, result },
            ),
            _ => None,
        }
    } else if kind == "session_start"@ {
        match read_text(json, "session_id"@) {
            Some(session_id) => Some(EventView::SessionStart { session_id }),
            None => None,
        }
    } else if kind == "turn_start"@ {
        match (
            read_text(json, "model"@),
            read_opt_text(json, "model_alias"@),
            read_number(json, "belief"@),
            read_opt_text(json, "forced_model"@),
        ) {
            (Some(model), Some(model_alias), Some(belief), Some(forced_model)) => Some(
                EventView::TurnStart { model, model_alias, belief, forced_model },
            ),
            _ => None,
        }
    } else if kind == "turn_tracking"@ {
        match (
            read_opt_u8(json, "version"@),
            read_text(json, "decision"@),
            read_u32(json, "tool_call_count"@),
            read_u32(json, "tool_error_count"@),
            read_number(json, "belief"@),
            read_text(json, "model"@),
        ) {
            (
                Some(version),
                Some(decision),
                Some(tool_call_count),
                Some(tool_error_count),
                Some(belief),
                Some(model),
            ) => Some(
                EventView::TurnTracking {
                    version,
                    decision,
                    tool_call_count,
                    tool_error_count,
                    belief,
                    model,
                },
            ),
            _ => None,
        }
    } else if kind == "turn_error"@ {
        match (
            read_text(json, "error"@),
            read_text(json, "category"@),
            read_opt_text(json, "severity"@),
            read_opt_number(json, "belief"@),
            read_opt_text(json, "model"@),
            read_opt_u64(json, "elapsed_ms"@),
            read_opt_u64(json, "idle_ms"@),
        ) {
            (
                Some(error),
                Some(category),
                Some(severity),
                Some(belief),
                Some(model),
                Some(elapsed_ms),
                Some(idle_ms),
            ) => Some(
                EventView::TurnError {
                    error,
                    category,
                    severity,
                    belief,
                    model,
                    elapsed_ms,
                    idle_ms,
                },
            ),
            _ => None,
        }
    } else if kind == "sub_agent"@ {
        match (
            read_text(json, "session_id"@),
            read_text(json, "status"@),
            read_opt_u64(json, "input_tokens"@),
            read_opt_u64(json, "output_tokens"@),
        ) {
            (Some(session_id), Some(status), Some(input_tokens), Some(output_tokens)) => Some(
                EventView::SubAgent { session_id, status, input_tokens, output_tokens },
            ),
            _ => None,
        }
    } else if kind == "signal_handover"@ {
        match (
            read_number(json, "belief"@),
            read_texts(json, "edited_paths"@),
            read_text(json, "evidence"@),
            read_texts(json, "options"@),
        ) {
            (Some(belief), Some(edited_paths), Some(evidence), Some(options)) => Some(
                EventView::SignalHandover { belief, edited_paths, evidence, options },
            ),
            _ => None,
        }
    } else if kind == "prompt_workflow_resolution"@ {
        match (
            read_texts(json, "active_workflows"@),
            read_text(json, "workflow_fingerprint"@),
        ) {
            (Some(active_workflows), Some(workflow_fingerprint)) => Some(
                EventView::PromptWorkflowResolution { active_workflows, workflow_fingerprint },
            ),
            _ => None,
        }
    } else if kind == "prefix_snapshot"@ {
        match (
            read_opt_u8(json, "version"@),
            read_text(json, "fingerprint"@),
            read_text(json, "dependency_fingerprint"@),
            read_text(json, "system_prompt"@),
            read_items(json, "tools_json"@),
        ) {
            (
                Some(version),
                Some(fingerprint),
                Some(dependency_fingerprint),
                Some(system_prompt),
                Some(tools_json),
            ) => Some(
                EventView::PrefixSnapshot {
                    version,
                    fingerprint,
                    dependency_fingerprint,
                    system_prompt,
                    tools_json,
                },
            ),
            _ => None,
        }
    } else if kind == "stop"@ {
        match read_text(json, "reason"@) {
            Some(reason) => Some(EventView::Stop { reason }),
            None => None,
        }
    } else if kind == "error"@ {
        match (
            read_opt_u8(json, "version"@),
            read_text(json, "message"@),
        ) {
            (Some(version), Some(message)) => Some(
                EventView::Error { version, message },
            ),
            _ => None,
        }
    } else if kind == "retry"@ {
        Some(EventView::Retry)
    } else {
        None
    }
}

/// A number by which names can be told apart.
pub(crate) open spec fn name_code(name: Seq<char>) -> int {
    name.len() * 1000000 + name[0] as int * 1000 + name[(name.len() / 2) as int] as int
}

pub(crate) proof fn lemma_name_codes()
    ensures
        name_code("type"@) == 4116112,
        name_code("version"@) == 7118115,
        name_code("content"@) == 7099116,
        name_code("name"@) == 4110109,
        name_code("id"@) == 2105100,
        name_code("input"@) == 5105112,
        name_code("tool_use_id"@) == 11116117,
        name_code("status"@) == 6115116,
        name_code("exit_code"@) == 9101095,
        name_code("result_kind"@) == 11114116,
        name_code("presentation"@) == 12112116,
        name_code("artifacts"@) == 9097102,
        name_code("input_tokens"@) == 12105116,
        name_code("output_tokens"@) == 13111095,
        name_code("cache_read_input_tokens"@) == 23099105,
        name_code("cache_creation_input_tokens"@) == 27099110,
        name_code("context_tokens"@) == 14099095,
        name_code("max_context"@) == 11109111,
        name_code("kind"@) == 4107110,
        name_code("signal_kind"@) == 11115108,
        name_code("severity"@) == 8115114,
        name_code("source_tool"@) == 11115101,
        name_code("matched_pattern"@) == 15109095,
        name_code("message"@) == 7109115,
        name_code("trigger"@) == 7116103,
        name_code("result"@) == 6114117,
        name_code("session_id"@) == 10115111,
        name_code("model"@) == 5109100,
        name_code("model_alias"@) == 11109095,
        name_code("belief"@) == 6098105,
        name_code("forced_model"@) == 12102095,
        name_code("decision"@) == 8100115,
        name_code("tool_call_count"@) == 15116108,
        name_code("tool_error_count"@) == 16116111,
        name_code("error"@) == 5101114,
        name_code("category"@) == 8099103,
        name_code("elapsed_ms"@) == 10101101,
        name_code("idle_ms"@) == 7105101,
        name_code("edited_paths"@) == 12101095,
        name_code("evidence"@) == 8101101,
        name_code("options"@) == 7111105,
        name_code("active_workflows"@) == 16097111,
        name_code("workflow_fingerprint"@) == 20119105,
        name_code("fingerprint"@) == 11102114,
        name_code("dependency_fingerprint"@) == 22100102,
        name_code("system_prompt"@) == 13115095,
        name_code("tools_json"@) == 10116095,
        name_code("reason"@) == 6114115,
{
    reveal_strlit("type");
    reveal_strlit("version");
    reveal_strlit("content");
    reveal_strlit("name");
    reveal_strlit("id");
    reveal_strlit("input");
    reveal_strlit("tool_use_id");
    reveal_strlit("status");
    reveal_strlit("exit_code");
    reveal_strlit("result_kind");
    reveal_strlit("presentation");
    reveal_strlit("artifacts");
    reveal_strlit("input_tokens");
    reveal_strlit("output_tokens");
    reveal_strlit("cache_read_input_tokens");
    reveal_strlit("cache_creation_input_tokens");
    reveal_strlit("context_tokens");
    reveal_strlit("max_context");
    reveal_strlit("kind");
    reveal_strlit("signal_kind");
    reveal_strlit("severity");
    reveal_strlit("source_tool");
    reveal_strlit("matched_pattern");
    reveal_strlit("message");
    reveal_strlit("trigger");
    reveal_strlit("result");
    reveal_strlit("session_id");
    reveal_strlit("model");
    reveal_strlit("model_alias");
    reveal_strlit("belief");
    reveal_strlit("forced_model");
    reveal_strlit("decision");
    reveal_strlit("tool_call_count");
    reveal_strlit("tool_error_count");
    reveal_strlit("error");
    reveal_strlit("category");
    reveal_strlit("elapsed_ms");
    reveal_strlit("idle_ms");
    reveal_strlit("edited_paths");
    reveal_strlit("evidence");
    reveal_strlit("options");
    reveal_strlit("active_workflows");
    reveal_strlit("workflow_fingerprint");
    reveal_strlit("fingerprint");
    reveal_strlit("dependency_fingerprint");
    reveal_strlit("system_prompt");
    reveal_strlit("tools_json");
    reveal_strlit("reason");
}

pub(crate) proof fn lemma_kind_codes()
    ensures
        name_code("user_input"@) == 10117105,
        name_code("thinking"@) == 8116107,
        name_code("text"@) == 4116120,
        name_code("tool_call"@) == 9116095,
        name_code("tool_result"@) == 11116114,
        name_code("usage"@) == 5117097,
        name_code("signal"@) == 6115110,
        name_code("compact"@) == 7099112,
        name_code("session_start"@) == 13115110,
        name_code("turn_start"@) == 10116115,
        name_code("turn_tracking"@) == 13116114,
        name_code("turn_error"@) == 10116101,
        name_code("sub_agent"@) == 9115097,
        name_code("signal_handover"@) == 15115104,
        name_code("prompt_workflow_resolution"@) == 26112111,
        name_code("prefix_snapshot"@) == 15112115,
        name_code("stop"@) == 4115111,
        name_code("error"@) == 5101114,
        name_code("retry"@) == 5114116,
{
    reveal_strlit("user_input");
    reveal_strlit("thinking");
    reveal_strlit("text");
    reveal_strlit("tool_call");
    reveal_strlit("tool_result");
    reveal_strlit("usage");
    reveal_strlit("signal");
    reveal_strlit("compact");
    reveal_strlit("session_start");
    reveal_strlit("turn_start");
    reveal_strlit("turn_tracking");
    reveal_strlit("turn_error");
    reveal_strlit("sub_agent");
    reveal_strlit("signal_handover");
    reveal_strlit("prompt_workflow_resolution");
    reveal_strlit("prefix_snapshot");
    reveal_strlit("stop");
    reveal_strlit("error");
    reveal_strlit("retry");
}

} // verus!
