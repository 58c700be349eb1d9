//! What holds of the log.

use crate::events::entry::EventView;
use crate::events::model::{
    all_texts, event_json, event_of, int_of_text, int_text, int_value, lemma_kind_codes,
    lemma_name_codes, opt_int_u64, opt_int_u8, put, started, texts_value,
};
use crate::json::{
    field_of, field_text, set_field_is_read, set_field_keeps_others, FieldView, JsonView,
};
use crate::text::{decimal, digits_value, is_digits};
use vstd::prelude::*;

verus! {

pub(crate) broadcast proof fn lemma_put(
    fields: Seq<FieldView>,
    name: Seq<char>,
    value: Option<JsonView>,
    other: Seq<char>,
)
    ensures
        #[trigger] field_of(JsonView::Object(put(fields, name, value)), other) == if other == name
            && value is Some {
            value
        } else {
            field_of(JsonView::Object(fields), other)
        },
{
    if value is Some {
        set_field_is_read(fields, name, value->Some_0);
        if other != name {
            set_field_keeps_others(fields, name, value->Some_0, other);
        }
    }
}

pub(crate) broadcast proof fn lemma_started(kind: Seq<char>, name: Seq<char>)
    ensures
        #[trigger] field_of(JsonView::Object(started(kind)), name) == if name == "type"@ {
            Some(JsonView::Text(kind))
        } else {
            None
        },
{
    crate::json::lemma_field_place(started(kind), name);
    assert(started(kind)[0].name == "type"@);
}

proof fn lemma_decimal(n: nat)
    ensures
        is_digits(decimal(n)),
        digits_value(decimal(n)) == n,
        decimal(n).len() == 1 || decimal(n)[0] != '0',
        n > 0 ==> decimal(n)[0] != '0',
    decreases n,
{
    reveal_with_fuel(digits_value, 2);
    if n >= 10 {
        lemma_decimal(n / 10);
        assert(decimal(n).drop_last() =~= decimal(n / 10));
    } else {
        assert(decimal(n).drop_last().len() == 0);
    }
}

/// A whole number that is written is read again.
proof fn lemma_int_text(n: int)
    requires
        -(u64::MAX as int) <= n <= u64::MAX,
    ensures
        int_of_text(int_text(n)) == Some(n),
{
    reveal_strlit("-");
    if n < 0 {
        lemma_decimal((-n) as nat);
        assert(int_text(n).drop_first() =~= decimal((-n) as nat));
    } else {
        lemma_decimal(n as nat);
        assert(decimal(n as nat)[0] != '-');
    }
}

broadcast proof fn lemma_int_read(n: int)
    requires
        -(u64::MAX as int) <= n <= u64::MAX,
    ensures
        int_of_text(#[trigger] int_text(n)) == Some(n),
{
    lemma_int_text(n);
}

broadcast proof fn lemma_texts_read(texts: Seq<Seq<char>>)
    ensures
        all_texts((#[trigger] texts_value(texts))->Array_0),
        texts_value(texts)->Array_0.map_values(|v: JsonView| v->Text_0) == texts,
{
    assert(texts_value(texts)->Array_0.map_values(|v: JsonView| v->Text_0) =~= texts);
}

proof fn lemma_back_user_input(event: EventView)
    requires
        event is UserInput,
    ensures
        event_of(event_json(event)) == Some(event),
{
    broadcast use {lemma_put, lemma_started, lemma_int_read, lemma_texts_read};

    lemma_name_codes();
    lemma_kind_codes();
    assert(field_text(event_json(event), "type"@) == "user_input"@);
}

proof fn lemma_back_thinking(event: EventView)
    requires
        event is Thinking,
    ensures
        event_of(event_json(event)) == Some(event),
{
    broadcast use {lemma_put, lemma_started, lemma_int_read, lemma_texts_read};

    lemma_name_codes();
    lemma_kind_codes();
    assert(field_text(event_json(event), "type"@) == "thinking"@);
}

proof fn lemma_back_text(event: EventView)
    requires
        event is Text,
    ensures
        event_of(event_json(event)) == Some(event),
{
    broadcast use {lemma_put, lemma_started, lemma_int_read, lemma_texts_read};

    lemma_name_codes();
    lemma_kind_codes();
    assert(field_text(event_json(event), "type"@) == "text"@);
}

proof fn lemma_back_tool_call(event: EventView)
    requires
        event is ToolCall,
    ensures
        event_of(event_json(event)) == Some(event),
{
    broadcast use {lemma_put, lemma_started, lemma_int_read, lemma_texts_read};

    lemma_name_codes();
    lemma_kind_codes();
    assert(field_text(event_json(event), "type"@) == "tool_call"@);
}

proof fn lemma_back_tool_result(event: EventView)
    requires
        event is ToolResult,
    ensures
        event_of(event_json(event)) == Some(event),
{
    broadcast use {lemma_put, lemma_started, lemma_int_read, lemma_texts_read};

    lemma_name_codes();
    lemma_kind_codes();
    assert(field_text(event_json(event), "type"@) == "tool_result"@);
}

proof fn lemma_usage_fields(event: EventView)
    requires
        event is Usage,
    ensures
        ({
            let json = event_json(event);
            &&& field_text(json, "type"@) == "usage"@
            &&& field_of(json, "version"@) == int_value(opt_int_u8(event->Usage_version))
            &&& field_of(json, "input_tokens"@) == int_value(Some(event->Usage_input_tokens as int))
            &&& field_of(json, "output_tokens"@) == int_value(
                Some(event->Usage_output_tokens as int),
            )
            &&& field_of(json, "cache_read_input_tokens"@) == int_value(
                Some(event->cache_read_input_tokens as int),
            )
            &&& field_of(json, "cache_creation_input_tokens"@) == int_value(
                Some(event->cache_creation_input_tokens as int),
            )
            &&& field_of(json, "context_tokens"@) == int_value(opt_int_u64(event->context_tokens))
            &&& field_of(json, "max_context"@) == int_value(opt_int_u64(event->max_context))
            &&& field_of(json, "kind"@) == Some(JsonView::Text(event->kind))
        }),
{
    broadcast use {lemma_put, lemma_started};

    lemma_name_codes();
}

proof fn lemma_back_usage(event: EventView)
    requires
        event is Usage,
    ensures
        event_of(event_json(event)) == Some(event),
{
    broadcast use lemma_int_read;

    lemma_kind_codes();
    lemma_usage_fields(event);
}

proof fn lemma_back_signal(event: EventView)
    requires
        event is Signal,
    ensures
        event_of(event_json(event)) == Some(event),
{
    broadcast use {lemma_put, lemma_started, lemma_int_read, lemma_texts_read};

    lemma_name_codes();
    lemma_kind_codes();
    assert(field_text(event_json(event), "type"@) == "signal"@);
}

proof fn lemma_back_compact(event: EventView)
    requires
        event is Compact,
    ensures
        event_of(event_json(event)) == Some(event),
{
    broadcast use {lemma_put, lemma_started, lemma_int_read, lemma_texts_read};

    lemma_name_codes();
    lemma_kind_codes();
    assert(field_text(event_json(event), "type"@) == "compact"@);
}

proof fn lemma_back_session_start(event: EventView)
    requires
        event is SessionStart,
    ensures
        event_of(event_json(event)) == Some(event),
{
    broadcast use {lemma_put, lemma_started, lemma_int_read, lemma_texts_read};

    lemma_name_codes();
    lemma_kind_codes();
    assert(field_text(event_json(event), "type"@) == "session_start"@);
}

proof fn lemma_back_turn_start(event: EventView)
    requires
        event is TurnStart,
    ensures
        event_of(event_json(event)) == Some(event),
{
    broadcast use {lemma_put, lemma_started, lemma_int_read, lemma_texts_read};

    lemma_name_codes();
    lemma_kind_codes();
    assert(field_text(event_json(event), "type"@) == "turn_start"@);
}

proof fn lemma_back_turn_tracking(event: EventView)
    requires
        event is TurnTracking,
    ensures
        event_of(event_json(event)) == Some(event),
{
    broadcast use {lemma_put, lemma_started, lemma_int_read, lemma_texts_read};

    lemma_name_codes();
    lemma_kind_codes();
    assert(field_text(event_json(event), "type"@) == "turn_tracking"@);
}

proof fn lemma_back_turn_error(event: EventView)
    requires
        event is TurnError,
    ensures
        event_of(event_json(event)) == Some(event),
{
    broadcast use {lemma_put, lemma_started, lemma_int_read, lemma_texts_read};

    lemma_name_codes();
    lemma_kind_codes();
    assert(field_text(event_json(event), "type"@) == "turn_error"@);
}

proof fn lemma_back_sub_agent(event: EventView)
    requires
        event is SubAgent,
    ensures
        event_of(event_json(event)) == Some(event),
{
    broadcast use {lemma_put, lemma_started, lemma_int_read, lemma_texts_read};

    lemma_name_codes();
    lemma_kind_codes();
    assert(field_text(event_json(event), "type"@) == "sub_agent"@);
}

proof fn lemma_back_signal_handover(event: EventView)
    requires
        event is SignalHandover,
    ensures
        event_of(event_json(event)) == Some(event),
{
    broadcast use {lemma_put, lemma_started, lemma_int_read, lemma_texts_read};

    lemma_name_codes();
    lemma_kind_codes();
    assert(field_text(event_json(event), "type"@) == "signal_handover"@);
}

proof fn lemma_back_prompt_workflow_resolution(event: EventView)
    requires
        event is PromptWorkflowResolution,
    ensures
        event_of(event_json(event)) == Some(event),
{
    broadcast use {lemma_put, lemma_started, lemma_int_read, lemma_texts_read};

    lemma_name_codes();
    lemma_kind_codes();
    assert(field_text(event_json(event), "type"@) == "prompt_workflow_resolution"@);
}

proof fn lemma_back_prefix_snapshot(event: EventView)
    requires
        event is PrefixSnapshot,
    ensures
        event_of(event_json(event)) == Some(event),
{
    broadcast use {lemma_put, lemma_started, lemma_int_read, lemma_texts_read};

    lemma_name_codes();
    lemma_kind_codes();
    assert(field_text(event_json(event), "type"@) == "prefix_snapshot"@);
}

proof fn lemma_back_stop(event: EventView)
    requires
        event is Stop,
    ensures
        event_of(event_json(event)) == Some(event),
{
    broadcast use {lemma_put, lemma_started, lemma_int_read, lemma_texts_read};

    lemma_name_codes();
    lemma_kind_codes();
    assert(field_text(event_json(event), "type"@) == "stop"@);
}

proof fn lemma_back_error(event: EventView)
    requires
        event is Error,
    ensures
        event_of(event_json(event)) == Some(event),
{
    broadcast use {lemma_put, lemma_started, lemma_int_read, lemma_texts_read};

    lemma_name_codes();
    lemma_kind_codes();
    assert(field_text(event_json(event), "type"@) == "error"@);
}

proof fn lemma_back_retry(event: EventView)
    requires
        event is Retry,
    ensures
        event_of(event_json(event)) == Some(event),
{
    broadcast use {lemma_put, lemma_started, lemma_int_read, lemma_texts_read};

    lemma_name_codes();
    lemma_kind_codes();
    assert(field_text(event_json(event), "type"@) == "retry"@);
}

/// What is written to the log can be read again: the entry that is read is the one that was
/// written.
pub proof fn log_is_read_back(event: EventView)
    ensures
        event_of(event_json(event)) == Some(event),
{
    match event {
        EventView::UserInput { .. } => lemma_back_user_input(event),
        EventView::Thinking { .. } => lemma_back_thinking(event),
        EventView::Text { .. } => lemma_back_text(event),
        EventView::ToolCall { .. } => lemma_back_tool_call(event),
        EventView::ToolResult { .. } => lemma_back_tool_result(event),
        EventView::Usage { .. } => lemma_back_usage(event),
        EventView::Signal { .. } => lemma_back_signal(event),
        EventView::Compact { .. } => lemma_back_compact(event),
        EventView::SessionStart { .. } => lemma_back_session_start(event),
        EventView::TurnStart { .. } => lemma_back_turn_start(event),
        EventView::TurnTracking { .. } => lemma_back_turn_tracking(event),
        EventView::TurnError { .. } => lemma_back_turn_error(event),
        EventView::SubAgent { .. } => lemma_back_sub_agent(event),
        EventView::SignalHandover { .. } => lemma_back_signal_handover(event),
        EventView::PromptWorkflowResolution { .. } => lemma_back_prompt_workflow_resolution(event),
        EventView::PrefixSnapshot { .. } => lemma_back_prefix_snapshot(event),
        EventView::Stop { .. } => lemma_back_stop(event),
        EventView::Error { .. } => lemma_back_error(event),
        EventView::Retry => lemma_back_retry(event),
    }
}

} // verus!
