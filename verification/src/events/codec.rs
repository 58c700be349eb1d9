//! Writing and reading entries.

use crate::events::entry::{event_views, EventLog};
use crate::events::model::{
    event_fields, event_json, event_of, int_of_text, int_text, int_value, lemma_kind_codes,
    number_value, opt_int_i32, opt_int_u64, opt_int_u8, or_null, put, read_i64, read_int, read_items,
    read_items_or_none, read_number, read_opt_i32, read_opt_int, read_opt_number, read_opt_text,
    read_opt_u64, read_opt_u8, read_or_null, read_text, read_texts, read_u32, started, text_value,
    texts_value,
};
use crate::json::{
    clone_items, field_of, field_text, field_views, json_views, lemma_array_view,
    lemma_object_view, set_field, Json, JsonField, JsonView,
};
use crate::text::{
    decimal_of, opt_view, parse_digits, same_text, starts_with, strip_prefix, views,
};
use vstd::prelude::*;

verus! {

fn start(kind: &str) -> (r: Vec<JsonField>)
    ensures
        field_views(r@) == started(kind@),
{
    let r: Vec<JsonField> = vec![
        JsonField { name: "type".to_owned(), value: Json::Text(kind.to_owned()) },
    ];
    assert(field_views(r@) =~= started(kind@));
    r
}

fn put_field(fields: &mut Vec<JsonField>, name: &str, value: Option<Json>)
    ensures
        field_views(final(fields)@) == put(
            field_views(old(fields)@),
            name@,
            match value {
                Some(v) => Some(v@),
                None => None,
            },
        ),
{
    match value {
        Some(v) => {
            set_field(fields, name, v);
        },
        None => {},
    }
}

fn write_int(n: i128) -> (r: Json)
    requires
        -(u64::MAX as int) <= n <= u64::MAX,
    ensures
        r@ == JsonView::Number(int_text(n as int)),
{
    if n < 0 {
        let size: i128 = -n;
        Json::Number("-".to_owned().concat(decimal_of(size as u64).as_str()))
    } else {
        Json::Number(decimal_of(n as u64))
    }
}

fn write_u8(n: &Option<u8>) -> (r: Option<Json>)
    ensures
        match r {
            Some(v) => int_value(opt_int_u8(*n)) == Some(v@),
            None => int_value(opt_int_u8(*n)) is None,
        },
{
    match n {
        Some(n) => Some(write_int(*n as i128)),
        None => None,
    }
}

fn write_i32(n: &Option<i32>) -> (r: Option<Json>)
    ensures
        match r {
            Some(v) => int_value(opt_int_i32(*n)) == Some(v@),
            None => int_value(opt_int_i32(*n)) is None,
        },
{
    match n {
        Some(n) => Some(write_int(*n as i128)),
        None => None,
    }
}

fn write_u64(n: &Option<u64>) -> (r: Option<Json>)
    ensures
        match r {
            Some(v) => int_value(opt_int_u64(*n)) == Some(v@),
            None => int_value(opt_int_u64(*n)) is None,
        },
{
    match n {
        Some(n) => Some(write_int(*n as i128)),
        None => None,
    }
}

fn write_text(text: &Option<String>) -> (r: Option<Json>)
    ensures
        match r {
            Some(v) => text_value(opt_view(*text)) == Some(v@),
            None => text_value(opt_view(*text)) is None,
        },
{
    match text {
        Some(t) => Some(Json::Text(t.clone())),
        None => None,
    }
}

fn written_or_null(value: Option<Json>) -> (r: Json)
    ensures
        r@ == or_null(
            match value {
                Some(v) => Some(v@),
                None => None,
            },
        ),
{
    match value {
        Some(v) => v,
        None => Json::Null,
    }
}

fn write_number(number: &Option<String>) -> (r: Option<Json>)
    ensures
        match r {
            Some(v) => number_value(opt_view(*number)) == Some(v@),
            None => number_value(opt_view(*number)) is None,
        },
{
    match number {
        Some(n) => Some(Json::Number(n.clone())),
        None => None,
    }
}

fn write_items(items: &Vec<Json>) -> (r: Json)
    ensures
        r@ == JsonView::Array(json_views(items@)),
{
    let copies: Vec<Json> = clone_items(items);
    proof {
        lemma_array_view(copies);
    }
    Json::Array(copies)
}

fn write_texts(texts: &Vec<String>) -> (r: Json)
    ensures
        r@ == texts_value(views(texts@)),
{
    let ghost all = texts_value(views(texts@))->Array_0;
    let mut items: Vec<Json> = Vec::new();
    let mut i: usize = 0;
    assert(json_views(items@) =~= all.take(0));
    while i < texts.len()
        invariant
            i <= texts@.len(),
            all == texts_value(views(texts@))->Array_0,
            json_views(items@) == all.take(i as int),
        decreases texts@.len() - i,
    {
        let ghost before = items@;
        let item: Json = Json::Text(texts[i].clone());
        items.push(item);
        proof {
            assert(all[i as int] == item@);
            assert(json_views(items@) =~= json_views(before).push(item@));
            assert(all.take(i + 1) =~= all.take(i as int).push(all[i as int]));
        }
        i += 1;
    }
    proof {
        assert(all.take(i as int) =~= all);
        lemma_array_view(items);
    }
    Json::Array(items)
}

fn take_text(json: &Json, name: &str) -> (r: Option<String>)
    ensures
        opt_view(r) == read_text(json@, name@),
{
    match json.get(name) {
        Some(Json::Text(t)) => Some(t.clone()),
        _ => None,
    }
}

fn take_number(json: &Json, name: &str) -> (r: Option<String>)
    ensures
        opt_view(r) == read_number(json@, name@),
{
    match json.get(name) {
        Some(Json::Number(n)) => Some(n.clone()),
        _ => None,
    }
}

fn take_opt_text(json: &Json, name: &str) -> (r: Option<Option<String>>)
    ensures
        match r {
            Some(t) => read_opt_text(json@, name@) == Some(opt_view(t)),
            None => read_opt_text(json@, name@) is None,
        },
{
    match json.get(name) {
        Some(Json::Text(t)) => Some(Some(t.clone())),
        Some(Json::Null) => Some(None),
        None => Some(None),
        _ => None,
    }
}

fn take_opt_number(json: &Json, name: &str) -> (r: Option<Option<String>>)
    ensures
        match r {
            Some(t) => read_opt_number(json@, name@) == Some(opt_view(t)),
            None => read_opt_number(json@, name@) is None,
        },
{
    match json.get(name) {
        Some(Json::Number(n)) => Some(Some(n.clone())),
        Some(Json::Null) => Some(None),
        None => Some(None),
        _ => None,
    }
}

fn parse_int(text: &str) -> (r: Option<i128>)
    ensures
        match r {
            Some(n) => int_of_text(text@) == Some(n as int) && -(u64::MAX as int) <= n <= u64::MAX,
            None => int_of_text(text@) is None,
        },
{
    proof {
        reveal_strlit("-");
        reveal_strlit("0");
    }
    match strip_prefix(text, "-") {
        Some(rest) => {
            assert(rest@ =~= text@.drop_first());
            assert(text@[0] == "-"@[0]);
            if starts_with(rest.as_str(), "0") {
                assert(rest@[0] == "0"@[0]);
                return None;
            }
            proof {
                if rest@.len() > 0 && rest@[0] == '0' {
                    assert(rest@.take(1) =~= "0"@);
                }
            }
            match parse_digits(rest.as_str()) {
                Some(n) => Some(-(n as i128)),
                None => None,
            }
        },
        None => {
            proof {
                if text@.len() > 0 && text@[0] == '-' {
                    assert(text@.take(1) =~= "-"@);
                }
            }
            if starts_with(text, "0") && text.unicode_len() > 1 {
                assert(text@[0] == "0"@[0]);
                return None;
            }
            proof {
                if text@.len() > 0 && text@[0] == '0' {
                    assert(text@.take(1) =~= "0"@);
                }
            }
            match parse_digits(text) {
                Some(n) => Some(n as i128),
                None => None,
            }
        },
    }
}

fn take_int(json: &Json, name: &str, low: i128, high: i128) -> (r: Option<i128>)
    ensures
        match r {
            Some(n) => read_int(json@, name@, low as int, high as int) == Some(n as int),
            None => read_int(json@, name@, low as int, high as int) is None,
        },
{
    match json.get(name) {
        Some(Json::Number(text)) => match parse_int(text.as_str()) {
            Some(n) => if low <= n && n <= high {
                Some(n)
            } else {
                None
            },
            None => None,
        },
        _ => None,
    }
}

fn take_opt_int(json: &Json, name: &str, low: i128, high: i128) -> (r: Option<Option<i128>>)
    ensures
        match r {
            Some(Some(n)) => read_opt_int(json@, name@, low as int, high as int) == Some(
                Some(n as int),
            ),
            Some(None) => read_opt_int(json@, name@, low as int, high as int) == Some(None::<int>),
            None => read_opt_int(json@, name@, low as int, high as int) is None,
        },
{
    match json.get(name) {
        Some(Json::Null) => {
            return Some(None);
        },
        None => {
            return Some(None);
        },
        _ => {},
    }
    match take_int(json, name, low, high) {
        Some(n) => Some(Some(n)),
        None => None,
    }
}

fn take_i64(json: &Json, name: &str) -> (r: Option<i64>)
    ensures
        r == read_i64(json@, name@),
{
    match take_int(json, name, i64::MIN as i128, i64::MAX as i128) {
        Some(n) => Some(n as i64),
        None => None,
    }
}

fn take_u32(json: &Json, name: &str) -> (r: Option<u32>)
    ensures
        r == read_u32(json@, name@),
{
    match take_int(json, name, 0, u32::MAX as i128) {
        Some(n) => Some(n as u32),
        None => None,
    }
}

fn take_opt_u8(json: &Json, name: &str) -> (r: Option<Option<u8>>)
    ensures
        r == read_opt_u8(json@, name@),
{
    match take_opt_int(json, name, 0, u8::MAX as i128) {
        Some(Some(n)) => Some(Some(n as u8)),
        Some(None) => Some(None),
        None => None,
    }
}

fn take_opt_i32(json: &Json, name: &str) -> (r: Option<Option<i32>>)
    ensures
        r == read_opt_i32(json@, name@),
{
    match take_opt_int(json, name, i32::MIN as i128, i32::MAX as i128) {
        Some(Some(n)) => Some(Some(n as i32)),
        Some(None) => Some(None),
        None => None,
    }
}

fn take_opt_u64(json: &Json, name: &str) -> (r: Option<Option<u64>>)
    ensures
        r == read_opt_u64(json@, name@),
{
    match take_opt_int(json, name, 0, u64::MAX as i128) {
        Some(Some(n)) => Some(Some(n as u64)),
        Some(None) => Some(None),
        None => None,
    }
}

fn take_value(json: &Json, name: &str) -> (r: Option<Json>)
    ensures
        match r {
            Some(v) => field_of(json@, name@) == Some(v@),
            None => field_of(json@, name@) is None,
        },
{
    match json.get(name) {
        Some(v) => Some(v.copy()),
        None => None,
    }
}

fn take_or_null(json: &Json, name: &str) -> (r: Json)
    ensures
        r@ == read_or_null(json@, name@),
{
    match json.get(name) {
        Some(v) => v.copy(),
        None => Json::Null,
    }
}

fn take_items(json: &Json, name: &str) -> (r: Option<Vec<Json>>)
    ensures
        match r {
            Some(items) => read_items(json@, name@) == Some(json_views(items@)),
            None => read_items(json@, name@) is None,
        },
{
    match json.get(name) {
        Some(Json::Array(items)) => {
            proof {
                lemma_array_view(*items);
            }
            Some(clone_items(items))
        },
        _ => None,
    }
}

fn take_items_or_none(json: &Json, name: &str) -> (r: Option<Vec<Json>>)
    ensures
        match r {
            Some(items) => read_items_or_none(json@, name@) == Some(json_views(items@)),
            None => read_items_or_none(json@, name@) is None,
        },
{
    match json.get(name) {
        None => {
            let none: Vec<Json> = Vec::new();
            assert(json_views(none@) =~= seq![]);
            Some(none)
        },
        _ => take_items(json, name),
    }
}

fn take_texts(json: &Json, name: &str) -> (r: Option<Vec<String>>)
    ensures
        match r {
            Some(texts) => read_texts(json@, name@) == Some(views(texts@)),
            None => read_texts(json@, name@) is None,
        },
{
    match json.get(name) {
        Some(Json::Array(items)) => {
            proof {
                lemma_array_view(*items);
            }
            let ghost all = json_views(items@);
            let ghost texts = all.map_values(|v: JsonView| v->Text_0);
            let mut out: Vec<String> = Vec::new();
            let mut i: usize = 0;
            assert(views(out@) =~= texts.take(0));
            while i < items.len()
                invariant
                    i <= items@.len(),
                    all == json_views(items@),
                    texts == all.map_values(|v: JsonView| v->Text_0),
                    views(out@) == texts.take(i as int),
                    forall|k: int| 0 <= k < i ==> (#[trigger] all[k]) is Text,
                    field_of(json@, name@) == Some(JsonView::Array(all)),
                decreases items@.len() - i,
            {
                assert(all[i as int] == items@[i as int]@);
                match &items[i] {
                    Json::Text(t) => {
                        let ghost before = out@;
                        out.push(t.clone());
                        proof {
                            assert(views(out@) =~= views(before).push(t@));
                            assert(texts.take(i + 1) =~= texts.take(i as int).push(
                                texts[i as int],
                            ));
                        }
                    },
                    _ => {
                        return None;
                    },
                }
                i += 1;
            }
            assert(texts.take(i as int) =~= texts);
            Some(out)
        },
        _ => None,
    }
}

fn parse_user_input(json: &Json) -> (r: Option<EventLog>)
    requires
        field_text(json@, "type"@) == "user_input"@,
    ensures
        event_views(r) == event_of(json@),
{
    proof {
        lemma_kind_codes();
    }
    let version: Option<u8> = match take_opt_u8(json, "version") {
        Some(v) => v,
        None => {
            return None;
        },
    };
    let content: String = match take_text(json, "content") {
        Some(v) => v,
        None => {
            return None;
        },
    };
    Some(EventLog::UserInput { version, content })
}

fn parse_thinking(json: &Json) -> (r: Option<EventLog>)
    requires
        field_text(json@, "type"@) == "thinking"@,
    ensures
        event_views(r) == event_of(json@),
{
    proof {
        lemma_kind_codes();
    }
    let version: Option<u8> = match take_opt_u8(json, "version") {
        Some(v) => v,
        None => {
            return None;
        },
    };
    let content: String = match take_text(json, "content") {
        Some(v) => v,
        None => {
            return None;
        },
    };
    Some(EventLog::Thinking { version, content })
}

fn parse_text(json: &Json) -> (r: Option<EventLog>)
    requires
        field_text(json@, "type"@) == "text"@,
    ensures
        event_views(r) == event_of(json@),
{
    proof {
        lemma_kind_codes();
    }
    let version: Option<u8> = match take_opt_u8(json, "version") {
        Some(v) => v,
        None => {
            return None;
        },
    };
    let content: String = match take_text(json, "content") {
        Some(v) => v,
        None => {
            return None;
        },
    };
    Some(EventLog::Text { version, content })
}

fn parse_tool_call(json: &Json) -> (r: Option<EventLog>)
    requires
        field_text(json@, "type"@) == "tool_call"@,
    ensures
        event_views(r) == event_of(json@),
{
    proof {
        lemma_kind_codes();
    }
    let version: Option<u8> = match take_opt_u8(json, "version") {
        Some(v) => v,
        None => {
            return None;
        },
    };
    let name: String = match take_text(json, "name") {
        Some(v) => v,
        None => {
            return None;
        },
    };
    let id: String = match take_text(json, "id") {
        Some(v) => v,
        None => {
            return None;
        },
    };
    let input: Json = match take_value(json, "input") {
        Some(v) => v,
        None => {
            return None;
        },
    };
    Some(EventLog::ToolCall { version, name, id, input })
}

fn parse_tool_result(json: &Json) -> (r: Option<EventLog>)
    requires
        field_text(json@, "type"@) == "tool_result"@,
    ensures
        event_views(r) == event_of(json@),
{
    proof {
        lemma_kind_codes();
    }
    let version: Option<u8> = match take_opt_u8(json, "version") {
        Some(v) => v,
        None => {
            return None;
        },
    };
    let tool_use_id: String = match take_text(json, "tool_use_id") {
        Some(v) => v,
        None => {
            return None;
        },
    };
    let name: String = match take_text(json, "name") {
        Some(v) => v,
        None => {
            return None;
        },
    };
    let content: String = match take_text(json, "content") {
        Some(v) => v,
        None => {
            return None;
        },
    };
    let status: Json = match Some(take_or_null(json, "status")) {
        Some(v) => v,
        None => {
            return None;
        },
    };
    let exit_code: Option<i32> = match take_opt_i32(json, "exit_code") {
        Some(v) => v,
        None => {
            return None;
        },
    };
    let result_kind: Json = match Some(take_or_null(json, "result_kind")) {
        Some(v) => v,
        None => {
            return None;
        },
    };
    let presentation: Json = match Some(take_or_null(json, "presentation")) {
        Some(v) => v,
        None => {
            return None;
        },
    };
    let artifacts: Vec<Json> = match take_items_or_none(json, "artifacts") {
        Some(v) => v,
        None => {
            return None;
        },
    };
    Some(EventLog::ToolResult {
        version,
        tool_use_id,
        name,
        content,
        status,
        exit_code,
        result_kind,
        presentation,
        artifacts,
    })
}

fn parse_usage(json: &Json) -> (r: Option<EventLog>)
    requires
        field_text(json@, "type"@) == "usage"@,
    ensures
        event_views(r) == event_of(json@),
{
    proof {
        lemma_kind_codes();
    }
    let version: Option<u8> = match take_opt_u8(json, "version") {
        Some(v) => v,
        None => {
            return None;
        },
    };
    let input_tokens: i64 = match take_i64(json, "input_tokens") {
        Some(v) => v,
        None => {
            return None;
        },
    };
    let output_tokens: i64 = match take_i64(json, "output_tokens") {
        Some(v) => v,
        None => {
            return None;
        },
    };
    let cache_read_input_tokens: i64 = match take_i64(json, "cache_read_input_tokens") {
        Some(v) => v,
        None => {
            return None;
        },
    };
    let cache_creation_input_tokens: i64 = match take_i64(json, "cache_creation_input_tokens") {
        Some(v) => v,
        None => {
            return None;
        },
    };
    let context_tokens: Option<u64> = match take_opt_u64(json, "context_tokens") {
        Some(v) => v,
        None => {
            return None;
        },
    };
    let max_context: Option<u64> = match take_opt_u64(json, "max_context") {
        Some(v) => v,
        None => {
            return None;
        },
    };
    let kind: String = match take_text(json, "kind") {
        Some(v) => v,
        None => {
            return None;
        },
    };
    Some(EventLog::Usage {
        version,
        input_tokens,
        output_tokens,
        cache_read_input_tokens,
        cache_creation_input_tokens,
        context_tokens,
        max_context,
        kind,
    })
}

fn parse_signal(json: &Json) -> (r: Option<EventLog>)
    requires
        field_text(json@, "type"@) == "signal"@,
    ensures
        event_views(r) == event_of(json@),
{
    proof {
        lemma_kind_codes();
    }
    let version: Option<u8> = match take_opt_u8(json, "version") {
        Some(v) => v,
        None => {
            return None;
        },
    };
    let signal_kind: String = match take_text(json, "signal_kind") {
        Some(v) => v,
        None => {
            return None;
        },
    };
    let severity: String = match take_number(json, "severity") {
        Some(v) => v,
        None => {
            return None;
        },
    };
    let source_tool: String = match take_text(json, "source_tool") {
        Some(v) => v,
        None => {
            return None;
        },
    };
    let exit_code: Option<i32> = match take_opt_i32(json, "exit_code") {
        Some(v) => v,
        None => {
            return None;
        },
    };
    let matched_pattern: Option<String> = match take_opt_text(json, "matched_pattern") {
        Some(v) => v,
        None => {
            return None;
        },
    };
    let message: String = match take_text(json, "message") {
        Some(v) => v,
        None => {
            return None;
        },
    };
    Some(EventLog::Signal {
        version,
        signal_kind,
        severity,
        source_tool,
        exit_code,
        matched_pattern,
        message,
    })
}

fn parse_compact(json: &Json) -> (r: Option<EventLog>)
    requires
        field_text(json@, "type"@) == "compact"@,
    ensures
        event_views(r) == event_of(json@),
{
    proof {
        lemma_kind_codes();
    }
    let version: Option<u8> = match take_opt_u8(json, "version") {
        Some(v) => v,
        None => {
            return None;
        },
    };
    let trigger: String = match take_text(json, "trigger") {
        Some(v) => v,
        None => {
            return None;
        },
    };
    let result: String = match take_text(json, "result") {
        Some(v) => v,
        None => {
            return None;
        },
    };
    Some(EventLog::Compact { version, trigger, result })
}

fn parse_session_start(json: &Json) -> (r: Option<EventLog>)
    requires
        field_text(json@, "type"@) == "session_start"@,
    ensures
        event_views(r) == event_of(json@),
{
    proof {
        lemma_kind_codes();
    }
    let session_id: String = match take_text(json, "session_id") {
        Some(v) => v,
        None => {
            return None;
        },
    };
    Some(EventLog::SessionStart { session_id })
}

fn parse_turn_start(json: &Json) -> (r: Option<EventLog>)
    requires
        field_text(json@, "type"@) == "turn_start"@,
    ensures
        event_views(r) == event_of(json@),
{
    proof {
        lemma_kind_codes();
    }
    let model: String = match take_text(json, "model") {
        Some(v) => v,
        None => {
            return None;
        },
    };
    let model_alias: Option<String> = match take_opt_text(json, "model_alias") {
        Some(v) => v,
        None => {
            return None;
        },
    };
    let belief: String = match take_number(json, "belief") {
        Some(v) => v,
        None => {
            return None;
        },
    };
    let forced_model: Option<String> = match take_opt_text(json, "forced_model") {
        Some(v) => v,
        None => {
            return None;
        },
    };
    Some(EventLog::TurnStart { model, model_alias, belief, forced_model })
}

fn parse_turn_tracking(json: &Json) -> (r: Option<EventLog>)
    requires
        field_text(json@, "type"@) == "turn_tracking"@,
    ensures
        event_views(r) == event_of(json@),
{
    proof {
        lemma_kind_codes();
    }
    let version: Option<u8> = match take_opt_u8(json, "version") {
        Some(v) => v,
        None => {
            return None;
        },
    };
    let decision: String = match take_text(json, "decision") {
        Some(v) => v,
        None => {
            return None;
        },
    };
    let tool_call_count: u32 = match take_u32(json, "tool_call_count") {
        Some(v) => v,
        None => {
            return None;
        },
    };
    let tool_error_count: u32 = match take_u32(json, "tool_error_count") {
        Some(v) => v,
        None => {
            return None;
        },
    };
    let belief: String = match take_number(json, "belief") {
        Some(v) => v,
        None => {
            return None;
        },
    };
    let model: String = match take_text(json, "model") {
        Some(v) => v,
        None => {
            return None;
        },
    };
    Some(EventLog::TurnTracking {
        version,
        decision,
        tool_call_count,
        tool_error_count,
        belief,
        model,
    })
}

fn parse_turn_error(json: &Json) -> (r: Option<EventLog>)
    requires
        field_text(json@, "type"@) == "turn_error"@,
    ensures
        event_views(r) == event_of(json@),
{
    proof {
        lemma_kind_codes();
    }
    let error: String = match take_text(json, "error") {
        Some(v) => v,
        None => {
            return None;
        },
    };
    let category: String = match take_text(json, "category") {
        Some(v) => v,
        None => {
            return None;
        },
    };
    let severity: Option<String> = match take_opt_text(json, "severity") {
        Some(v) => v,
        None => {
            return None;
        },
    };
    let belief: Option<String> = match take_opt_number(json, "belief") {
        Some(v) => v,
        None => {
            return None;
        },
    };
    let model: Option<String> = match take_opt_text(json, "model") {
        Some(v) => v,
        None => {
            return None;
        },
    };
    let elapsed_ms: Option<u64> = match take_opt_u64(json, "elapsed_ms") {
        Some(v) => v,
        None => {
            return None;
        },
    };
    let idle_ms: Option<u64> = match take_opt_u64(json, "idle_ms") {
        Some(v) => v,
        None => {
            return None;
        },
    };
    Some(EventLog::TurnError { error, category, severity, belief, model, elapsed_ms, idle_ms })
}

fn parse_sub_agent(json: &Json) -> (r: Option<EventLog>)
    requires
        field_text(json@, "type"@) == "sub_agent"@,
    ensures
        event_views(r) == event_of(json@),
{
    proof {
        lemma_kind_codes();
    }
    let session_id: String = match take_text(json, "session_id") {
        Some(v) => v,
        None => {
            return None;
        },
    };
    let status: String = match take_text(json, "status") {
        Some(v) => v,
        None => {
            return None;
        },
    };
    let input_tokens: Option<u64> = match take_opt_u64(json, "input_tokens") {
        Some(v) => v,
        None => {
            return None;
        },
    };
    let output_tokens: Option<u64> = match take_opt_u64(json, "output_tokens") {
        Some(v) => v,
        None => {
            return None;
        },
    };
    Some(EventLog::SubAgent { session_id, status, input_tokens, output_tokens })
}

fn parse_signal_handover(json: &Json) -> (r: Option<EventLog>)
    requires
        field_text(json@, "type"@) == "signal_handover"@,
    ensures
        event_views(r) == event_of(json@),
{
    proof {
        lemma_kind_codes();
    }
    let belief: String = match take_number(json, "belief") {
        Some(v) => v,
        None => {
            return None;
        },
    };
    let edited_paths: Vec<String> = match take_texts(json, "edited_paths") {
        Some(v) => v,
        None => {
            return None;
        },
    };
    let evidence: String = match take_text(json, "evidence") {
        Some(v) => v,
        None => {
            return None;
        },
    };
    let options: Vec<String> = match take_texts(json, "options") {
        Some(v) => v,
        None => {
            return None;
        },
    };
    Some(EventLog::SignalHandover { belief, edited_paths, evidence, options })
}

fn parse_prompt_workflow_resolution(json: &Json) -> (r: Option<EventLog>)
    requires
        field_text(json@, "type"@) == "prompt_workflow_resolution"@,
    ensures
        event_views(r) == event_of(json@),
{
    proof {
        lemma_kind_codes();
    }
    let active_workflows: Vec<String> = match take_texts(json, "active_workflows") {
        Some(v) => v,
        None => {
            return None;
        },
    };
    let workflow_fingerprint: String = match take_text(json, "workflow_fingerprint") {
        Some(v) => v,
        None => {
            return None;
        },
    };
    Some(EventLog::PromptWorkflowResolution { active_workflows, workflow_fingerprint })
}

fn parse_prefix_snapshot(json: &Json) -> (r: Option<EventLog>)
    requires
        field_text(json@, "type"@) == "prefix_snapshot"@,
    ensures
        event_views(r) == event_of(json@),
{
    proof {
        lemma_kind_codes();
    }
    let version: Option<u8> = match take_opt_u8(json, "version") {
        Some(v) => v,
        None => {
            return None;
        },
    };
    let fingerprint: String = match take_text(json, "fingerprint") {
        Some(v) => v,
        None => {
            return None;
        },
    };
    let dependency_fingerprint: String = match take_text(json, "dependency_fingerprint") {
        Some(v) => v,
        None => {
            return None;
        },
    };
    let system_prompt: String = match take_text(json, "system_prompt") {
        Some(v) => v,
        None => {
            return None;
        },
    };
    let tools_json: Vec<Json> = match take_items(json, "tools_json") {
        Some(v) => v,
        None => {
            return None;
        },
    };
    Some(EventLog::PrefixSnapshot {
        version,
        fingerprint,
        dependency_fingerprint,
        system_prompt,
        tools_json,
    })
}

fn parse_stop(json: &Json) -> (r: Option<EventLog>)
    requires
        field_text(json@, "type"@) == "stop"@,
    ensures
        event_views(r) == event_of(json@),
{
    proof {
        lemma_kind_codes();
    }
    let reason: String = match take_text(json, "reason") {
        Some(v) => v,
        None => {
            return None;
        },
    };
    Some(EventLog::Stop { reason })
}

fn parse_error(json: &Json) -> (r: Option<EventLog>)
    requires
        field_text(json@, "type"@) == "error"@,
    ensures
        event_views(r) == event_of(json@),
{
    proof {
        lemma_kind_codes();
    }
    let version: Option<u8> = match take_opt_u8(json, "version") {
        Some(v) => v,
        None => {
            return None;
        },
    };
    let message: String = match take_text(json, "message") {
        Some(v) => v,
        None => {
            return None;
        },
    };
    Some(EventLog::Error { version, message })
}

fn parse_retry(json: &Json) -> (r: Option<EventLog>)
    requires
        field_text(json@, "type"@) == "retry"@,
    ensures
        event_views(r) == event_of(json@),
{
    proof {
        lemma_kind_codes();
    }
    Some(EventLog::Retry)
}

impl EventLog {
    fn fields(&self) -> (r: Vec<JsonField>)
        ensures
            field_views(r@) == event_fields(self@),
    {
        match self {
            EventLog::UserInput { version, content } => {
                let mut fields: Vec<JsonField> = start("user_input");
                put_field(&mut fields, "version", write_u8(version));
                put_field(&mut fields, "content", Some(Json::Text(content.clone())));
                fields
            },
            EventLog::Thinking { version, content } => {
                let mut fields: Vec<JsonField> = start("thinking");
                put_field(&mut fields, "version", write_u8(version));
                put_field(&mut fields, "content", Some(Json::Text(content.clone())));
                fields
            },
            EventLog::Text { version, content } => {
                let mut fields: Vec<JsonField> = start("text");
                put_field(&mut fields, "version", write_u8(version));
                put_field(&mut fields, "content", Some(Json::Text(content.clone())));
                fields
            },
            EventLog::ToolCall { version, name, id, input } => {
                let mut fields: Vec<JsonField> = start("tool_call");
                put_field(&mut fields, "version", write_u8(version));
                put_field(&mut fields, "name", Some(Json::Text(name.clone())));
                put_field(&mut fields, "id", Some(Json::Text(id.clone())));
                put_field(&mut fields, "input", Some(input.copy()));
                fields
            },
            EventLog::ToolResult {
                version,
                tool_use_id,
                name,
                content,
                status,
                exit_code,
                result_kind,
                presentation,
                artifacts,
            } => {
                let mut fields: Vec<JsonField> = start("tool_result");
                put_field(&mut fields, "version", write_u8(version));
                put_field(&mut fields, "tool_use_id", Some(Json::Text(tool_use_id.clone())));
                put_field(&mut fields, "name", Some(Json::Text(name.clone())));
                put_field(&mut fields, "content", Some(Json::Text(content.clone())));
                put_field(&mut fields, "status", Some(status.copy()));
                put_field(&mut fields, "exit_code", write_i32(exit_code));
                put_field(&mut fields, "result_kind", Some(result_kind.copy()));
                put_field(&mut fields, "presentation", Some(presentation.copy()));
                put_field(&mut fields, "artifacts", Some(write_items(artifacts)));
                fields
            },
            EventLog::Usage {
                version,
                input_tokens,
                output_tokens,
                cache_read_input_tokens,
                cache_creation_input_tokens,
                context_tokens,
                max_context,
                kind,
            } => {
                let mut fields: Vec<JsonField> = start("usage");
                put_field(&mut fields, "version", write_u8(version));
                put_field(&mut fields, "input_tokens", Some(write_int(*input_tokens as i128)));
                put_field(&mut fields, "output_tokens", Some(write_int(*output_tokens as i128)));
                put_field(&mut fields, "cache_read_input_tokens", Some(write_int(*cache_read_input_tokens as i128)));
                put_field(&mut fields, "cache_creation_input_tokens", Some(write_int(*cache_creation_input_tokens as i128)));
                put_field(&mut fields, "context_tokens", write_u64(context_tokens));
                put_field(&mut fields, "max_context", write_u64(max_context));
                put_field(&mut fields, "kind", Some(Json::Text(kind.clone())));
                fields
            },
            EventLog::Signal {
                version,
                signal_kind,
                severity,
                source_tool,
                exit_code,
                matched_pattern,
                message,
            } => {
                let mut fields: Vec<JsonField> = start("signal");
                put_field(&mut fields, "version", write_u8(version));
                put_field(&mut fields, "signal_kind", Some(Json::Text(signal_kind.clone())));
                put_field(&mut fields, "severity", Some(Json::Number(severity.clone())));
                put_field(&mut fields, "source_tool", Some(Json::Text(source_tool.clone())));
                let exit_code: Json = written_or_null(write_i32(exit_code));
                put_field(&mut fields, "exit_code", Some(exit_code));
                let pattern: Json = written_or_null(write_text(matched_pattern));
                put_field(&mut fields, "matched_pattern", Some(pattern));
                put_field(&mut fields, "message", Some(Json::Text(message.clone())));
                fields
            },
            EventLog::Compact { version, trigger, result } => {
                let mut fields: Vec<JsonField> = start("compact");
                put_field(&mut fields, "version", write_u8(version));
                put_field(&mut fields, "trigger", Some(Json::Text(trigger.clone())));
                put_field(&mut fields, "result", Some(Json::Text(result.clone())));
                fields
            },
            EventLog::SessionStart { session_id } => {
                let mut fields: Vec<JsonField> = start("session_start");
                put_field(&mut fields, "session_id", Some(Json::Text(session_id.clone())));
                fields
            },
            EventLog::TurnStart { model, model_alias, belief, forced_model } => {
                let mut fields: Vec<JsonField> = start("turn_start");
                put_field(&mut fields, "model", Some(Json::Text(model.clone())));
                put_field(&mut fields, "model_alias", write_text(model_alias));
                put_field(&mut fields, "belief", Some(Json::Number(belief.clone())));
                put_field(&mut fields, "forced_model", write_text(forced_model));
                fields
            },
            EventLog::TurnTracking {
                version,
                decision,
                tool_call_count,
                tool_error_count,
                belief,
                model,
            } => {
                let mut fields: Vec<JsonField> = start("turn_tracking");
                put_field(&mut fields, "version", write_u8(version));
                put_field(&mut fields, "decision", Some(Json::Text(decision.clone())));
                put_field(&mut fields, "tool_call_count", Some(write_int(*tool_call_count as i128)));
                put_field(&mut fields, "tool_error_count", Some(write_int(*tool_error_count as i128)));
                put_field(&mut fields, "belief", Some(Json::Number(belief.clone())));
                put_field(&mut fields, "model", Some(Json::Text(model.clone())));
                fields
            },
            EventLog::TurnError {
                error,
                category,
                severity,
                belief,
                model,
                elapsed_ms,
                idle_ms,
            } => {
                let mut fields: Vec<JsonField> = start("turn_error");
                put_field(&mut fields, "error", Some(Json::Text(error.clone())));
                put_field(&mut fields, "category", Some(Json::Text(category.clone())));
                put_field(&mut fields, "severity", write_text(severity));
                put_field(&mut fields, "belief", write_number(belief));
                put_field(&mut fields, "model", write_text(model));
                put_field(&mut fields, "elapsed_ms", write_u64(elapsed_ms));
                put_field(&mut fields, "idle_ms", write_u64(idle_ms));
                fields
            },
            EventLog::SubAgent { session_id, status, input_tokens, output_tokens } => {
                let mut fields: Vec<JsonField> = start("sub_agent");
                put_field(&mut fields, "session_id", Some(Json::Text(session_id.clone())));
                put_field(&mut fields, "status", Some(Json::Text(status.clone())));
                put_field(&mut fields, "input_tokens", write_u64(input_tokens));
                put_field(&mut fields, "output_tokens", write_u64(output_tokens));
                fields
            },
            EventLog::SignalHandover { belief, edited_paths, evidence, options } => {
                let mut fields: Vec<JsonField> = start("signal_handover");
                put_field(&mut fields, "belief", Some(Json::Number(belief.clone())));
                put_field(&mut fields, "edited_paths", Some(write_texts(edited_paths)));
                put_field(&mut fields, "evidence", Some(Json::Text(evidence.clone())));
                put_field(&mut fields, "options", Some(write_texts(options)));
                fields
            },
            EventLog::PromptWorkflowResolution { active_workflows, workflow_fingerprint } => {
                let mut fields: Vec<JsonField> = start("prompt_workflow_resolution");
                put_field(&mut fields, "active_workflows", Some(write_texts(active_workflows)));
                put_field(&mut fields, "workflow_fingerprint", Some(Json::Text(workflow_fingerprint.clone())));
                fields
            },
            EventLog::PrefixSnapshot {
                version,
                fingerprint,
                dependency_fingerprint,
                system_prompt,
                tools_json,
            } => {
                let mut fields: Vec<JsonField> = start("prefix_snapshot");
                put_field(&mut fields, "version", write_u8(version));
                put_field(&mut fields, "fingerprint", Some(Json::Text(fingerprint.clone())));
                put_field(&mut fields, "dependency_fingerprint", Some(Json::Text(dependency_fingerprint.clone())));
                put_field(&mut fields, "system_prompt", Some(Json::Text(system_prompt.clone())));
                put_field(&mut fields, "tools_json", Some(write_items(tools_json)));
                fields
            },
            EventLog::Stop { reason } => {
                let mut fields: Vec<JsonField> = start("stop");
                put_field(&mut fields, "reason", Some(Json::Text(reason.clone())));
                fields
            },
            EventLog::Error { version, message } => {
                let mut fields: Vec<JsonField> = start("error");
                put_field(&mut fields, "version", write_u8(version));
                put_field(&mut fields, "message", Some(Json::Text(message.clone())));
                fields
            },
            EventLog::Retry => {
                let mut fields: Vec<JsonField> = start("retry");
                fields
            },
        }
    }

    /// How the entry is written.
    pub fn to_json(&self) -> (r: Json)
        ensures
            r@ == event_json(self@),
    {
        let fields: Vec<JsonField> = self.fields();
        proof {
            lemma_object_view(fields);
        }
        Json::Object(fields)
    }

    /// The entry that a value is, where it is one.
    pub fn from_json(json: &Json) -> (r: Option<EventLog>)
        ensures
            event_views(r) == event_of(json@),
    {
        let kind: String = json.field_text("type");
        if same_text(kind.as_str(), "user_input") {
            parse_user_input(json)
        } else if same_text(kind.as_str(), "thinking") {
            parse_thinking(json)
        } else if same_text(kind.as_str(), "text") {
            parse_text(json)
        } else if same_text(kind.as_str(), "tool_call") {
            parse_tool_call(json)
        } else if same_text(kind.as_str(), "tool_result") {
            parse_tool_result(json)
        } else if same_text(kind.as_str(), "usage") {
            parse_usage(json)
        } else if same_text(kind.as_str(), "signal") {
            parse_signal(json)
        } else if same_text(kind.as_str(), "compact") {
            parse_compact(json)
        } else if same_text(kind.as_str(), "session_start") {
            parse_session_start(json)
        } else if same_text(kind.as_str(), "turn_start") {
            parse_turn_start(json)
        } else if same_text(kind.as_str(), "turn_tracking") {
            parse_turn_tracking(json)
        } else if same_text(kind.as_str(), "turn_error") {
            parse_turn_error(json)
        } else if same_text(kind.as_str(), "sub_agent") {
            parse_sub_agent(json)
        } else if same_text(kind.as_str(), "signal_handover") {
            parse_signal_handover(json)
        } else if same_text(kind.as_str(), "prompt_workflow_resolution") {
            parse_prompt_workflow_resolution(json)
        } else if same_text(kind.as_str(), "prefix_snapshot") {
            parse_prefix_snapshot(json)
        } else if same_text(kind.as_str(), "stop") {
            parse_stop(json)
        } else if same_text(kind.as_str(), "error") {
            parse_error(json)
        } else if same_text(kind.as_str(), "retry") {
            parse_retry(json)
        } else {
            None
        }
    }
}

} // verus!
