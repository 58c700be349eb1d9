use mink::json::{remove_field, set_field, Json, JsonField};
use mink::llm::estimate::estimate_openai_context_tokens;
use mink::llm::options::{OpenAiCompatibleOptions, TokenParamKind};
use mink::llm::transport::{
    build_openai_body, build_openai_body_with_options,
    build_openai_body_with_options_and_extensions, collect_tool_call_ids,
    convert_messages_to_openai, convert_tools_to_openai, strip_orphaned_tool_calls,
};
use serde_json::Value;

fn from_value(value: &Value) -> Json {
    match value {
        Value::Null => Json::Null,
        Value::Bool(b) => Json::Bool(*b),
        Value::Number(n) => Json::Number(n.to_string()),
        Value::String(s) => Json::Text(s.clone()),
        Value::Array(items) => Json::Array(items.iter().map(from_value).collect()),
        Value::Object(fields) => Json::Object(
            fields
                .iter()
                .map(|(name, value)| JsonField { name: name.clone(), value: from_value(value) })
                .collect(),
        ),
    }
}

fn json(text: &str) -> Json {
    from_value(&value(text))
}

fn value(text: &str) -> Value {
    serde_json::from_str(text).unwrap()
}

fn to_value(json: &Json) -> Value {
    value(&json.to_text())
}

fn body(bytes: Vec<u8>) -> Value {
    serde_json::from_slice(&bytes).unwrap()
}

fn quiet(token_param: TokenParamKind) -> OpenAiCompatibleOptions {
    OpenAiCompatibleOptions {
        send_reasoning_effort: false,
        reasoning_effort: None,
        include_usage: false,
        token_param,
        parallel_tool_calls: None,
    }
}

#[test]
fn strip_orphaned_tool_calls_removes_unmatched() {
    let msg = json(
        r#"{
        "role": "assistant",
        "content": "text",
        "tool_calls": [
            {"id": "call_1", "type": "function", "function": {"name": "Read", "arguments": "{}"}},
            {"id": "call_2", "type": "function", "function": {"name": "Bash", "arguments": "{}"}}
        ]
    }"#,
    );
    let valid_ids = vec!["call_2".to_string()];
    let msg = to_value(&strip_orphaned_tool_calls(&msg, &valid_ids));
    let tcs = msg["tool_calls"].as_array().unwrap();
    assert_eq!(tcs.len(), 1);
    assert_eq!(tcs[0]["id"], "call_2");
    assert!(msg.get("content").is_some());
}

#[test]
fn strip_orphaned_removes_tool_calls_field_when_all_orphaned() {
    let msg = json(
        r#"{
        "role": "assistant",
        "content": "text",
        "tool_calls": [
            {"id": "call_1", "type": "function", "function": {"name": "Read", "arguments": "{}"}}
        ]
    }"#,
    );
    let valid_ids: Vec<String> = vec![];
    let msg = to_value(&strip_orphaned_tool_calls(&msg, &valid_ids));
    assert!(msg.get("tool_calls").is_none());
    assert_eq!(msg["content"], "text");
}

#[test]
fn strip_orphaned_keeps_all_when_matched() {
    let msg = json(
        r#"{
        "role": "assistant",
        "content": "text",
        "tool_calls": [
            {"id": "call_1", "type": "function", "function": {"name": "Read", "arguments": "{}"}},
            {"id": "call_2", "type": "function", "function": {"name": "Bash", "arguments": "{}"}}
        ]
    }"#,
    );
    let valid_ids = vec!["call_1".to_string(), "call_2".to_string()];
    let msg = to_value(&strip_orphaned_tool_calls(&msg, &valid_ids));
    let tcs = msg["tool_calls"].as_array().unwrap();
    assert_eq!(tcs.len(), 2);
}

#[test]
fn strip_orphaned_ignores_non_assistant_messages() {
    let msg = json(r#"{"role": "user", "content": "hello"}"#);
    let stripped = strip_orphaned_tool_calls(&msg, &vec!["x".to_string()]);
    assert_eq!(to_value(&stripped), to_value(&msg));
}

#[test]
fn convert_messages_strips_orphaned_end_to_end() {
    let msgs = vec![
        json(r#"{"role": "user", "content": "do it"}"#),
        json(
            r#"{"role": "assistant", "content": [
            {"type": "text", "text": "ok"},
            {"type": "tool_use", "id": "orphan_1", "name": "Read", "input": {"path": "/x"}}
        ]}"#,
        ),
        json(r#"{"role": "user", "content": "next"}"#),
    ];
    let converted: Vec<Value> =
        convert_messages_to_openai(&msgs).iter().map(to_value).collect();
    let assistant = converted.iter().find(|m| m["role"] == "assistant").unwrap();
    assert!(assistant.get("tool_calls").is_none());
}

#[test]
fn convert_messages_keeps_matched_tool_calls() {
    let msgs = vec![
        json(r#"{"role": "user", "content": "do it"}"#),
        json(
            r#"{"role": "assistant", "content": [
            {"type": "text", "text": "ok"},
            {"type": "tool_use", "id": "call_1", "name": "Read", "input": {"path": "/x"}}
        ]}"#,
        ),
        json(
            r#"{"role": "user", "content": [
            {"type": "tool_result", "tool_use_id": "call_1", "content": "result"}
        ]}"#,
        ),
    ];
    let sent = convert_messages_to_openai(&msgs);
    assert_eq!(collect_tool_call_ids(&sent), vec!["call_1"]);
    let converted: Vec<Value> = sent.iter().map(to_value).collect();
    assert!(
        converted
            .iter()
            .any(|m| m["role"] == "tool" && m["tool_call_id"] == "call_1")
    );
    let assistant = converted.iter().find(|m| m["role"] == "assistant").unwrap();
    assert!(assistant.get("tool_calls").is_some());
    assert_eq!(
        assistant["tool_calls"][0]["function"]["arguments"],
        "{\"path\":\"/x\"}"
    );
}

#[test]
fn internal_todo_metadata_is_not_sent_to_the_provider() {
    let messages = vec![
        json(r#"{"role": "user", "content": "start"}"#),
        json(
            r#"{
            "role": "user",
            "content": "<todo-sync revision=\"2\">state</todo-sync>",
            "internal": true,
            "_mink": {"todo_revision": 2, "todo_state_kind": "sync"}
        }"#,
        ),
    ];
    let converted: Vec<Value> =
        convert_messages_to_openai(&messages).iter().map(to_value).collect();
    assert_eq!(converted.len(), 2);
    assert_eq!(converted[0], to_value(&messages[0]));
    assert_eq!(converted[1]["content"], to_value(&messages[1])["content"]);
    assert!(converted[1].get("_mink").is_none());
    assert!(converted[1].get("internal").is_none());
}

#[test]
fn openai_body_respects_compatible_options() {
    let value = body(build_openai_body_with_options(
        "custom-model",
        &vec![json(r#"{"role":"user","content":"hello"}"#)],
        &vec![],
        "",
        123,
        &OpenAiCompatibleOptions {
            parallel_tool_calls: Some(false),
            ..quiet(TokenParamKind::MaxCompletionTokens)
        },
    ));
    assert_eq!(value["model"], "custom-model");
    assert_eq!(value["max_completion_tokens"], 123);
    assert!(value.get("max_tokens").is_none());
    assert!(value.get("reasoning_effort").is_none());
    assert!(value.get("stream_options").is_none());
    assert_eq!(value["parallel_tool_calls"], false);
}

fn fields(text: &str) -> Vec<JsonField> {
    match json(text) {
        Json::Object(fields) => fields,
        other => panic!("{other:?}"),
    }
}

#[test]
fn openai_body_merges_extra_body_and_tool_choice_without_overriding_core_fields() {
    let extra_body = fields(
        r#"{
        "temperature": 0.2,
        "enable_thinking": true,
        "model": "ignored-model",
        "messages": [],
        "stream": false,
        "max_tokens": 999,
        "tool_choice": "none"
    }"#,
    );
    let options = quiet(TokenParamKind::MaxTokens);
    let tool_choice = Json::Text("auto".into());
    let tools = vec![json(
        r#"{
        "name": "Read",
        "description": "read file",
        "input_schema": {
            "type": "object",
            "properties": {
                "path": {"type": "string"}
            },
            "required": ["path"]
        }
    }"#,
    )];
    let value = body(build_openai_body_with_options_and_extensions(
        "custom-model",
        &vec![json(r#"{"role":"user","content":"hello"}"#)],
        &tools,
        "",
        123,
        &options,
        Some(&tool_choice),
        &extra_body,
    ));
    assert_eq!(value["model"], "custom-model");
    assert_eq!(value["stream"], true);
    assert_eq!(value["max_tokens"], 123);
    assert_eq!(value["temperature"], 0.2);
    assert_eq!(value["enable_thinking"], true);
    assert_eq!(value["tool_choice"], "auto");
    assert!(
        value["tools"]
            .as_array()
            .is_some_and(|tools| tools.len() == 1)
    );
    assert_eq!(value["messages"].as_array().unwrap().len(), 1);
}

#[test]
fn openai_body_omits_tool_choice_when_no_tools_are_sent() {
    let tool_choice = Json::Text("auto".into());
    let value = body(build_openai_body_with_options_and_extensions(
        "custom-model",
        &vec![json(r#"{"role":"user","content":"hello"}"#)],
        &vec![],
        "",
        123,
        &quiet(TokenParamKind::MaxTokens),
        Some(&tool_choice),
        &vec![],
    ));
    assert!(value.get("tools").is_none());
    assert!(value.get("tool_choice").is_none());
}

#[test]
fn estimate_counts_tool_attachment_pixel_payload() {
    let messages = vec![json(
        r#"{"role": "user", "content": [
        {"type": "tool_attachment", "tool_use_id": "c", "url": "image://sha256:aaaaaaaaaaaaaaaaaaaaaaaaaaaaaaaaaaaaaaaaaaaaaaaaaaaaaaaaaaaaaaaa", "format": "png", "width": 1024, "height": 768, "bytes": 1024}
    ]}"#,
    )];
    let plain = estimate_openai_context_tokens(&messages, &vec![], "");
    let without_attachment = estimate_openai_context_tokens(
        &vec![json(
            r#"{"role": "user", "content": [{"type": "text", "text": "x"}]}"#,
        )],
        &vec![],
        "",
    );
    assert!(
        plain >= without_attachment + 765,
        "{plain} vs {without_attachment}"
    );
}

#[test]
fn estimate_is_one_token_for_three_bytes() {
    // `[{"content":"hello","role":"user"}]` and `[]` are 37 bytes.
    let messages = vec![json(r#"{"role":"user","content":"hello"}"#)];
    assert_eq!(estimate_openai_context_tokens(&messages, &vec![], ""), 13);
    // One image of a single tile, its sides not known.
    let messages = vec![json(r#"{"role":"user","content":[{"type":"tool_attachment"}]}"#)];
    // `[{"content":[{"type":"tool_attachment"}],"role":"user"}]` and `[]` are 58 bytes.
    assert_eq!(
        estimate_openai_context_tokens(&messages, &vec![], ""),
        20 + 85 + 170
    );
}

#[test]
fn default_body_is_complete() {
    let value = body(build_openai_body(
        "m",
        &vec![json(r#"{"role":"user","content":"hi"}"#)],
        &vec![],
        "be brief",
        -5,
    ));
    let expected = serde_json::from_str::<Value>(
        r#"{
        "messages": [
            {"role": "system", "content": "be brief"},
            {"role": "user", "content": "hi"}
        ],
        "model": "m",
        "stream": true,
        "max_tokens": -5,
        "stream_options": {"include_usage": true},
        "reasoning_effort": "max"
    }"#,
    )
    .unwrap();
    assert_eq!(value, expected);
}

#[test]
fn tools_are_put_into_the_form_of_the_service() {
    let tools = vec![
        json(r#"{"type":"function","function":{"name":"A"}}"#),
        json(r#"{"name":"B","parameters":{"type":"object"}}"#),
        json(r#"{}"#),
    ];
    let converted: Vec<Value> = convert_tools_to_openai(&tools).iter().map(to_value).collect();
    assert_eq!(converted[0], to_value(&tools[0]));
    assert_eq!(converted[1]["function"]["name"], "B");
    assert_eq!(converted[1]["function"]["description"], "");
    assert_eq!(converted[1]["function"]["parameters"]["type"], "object");
    assert_eq!(converted[2]["type"], "function");
    assert_eq!(converted[2]["function"]["parameters"], value("{}"));
}

#[test]
fn reasoning_and_text_are_joined() {
    let messages = vec![json(
        r#"{"role":"assistant","content":[
        {"type":"thinking","thinking":"a"},
        {"type":"text","text":"x"},
        {"type":"thinking","thinking":"b"},
        {"type":"text","text":"y"},
        {"type":"other"}
    ]}"#,
    )];
    let converted = to_value(&convert_messages_to_openai(&messages)[0]);
    assert_eq!(converted["reasoning_content"], "ab");
    assert_eq!(converted["content"], "xy");
    assert!(converted.get("tool_calls").is_none());
}

#[test]
fn text_is_escaped_as_json_asks() {
    let text = "quote \" back \\ line\n bell \u{7} snow ☃";
    assert_eq!(value(&Json::Text(text.into()).to_text()), Value::String(text.into()));
    assert_eq!(Json::Text("a\"b".into()).to_text(), "\"a\\\"b\"");
    assert_eq!(
        Json::Text("\u{8}\t\n\u{c}\r\u{0}\u{1f}\u{7f}/é".into()).to_text(),
        "\"\\b\\t\\n\\f\\r\\u0000\\u001f\u{7f}/é\""
    );
    assert_eq!(
        json(r#"{"b":[1,2.5,null,true],"a":{}}"#).to_text(),
        r#"{"a":{},"b":[1,2.5,null,true]}"#
    );
}

#[test]
fn fields_keep_their_order() {
    let mut object = fields(r#"{"a":1,"c":3}"#);
    set_field(&mut object, "b", Json::Number("2".into()));
    set_field(&mut object, "c", Json::Bool(false));
    remove_field(&mut object, "a");
    remove_field(&mut object, "missing");
    assert_eq!(Json::Object(object).to_text(), r#"{"b":2,"c":false}"#);
}
