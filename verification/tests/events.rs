use mink::events::entry::EventLog;
use mink::json::{Json, JsonField};
use mink::protocol::UsageEvent;
use serde_json::Value;

fn from_value(value: &Value) -> Json {
    match value {
        Value::Null => Json::Null,
        Value::Bool(b) => Json::Bool(*b),
        Value::Number(n) => Json::Number(n.to_string()),
        Value::String(s) => Json::Text(s.clone()),
        Value::Array(items) => Json::Array(items.iter().map(from_value).collect()),
        Value::Object(fields) => Json::Object(
            fields
                .iter()
                .map(|(name, value)| JsonField { name: name.clone(), value: from_value(value) })
                .collect(),
        ),
    }
}

fn json(text: &str) -> Json {
    from_value(&value(text))
}

fn value(text: &str) -> Value {
    serde_json::from_str(text).unwrap()
}

fn to_value(json: &Json) -> Value {
    value(&json.to_text())
}

fn written(event: &EventLog) -> Value {
    to_value(&event.to_json())
}

#[test]
fn typed_event_serializes_with_version_and_legacy_type_name() {
    let event = EventLog::UserInput { version: Some(1), content: "hello".into() };
    let value = written(&event);
    assert_eq!(value["type"], "user_input");
    assert_eq!(value["version"], 1);
    assert_eq!(value["content"], "hello");
}

#[test]
fn prefix_snapshot_serializes_with_legacy_type_name() {
    let event = EventLog::PrefixSnapshot {
        version: Some(1),
        fingerprint: "fp".into(),
        dependency_fingerprint: "dep".into(),
        system_prompt: "prompt".into(),
        tools_json: vec![json(r#"{"name": "Bash"}"#)],
    };
    let value = written(&event);
    assert_eq!(value["type"], "prefix_snapshot");
    assert_eq!(value["version"], 1);
    assert_eq!(value["fingerprint"], "fp");
    assert_eq!(value["dependency_fingerprint"], "dep");
    assert_eq!(value["system_prompt"], "prompt");
    assert_eq!(value["tools_json"][0]["name"], "Bash");
}

fn tool_result() -> EventLog {
    EventLog::ToolResult {
        version: Some(2),
        tool_use_id: "c".into(),
        name: "Read".into(),
        content: "ok".into(),
        status: json(r#"{"state":"succeeded"}"#),
        exit_code: Some(0),
        result_kind: Json::Text("file_read".into()),
        presentation: Json::Null,
        artifacts: Vec::new(),
    }
}

#[test]
fn typed_events_match_legacy_jsonl_shapes() {
    let cases: Vec<(EventLog, Value)> = vec![
        (
            EventLog::UserInput { version: None, content: "u".into() },
            value(r#"{"type":"user_input","content":"u"}"#),
        ),
        (
            EventLog::Thinking { version: None, content: "t".into() },
            value(r#"{"type":"thinking","content":"t"}"#),
        ),
        (
            EventLog::ToolCall {
                version: None,
                name: "Read".into(),
                id: "c".into(),
                input: json(r#"{"path":"a"}"#),
            },
            value(r#"{"type":"tool_call","name":"Read","id":"c","input":{"path":"a"}}"#),
        ),
        (
            EventLog::Usage {
                version: None,
                input_tokens: 10,
                output_tokens: 2,
                cache_read_input_tokens: 3,
                cache_creation_input_tokens: 4,
                context_tokens: Some(5),
                max_context: Some(6),
                kind: "agent".into(),
            },
            value(
                r#"{
                "type":"usage",
                "input_tokens":10,
                "output_tokens":2,
                "cache_read_input_tokens":3,
                "cache_creation_input_tokens":4,
                "context_tokens":5,
                "max_context":6,
                "kind":"agent"
            }"#,
            ),
        ),
        (
            tool_result(),
            value(
                r#"{
                "type":"tool_result",
                "version":2,
                "tool_use_id":"c",
                "name":"Read",
                "content":"ok",
                "status":{"state":"succeeded"},
                "exit_code":0,
                "result_kind":"file_read",
                "presentation":null,
                "artifacts":[]
            }"#,
            ),
        ),
        (
            EventLog::Stop { reason: "end_turn".into() },
            value(r#"{"type":"stop","reason":"end_turn"}"#),
        ),
        (
            EventLog::Error { version: None, message: "boom".into() },
            value(r#"{"type":"error","message":"boom"}"#),
        ),
        (EventLog::Retry, value(r#"{"type":"retry"}"#)),
    ];

    for (event, expected) in cases {
        assert_eq!(written(&event), expected);
    }
}

#[test]
fn typed_events_round_trip_through_jsonl_values() {
    let events = vec![
        EventLog::SessionStart { session_id: "s".into() },
        EventLog::TurnStart {
            model: "flash".into(),
            model_alias: Some("flash".into()),
            belief: "0.5".into(),
            forced_model: None,
        },
        EventLog::TurnTracking {
            version: None,
            decision: "Stop".into(),
            tool_call_count: 1,
            tool_error_count: 0,
            belief: "0.5".into(),
            model: "flash".into(),
        },
        EventLog::TurnError {
            error: "e".into(),
            category: "Network".into(),
            severity: Some("Fatal".into()),
            belief: Some("0.5".into()),
            model: Some("flash".into()),
            elapsed_ms: Some(1),
            idle_ms: None,
        },
        EventLog::SubAgent {
            session_id: "sub".into(),
            status: "ok".into(),
            input_tokens: Some(1),
            output_tokens: Some(2),
        },
        tool_result(),
        EventLog::SignalHandover {
            belief: "0.2".into(),
            edited_paths: vec!["a".into()],
            evidence: "ev".into(),
            options: vec!["retry".into()],
        },
    ];

    for event in events {
        let value = written(&event);
        let decoded = EventLog::from_json(&from_value(&value)).unwrap();
        assert_eq!(written(&decoded), value);
    }

    let legacy = json(
        r#"{
        "type":"tool_result",
        "version":1,
        "tool_use_id":"c",
        "name":"Read",
        "content":"ok"
    }"#,
    );
    let event = EventLog::from_json(&legacy).unwrap();
    assert!(matches!(event, EventLog::ToolResult { .. }));
}

#[test]
fn other_entries_are_read_back_too() {
    let usage = UsageEvent {
        input_tokens: i64::MIN,
        output_tokens: -1,
        cache_read_input_tokens: 0,
        cache_creation_input_tokens: i64::MAX,
    };
    let events = vec![
        EventLog::usage(None, &usage, "agent"),
        EventLog::Text { version: Some(255), content: "\u{1f980}".into() },
        EventLog::Signal {
            version: Some(1),
            signal_kind: "ToolFailed".into(),
            severity: "0.9".into(),
            source_tool: "Bash".into(),
            exit_code: Some(-1),
            matched_pattern: None,
            message: "m".into(),
        },
        EventLog::Compact { version: None, trigger: "manual".into(), result: "ok".into() },
        EventLog::PromptWorkflowResolution {
            active_workflows: vec!["a".into(), "b".into()],
            workflow_fingerprint: "f".into(),
        },
        EventLog::PrefixSnapshot {
            version: Some(1),
            fingerprint: "fp".into(),
            dependency_fingerprint: "dep\u{0}x".into(),
            system_prompt: "p".into(),
            tools_json: vec![json(r#"{"name":"Bash"}"#), Json::Null],
        },
    ];
    for event in events {
        let value = written(&event);
        let decoded = EventLog::from_json(&from_value(&value)).unwrap();
        assert_eq!(written(&decoded), value);
    }
}

#[test]
fn what_is_no_entry_is_not_read() {
    for text in [
        r#"{}"#,
        r#"{"type":"unheard_of"}"#,
        r#"{"type":"user_input"}"#,
        r#"{"type":"user_input","content":1}"#,
        r#"{"type":"user_input","content":"a","version":256}"#,
        r#"{"type":"user_input","content":"a","version":1.5}"#,
        r#"{"type":"signal_handover","belief":0.2,"edited_paths":[1],"evidence":"","options":[]}"#,
        r#"{"type":"user_input","content":"a","version":-0}"#,
        r#"[]"#,
    ] {
        assert!(EventLog::from_json(&json(text)).is_none(), "{text}");
    }
}

#[test]
fn what_a_signal_lacks_is_null() {
    let event = EventLog::Signal {
        version: Some(1),
        signal_kind: "EditLoop".into(),
        severity: "0.5".into(),
        source_tool: "Edit".into(),
        exit_code: None,
        matched_pattern: None,
        message: "m".into(),
    };
    let value = written(&event);
    assert_eq!(value.get("exit_code"), Some(&Value::Null));
    assert_eq!(value.get("matched_pattern"), Some(&Value::Null));
    let decoded = EventLog::from_json(&event.to_json()).unwrap();
    assert_eq!(written(&decoded), value);
}

#[test]
fn whole_numbers_are_written_without_needless_zeros() {
    let versioned = |version: &str| {
        Json::Object(vec![
            JsonField { name: "type".into(), value: Json::Text("text".into()) },
            JsonField { name: "content".into(), value: Json::Text("a".into()) },
            JsonField { name: "version".into(), value: Json::Number(version.into()) },
        ])
    };
    for version in ["0", "7", "255"] {
        assert!(EventLog::from_json(&versioned(version)).is_some(), "{version}");
    }
    for version in ["-0", "00", "07", "-1", ""] {
        assert!(EventLog::from_json(&versioned(version)).is_none(), "{version}");
    }
}
