use mink::config::resolved::ResolvedConfig;
use mink::json::{Json, JsonField};
use mink::llm::client::{
    authorization, body_preview, preview_of_text, request_failure_attempt_count, LlmModelTarget, LlmPurpose,
    LlmRequest, LlmRequestFailure, OpenAiCompatibleBackend,
};
use mink::llm::meter::{
    failed_request_reason, invalid_usage_reason, MeterEvent, UsageMeter, UsageNote,
};
use mink::llm::options::{OpenAiCompatibleOptions, TokenParamKind};
use mink::llm::retry::{http_failure_text, is_retryable, SendProgress, SendStep};
use mink::llm::stream::{
    is_fatal_parser_error, line_of_text, LineOutcome, StreamInput, StreamReader, StreamStep,
};
use mink::protocol::UsageEvent;

#[test]
fn rate_limit_is_waited_for() {
    let mut progress = SendProgress::new();
    assert_eq!(
        progress.on_status(429, Some("0".into()), 0),
        SendStep::Wait { seconds: 0 }
    );
    assert_eq!(progress.retry_note(), "Retrying (1/2)...");
    assert_eq!(progress.on_status(200, None, 0), SendStep::Accept { attempt_count: 2 });
}

#[test]
fn bad_request_is_not_sent_again() {
    let mut progress = SendProgress::new();
    assert_eq!(progress.on_status(400, None, 0), SendStep::GiveUp { attempt_count: 1 });
    assert_eq!(http_failure_text(400, " bad request\n"), "HTTP 400: bad request");
}

#[test]
fn waiting_takes_longer_each_time() {
    let mut progress = SendProgress::new();
    assert_eq!(progress.on_status(503, None, 0), SendStep::Wait { seconds: 1 });
    assert_eq!(progress.on_status(503, None, 0), SendStep::Wait { seconds: 2 });
    assert_eq!(progress.on_status(503, None, 0), SendStep::GiveUp { attempt_count: 3 });
}

#[test]
fn retry_after_is_read_or_passed_over() {
    for (header, seconds) in [
        (None, 2),
        (Some("7"), 7),
        (Some("+7"), 7),
        (Some("soon"), 2),
        (Some("-1"), 2),
        (Some(""), 2),
        (Some("18446744073709551615"), u64::MAX),
        (Some("18446744073709551616"), 2),
    ] {
        let mut progress = SendProgress::new();
        assert_eq!(
            progress.on_status(429, header.map(str::to_string), 0),
            SendStep::Wait { seconds },
            "{header:?}"
        );
    }
}

#[test]
fn request_is_not_sent_again_after_too_long() {
    let mut progress = SendProgress::new();
    assert_eq!(progress.on_fault(20_000_000_000), SendStep::Wait { seconds: 1 });
    assert_eq!(progress.on_fault(20_000_000_001), SendStep::GiveUp { attempt_count: 2 });
}

#[test]
fn some_answers_may_be_asked_for_again() {
    for code in [408, 409, 425, 429, 500, 502, 503, 504] {
        assert!(is_retryable(code));
    }
    for code in [400, 401, 404, 422, 501, 505] {
        assert!(!is_retryable(code));
    }
}

fn lines(pieces: &[&[u8]]) -> Vec<String> {
    let mut reader = StreamReader::new();
    let mut out = Vec::new();
    for piece in pieces {
        reader.feed(&piece.to_vec());
        while let Some(line) = reader.next_line() {
            out.push(line);
        }
    }
    out
}

#[test]
fn lines_do_not_depend_on_the_pieces() {
    let whole = lines(&[b"data: a\r\n\n  data: b  \ndata: c"]);
    assert_eq!(whole, vec!["data: a\n", "data: b\n"]);
    let cut = lines(&[b"da", b"ta: a\r", b"\n\n  data: b", b"  \nda", b"ta: c"]);
    assert_eq!(whole, cut);
}

#[test]
fn what_is_no_text_is_replaced() {
    assert_eq!(lines(&[b"a\xffb\n"]), vec!["a\u{fffd}b\n"]);
    assert_eq!(lines(&["caf\u{e9}\n".as_bytes()]), vec!["caf\u{e9}\n"]);
}

#[test]
fn faults_of_a_stream_are_passed_over_for_a_while() {
    let mut reader = StreamReader::new();
    for _ in 0..5 {
        let step = reader.step(StreamInput::Line(LineOutcome::Fault("odd".into())));
        assert!(matches!(step, StreamStep::GoOn));
    }
    match reader.step(StreamInput::Broken("reset".into())) {
        StreamStep::Fail(message) => assert_eq!(message, "stream: reset"),
        other => panic!("{other:?}"),
    }
}

#[test]
fn fault_in_a_tool_call_ends_the_stream() {
    let mut reader = StreamReader::new();
    assert!(is_fatal_parser_error("parse tool input: eof"));
    match reader.step(StreamInput::Line(LineOutcome::Fault("parse tool call: x".into()))) {
        StreamStep::Fail(message) => assert_eq!(message, "parse tool call: x"),
        other => panic!("{other:?}"),
    }
}

#[test]
fn stream_ends_in_its_own_ways() {
    let mut reader = StreamReader::new();
    assert!(matches!(
        reader.step(StreamInput::Line(LineOutcome::More)),
        StreamStep::GoOn
    ));
    assert!(matches!(
        reader.step(StreamInput::Line(LineOutcome::Complete)),
        StreamStep::End
    ));
    assert!(matches!(reader.step(StreamInput::Exhausted), StreamStep::EndEarly));
    assert!(matches!(reader.step(StreamInput::Cancelled), StreamStep::Interrupted));
}

fn usage() -> UsageEvent {
    UsageEvent {
        input_tokens: 4,
        output_tokens: 2,
        cache_read_input_tokens: 3,
        cache_creation_input_tokens: 0,
    }
}

#[test]
fn usage_is_written_down_once() {
    let mut meter = UsageMeter::new(2);
    assert!(meter.observe(MeterEvent::Other).is_none());
    match meter.observe(MeterEvent::Usage(usage())) {
        Some(UsageNote::Reported(reported)) => assert_eq!(reported, usage()),
        other => panic!("{other:?}"),
    }
    assert!(meter.observe(MeterEvent::Usage(usage())).is_none());
    assert!(meter.observe(MeterEvent::Ended).is_none());
    assert!(meter.observe(MeterEvent::Dropped).is_none());
    assert_eq!(meter.attempt_count, 2);
}

#[test]
fn missing_usage_has_a_reason() {
    for (event, reason) in [
        (MeterEvent::UsageUnavailable, "provider_usage_missing"),
        (MeterEvent::Error("x".into()), "stream_error: x"),
        (MeterEvent::Ended, "stream_ended_without_usage"),
        (MeterEvent::Dropped, "stream_dropped_before_usage"),
    ] {
        match UsageMeter::new(1).observe(event) {
            Some(UsageNote::Unreported(text)) => assert_eq!(text, reason),
            other => panic!("{other:?}"),
        }
    }
    assert_eq!(invalid_usage_reason("negative"), "invalid_provider_usage: negative");
    assert_eq!(
        failed_request_reason("backend unavailable"),
        "request_failed: backend unavailable"
    );
}

#[test]
fn failure_keeps_its_number_of_attempts() {
    let failure = LlmRequestFailure { attempt_count: 3, error: "transport unavailable".into() };
    assert_eq!(request_failure_attempt_count(Some(&failure)), 3);
    assert_eq!(request_failure_attempt_count(None), 1);
    assert_eq!(failure.to_text(), "transport unavailable");
}

#[test]
fn model_is_called_by_its_short_name() {
    assert_eq!(LlmModelTarget::new("deepseek-v4-pro", Some("pro")).label(), "pro");
    assert_eq!(LlmModelTarget::new("deepseek-chat", None).label(), "deepseek-chat");
}

#[test]
fn request_of_a_sub_agent_says_so() {
    match LlmPurpose::of_agent(true, "s-1") {
        LlmPurpose::SubAgent { session_id } => assert_eq!(session_id, "s-1"),
        other => panic!("{other:?}"),
    }
    assert!(matches!(LlmPurpose::of_agent(false, "s-1"), LlmPurpose::Agent));
}

fn effort(setting: Option<&str>) -> OpenAiCompatibleOptions {
    OpenAiCompatibleOptions::from_settings(
        &setting.map(str::to_string),
        true,
        TokenParamKind::MaxTokens,
    )
}

#[test]
fn reasoning_effort_can_be_turned_off() {
    assert_eq!(effort(Some(" high ")).reasoning_effort.as_deref(), Some("high"));
    assert!(effort(Some("high")).send_reasoning_effort);
    for off in [None, Some(""), Some("  "), Some("OFF"), Some("none"), Some("False"), Some("disabled")] {
        let options = effort(off);
        assert_eq!(options.reasoning_effort, None, "{off:?}");
        assert!(!options.send_reasoning_effort);
    }
}

fn request() -> LlmRequest {
    LlmRequest {
        purpose: LlmPurpose::Agent,
        model: "m".into(),
        model_alias: None,
        api_url: "https://example.invalid/v1".into(),
        api_key: "k".into(),
        system_prompt: String::new(),
        messages: vec![],
        tools: vec![],
        max_tokens: 7,
        verbose: false,
    }
}

#[test]
fn service_follows_the_settings() {
    let mut config = ResolvedConfig::default();
    config.openai_reasoning_effort = Some("off".into());
    config.openai_include_usage = false;
    config.openai_token_param = TokenParamKind::MaxCompletionTokens;
    config.openai_extra_body =
        vec![JsonField { name: "seed".into(), value: Json::Number("1".into()) }];
    let backend = OpenAiCompatibleBackend::from_config(&config);
    assert_eq!(backend.name(), "openai-compatible");
    assert_eq!(
        String::from_utf8(backend.body(&request())).unwrap(),
        r#"{"max_completion_tokens":7,"messages":[],"model":"m","seed":1,"stream":true}"#
    );
    let plain = OpenAiCompatibleBackend::deepseek_defaults()
        .with_tool_choice(Json::Text("auto".into()))
        .with_extra_body(vec![]);
    assert_eq!(
        String::from_utf8(plain.body(&request())).unwrap(),
        concat_text(&[
            r#"{"max_tokens":7,"messages":[],"model":"m","reasoning_effort":"max","#,
            r#""stream":true,"stream_options":{"include_usage":true}}"#,
        ])
    );
}

fn concat_text(parts: &[&str]) -> String {
    parts.join("")
}

#[test]
fn long_request_is_cut_for_display() {
    let body = vec![b'x'; 2050];
    let shown = body_preview(&body);
    assert_eq!(shown, format!("Request body (2KB): {}...", "x".repeat(200)));
    assert_eq!(body_preview(&vec![b'y', 0xff]), "Request body (0KB): y\u{fffd}...");
    assert_eq!(authorization("secret-key"), "Bearer secret-key");
}

#[test]
fn line_is_read_without_its_space() {
    assert_eq!(line_of_text("  data: x \r\n").as_deref(), Some("data: x\n"));
    assert_eq!(line_of_text(" \r\n"), None);
    assert_eq!(preview_of_text(1024, "short"), "Request body (1KB): short...");
}
